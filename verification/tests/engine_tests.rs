use schnapsen_duo::cards::{has_no_repeating_elements, Card, CardSuit, CardVal};
use schnapsen_duo::engine::{EngineEvent, SchnapsenDuo};
use schnapsen_duo::errors::PlayerError;
use schnapsen_duo::events::{PrivateEvent, PublicEvent};

fn fresh() -> SchnapsenDuo {
    SchnapsenDuo::new(&["1".to_string(), "2".to_string()])
}

#[test]
fn test_create_instance() {
    let mut instance = fresh();
    assert!(has_no_repeating_elements(&instance.deck));
    assert_eq!(instance.deck.len(), 20);
    assert_eq!(instance.players.len(), 2);

    instance.set_active_player(0).unwrap();
    instance.distribute_cards().unwrap();

    let player1 = &instance.players[0];
    let player2 = &instance.players[1];

    assert_eq!(player1.cards.len(), 5);
    assert!(has_no_repeating_elements(&player1.cards));
    assert_eq!(player2.cards.len(), 5);
    assert!(has_no_repeating_elements(&player2.cards));
    assert!(instance.closed_talon.is_none());
}

#[test]
fn test_play_card_allowed() {}

#[test]
fn distribution_event_order() {
    let mut instance = fresh();
    instance.set_active_player(0).unwrap();
    instance.take_events();
    instance.distribute_cards().unwrap();
    let events = instance.take_events();
    // The public skeleton of the distribution: 3 receipts each, the
    // trump reveal, 2 receipts each, then the allowances to player 0.
    let skeleton: Vec<&EngineEvent> = events
        .iter()
        .filter(|e| {
            matches!(
                e,
                EngineEvent::Public(PublicEvent::ReceiveCard { .. })
                    | EngineEvent::Public(PublicEvent::TrumpChange(_))
                    | EngineEvent::Private(_, PrivateEvent::AllowPlayCard)
                    | EngineEvent::Private(_, PrivateEvent::AllowCloseTalon)
            )
        })
        .collect();
    assert_eq!(skeleton.len(), 13);
    let receive_to = |e: &EngineEvent| match e {
        EngineEvent::Public(PublicEvent::ReceiveCard { user_id }) => user_id.clone(),
        _ => panic!("expected a receipt"),
    };
    for e in &skeleton[0..3] {
        assert_eq!(receive_to(e), "1");
    }
    for e in &skeleton[3..6] {
        assert_eq!(receive_to(e), "2");
    }
    assert!(matches!(
        skeleton[6],
        EngineEvent::Public(PublicEvent::TrumpChange(Some(_)))
    ));
    for e in &skeleton[7..9] {
        assert_eq!(receive_to(e), "1");
    }
    for e in &skeleton[9..11] {
        assert_eq!(receive_to(e), "2");
    }
    assert_eq!(
        *skeleton[11],
        EngineEvent::Private(0, PrivateEvent::AllowPlayCard)
    );
    assert_eq!(
        *skeleton[12],
        EngineEvent::Private(0, PrivateEvent::AllowCloseTalon)
    );
    // The talon has nine cards and the trump is revealed.
    assert_eq!(instance.deck.len(), 9);
    assert!(instance.trump.is_some());
}

#[test]
fn playable_cards_decide_play() {
    let mut instance = fresh();
    instance.set_active_player(0).unwrap();
    instance.distribute_cards().unwrap();
    let playable = instance.players[0].playable_cards.clone();
    assert_eq!(playable.len(), 5);
    // A card outside the playable set is refused with CantPlayCard.
    let not_in_hand = (0..4)
        .flat_map(|s| {
            [
                CardVal::Ten,
                CardVal::Jack,
                CardVal::Queen,
                CardVal::King,
                CardVal::Ace,
            ]
            .into_iter()
            .map(move |v| Card {
                value: v,
                suit: match s {
                    0 => CardSuit::Hearts,
                    1 => CardSuit::Diamonds,
                    2 => CardSuit::Clubs,
                    _ => CardSuit::Spades,
                },
            })
        })
        .find(|c| !instance.players[0].cards.contains(c))
        .unwrap();
    assert_eq!(
        instance.play_card(0, not_in_hand),
        Err(PlayerError::CantPlayCard(not_in_hand))
    );
    // The non-active player is refused outright.
    let other_card = instance.players[1].cards[0];
    assert_eq!(
        instance.play_card(1, other_card),
        Err(PlayerError::PlayerNotActive)
    );
    // A playable card goes through.
    assert_eq!(instance.play_card(0, playable[0]), Ok(()));
    assert_eq!(instance.players[0].cards.len(), 4);
    assert_eq!(instance.stack.len(), 1);
}

#[test]
fn close_talon_and_closed_draw() {
    let mut instance = fresh();
    instance.set_active_player(0).unwrap();
    instance.distribute_cards().unwrap();
    assert_eq!(instance.close_talon(0), Ok(()));
    assert_eq!(instance.closed_talon, Some(0));
    // Closing twice is refused.
    assert_eq!(instance.close_talon(0), Err(PlayerError::TalonAlreadyClosed));
    // After a trick is taken, drawing stays refused: the talon is
    // sealed for the rest of the round.
    let lead = instance.players[0].playable_cards[0];
    instance.play_card(0, lead).unwrap();
    let resp = instance.players[1].playable_cards[0];
    instance.play_card(1, resp).unwrap();
    let winner = instance.get_active_player().unwrap();
    assert!(instance.players[winner].cards.len() < 5);
    assert_eq!(
        instance.draw_card_after_trick(winner),
        Err(PlayerError::TalonAlreadyClosed)
    );
}

#[test]
fn full_trick_draw_cycle() {
    let mut instance = fresh();
    instance.set_active_player(0).unwrap();
    instance.distribute_cards().unwrap();
    instance.take_events();
    // Play one trick out.
    let lead = instance.players[0].playable_cards[0];
    instance.play_card(0, lead).unwrap();
    let resp = instance.players[1].playable_cards[0];
    instance.play_card(1, resp).unwrap();
    let events = instance.take_events();
    assert!(events
        .iter()
        .any(|e| matches!(e, EngineEvent::Public(PublicEvent::Trick { .. }))));
    assert!(events
        .iter()
        .any(|e| matches!(e, EngineEvent::Public(PublicEvent::PlayCard { .. }))));
    // The stack is cleared and exactly one player took the pair.
    assert_eq!(instance.stack.len(), 0);
    let tricks = instance.players[0].tricks.len() + instance.players[1].tricks.len();
    assert_eq!(tricks, 1);
    // The winner is active and draws for both.
    let winner = instance.get_active_player().unwrap();
    let drawn = instance.draw_card_after_trick(winner).unwrap();
    assert!(instance.players[winner].cards.contains(&drawn));
    assert_eq!(instance.players[0].cards.len(), 5);
    assert_eq!(instance.players[1].cards.len(), 5);
    assert_eq!(instance.deck.len(), 7);
}

#[test]
fn conservation_through_commands() {
    let mut instance = fresh();
    let count = |i: &SchnapsenDuo| {
        i.players[0].cards.len()
            + i.players[1].cards.len()
            + i.deck.len()
            + i.stack.len()
            + if i.trump.is_some() { 1 } else { 0 }
            + 2 * i.players[0].tricks.len()
            + 2 * i.players[1].tricks.len()
    };
    assert_eq!(count(&instance), 20);
    instance.set_active_player(1).unwrap();
    assert_eq!(count(&instance), 20);
    instance.distribute_cards().unwrap();
    assert_eq!(count(&instance), 20);
    let lead = instance.players[1].playable_cards[0];
    instance.play_card(1, lead).unwrap();
    assert_eq!(count(&instance), 20);
    let resp = instance.players[0].playable_cards[0];
    instance.play_card(0, resp).unwrap();
    assert_eq!(count(&instance), 20);
}

#[test]
fn swap_trump_needs_jack() {
    let mut instance = fresh();
    instance.set_active_player(0).unwrap();
    instance.distribute_cards().unwrap();
    let ts = instance.trump.unwrap().suit;
    let jack = Card { value: CardVal::Jack, suit: ts };
    let held = instance.players[0].cards.contains(&jack);
    let old_trump = instance.trump.unwrap();
    let r = instance.swap_trump(0, jack);
    if held {
        assert_eq!(r, Ok(old_trump));
        assert_eq!(instance.trump, Some(jack));
        assert!(instance.players[0].cards.contains(&old_trump));
        assert!(!instance.players[0].cards.contains(&jack));
    } else {
        assert_eq!(r, Err(PlayerError::CantSwapTrump));
        assert_eq!(instance.trump, Some(old_trump));
    }
}

#[test]
fn cutt_deck_rotates() {
    let mut instance = fresh();
    instance.set_active_player(0).unwrap();
    let before = instance.deck.clone();
    // Only the non-active player may cut.
    assert_eq!(
        instance.cutt_deck(0, 5),
        Err(PlayerError::CantTakeCardRoundNotFinished)
    );
    instance.cutt_deck(1, 5).unwrap();
    let mut expected = before[5..].to_vec();
    expected.extend_from_slice(&before[..5]);
    assert_eq!(instance.deck, expected);
}
