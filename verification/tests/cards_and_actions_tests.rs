use schnapsen_duo::cards::{
    contains_card_comb, has_announcable, Announcement, AnnounceType, Card, CardSuit, CardVal,
};
use schnapsen_duo::event_chain::Event;
use schnapsen_duo::events::{EventType, PrivateEvent, PublicEvent};
use schnapsen_duo::games::{SchnapsenBuilder, SchnapsenMode, SchnapsenType};
use schnapsen_duo::player::Player;
use schnapsen_duo::translator::{SchnapsenDuoActions, SchnapsenDuoEmptyActions};

fn card(value: CardVal, suit: CardSuit) -> Card {
    Card { value, suit }
}

#[test]
fn card_values_and_wire_codes() {
    assert_eq!(card(CardVal::Ace, CardSuit::Hearts).points(), 11);
    assert_eq!(card(CardVal::Ten, CardSuit::Clubs).points(), 10);
    assert_eq!(card(CardVal::Jack, CardSuit::Spades).points(), 2);
    assert_eq!(CardVal::from_u8(4), CardVal::King);
    assert_eq!(CardVal::from_u8(99), CardVal::Ace);
    assert_eq!(CardSuit::from_u8(3), CardSuit::Spades);
    assert_eq!(CardSuit::from_u8(77), CardSuit::Hearts);
    assert_eq!(CardSuit::Diamonds.to_u8(), 1);
}

#[test]
fn pair_membership_ignores_order() {
    let k = card(CardVal::King, CardSuit::Hearts);
    let q = card(CardVal::Queen, CardSuit::Hearts);
    let data = vec![[q, k]];
    assert!(contains_card_comb(&data, [k, q]));
    assert!(contains_card_comb(&data, [q, k]));
    let other = card(CardVal::King, CardSuit::Clubs);
    assert!(!contains_card_comb(&data, [other, q]));
}

#[test]
fn announcable_matching_by_kind_and_suit() {
    let k = card(CardVal::King, CardSuit::Clubs);
    let q = card(CardVal::Queen, CardSuit::Clubs);
    let twenty = Announcement { cards: [k, q], announce_type: AnnounceType::Twenty };
    let forty = Announcement { cards: [k, q], announce_type: AnnounceType::Forty };
    let data = vec![twenty];
    assert!(has_announcable(&data, &twenty));
    assert!(!has_announcable(&data, &forty));
    assert_eq!(AnnounceType::Forty.points(), 40);
    assert_eq!(AnnounceType::Twenty.points(), 20);
}

#[test]
fn player_round_state_reset() {
    let mut p = Player::new("someone".to_string());
    p.cards.push(card(CardVal::Ace, CardSuit::Hearts));
    p.points = 5;
    let k = card(CardVal::King, CardSuit::Hearts);
    let q = card(CardVal::Queen, CardSuit::Hearts);
    p.announcements.push(Announcement { cards: [k, q], announce_type: AnnounceType::Twenty });
    assert!(p.has_announced([q, k]));
    assert!(!p.has_announced([
        card(CardVal::King, CardSuit::Clubs),
        card(CardVal::Queen, CardSuit::Clubs)
    ]));
    p.reset();
    assert!(p.cards.is_empty());
    assert!(p.announcements.is_empty());
    assert_eq!(p.points, 5);
    assert_eq!(p.id, "someone");
}

#[test]
fn action_codes_and_names() {
    let c = card(CardVal::Ten, CardSuit::Hearts);
    assert_eq!(SchnapsenDuoActions::PlayCard(c).into_int(), 0);
    assert_eq!(SchnapsenDuoActions::Announce40.into_int(), 40);
    assert_eq!(SchnapsenDuoActions::CuttDeck(3).into_int(), 6);
    assert_eq!(SchnapsenDuoEmptyActions::SwapTrump.event_name(), "swap_trump");
    assert_eq!(SchnapsenDuoEmptyActions::CuttDeck.event_name(), "cutt_deck");
    assert_eq!(
        SchnapsenDuoEmptyActions::from_event_name("draw_card"),
        Some(SchnapsenDuoEmptyActions::DrawCard)
    );
    assert_eq!(SchnapsenDuoEmptyActions::from_event_name("unknown"), None);
    assert_eq!(
        SchnapsenDuoActions::TakeCards(2).kind(),
        SchnapsenDuoEmptyActions::TakeCards
    );
}

#[test]
fn builder_picks_mode_from_players() {
    let b = SchnapsenBuilder::new();
    assert_eq!(b.mode, SchnapsenMode::TwoPlayer);
    assert_eq!(SchnapsenMode::FourPlayer.get_player_count(), 4);
    let b = b.players(vec!["a".to_string(), "b".to_string()]);
    assert_eq!(b.mode, SchnapsenMode::TwoPlayer);
    let game = b.build();
    assert!(matches!(game, SchnapsenType::TwoPlayer(_)));
    assert!(game.into_schnapsen("a"));
    assert!(!game.into_schnapsen("c"));

    let four = SchnapsenBuilder::new().players(vec![
        "a".to_string(),
        "b".to_string(),
        "c".to_string(),
        "d".to_string(),
    ]);
    assert_eq!(four.mode, SchnapsenMode::FourPlayer);
    assert!(four.build().into_schnapsen("d"));
}

#[test]
fn event_record_keeps_its_value() {
    let e = Event::new(EventType::<PrivateEvent, PublicEvent>::Public(
        PublicEvent::FinishedDistribution,
    ));
    assert_eq!(e.value, EventType::Public(PublicEvent::FinishedDistribution));
}
