use schnapsen_duo::events::{EventType, PrivateEvent, PublicEvent, TimedEvent};
use schnapsen_duo::journal::EventLogger;
use schnapsen_duo::models::CreateMatch;
use schnapsen_duo::orchestrator::{
    build_match_created, build_timeout_result, resolve_write_token, to_bummerl_points,
    MatchDirective, MatchManagerState,
};

type Ev = EventType<PrivateEvent, PublicEvent>;

fn timed(event: Ev, timestamp: u64) -> TimedEvent<Ev> {
    TimedEvent { event, timestamp }
}

fn deck_count(n: usize, ts: u64) -> TimedEvent<Ev> {
    timed(EventType::Public(PublicEvent::DeckCardCount(n)), ts)
}

#[test]
fn events_since_is_a_suffix_of_all() {
    let mut log: EventLogger<Ev> = EventLogger::new();
    log.log(deck_count(9, 10), None);
    log.log(deck_count(8, 20), None);
    log.log(
        timed(EventType::Private(PrivateEvent::AllowPlayCard), 15),
        Some("a".to_string()),
    );
    log.log(deck_count(7, 30), None);
    let all = log.all();
    assert_eq!(all.len(), 4);
    // Sorted by timestamp despite out-of-order insertion.
    assert_eq!(all[0].timestamp, 10);
    assert_eq!(all[1].timestamp, 15);
    assert_eq!(all[2].timestamp, 20);
    assert_eq!(all[3].timestamp, 30);
    // A public viewer sees only public events, from the cut on.
    let since = log.events_since(15, None);
    assert_eq!(since.len(), 2);
    assert_eq!(since[0].timestamp, 20);
    assert_eq!(since[1].timestamp, 30);
    // The addressee sees their private event too, and the suffix
    // since zero pastes back to the whole visible log.
    let viewer = "a".to_string();
    let whole = log.events_since(0, Some(&viewer));
    assert_eq!(whole.len(), 4);
    let tail = log.events_since(16, Some(&viewer));
    assert_eq!(whole[whole.len() - tail.len()..].to_vec(), tail);
}

#[test]
fn join_timeout_nobody_connected_closes_match() {
    let mut state = MatchManagerState::new(false, 2);
    let directives = state.on_timeout_fired(0);
    assert_eq!(
        directives,
        vec![
            MatchDirective::EmitTimeout(0),
            MatchDirective::ExitAllDisconnected
        ]
    );
}

#[test]
fn move_timeout_with_one_connected_ends_with_result() {
    let mut state = MatchManagerState::new(false, 2);
    assert_eq!(state.handle_auth(0), vec![]);
    assert_eq!(state.handle_auth(1), vec![MatchDirective::StartMatch(0)]);
    assert!(state.started);
    // Player 1 drops every session and their window runs out.
    assert_eq!(
        state.on_disconnect(1),
        vec![MatchDirective::AwaitReconnect(1)]
    );
    let directives = state.on_timeout_fired(1);
    assert_eq!(
        directives,
        vec![
            MatchDirective::EmitTimeout(1),
            MatchDirective::ExitWithResult
        ]
    );
}

#[test]
fn exit_fires_callbacks_exactly_once() {
    let mut state = MatchManagerState::new(true, 2);
    assert!(state.exit());
    assert!(!state.exit());
    assert!(!state.exit());
}

#[test]
fn reconnect_within_window_keeps_match_running() {
    let mut state = MatchManagerState::new(false, 2);
    state.handle_auth(0);
    state.handle_auth(1);
    assert_eq!(
        state.on_disconnect(1),
        vec![MatchDirective::AwaitReconnect(1)]
    );
    // The reconnecting session replays the journal; no timeout fires.
    assert_eq!(state.handle_auth(1), vec![MatchDirective::ReplayLog(1)]);
    assert_eq!(state.on_allow_play_card(0), vec![
        MatchDirective::ThreatenTimeout(0, 30)
    ]);
    assert_eq!(state.on_play_card_seen(0, 0), vec![
        MatchDirective::CancelTimeoutThreat(0)
    ]);
    assert_eq!(state.on_play_card_seen(0, 1), vec![]);
}

#[test]
fn bummerl_round_break_schedules_next_round() {
    let state = MatchManagerState::new(true, 2);
    assert_eq!(
        state.on_round_result(0),
        vec![
            MatchDirective::BroadcastReset,
            MatchDirective::ScheduleNextRound(0)
        ]
    );
    assert_eq!(state.on_final_result(), vec![MatchDirective::ExitWithResult]);
    let duo = MatchManagerState::new(false, 2);
    assert_eq!(duo.on_round_result(0), vec![MatchDirective::ExitWithResult]);
}

#[test]
fn bummerl_points_follow_the_scale() {
    assert_eq!(to_bummerl_points(0), 1);
    assert_eq!(to_bummerl_points(32), 1);
    assert_eq!(to_bummerl_points(33), 2);
    assert_eq!(to_bummerl_points(65), 2);
    assert_eq!(to_bummerl_points(66), 3);
}

#[test]
fn write_tokens_resolve_to_their_players() {
    let request = CreateMatch {
        game: "Schnapsen".to_string(),
        players: vec!["a".to_string(), "b".to_string()],
        ai_players: vec![],
        mode: "duo".to_string(),
        ai: false,
    };
    let meta = build_match_created(
        &request,
        "7".to_string(),
        "pub".to_string(),
        "priv".to_string(),
        "eu".to_string(),
    );
    // Each player's write token is their own id.
    assert_eq!(meta.player_write, vec![
        ("a".to_string(), "a".to_string()),
        ("b".to_string(), "b".to_string())
    ]);
    assert_eq!(resolve_write_token(&meta.player_write, "b"), Some(1));
    assert_eq!(resolve_write_token(&meta.player_write, "a"), Some(0));
    assert_eq!(resolve_write_token(&meta.player_write, "nobody"), None);
}

#[test]
fn timeout_sheet_ranks_connected_player_as_winner_with_zero() {
    let mut state = MatchManagerState::new(false, 2);
    state.handle_auth(0);
    state.handle_auth(1);
    state.on_disconnect(1);
    state.on_timeout_fired(1);
    let ids = ["a".to_string(), "b".to_string()];
    let sheet = build_timeout_result(&state, &ids, "7".to_string(), vec![]);
    assert_eq!(sheet.winners, vec![("a".to_string(), 0)]);
    assert_eq!(sheet.losers, vec![("b".to_string(), 0)]);
    assert_eq!(sheet.match_id, "7");
}

#[test]
fn move_timeout_with_both_connected_ends_with_result() {
    // Both players stay connected; one idles past the deadline. The
    // idle player no longer counts, so the match ends with a result.
    let mut state = MatchManagerState::new(false, 2);
    state.handle_auth(0);
    state.handle_auth(1);
    let directives = state.on_timeout_fired(1);
    assert_eq!(
        directives,
        vec![
            MatchDirective::EmitTimeout(1),
            MatchDirective::ExitWithResult
        ]
    );
    // The sheet ranks the idle player a loser with zero even though
    // they are still connected.
    let ids = ["a".to_string(), "b".to_string()];
    let sheet = build_timeout_result(&state, &ids, "7".to_string(), vec![]);
    assert_eq!(sheet.winners, vec![("a".to_string(), 0)]);
    assert_eq!(sheet.losers, vec![("b".to_string(), 0)]);
}

#[test]
fn creation_opens_a_join_window_per_player() {
    let state = MatchManagerState::new(false, 2);
    assert_eq!(
        state.initial_join_directives(),
        vec![
            MatchDirective::AwaitReconnect(0),
            MatchDirective::AwaitReconnect(1)
        ]
    );
}
