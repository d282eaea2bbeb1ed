use valorant_music_controller::classifier::classify;
use valorant_music_controller::state::GameState;

const ALL_STATES: [GameState; 3] = [
    GameState::NotInGame,
    GameState::InGamePreparing,
    GameState::InGamePlaying,
];

const MATCH_ENDED_LINE: &str = "[2024.08.31-17.27.38:105][866]LogShooterGameState: Match Ended: Completion State: ''. Winning Team: 'Blue' ()";
const ROUND_ENDED_LINE: &str = "[2024.08.31-17.25.31:152][599]LogShooterGameState: Warning: AShooterGameState::OnRoundEnded for round '22'";
const GAMEPLAY_STARTED_LINE: &str = "[2024.08.31-18.36.09:234][254]LogShooterGameState: Warning: Gameplay started at local time 30.218750 (server time 30.292187)";
const ZERO_TIME_LINE: &str = "[2024.08.31-18.39.35:655][913]LogShooterGameState: Warning: Gameplay started at local time 0.000000 (server time 0.000000)";
const MATCH_STARTED_LINE: &str = "[2024.08.31-18.33.07:287][277]LogGameFlowStateManager: Reconcile called with state: TransitionToInGame and new state: InGame. Changing state.";

#[test]
fn match_ended_line_yields_not_in_game_from_any_state() {
    for s in ALL_STATES {
        assert_eq!(classify(MATCH_ENDED_LINE, s), GameState::NotInGame);
    }
}

#[test]
fn round_ended_line_yields_preparing_from_any_state() {
    for s in ALL_STATES {
        assert_eq!(classify(ROUND_ENDED_LINE, s), GameState::InGamePreparing);
    }
}

#[test]
fn gameplay_started_line_yields_playing_from_any_state() {
    for s in ALL_STATES {
        assert_eq!(classify(GAMEPLAY_STARTED_LINE, s), GameState::InGamePlaying);
    }
}

#[test]
fn match_started_line_yields_preparing_from_any_state() {
    for s in ALL_STATES {
        assert_eq!(classify(MATCH_STARTED_LINE, s), GameState::InGamePreparing);
    }
}

#[test]
fn zero_time_gameplay_line_is_ignored() {
    for s in ALL_STATES {
        assert_eq!(classify(ZERO_TIME_LINE, s), s);
    }
}

#[test]
fn nonzero_whole_second_time_still_starts_play() {
    // Only the zero-time sentinel is ignored. A genuine gameplay-started
    // line whose time happens to be a whole number of seconds — its digits
    // end in 0.000000 — must still classify as playing.
    let line = "[d][1]LogShooterGameState: Warning: Gameplay started at local time 120.000000 (server time 119.500000)";
    for s in ALL_STATES {
        assert_eq!(classify(line, s), GameState::InGamePlaying);
    }
    let line = "[d][2]LogShooterGameState: Warning: Gameplay started at local time 10.000000 (server time 10.000000)";
    for s in ALL_STATES {
        assert_eq!(classify(line, s), GameState::InGamePlaying);
    }
}

#[test]
fn fractional_zero_time_is_not_the_sentinel() {
    // A local time of 0.500000 is nonzero: play starts.
    let line = "[d][3]LogShooterGameState: Warning: Gameplay started at local time 0.500000 (server time 0.500000)";
    for s in ALL_STATES {
        assert_eq!(classify(line, s), GameState::InGamePlaying);
    }
}

#[test]
fn empty_line_is_identity() {
    for s in ALL_STATES {
        assert_eq!(classify("", s), s);
    }
}

#[test]
fn line_without_envelope_is_identity() {
    for s in ALL_STATES {
        assert_eq!(classify("Match Ended", s), s);
        assert_eq!(classify("LogShooterGameState: Match Ended", s), s);
        assert_eq!(classify("some random text", s), s);
    }
}

#[test]
fn envelope_with_empty_fields_is_identity() {
    for s in ALL_STATES {
        // empty timestamp
        assert_eq!(classify("[][866]LogShooterGameState: Match Ended", s), s);
        // empty code
        assert_eq!(classify("[t][]LogShooterGameState: Match Ended", s), s);
        // empty source name
        assert_eq!(classify("[t][866]: Match Ended", s), s);
    }
}

#[test]
fn envelope_without_message_is_identity() {
    for s in ALL_STATES {
        assert_eq!(classify("[t][866]LogShooterGameState:", s), s);
    }
}

#[test]
fn envelope_with_whitespace_only_message_is_identity() {
    for s in ALL_STATES {
        assert_eq!(classify("[t][866]LogShooterGameState:    ", s), s);
    }
}

#[test]
fn unknown_source_name_is_identity() {
    for s in ALL_STATES {
        let line = "[2024.08.31-19.11.00:337][867]LogSkeletalMesh: Warning: Match Ended";
        assert_eq!(classify(line, s), s);
    }
}

#[test]
fn reconcile_marker_under_wrong_source_is_identity() {
    for s in ALL_STATES {
        let line = "[t][1]LogShooterGameState: Reconcile called with state: TransitionToInGame and new state: InGame. Changing state.";
        assert_eq!(classify(line, s), s);
    }
}

#[test]
fn match_ended_takes_priority_over_round_ended() {
    let line = "[t][1]LogShooterGameState: Match Ended after AShooterGameState::OnRoundEnded";
    for s in ALL_STATES {
        assert_eq!(classify(line, s), GameState::NotInGame);
    }
}

#[test]
fn minimal_match_ended_envelope_is_recognized() {
    assert_eq!(
        classify("[t][1]LogShooterGameState: Match Ended", GameState::InGamePlaying),
        GameState::NotInGame
    );
}

#[test]
fn message_may_follow_colon_without_space() {
    assert_eq!(
        classify("[t][1]LogShooterGameState:Match Ended", GameState::InGamePlaying),
        GameState::NotInGame
    );
}
