use valorant_music_controller::actuator::VolumeProfile;
use valorant_music_controller::state::GameState;
use valorant_music_controller::watcher::{split_lines, WatcherEngine};

fn default_profile() -> VolumeProfile {
    VolumeProfile::new(100, 50, 0)
}

#[test]
fn split_lines_handles_lf_and_crlf() {
    assert_eq!(split_lines("a\nb\r\nc"), vec!["a", "b", "c"]);
}

#[test]
fn split_lines_of_empty_chunk_is_empty() {
    assert_eq!(split_lines(""), Vec::<&str>::new());
}

#[test]
fn split_lines_keeps_empty_lines() {
    assert_eq!(split_lines("\n\n"), vec!["", ""]);
}

#[test]
fn split_lines_yields_unterminated_tail() {
    assert_eq!(split_lines("done\npartial"), vec!["done", "partial"]);
}

#[test]
fn split_lines_strips_only_one_trailing_cr() {
    assert_eq!(split_lines("a\r\r\n"), vec!["a\r"]);
}

#[test]
fn engine_starts_at_end_of_file_and_not_in_game() {
    let (engine, baseline) = WatcherEngine::start(default_profile(), 4096);
    assert_eq!(engine.cursor_position(), 4096);
    assert_eq!(engine.current_state(), GameState::NotInGame);
    // The baseline actuation holds the not-in-game level and toggles nothing.
    assert_eq!(baseline.steps, vec![1000; 10]);
    assert!(!baseline.toggle_before);
    assert!(!baseline.toggle_after);
}

#[test]
fn poll_with_unchanged_length_reads_nothing() {
    let (mut engine, _) = WatcherEngine::start(default_profile(), 100);
    assert_eq!(engine.on_poll(100), None);
    assert_eq!(engine.cursor_position(), 100);
}

#[test]
fn poll_with_growth_reads_from_old_cursor() {
    let (mut engine, _) = WatcherEngine::start(default_profile(), 100);
    assert_eq!(engine.on_poll(250), Some(100));
    assert_eq!(engine.cursor_position(), 250);
    // The next unchanged poll is quiet again.
    assert_eq!(engine.on_poll(250), None);
}

#[test]
fn poll_with_shrunk_file_resets_cursor() {
    // A truncated file counts as a change: the caller reads from the old
    // cursor (finding nothing past the end) and the cursor snaps to the new
    // length, so tailing resumes cleanly from there.
    let (mut engine, _) = WatcherEngine::start(default_profile(), 100);
    assert_eq!(engine.on_poll(40), Some(100));
    assert_eq!(engine.cursor_position(), 40);
}

#[test]
fn unclassified_line_commits_nothing() {
    let (mut engine, _) = WatcherEngine::start(default_profile(), 0);
    assert!(engine.on_line("[t][1]LogShooterGameState: nothing of note").is_none());
    assert_eq!(engine.current_state(), GameState::NotInGame);
}

#[test]
fn classified_line_commits_state_and_returns_actuation() {
    let (mut engine, _) = WatcherEngine::start(default_profile(), 0);
    let p = engine
        .on_line("[t][1]LogGameFlowStateManager: Reconcile called with state: TransitionToInGame and new state: InGame. Changing state.")
        .expect("the match-start line must actuate");
    assert_eq!(engine.current_state(), GameState::InGamePreparing);
    // 100% down to 50%, no silence boundary crossed.
    assert_eq!(p.steps[9], 500);
    assert!(!p.toggle_before);
    assert!(!p.toggle_after);
}

#[test]
fn repeated_state_does_not_actuate_twice() {
    let (mut engine, _) = WatcherEngine::start(default_profile(), 0);
    let line = "[t][1]LogShooterGameState: Warning: AShooterGameState::OnRoundEnded for round '2'";
    assert!(engine.on_line(line).is_some());
    assert!(engine.on_line(line).is_none());
    assert_eq!(engine.current_state(), GameState::InGamePreparing);
}

#[test]
fn full_match_scenario_actuates_in_order_with_one_final_toggle() {
    // Profile [100, 50, 0]; lines classified NotInGame -> InGamePreparing ->
    // InGamePlaying -> NotInGame. Together with the baseline at start, the
    // actuator runs for (NotInGame, NotInGame), (NotInGame, InGamePreparing),
    // (InGamePreparing, InGamePlaying), (InGamePlaying, NotInGame) in that
    // order, and the final call carries exactly one play/pause toggle.
    let (mut engine, baseline) = WatcherEngine::start(default_profile(), 0);
    assert_eq!(baseline.steps, vec![1000; 10]);

    let chunk = "[t][1]LogGameFlowStateManager: Reconcile called with state: TransitionToInGame and new state: InGame. Changing state.\n\
[t][2]LogShooterGameState: Warning: Gameplay started at local time 30.218750 (server time 30.292187)\n\
[t][3]LogShooterGameState: Match Ended: Completion State: ''. Winning Team: 'Blue' ()\n";
    let plans = engine.on_chunk(chunk);
    assert_eq!(plans.len(), 3);
    assert_eq!(engine.current_state(), GameState::NotInGame);

    // (NotInGame, InGamePreparing): 100% -> 50%, no toggle.
    assert_eq!(plans[0].steps, vec![950, 900, 850, 800, 750, 700, 650, 600, 550, 500]);
    assert!(!plans[0].toggle_before && !plans[0].toggle_after);

    // (InGamePreparing, InGamePlaying): 50% -> 0%, pause after the ramp.
    assert_eq!(plans[1].steps, vec![450, 400, 350, 300, 250, 200, 150, 100, 50, 0]);
    assert!(!plans[1].toggle_before && plans[1].toggle_after);

    // (InGamePlaying, NotInGame): 0% -> 100%, resume before the ramp —
    // exactly one toggle on the final call.
    assert_eq!(plans[2].steps, vec![100, 200, 300, 400, 500, 600, 700, 800, 900, 1000]);
    assert!(plans[2].toggle_before && !plans[2].toggle_after);
    let toggles = (plans[2].toggle_before as u8) + (plans[2].toggle_after as u8);
    assert_eq!(toggles, 1);
}

#[test]
fn chunk_with_zero_time_line_changes_nothing() {
    let (mut engine, _) = WatcherEngine::start(default_profile(), 0);
    let chunk = "[2024.08.31-18.39.35:655][913]LogShooterGameState: Warning: Gameplay started at local time 0.000000 (server time 0.000000)\n";
    let plans = engine.on_chunk(chunk);
    assert!(plans.is_empty());
    assert_eq!(engine.current_state(), GameState::NotInGame);
}
