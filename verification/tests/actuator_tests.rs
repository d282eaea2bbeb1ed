use valorant_music_controller::actuator::{plan, VolumeProfile};
use valorant_music_controller::state::GameState;

const ALL_STATES: [GameState; 3] = [
    GameState::NotInGame,
    GameState::InGamePreparing,
    GameState::InGamePlaying,
];

fn default_profile() -> VolumeProfile {
    VolumeProfile::new(100, 50, 0)
}

#[test]
fn falling_ramp_is_strictly_decreasing_and_ends_at_zero() {
    // From full volume (1.0) down to silence (0.0): the ten intermediate
    // volumes strictly decrease and the tenth is exactly 0.
    let profile = default_profile();
    let p = plan(GameState::NotInGame, GameState::InGamePlaying, &profile);
    assert_eq!(p.steps.len(), 10);
    for w in p.steps.windows(2) {
        assert!(w[0] > w[1]);
    }
    assert_eq!(p.steps[9], 0);
    assert_eq!(
        p.steps,
        vec![900, 800, 700, 600, 500, 400, 300, 200, 100, 0]
    );
}

#[test]
fn rising_ramp_is_strictly_increasing_and_ends_at_target() {
    let profile = default_profile();
    let p = plan(GameState::InGamePlaying, GameState::NotInGame, &profile);
    assert_eq!(p.steps.len(), 10);
    for w in p.steps.windows(2) {
        assert!(w[0] < w[1]);
    }
    assert_eq!(
        p.steps,
        vec![100, 200, 300, 400, 500, 600, 700, 800, 900, 1000]
    );
}

#[test]
fn flat_ramp_holds_the_level() {
    let profile = default_profile();
    let p = plan(GameState::NotInGame, GameState::NotInGame, &profile);
    assert_eq!(p.steps, vec![1000; 10]);
    assert!(!p.toggle_before);
    assert!(!p.toggle_after);
}

#[test]
fn pause_fires_after_ramp_when_silence_is_reached() {
    let profile = default_profile();
    let p = plan(GameState::InGamePreparing, GameState::InGamePlaying, &profile);
    assert!(!p.toggle_before);
    assert!(p.toggle_after);
}

#[test]
fn resume_fires_before_ramp_when_silence_is_left() {
    let profile = default_profile();
    let p = plan(GameState::InGamePlaying, GameState::NotInGame, &profile);
    assert!(p.toggle_before);
    assert!(!p.toggle_after);
}

#[test]
fn no_toggle_without_silence_boundary() {
    let profile = default_profile();
    let p = plan(GameState::NotInGame, GameState::InGamePreparing, &profile);
    assert!(!p.toggle_before);
    assert!(!p.toggle_after);
}

#[test]
fn toggle_count_is_zero_or_one_never_two() {
    let profile = default_profile();
    for from in ALL_STATES {
        for to in ALL_STATES {
            let p = plan(from, to, &profile);
            let toggles = (p.toggle_before as u8) + (p.toggle_after as u8);
            assert!(toggles <= 1);
        }
    }
}

#[test]
fn silent_to_silent_transition_does_not_toggle() {
    let profile = VolumeProfile::new(100, 0, 0);
    let p = plan(GameState::InGamePreparing, GameState::InGamePlaying, &profile);
    assert!(!p.toggle_before);
    assert!(!p.toggle_after);
    assert_eq!(p.steps, vec![0; 10]);
}

#[test]
fn ramp_interpolates_exactly() {
    // From 50% to 100%: step i holds 500 + 50 * i per-mille.
    let profile = default_profile();
    let p = plan(GameState::InGamePreparing, GameState::NotInGame, &profile);
    for (i, v) in p.steps.iter().enumerate() {
        assert_eq!(*v as usize, 500 + 50 * (i + 1));
    }
}

#[test]
fn profile_levels_follow_state_ordinals() {
    let profile = default_profile();
    assert_eq!(profile.level(GameState::NotInGame), 100);
    assert_eq!(profile.level(GameState::InGamePreparing), 50);
    assert_eq!(profile.level(GameState::InGamePlaying), 0);
}
