//! The volume actuator: turns a state transition into a smooth volume ramp
//! and the play/pause toggles that fire at silence boundaries.
//!
//! The library computes the whole actuation as a plain value — an
//! [`ActuationPlan`] — and the surrounding process performs it against the
//! audio endpoint, one step per 100 ms. Volumes are integer percentages
//! (0–100) in a profile; ramp steps are in per-mille (0–1000) so that the
//! linear interpolation `previous + (target - previous) * i / 10` is exact.

use vstd::prelude::*;
use crate::state::GameState;

verus! {

/// One volume level per game state, as integer percentages, supplied by the
/// caller at engine start and immutable for the duration of one run.
#[derive(Clone, Copy, PartialEq, Eq, Structural, Debug)]
pub struct VolumeProfile {
    /// Volume while no match runs, in percent.
    pub not_in_game: u8,
    /// Volume during the buy phase, in percent.
    pub preparing: u8,
    /// Volume while a round is played, in percent.
    pub playing: u8,
}

impl VolumeProfile {
    /// All levels are percentages.
    pub open spec fn wf(self) -> bool {
        self.not_in_game <= 100 && self.preparing <= 100 && self.playing <= 100
    }

    /// The level the profile assigns to a state, in percent.
    pub open spec fn spec_level(self, s: GameState) -> int {
        match s {
            GameState::NotInGame => self.not_in_game as int,
            GameState::InGamePreparing => self.preparing as int,
            GameState::InGamePlaying => self.playing as int,
        }
    }

    /// Builds a profile from the three levels, ordered by state ordinal.
    pub fn new(not_in_game: u8, preparing: u8, playing: u8) -> (p: VolumeProfile)
        requires
            not_in_game <= 100,
            preparing <= 100,
            playing <= 100,
        ensures
            p.wf(),
            p.not_in_game == not_in_game,
            p.preparing == preparing,
            p.playing == playing,
    {
        VolumeProfile { not_in_game, preparing, playing }
    }

    /// Reads the level assigned to a state, in percent.
    pub fn level(&self, s: GameState) -> (v: u8)
        ensures
            v == self.spec_level(s),
    {
        match s {
            GameState::NotInGame => self.not_in_game,
            GameState::InGamePreparing => self.preparing,
            GameState::InGamePlaying => self.playing,
        }
    }
}

/// The volume of ramp step `i` (1-based), in per-mille, for a ramp from
/// `prev` to `target` percent: exactly `prev/100 + (target/100 - prev/100) *
/// i / 10`, scaled by 1000.
pub open spec fn ramp_step(prev: int, target: int, i: int) -> int {
    10 * prev + (target - prev) * i
}

/// A play/pause toggle fires before the ramp exactly when the volume leaves
/// silence: media is resumed on the way up.
pub open spec fn spec_toggle_before(prev: int, target: int) -> bool {
    prev == 0 && target > 0
}

/// A play/pause toggle fires after the ramp exactly when the volume reaches
/// silence: media is paused on the way down.
pub open spec fn spec_toggle_after(prev: int, target: int) -> bool {
    target == 0 && prev > 0
}

/// Everything one state transition asks of the audio endpoint, in order: an
/// optional play/pause toggle, ten volume steps (per-mille, 100 ms apart),
/// and an optional closing play/pause toggle.
pub struct ActuationPlan {
    /// Toggle play/pause before ramping (silence is being left).
    pub toggle_before: bool,
    /// The ten ramp volumes, in per-mille, earliest first.
    pub steps: Vec<u16>,
    /// Toggle play/pause after the ramp (silence has been reached).
    pub toggle_after: bool,
}

impl ActuationPlan {
    /// The plan is the exact linear ramp from `prev` to `target` percent with
    /// toggles only at silence boundaries.
    pub open spec fn is_ramp(self, prev: int, target: int) -> bool {
        &&& self.toggle_before == spec_toggle_before(prev, target)
        &&& self.toggle_after == spec_toggle_after(prev, target)
        &&& self.steps@.len() == 10
        &&& forall|i: int| 0 <= i < 10 ==> #[trigger] self.steps@[i] == ramp_step(prev, target, i + 1)
    }
}

/// Computes the actuation plan for one transition: resolve the previous and
/// target volumes from the profile, resume media when leaving silence, ramp
/// linearly over ten steps, pause media when silence is reached.
pub fn plan(prev: GameState, next: GameState, profile: &VolumeProfile) -> (r: ActuationPlan)
    requires
        profile.wf(),
    ensures
        r.is_ramp(profile.spec_level(prev), profile.spec_level(next)),
{
    let prev_level = profile.level(prev);
    let target_level = profile.level(next);
    let toggle_before = prev_level == 0 && target_level > 0;
    let toggle_after = target_level == 0 && prev_level > 0;
    let base: i32 = 10 * (prev_level as i32);
    let delta: i32 = (target_level as i32) - (prev_level as i32);
    let mut steps: Vec<u16> = Vec::new();
    let mut i: usize = 1;
    while i <= 10
        invariant
            1 <= i <= 11,
            0 <= profile.spec_level(prev) <= 100,
            0 <= profile.spec_level(next) <= 100,
            base == 10 * profile.spec_level(prev),
            delta == profile.spec_level(next) - profile.spec_level(prev),
            -100 <= delta <= 100,
            0 <= base <= 1000,
            steps@.len() == i - 1,
            forall|k: int|
                0 <= k < i - 1 ==> #[trigger] steps@[k] == ramp_step(
                    profile.spec_level(prev),
                    profile.spec_level(next),
                    k + 1,
                ),
        decreases 11 - i,
    {
        proof {
            assert(-1000 <= delta * i <= 1000 && 0 <= base + delta * i <= 1000)
                by (nonlinear_arith)
                requires
                    -100 <= delta <= 100,
                    0 <= base <= 1000,
                    1 <= i <= 10,
                    base + 10 * delta >= 0,
                    base + 10 * delta <= 1000,
            ;
        }
        let value: i32 = base + delta * (i as i32);
        steps.push(value as u16);
        i = i + 1;
    }
    ActuationPlan { toggle_before, steps, toggle_after }
}

/// At most one play/pause toggle per transition, never two: leaving silence
/// and reaching silence cannot both happen in one ramp.
pub proof fn lemma_at_most_one_toggle(prev: int, target: int)
    ensures
        !(spec_toggle_before(prev, target) && spec_toggle_after(prev, target)),
{
}

/// On a transition that does not cross a silence boundary, no toggle fires at
/// all.
pub proof fn lemma_no_toggle_off_boundary(prev: int, target: int)
    requires
        !(prev == 0 && target > 0),
        !(target == 0 && prev > 0),
    ensures
        !spec_toggle_before(prev, target),
        !spec_toggle_after(prev, target),
{
}

/// Ramp monotonicity: on a falling ramp the ten volumes strictly decrease,
/// and the tenth equals the target level exactly.
pub proof fn lemma_falling_ramp_strictly_decreases(prev: int, target: int)
    requires
        target < prev,
    ensures
        forall|i: int, j: int|
            1 <= i < j <= 10 ==> ramp_step(prev, target, i) > ramp_step(prev, target, j),
        ramp_step(prev, target, 10) == 10 * target,
{
    assert forall|i: int, j: int| 1 <= i < j <= 10 implies ramp_step(prev, target, i) > ramp_step(
        prev,
        target,
        j,
    ) by {
        assert((target - prev) * i > (target - prev) * j) by (nonlinear_arith)
            requires
                target < prev,
                i < j,
        ;
    }
}

/// The mirror of the falling case: on a rising ramp the ten volumes strictly
/// increase, and the tenth equals the target level exactly.
pub proof fn lemma_rising_ramp_strictly_increases(prev: int, target: int)
    requires
        prev < target,
    ensures
        forall|i: int, j: int|
            1 <= i < j <= 10 ==> ramp_step(prev, target, i) < ramp_step(prev, target, j),
        ramp_step(prev, target, 10) == 10 * target,
{
    assert forall|i: int, j: int| 1 <= i < j <= 10 implies ramp_step(prev, target, i) < ramp_step(
        prev,
        target,
        j,
    ) by {
        assert((target - prev) * i < (target - prev) * j) by (nonlinear_arith)
            requires
                prev < target,
                i < j,
        ;
    }
}

} // verus!
