//! The simulator: a scripted exercise of the volume actuation path.
//!
//! A simulation needs no live game. It plays a fixed sequence of states —
//! buy phase, playing, buy phase, match ended — and for each consecutive
//! pair yields the same actuation plan a real transition would, so an
//! operator can verify the fade and the play/pause behaviour by ear. The
//! script always has exactly four steps, so a driver that performs them in
//! order and then signals completion signals exactly once and cannot block
//! forever on this crate's account.

use vstd::prelude::*;
use crate::actuator::{ActuationPlan, VolumeProfile, plan};
use crate::state::GameState;

verus! {

/// The scripted state sequence a simulation plays after its starting state.
pub open spec fn spec_script() -> Seq<GameState> {
    seq![
        GameState::InGamePreparing,
        GameState::InGamePlaying,
        GameState::InGamePreparing,
        GameState::NotInGame,
    ]
}

/// The states a simulation passes through, starting from `initial`:
/// `initial` followed by the script.
pub open spec fn spec_visited(initial: GameState) -> Seq<GameState> {
    seq![initial] + spec_script()
}

/// The scripted state sequence, as a vector.
pub fn simulation_script() -> (r: Vec<GameState>)
    ensures
        r@ == spec_script(),
{
    let mut script: Vec<GameState> = Vec::new();
    script.push(GameState::InGamePreparing);
    script.push(GameState::InGamePlaying);
    script.push(GameState::InGamePreparing);
    script.push(GameState::NotInGame);
    proof {
        assert(script@ =~= spec_script());
    }
    script
}

/// Computes the whole simulation from `initial`: exactly four steps, each a
/// `(from, to, actuation)` triple for one consecutive pair of visited
/// states. A driver performs the steps in order, pausing one second after
/// each, and then signals completion — once, always.
pub fn simulation_steps(initial: GameState, profile: &VolumeProfile) -> (r: Vec<
    (GameState, GameState, ActuationPlan),
>)
    requires
        profile.wf(),
    ensures
        r@.len() == 4,
        forall|i: int|
            0 <= i < 4 ==> {
                &&& (#[trigger] r@[i]).0 == spec_visited(initial)[i]
                &&& r@[i].1 == spec_visited(initial)[i + 1]
                &&& r@[i].2.is_ramp(
                    profile.spec_level(r@[i].0),
                    profile.spec_level(r@[i].1),
                )
            },
{
    let script = simulation_script();
    let mut steps: Vec<(GameState, GameState, ActuationPlan)> = Vec::new();
    let mut current = initial;
    let mut k: usize = 0;
    while k < script.len()
        invariant
            k <= 4,
            script@ == spec_script(),
            profile.wf(),
            current == spec_visited(initial)[k as int],
            steps@.len() == k,
            forall|i: int|
                0 <= i < k ==> {
                    &&& (#[trigger] steps@[i]).0 == spec_visited(initial)[i]
                    &&& steps@[i].1 == spec_visited(initial)[i + 1]
                    &&& steps@[i].2.is_ramp(
                        profile.spec_level(steps@[i].0),
                        profile.spec_level(steps@[i].1),
                    )
                },
        decreases script.len() - k,
    {
        let next = script[k];
        let p = plan(current, next, profile);
        steps.push((current, next, p));
        current = next;
        k = k + 1;
    }
    steps
}

} // verus!
