//! The log-tail watcher's decision core.
//!
//! The surrounding process owns the file handle and the clock: once per poll
//! interval it reports the file's length, and when the engine asks, it reads
//! the newly appended text and hands it back. The engine owns the cursor and
//! the state cell, splits a chunk into lines, classifies each, and for every
//! committed transition emits the actuation plan the endpoint driver must
//! perform. A failed actuation is the driver's to report; the engine's next
//! decisions do not depend on it, so the loop keeps tailing.

use vstd::prelude::*;
use vstd::string::StrSliceExecFns;
use crate::actuator::{ActuationPlan, VolumeProfile, plan};
use crate::classifier::{classify, find_from, spec_classify};
use crate::state::{GameState, StateStore};

verus! {

/// `t` with a single trailing carriage return removed, as a buffered reader
/// strips line terminators.
pub open spec fn strip_cr(t: Seq<char>) -> Seq<char> {
    if t.len() > 0 && t[t.len() - 1] == '\r' {
        t.drop_last()
    } else {
        t
    }
}

/// The lines of `s` from `from` on, as a buffered line reader yields them:
/// each terminated by `'\n'` (the terminator and a `'\r'` just before it are
/// stripped), plus a final unterminated segment as it stands.
pub open spec fn spec_lines_from(s: Seq<char>, from: int) -> Seq<Seq<char>>
    decreases s.len() - from,
    via spec_lines_from_decreases
{
    if from < 0 || from >= s.len() {
        Seq::empty()
    } else {
        let nl = find_from(s, from, '\n');
        if nl < 0 {
            seq![s.subrange(from, s.len() as int)]
        } else {
            seq![strip_cr(s.subrange(from, nl))] + spec_lines_from(s, nl + 1)
        }
    }
}

#[via_fn]
proof fn spec_lines_from_decreases(s: Seq<char>, from: int) {
    crate::classifier::lemma_find_from_bounds(s, from, '\n');
}

/// The lines of one chunk of appended text.
pub open spec fn spec_lines(s: Seq<char>) -> Seq<Seq<char>> {
    spec_lines_from(s, 0)
}

/// The state left after classifying each of `lines` in order, each against
/// the state the line before it left.
pub open spec fn classify_seq(lines: Seq<Seq<char>>, s0: GameState) -> GameState
    decreases lines.len(),
{
    if lines.len() == 0 {
        s0
    } else {
        classify_seq(lines.drop_first(), spec_classify(lines[0], s0))
    }
}

/// The transitions the watcher commits while classifying `lines` in order
/// from `s0`: one `(from, to)` pair for each line whose classification
/// differs from the state before it.
pub open spec fn spec_transitions(lines: Seq<Seq<char>>, s0: GameState) -> Seq<
    (GameState, GameState),
>
    decreases lines.len(),
{
    if lines.len() == 0 {
        Seq::empty()
    } else {
        let s1 = spec_classify(lines[0], s0);
        let rest = spec_transitions(lines.drop_first(), s1);
        if s1 != s0 {
            seq![(s0, s1)] + rest
        } else {
            rest
        }
    }
}

/// Splits one chunk of appended text into the lines a buffered reader would
/// yield, [`spec_lines`] exactly.
pub fn split_lines<'a>(chunk: &'a str) -> (r: Vec<&'a str>)
    ensures
        r@.map_values(|l: &str| l@) == spec_lines(chunk@),
{
    let len = chunk.unicode_len();
    let mut result: Vec<&'a str> = Vec::new();
    let mut start: usize = 0;
    while start < len
        invariant
            start <= len,
            len == chunk@.len(),
            spec_lines(chunk@) == result@.map_values(|l: &str| l@) + spec_lines_from(
                chunk@,
                start as int,
            ),
        decreases len - start,
    {
        let ghost prefix = result@.map_values(|l: &str| l@);
        let ghost old_start = start as int;
        match find_newline(chunk, len, start) {
            Some(nl) => {
                let mut line_end = nl;
                if nl > start && chunk.get_char(nl - 1) == '\r' {
                    line_end = nl - 1;
                }
                let line = chunk.substring_char(start, line_end);
                proof {
                    let t = chunk@.subrange(old_start, nl as int);
                    if nl > start && chunk@[nl as int - 1] == '\r' {
                        assert(t[t.len() - 1] == '\r');
                        assert(t.drop_last() =~= chunk@.subrange(old_start, nl as int - 1));
                    }
                    assert(line@ == strip_cr(t));
                    assert(spec_lines_from(chunk@, old_start) == seq![strip_cr(t)]
                        + spec_lines_from(chunk@, nl as int + 1));
                }
                result.push(line);
                start = nl + 1;
                proof {
                    assert(result@.map_values(|l: &str| l@) =~= prefix + seq![line@]);
                    assert((prefix + seq![line@]) + spec_lines_from(chunk@, nl as int + 1)
                        =~= prefix + spec_lines_from(chunk@, old_start));
                }
            },
            None => {
                let line = chunk.substring_char(start, len);
                proof {
                    assert(spec_lines_from(chunk@, old_start) == seq![
                        chunk@.subrange(old_start, chunk@.len() as int),
                    ]);
                }
                result.push(line);
                start = len;
                proof {
                    assert(result@.map_values(|l: &str| l@) =~= prefix + seq![line@]);
                    assert((prefix + seq![line@]) + spec_lines_from(chunk@, len as int)
                        =~= prefix + spec_lines_from(chunk@, old_start));
                }
            },
        }
    }
    proof {
        assert(result@.map_values(|l: &str| l@) + spec_lines_from(chunk@, len as int)
            =~= result@.map_values(|l: &str| l@));
    }
    result
}

/// Executable search for the next line break, mirroring [`find_from`].
fn find_newline(chunk: &str, len: usize, from: usize) -> (r: Option<usize>)
    requires
        len == chunk@.len(),
        from <= len,
    ensures
        match r {
            Some(i) => from <= i < len && find_from(chunk@, from as int, '\n') == i,
            None => find_from(chunk@, from as int, '\n') == -1,
        },
{
    let mut i: usize = from;
    while i < len
        invariant
            from <= i <= len,
            len == chunk@.len(),
            find_from(chunk@, from as int, '\n') == find_from(chunk@, i as int, '\n'),
        decreases len - i,
    {
        if chunk.get_char(i) == '\n' {
            return Some(i);
        }
        i = i + 1;
    }
    None
}

/// One run's log-tailing decision state: the byte cursor into the monitored
/// file, the shared state cell, and the immutable volume profile.
pub struct WatcherEngine {
    /// The single current-state cell of this run.
    pub store: StateStore,
    /// The volume levels for this run.
    pub profile: VolumeProfile,
    /// Byte offset up to which the file has been consumed; advances to the
    /// file's length on every observed change, so history is never replayed.
    pub cursor: u64,
}

impl WatcherEngine {
    /// The profile carried by the engine holds percentages.
    pub open spec fn wf(self) -> bool {
        self.profile.wf()
    }

    /// Starts a run: the cursor is set to the file's current length (history
    /// is not replayed), the state starts outside a match, and the returned
    /// baseline actuation establishes the initial volume.
    pub fn start(profile: VolumeProfile, initial_len: u64) -> (r: (WatcherEngine, ActuationPlan))
        requires
            profile.wf(),
        ensures
            r.0.wf(),
            r.0.profile == profile,
            r.0.cursor == initial_len,
            r.0.store.current == GameState::NotInGame,
            r.1.is_ramp(
                profile.spec_level(GameState::NotInGame),
                profile.spec_level(GameState::NotInGame),
            ),
    {
        let baseline = plan(GameState::NotInGame, GameState::NotInGame, &profile);
        let engine = WatcherEngine { store: StateStore::new(), profile, cursor: initial_len };
        (engine, baseline)
    }

    /// Decides one poll: an unchanged file length asks for nothing but the
    /// next sleep; a changed length moves the cursor to the new end and asks
    /// the caller to read from the old one.
    pub fn on_poll(&mut self, len: u64) -> (r: Option<u64>)
        ensures
            final(self).store == old(self).store,
            final(self).profile == old(self).profile,
            len == old(self).cursor ==> r is None && final(self).cursor == old(self).cursor,
            len != old(self).cursor ==> r == Some(old(self).cursor) && final(self).cursor == len,
    {
        if len != self.cursor {
            let from = self.cursor;
            self.cursor = len;
            Some(from)
        } else {
            None
        }
    }

    /// Classifies one line against the current state; when the state changes,
    /// commits the new state and returns the actuation for the transition.
    pub fn on_line(&mut self, line: &str) -> (r: Option<ActuationPlan>)
        requires
            old(self).wf(),
        ensures
            final(self).wf(),
            final(self).profile == old(self).profile,
            final(self).cursor == old(self).cursor,
            final(self).store.current == spec_classify(line@, old(self).store.current),
            ({
                let next = spec_classify(line@, old(self).store.current);
                if next == old(self).store.current {
                    r is None
                } else {
                    r is Some && r->0.is_ramp(
                        old(self).profile.spec_level(old(self).store.current),
                        old(self).profile.spec_level(next),
                    )
                }
            }),
    {
        let current = self.store.get();
        let next = classify(line, current);
        if next != current {
            self.store.set(next);
            Some(plan(current, next, &self.profile))
        } else {
            None
        }
    }

    /// Processes one chunk of newly appended text: splits it into lines,
    /// classifies each in order, commits every state change, and returns the
    /// actuations for exactly the committed transitions, in order.
    pub fn on_chunk(&mut self, chunk: &str) -> (r: Vec<ActuationPlan>)
        requires
            old(self).wf(),
        ensures
            final(self).wf(),
            final(self).profile == old(self).profile,
            final(self).cursor == old(self).cursor,
            final(self).store.current == classify_seq(
                spec_lines(chunk@),
                old(self).store.current,
            ),
            ({
                let transitions = spec_transitions(spec_lines(chunk@), old(self).store.current);
                &&& r@.len() == transitions.len()
                &&& forall|i: int|
                    0 <= i < transitions.len() ==> #[trigger] r@[i].is_ramp(
                        old(self).profile.spec_level(transitions[i].0),
                        old(self).profile.spec_level(transitions[i].1),
                    )
            }),
    {
        let ghost s0 = self.store.current;
        let ghost all_lines = spec_lines(chunk@);
        let lines = split_lines(chunk);
        let mut plans: Vec<ActuationPlan> = Vec::new();
        let ghost mut done: Seq<(GameState, GameState)> = Seq::empty();
        let mut k: usize = 0;
        proof {
            assert(all_lines.skip(0) =~= all_lines);
        }
        while k < lines.len()
            invariant
                k <= lines.len(),
                self.wf(),
                self.profile == old(self).profile,
                self.cursor == old(self).cursor,
                lines@.map_values(|l: &str| l@) == all_lines,
                all_lines == spec_lines(chunk@),
                s0 == old(self).store.current,
                classify_seq(all_lines, s0) == classify_seq(
                    all_lines.skip(k as int),
                    self.store.current,
                ),
                spec_transitions(all_lines, s0) == done + spec_transitions(
                    all_lines.skip(k as int),
                    self.store.current,
                ),
                plans@.len() == done.len(),
                forall|i: int|
                    0 <= i < done.len() ==> #[trigger] plans@[i].is_ramp(
                        old(self).profile.spec_level(done[i].0),
                        old(self).profile.spec_level(done[i].1),
                    ),
            decreases lines.len() - k,
        {
            let ghost before = self.store.current;
            let ghost rest = all_lines.skip(k as int);
            proof {
                assert(rest.len() == all_lines.len() - k);
                assert(rest[0] == all_lines[k as int]);
                assert(rest.drop_first() =~= all_lines.skip(k as int + 1));
            }
            let line = lines[k];
            let step = self.on_line(line);
            proof {
                assert(line@ == all_lines[k as int]);
            }
            match step {
                Some(p) => {
                    plans.push(p);
                    proof {
                        done = done + seq![(before, self.store.current)];
                        assert(spec_transitions(rest, before) == seq![
                            (before, self.store.current),
                        ] + spec_transitions(rest.drop_first(), self.store.current));
                        assert(done + spec_transitions(
                            all_lines.skip(k as int + 1),
                            self.store.current,
                        ) =~= spec_transitions(all_lines, s0));
                    }
                },
                None => {
                    proof {
                        assert(spec_transitions(rest, before) == spec_transitions(
                            rest.drop_first(),
                            self.store.current,
                        ));
                    }
                },
            }
            k = k + 1;
        }
        proof {
            assert(all_lines.skip(lines@.len() as int) =~= Seq::<Seq<char>>::empty());
            assert(done + Seq::<(GameState, GameState)>::empty() =~= done);
        }
        plans
    }

    /// Reads the current game state, for display.
    pub fn current_state(&self) -> (r: GameState)
        ensures
            r == self.store.current,
    {
        self.store.get()
    }

    /// Reads the current byte cursor.
    pub fn cursor_position(&self) -> (r: u64)
        ensures
            r == self.cursor,
    {
        self.cursor
    }
}

} // verus!
