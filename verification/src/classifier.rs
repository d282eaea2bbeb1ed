//! The line classifier: maps one log line to a game-state hint.
//!
//! A line is matched against the fixed envelope
//! `[timestamp][code]SourceName: message`; lines of another shape, and lines
//! whose source name or message match no recognized marker, leave the current
//! state unchanged. Detection is separated from effect: the classifier never
//! mutates shared state itself.

use vstd::prelude::*;
use vstd::string::StrSliceExecFns;
use crate::state::GameState;

verus! {

/// Whitespace as the envelope treats it: the characters that may separate the
/// source name's colon from the start of the message.
pub open spec fn is_envelope_ws(c: char) -> bool {
    c == ' ' || c == '\t' || c == '\n' || c == '\r' || c == '\u{b}' || c == '\u{c}'
}

/// Index of the first occurrence of `c` in `s` at or after `from`, or `-1`
/// when there is none.
pub open spec fn find_from(s: Seq<char>, from: int, c: char) -> int
    decreases s.len() - from,
{
    if from < 0 || from >= s.len() {
        -1
    } else if s[from] == c {
        from
    } else {
        find_from(s, from + 1, c)
    }
}

/// A found occurrence lies between `from` and the end of `s`, and holds `c`.
pub proof fn lemma_find_from_bounds(s: Seq<char>, from: int, c: char)
    ensures
        find_from(s, from, c) == -1 || (from <= find_from(s, from, c) < s.len() && s[find_from(
            s,
            from,
            c,
        )] == c),
    decreases s.len() - from,
{
    if from < 0 || from >= s.len() {
    } else if s[from] == c {
    } else {
        lemma_find_from_bounds(s, from + 1, c);
    }
}

/// When `c` occurs nowhere at or after `from`, the search reports `-1`.
pub proof fn lemma_find_from_absent(s: Seq<char>, from: int, c: char)
    requires
        forall|k: int| from <= k < s.len() ==> s[k] != c,
    ensures
        find_from(s, from, c) == -1,
    decreases s.len() - from,
{
    if from < 0 || from >= s.len() {
    } else {
        lemma_find_from_absent(s, from + 1, c);
    }
}

/// Index of the first character at or after `from` that is not envelope
/// whitespace, or `-1` when there is none.
pub open spec fn find_non_ws_from(s: Seq<char>, from: int) -> int
    decreases s.len() - from,
{
    if from < 0 || from >= s.len() {
        -1
    } else if !is_envelope_ws(s[from]) {
        from
    } else {
        find_non_ws_from(s, from + 1)
    }
}

/// `needle` occurs as a contiguous run somewhere inside `hay`.
pub open spec fn contains_seq(hay: Seq<char>, needle: Seq<char>) -> bool {
    exists|i: int|
        0 <= i && i + needle.len() <= hay.len() && #[trigger] hay.subrange(
            i,
            i + needle.len() as int,
        ) == needle
}

/// The parsed envelope of a log line, as `Some((source_name, message))`, or
/// `None` when the line is of another shape.
///
/// The shape is `[timestamp][code]SourceName: message`: a non-empty timestamp
/// in brackets, a non-empty code in brackets, a non-empty source name running
/// to the first colon after the second closing bracket, the colon, optional
/// whitespace, and a non-empty single-line message. When only whitespace
/// follows the colon the message is the line's final character; the message
/// may not contain a line break.
pub open spec fn parse_envelope(s: Seq<char>) -> Option<(Seq<char>, Seq<char>)> {
    if s.len() == 0 || s[0] != '[' {
        None
    } else {
        let date_end = find_from(s, 1, ']');
        if date_end <= 1 {
            None
        } else if date_end + 1 >= s.len() || s[date_end + 1] != '[' {
            None
        } else {
            let code_end = find_from(s, date_end + 2, ']');
            if code_end <= date_end + 2 {
                None
            } else {
                let name_end = find_from(s, code_end + 1, ':');
                if name_end <= code_end + 1 {
                    None
                } else if name_end + 1 >= s.len() {
                    None
                } else {
                    let first_sig = find_non_ws_from(s, name_end + 1);
                    let text_start = if first_sig >= 0 {
                        first_sig
                    } else {
                        s.len() - 1
                    };
                    if find_from(s, text_start, '\n') >= 0 {
                        None
                    } else {
                        Some(
                            (
                                s.subrange(code_end + 1, name_end),
                                s.subrange(text_start, s.len() as int),
                            ),
                        )
                    }
                }
            }
        }
    }
}

/// What [`classify`] returns: the target state of the highest-priority marker
/// of a well-formed line, or `current` when the line matches no marker.
pub open spec fn spec_classify(line: Seq<char>, current: GameState) -> GameState {
    match parse_envelope(line) {
        Option::None => current,
        Option::Some((name, text)) => {
            if name == "LogShooterGameState"@ {
                if contains_seq(text, "Match Ended"@) {
                    GameState::NotInGame
                } else if contains_seq(text, "AShooterGameState::OnRoundEnded"@) {
                    GameState::InGamePreparing
                } else if contains_seq(text, "Gameplay started at local time"@) && !contains_seq(
                    text,
                    "Gameplay started at local time 0.000000"@,
                ) {
                    GameState::InGamePlaying
                } else {
                    current
                }
            } else if name == "LogGameFlowStateManager"@ {
                if contains_seq(
                    text,
                    "Reconcile called with state: TransitionToInGame and new state: InGame. Changing state"@,
                ) {
                    GameState::InGamePreparing
                } else {
                    current
                }
            } else {
                current
            }
        },
    }
}

/// A line that does not match the envelope shape never changes the state:
/// classification is the identity on `current` for it.
pub proof fn lemma_unmatched_line_is_identity(line: Seq<char>, current: GameState)
    requires
        parse_envelope(line) is None,
    ensures
        spec_classify(line, current) == current,
{
}

/// A `LogShooterGameState` message holding the match-ended marker always
/// yields `NotInGame`, whatever the current state.
pub proof fn lemma_match_ended_marker(
    line: Seq<char>,
    current: GameState,
    name: Seq<char>,
    text: Seq<char>,
)
    requires
        parse_envelope(line) == Some((name, text)),
        name == "LogShooterGameState"@,
        contains_seq(text, "Match Ended"@),
    ensures
        spec_classify(line, current) == GameState::NotInGame,
{
}

/// A `LogShooterGameState` message holding the round-ended marker (and not
/// the higher-priority match-ended marker) always yields `InGamePreparing`,
/// whatever the current state.
pub proof fn lemma_round_ended_marker(
    line: Seq<char>,
    current: GameState,
    name: Seq<char>,
    text: Seq<char>,
)
    requires
        parse_envelope(line) == Some((name, text)),
        name == "LogShooterGameState"@,
        contains_seq(text, "AShooterGameState::OnRoundEnded"@),
        !contains_seq(text, "Match Ended"@),
    ensures
        spec_classify(line, current) == GameState::InGamePreparing,
{
}

/// A `LogShooterGameState` message holding the gameplay-started marker whose
/// embedded time is not the zero-time sentinel (and no higher-priority
/// marker) always yields `InGamePlaying`, whatever the current state.
pub proof fn lemma_gameplay_started_marker(
    line: Seq<char>,
    current: GameState,
    name: Seq<char>,
    text: Seq<char>,
)
    requires
        parse_envelope(line) == Some((name, text)),
        name == "LogShooterGameState"@,
        contains_seq(text, "Gameplay started at local time"@),
        !contains_seq(text, "Gameplay started at local time 0.000000"@),
        !contains_seq(text, "Match Ended"@),
        !contains_seq(text, "AShooterGameState::OnRoundEnded"@),
    ensures
        spec_classify(line, current) == GameState::InGamePlaying,
{
}

/// A `LogGameFlowStateManager` message holding the match-start reconcile
/// marker always yields `InGamePreparing`, whatever the current state.
pub proof fn lemma_match_start_marker(
    line: Seq<char>,
    current: GameState,
    name: Seq<char>,
    text: Seq<char>,
)
    requires
        parse_envelope(line) == Some((name, text)),
        name == "LogGameFlowStateManager"@,
        contains_seq(
            text,
            "Reconcile called with state: TransitionToInGame and new state: InGame. Changing state"@,
        ),
    ensures
        spec_classify(line, current) == GameState::InGamePreparing,
{
    reveal_strlit("LogShooterGameState");
    reveal_strlit("LogGameFlowStateManager");
    assert("LogShooterGameState"@.len() == 19);
    assert("LogGameFlowStateManager"@.len() == 23);
}

/// The zero-time gameplay-started line is never classified as `InGamePlaying`:
/// when the message holds the zero-time sentinel (a spurious line emitted on
/// respawn) and no other marker, classification leaves the state unchanged.
pub proof fn lemma_zero_time_line_is_identity(
    line: Seq<char>,
    current: GameState,
    name: Seq<char>,
    text: Seq<char>,
)
    requires
        parse_envelope(line) == Some((name, text)),
        name == "LogShooterGameState"@,
        contains_seq(text, "Gameplay started at local time 0.000000"@),
        !contains_seq(text, "Match Ended"@),
        !contains_seq(text, "AShooterGameState::OnRoundEnded"@),
    ensures
        spec_classify(line, current) == current,
{
}

/// Executable first-occurrence search, mirroring [`find_from`].
fn find_char(line: &str, len: usize, from: usize, c: char) -> (r: Option<usize>)
    requires
        len == line@.len(),
        from <= len,
    ensures
        match r {
            Some(i) => from <= i < len && find_from(line@, from as int, c) == i,
            None => find_from(line@, from as int, c) == -1,
        },
{
    let mut i: usize = from;
    while i < len
        invariant
            from <= i <= len,
            len == line@.len(),
            find_from(line@, from as int, c) == find_from(line@, i as int, c),
        decreases len - i,
    {
        if line.get_char(i) == c {
            return Some(i);
        }
        i = i + 1;
    }
    None
}

/// Executable first-non-whitespace search, mirroring [`find_non_ws_from`].
fn find_non_ws(line: &str, len: usize, from: usize) -> (r: Option<usize>)
    requires
        len == line@.len(),
        from <= len,
    ensures
        match r {
            Some(i) => from <= i < len && find_non_ws_from(line@, from as int) == i,
            None => find_non_ws_from(line@, from as int) == -1,
        },
{
    let mut i: usize = from;
    while i < len
        invariant
            from <= i <= len,
            len == line@.len(),
            find_non_ws_from(line@, from as int) == find_non_ws_from(line@, i as int),
        decreases len - i,
    {
        let c = line.get_char(i);
        if !(c == ' ' || c == '\t' || c == '\n' || c == '\r' || c == '\u{b}' || c == '\u{c}') {
            return Some(i);
        }
        i = i + 1;
    }
    None
}

/// The characters of `line` from `at` on begin with `pat`.
fn matches_at(line: &str, len: usize, at: usize, pat: &str, pat_len: usize) -> (r: bool)
    requires
        len == line@.len(),
        pat_len == pat@.len(),
        at <= len,
    ensures
        r == (at + pat_len <= len && line@.subrange(at as int, at as int + pat_len as int)
            == pat@),
{
    if pat_len > len - at {
        return false;
    }
    let mut j: usize = 0;
    while j < pat_len
        invariant
            j <= pat_len,
            at + pat_len <= len,
            len == line@.len(),
            pat_len == pat@.len(),
            forall|k: int| 0 <= k < j ==> line@[at as int + k] == pat@[k],
        decreases pat_len - j,
    {
        let c1 = line.get_char(at + j);
        let c2 = pat.get_char(j);
        if c1 != c2 {
            proof {
                let sub = line@.subrange(at as int, at as int + pat_len as int);
                assert(sub[j as int] == line@[at as int + j as int]);
                assert(sub != pat@) by {
                    if sub == pat@ {
                        assert(sub[j as int] == pat@[j as int]);
                    }
                }
            }
            return false;
        }
        j = j + 1;
    }
    proof {
        assert(line@.subrange(at as int, at as int + pat_len as int) =~= pat@);
    }
    true
}

/// `line@.subrange(from, to)` equals `pat@`.
fn range_is(line: &str, len: usize, from: usize, to: usize, pat: &str, pat_len: usize) -> (r: bool)
    requires
        len == line@.len(),
        pat_len == pat@.len(),
        from <= to <= len,
    ensures
        r == (line@.subrange(from as int, to as int) == pat@),
{
    if to - from != pat_len {
        proof {
            assert(line@.subrange(from as int, to as int).len() == to - from);
        }
        return false;
    }
    matches_at(line, len, from, pat, pat_len)
}

/// `pat` occurs inside `line@.subrange(from, to)` — the executable
/// counterpart of [`contains_seq`] on that range.
fn contains_in(line: &str, len: usize, from: usize, to: usize, pat: &str, pat_len: usize) -> (r:
    bool)
    requires
        len == line@.len(),
        pat_len == pat@.len(),
        from <= to <= len,
    ensures
        r == contains_seq(line@.subrange(from as int, to as int), pat@),
{
    let ghost sub = line@.subrange(from as int, to as int);
    if pat_len == 0 {
        proof {
            assert(sub.subrange(0, 0 + pat@.len() as int) =~= pat@);
        }
        return true;
    }
    if to - from < pat_len {
        // Any occurrence would need sub to be at least pat_len long.
        return false;
    }
    let last: usize = to - pat_len;
    let mut i: usize = from;
    while i <= last
        invariant
            from <= i <= last + 1,
            last == to - pat_len,
            1 <= pat_len,
            from <= to <= len,
            pat_len <= to - from,
            len == line@.len(),
            pat_len == pat@.len(),
            sub == line@.subrange(from as int, to as int),
            forall|k: int|
                from <= k < i ==> #[trigger] line@.subrange(k, k + pat_len as int) != pat@,
        decreases last + 1 - i,
    {
        if matches_at(line, len, i, pat, pat_len) {
            proof {
                let w = i - from;
                assert(sub.subrange(w, w + pat_len as int) =~= line@.subrange(
                    i as int,
                    i as int + pat_len as int,
                ));
                assert(sub.subrange(w, w + pat_len as int) == pat@);
            }
            return true;
        }
        i = i + 1;
    }
    proof {
        assert(!contains_seq(sub, pat@)) by {
            if contains_seq(sub, pat@) {
                let w = choose|w: int|
                    0 <= w && w + pat@.len() <= sub.len() && #[trigger] sub.subrange(
                        w,
                        w + pat@.len() as int,
                    ) == pat@;
                assert(line@.subrange(from + w, from + w + pat_len as int) =~= sub.subrange(
                    w,
                    w + pat@.len() as int,
                ));
                assert(line@.subrange(from + w, from + w + pat_len as int) != pat@);
            }
        }
    }
    false
}

/// Classifies one log line against the current game state.
///
/// Recognized markers, in priority order: a `LogShooterGameState` message
/// holding the match-ended marker ends the match; one holding the round-ended
/// marker returns to the buy phase; one holding the gameplay-started marker
/// whose embedded time is not the zero-time sentinel starts play (a spurious
/// line with local time `0.000000` is emitted on respawn and must be
/// ignored); a `LogGameFlowStateManager` message holding the match-start
/// reconcile marker enters the buy phase. Any other line returns `current`
/// unchanged.
pub fn classify(line: &str, current: GameState) -> (r: GameState)
    ensures
        r == spec_classify(line@, current),
{
    let len = line.unicode_len();
    if len == 0 {
        return current;
    }
    if line.get_char(0) != '[' {
        return current;
    }
    let date_end = match find_char(line, len, 1, ']') {
        Some(i) => i,
        None => { return current },
    };
    if date_end <= 1 {
        return current;
    }
    if date_end + 1 >= len {
        return current;
    }
    if line.get_char(date_end + 1) != '[' {
        return current;
    }
    let code_end = match find_char(line, len, date_end + 2, ']') {
        Some(i) => i,
        None => { return current },
    };
    if code_end <= date_end + 2 {
        return current;
    }
    let name_end = match find_char(line, len, code_end + 1, ':') {
        Some(i) => i,
        None => { return current },
    };
    if name_end <= code_end + 1 {
        return current;
    }
    if name_end + 1 >= len {
        return current;
    }
    let text_start = match find_non_ws(line, len, name_end + 1) {
        Some(i) => i,
        None => len - 1,
    };
    match find_char(line, len, text_start, '\n') {
        Some(_) => { return current },
        None => {},
    }
    let name_start = code_end + 1;
    let shooter = "LogShooterGameState";
    if range_is(line, len, name_start, name_end, shooter, shooter.unicode_len()) {
        let ended = "Match Ended";
        if contains_in(line, len, text_start, len, ended, ended.unicode_len()) {
            return GameState::NotInGame;
        }
        let round_ended = "AShooterGameState::OnRoundEnded";
        if contains_in(line, len, text_start, len, round_ended, round_ended.unicode_len()) {
            return GameState::InGamePreparing;
        }
        let gameplay = "Gameplay started at local time";
        let zero_time = "Gameplay started at local time 0.000000";
        if contains_in(line, len, text_start, len, gameplay, gameplay.unicode_len())
            && !contains_in(line, len, text_start, len, zero_time, zero_time.unicode_len()) {
            return GameState::InGamePlaying;
        }
        return current;
    }
    let flow = "LogGameFlowStateManager";
    if range_is(line, len, name_start, name_end, flow, flow.unicode_len()) {
        let reconcile =
            "Reconcile called with state: TransitionToInGame and new state: InGame. Changing state";
        if contains_in(line, len, text_start, len, reconcile, reconcile.unicode_len()) {
            return GameState::InGamePreparing;
        }
        return current;
    }
    current
}

/// The game's own match-ended line classifies as `NotInGame` from every
/// state: the marker rules are not vacuous, real log lines satisfy them.
pub proof fn lemma_sample_match_ended_line(current: GameState)
    ensures
        spec_classify(
            "[2024.08.31-17.27.38:105][866]LogShooterGameState: Match Ended: Completion State: ''. Winning Team: 'Blue' ()"@,
            current,
        ) == GameState::NotInGame,
{
    let l =
        "[2024.08.31-17.27.38:105][866]LogShooterGameState: Match Ended: Completion State: ''. Winning Team: 'Blue' ()"@;
    reveal_strlit(
        "[2024.08.31-17.27.38:105][866]LogShooterGameState: Match Ended: Completion State: ''. Winning Team: 'Blue' ()",
    );
    reveal_strlit("LogShooterGameState");
    reveal_strlit("Match Ended");
    reveal_with_fuel(find_from, 30);
    reveal_with_fuel(find_non_ws_from, 4);
    assert(l.len() == 109);
    assert(find_from(l, 1, ']') == 24);
    assert(find_from(l, 26, ']') == 29);
    assert(find_from(l, 30, ':') == 49);
    assert(find_non_ws_from(l, 50) == 51);
    assert forall|k: int| 51 <= k < l.len() implies l[k] != '\n' by {}
    lemma_find_from_absent(l, 51, '\n');
    assert(find_from(l, 51, '\n') == -1);
    let name = l.subrange(30, 49);
    let text = l.subrange(51, 109);
    assert(parse_envelope(l) == Some((name, text)));
    assert(name =~= "LogShooterGameState"@);
    let p = "Match Ended"@;
    assert(text.subrange(0, 0 + p.len() as int) =~= p);
    assert(contains_seq(text, p));
    lemma_match_ended_marker(l, current, name, text);
}

/// The game's own round-ended line classifies as `InGamePreparing` from
/// every state.
pub proof fn lemma_sample_round_ended_line(current: GameState)
    ensures
        spec_classify(
            "[2024.08.31-17.25.31:152][599]LogShooterGameState: Warning: AShooterGameState::OnRoundEnded for round '22'"@,
            current,
        ) == GameState::InGamePreparing,
{
    let l =
        "[2024.08.31-17.25.31:152][599]LogShooterGameState: Warning: AShooterGameState::OnRoundEnded for round '22'"@;
    reveal_strlit(
        "[2024.08.31-17.25.31:152][599]LogShooterGameState: Warning: AShooterGameState::OnRoundEnded for round '22'",
    );
    reveal_strlit("LogShooterGameState");
    reveal_strlit("AShooterGameState::OnRoundEnded");
    reveal_strlit("Match Ended");
    reveal_with_fuel(find_from, 30);
    reveal_with_fuel(find_non_ws_from, 4);
    assert(l.len() == 106);
    assert(find_from(l, 1, ']') == 24);
    assert(find_from(l, 26, ']') == 29);
    assert(find_from(l, 30, ':') == 49);
    assert(find_non_ws_from(l, 50) == 51);
    assert forall|k: int| 51 <= k < l.len() implies l[k] != '\n' by {}
    lemma_find_from_absent(l, 51, '\n');
    assert(find_from(l, 51, '\n') == -1);
    let name = l.subrange(30, 49);
    let text = l.subrange(51, 106);
    assert(parse_envelope(l) == Some((name, text)));
    assert(name =~= "LogShooterGameState"@);
    let p = "AShooterGameState::OnRoundEnded"@;
    assert(text.subrange(9, 9 + p.len() as int) =~= p);
    assert(contains_seq(text, p));
    let me = "Match Ended"@;
    assert(!contains_seq(text, me)) by {
        if contains_seq(text, me) {
            let i = choose|i: int|
                0 <= i && i + me.len() <= text.len() && #[trigger] text.subrange(
                    i,
                    i + me.len() as int,
                ) == me;
            assert(text.subrange(i, i + me.len() as int)[0] == me[0]);
            assert(l[51 + i] == 'M');
        }
    }
    lemma_round_ended_marker(l, current, name, text);
}

/// The game's own gameplay-started line (with a non-zero time) classifies as
/// `InGamePlaying` from every state.
pub proof fn lemma_sample_gameplay_started_line(current: GameState)
    ensures
        spec_classify(
            "[2024.08.31-18.36.09:234][254]LogShooterGameState: Warning: Gameplay started at local time 30.218750 (server time 30.292187)"@,
            current,
        ) == GameState::InGamePlaying,
{
    let l =
        "[2024.08.31-18.36.09:234][254]LogShooterGameState: Warning: Gameplay started at local time 30.218750 (server time 30.292187)"@;
    reveal_strlit(
        "[2024.08.31-18.36.09:234][254]LogShooterGameState: Warning: Gameplay started at local time 30.218750 (server time 30.292187)",
    );
    reveal_strlit("LogShooterGameState");
    reveal_strlit("Gameplay started at local time");
    reveal_strlit("Gameplay started at local time 0.000000");
    reveal_strlit("Match Ended");
    reveal_strlit("AShooterGameState::OnRoundEnded");
    reveal_with_fuel(find_from, 30);
    reveal_with_fuel(find_non_ws_from, 4);
    assert(l.len() == 124);
    assert(find_from(l, 1, ']') == 24);
    assert(find_from(l, 26, ']') == 29);
    assert(find_from(l, 30, ':') == 49);
    assert(find_non_ws_from(l, 50) == 51);
    assert forall|k: int| 51 <= k < l.len() implies l[k] != '\n' by {}
    lemma_find_from_absent(l, 51, '\n');
    assert(find_from(l, 51, '\n') == -1);
    let name = l.subrange(30, 49);
    let text = l.subrange(51, 124);
    assert(parse_envelope(l) == Some((name, text)));
    assert(name =~= "LogShooterGameState"@);
    let p = "Gameplay started at local time"@;
    assert(text.subrange(9, 9 + p.len() as int) =~= p);
    assert(contains_seq(text, p));
    let zt = "Gameplay started at local time 0.000000"@;
    assert(!contains_seq(text, zt)) by {
        if contains_seq(text, zt) {
            let i = choose|i: int|
                0 <= i && i + zt.len() <= text.len() && #[trigger] text.subrange(
                    i,
                    i + zt.len() as int,
                ) == zt;
            assert(text.subrange(i, i + zt.len() as int)[0] == zt[0]);
            assert(text.subrange(i, i + zt.len() as int)[31] == zt[31]);
            assert(l[51 + i] == 'G' && l[51 + i + 31] == '0');
        }
    }
    let me = "Match Ended"@;
    assert(!contains_seq(text, me)) by {
        if contains_seq(text, me) {
            let i = choose|i: int|
                0 <= i && i + me.len() <= text.len() && #[trigger] text.subrange(
                    i,
                    i + me.len() as int,
                ) == me;
            assert(text.subrange(i, i + me.len() as int)[0] == me[0]);
            assert(l[51 + i] == 'M');
        }
    }
    let re = "AShooterGameState::OnRoundEnded"@;
    assert(!contains_seq(text, re)) by {
        if contains_seq(text, re) {
            let i = choose|i: int|
                0 <= i && i + re.len() <= text.len() && #[trigger] text.subrange(
                    i,
                    i + re.len() as int,
                ) == re;
            assert(text.subrange(i, i + re.len() as int)[0] == re[0]);
            assert(l[51 + i] == 'A');
        }
    }
    lemma_gameplay_started_marker(l, current, name, text);
}

/// A gameplay-started line whose whole-second time is nonzero — such as
/// local time `120.000000` — classifies as `InGamePlaying` from every state:
/// only the zero-time sentinel itself is ignored, not every message whose
/// digits happen to end in `0.000000`.
pub proof fn lemma_sample_nonzero_whole_second_line(current: GameState)
    ensures
        spec_classify(
            "[d][1]LogShooterGameState: Warning: Gameplay started at local time 120.000000 (server time 119.500000)"@,
            current,
        ) == GameState::InGamePlaying,
{
    let l =
        "[d][1]LogShooterGameState: Warning: Gameplay started at local time 120.000000 (server time 119.500000)"@;
    reveal_strlit(
        "[d][1]LogShooterGameState: Warning: Gameplay started at local time 120.000000 (server time 119.500000)",
    );
    reveal_strlit("LogShooterGameState");
    reveal_strlit("Gameplay started at local time");
    reveal_strlit("Gameplay started at local time 0.000000");
    reveal_strlit("Match Ended");
    reveal_strlit("AShooterGameState::OnRoundEnded");
    reveal_with_fuel(find_from, 30);
    reveal_with_fuel(find_non_ws_from, 4);
    assert(l.len() == 102);
    assert(find_from(l, 1, ']') == 2);
    assert(find_from(l, 4, ']') == 5);
    assert(find_from(l, 6, ':') == 25);
    assert(find_non_ws_from(l, 26) == 27);
    assert forall|k: int| 27 <= k < l.len() implies l[k] != '\n' by {}
    lemma_find_from_absent(l, 27, '\n');
    assert(find_from(l, 27, '\n') == -1);
    let name = l.subrange(6, 25);
    let text = l.subrange(27, 102);
    assert(parse_envelope(l) == Some((name, text)));
    assert(name =~= "LogShooterGameState"@);
    let p = "Gameplay started at local time"@;
    assert(text.subrange(9, 9 + p.len() as int) =~= p);
    assert(contains_seq(text, p));
    let zt = "Gameplay started at local time 0.000000"@;
    assert(!contains_seq(text, zt)) by {
        if contains_seq(text, zt) {
            let i = choose|i: int|
                0 <= i && i + zt.len() <= text.len() && #[trigger] text.subrange(
                    i,
                    i + zt.len() as int,
                ) == zt;
            assert(text.subrange(i, i + zt.len() as int)[0] == zt[0]);
            assert(text.subrange(i, i + zt.len() as int)[31] == zt[31]);
            assert(l[27 + i] == 'G' && l[27 + i + 31] == '0');
        }
    }
    let me = "Match Ended"@;
    assert(!contains_seq(text, me)) by {
        if contains_seq(text, me) {
            let i = choose|i: int|
                0 <= i && i + me.len() <= text.len() && #[trigger] text.subrange(
                    i,
                    i + me.len() as int,
                ) == me;
            assert(text.subrange(i, i + me.len() as int)[0] == me[0]);
            assert(l[27 + i] == 'M');
        }
    }
    let re = "AShooterGameState::OnRoundEnded"@;
    assert(!contains_seq(text, re)) by {
        if contains_seq(text, re) {
            let i = choose|i: int|
                0 <= i && i + re.len() <= text.len() && #[trigger] text.subrange(
                    i,
                    i + re.len() as int,
                ) == re;
            assert(text.subrange(i, i + re.len() as int)[0] == re[0]);
            assert(l[27 + i] == 'A');
        }
    }
    lemma_gameplay_started_marker(l, current, name, text);
}


/// The game's own zero-time gameplay line — emitted on respawn — leaves
/// every state unchanged.
pub proof fn lemma_sample_zero_time_line(current: GameState)
    ensures
        spec_classify(
            "[2024.08.31-18.39.35:655][913]LogShooterGameState: Warning: Gameplay started at local time 0.000000 (server time 0.000000)"@,
            current,
        ) == current,
{
    let l =
        "[2024.08.31-18.39.35:655][913]LogShooterGameState: Warning: Gameplay started at local time 0.000000 (server time 0.000000)"@;
    reveal_strlit(
        "[2024.08.31-18.39.35:655][913]LogShooterGameState: Warning: Gameplay started at local time 0.000000 (server time 0.000000)",
    );
    reveal_strlit("LogShooterGameState");
    reveal_strlit("Gameplay started at local time 0.000000");
    reveal_strlit("Match Ended");
    reveal_strlit("AShooterGameState::OnRoundEnded");
    reveal_with_fuel(find_from, 30);
    reveal_with_fuel(find_non_ws_from, 4);
    assert(l.len() == 122);
    assert(find_from(l, 1, ']') == 24);
    assert(find_from(l, 26, ']') == 29);
    assert(find_from(l, 30, ':') == 49);
    assert(find_non_ws_from(l, 50) == 51);
    assert forall|k: int| 51 <= k < l.len() implies l[k] != '\n' by {}
    lemma_find_from_absent(l, 51, '\n');
    assert(find_from(l, 51, '\n') == -1);
    let name = l.subrange(30, 49);
    let text = l.subrange(51, 122);
    assert(parse_envelope(l) == Some((name, text)));
    assert(name =~= "LogShooterGameState"@);
    let zt = "Gameplay started at local time 0.000000"@;
    assert(text.subrange(9, 9 + zt.len() as int) =~= zt);
    assert(contains_seq(text, zt));
    let me = "Match Ended"@;
    assert(!contains_seq(text, me)) by {
        if contains_seq(text, me) {
            let i = choose|i: int|
                0 <= i && i + me.len() <= text.len() && #[trigger] text.subrange(
                    i,
                    i + me.len() as int,
                ) == me;
            assert(text.subrange(i, i + me.len() as int)[0] == me[0]);
            assert(l[51 + i] == 'M');
        }
    }
    let re = "AShooterGameState::OnRoundEnded"@;
    assert(!contains_seq(text, re)) by {
        if contains_seq(text, re) {
            let i = choose|i: int|
                0 <= i && i + re.len() <= text.len() && #[trigger] text.subrange(
                    i,
                    i + re.len() as int,
                ) == re;
            assert(text.subrange(i, i + re.len() as int)[0] == re[0]);
            assert(l[51 + i] == 'A');
        }
    }
    lemma_zero_time_line_is_identity(l, current, name, text);
}

/// The game's own match-start reconcile line classifies as
/// `InGamePreparing` from every state.
pub proof fn lemma_sample_match_started_line(current: GameState)
    ensures
        spec_classify(
            "[2024.08.31-18.33.07:287][277]LogGameFlowStateManager: Reconcile called with state: TransitionToInGame and new state: InGame. Changing state."@,
            current,
        ) == GameState::InGamePreparing,
{
    let l =
        "[2024.08.31-18.33.07:287][277]LogGameFlowStateManager: Reconcile called with state: TransitionToInGame and new state: InGame. Changing state."@;
    reveal_strlit(
        "[2024.08.31-18.33.07:287][277]LogGameFlowStateManager: Reconcile called with state: TransitionToInGame and new state: InGame. Changing state.",
    );
    reveal_strlit("LogGameFlowStateManager");
    reveal_strlit(
        "Reconcile called with state: TransitionToInGame and new state: InGame. Changing state",
    );
    reveal_with_fuel(find_from, 30);
    reveal_with_fuel(find_non_ws_from, 4);
    assert(l.len() == 141);
    assert(find_from(l, 1, ']') == 24);
    assert(find_from(l, 26, ']') == 29);
    assert(find_from(l, 30, ':') == 53);
    assert(find_non_ws_from(l, 54) == 55);
    assert forall|k: int| 55 <= k < l.len() implies l[k] != '\n' by {}
    lemma_find_from_absent(l, 55, '\n');
    assert(find_from(l, 55, '\n') == -1);
    let name = l.subrange(30, 53);
    let text = l.subrange(55, 141);
    assert(parse_envelope(l) == Some((name, text)));
    assert(name =~= "LogGameFlowStateManager"@);
    let p = "Reconcile called with state: TransitionToInGame and new state: InGame. Changing state"@;
    assert(text.subrange(0, 0 + p.len() as int) =~= p);
    assert(contains_seq(text, p));
    lemma_match_start_marker(l, current, name, text);
}

} // verus!
