//! The engine's laws: determinism of evaluation, the first-match tie-break,
//! the accuracy of reported rejection positions, the ordering of merged
//! effects, and the post-effect firing once, only on full acceptance.

use vstd::prelude::*;

use crate::fsm::{Dispatch, FSM, FSMError, RunVerdict, TableView, count_matches,
    result_matches_verdict, spec_assign_effects, spec_lookup, spec_run_from, spec_scan, step_log};
use crate::types::{Transition, spec_transit, transition_wf};

verus! {

/// Determinism of evaluation: any two outcomes that
/// [`Transition::transit`] may return for the same well-formed transition
/// and the same character are equal — repeated evaluation cannot change the
/// match.
pub proof fn lemma_transit_deterministic<State, Effect, F>(
    t: Transition<State, Effect, F>,
    ch: char,
    r1: (Option<State>, Option<Effect>),
    r2: (Option<State>, Option<Effect>),
) where
    State: Eq + PartialEq + Copy,
    Effect: Eq + PartialEq + Copy,
    F: Fn(char) -> bool + Copy,
    requires
        transition_wf(t),
        call_ensures(Transition::<State, Effect, F>::transit, (&t, ch), r1),
        call_ensures(Transition::<State, Effect, F>::transit, (&t, ch), r2),
    ensures
        r1 == r2,
{
}

/// Determinism of a whole run: the run contract pins the result down, so
/// any two results that match the same verdict for the same input are
/// equal. Together with the exact dispatch log of [`FSM::trace`], repeated
/// runs of one machine over one string cannot differ.
pub proof fn lemma_run_result_deterministic<'a, State>(
    v: RunVerdict<State>,
    r1: Result<(), FSMError<'a, State>>,
    r2: Result<(), FSMError<'a, State>>,
    string: &'a String,
) where State: Eq + PartialEq + Copy
    requires
        result_matches_verdict(v, r1, string),
        result_matches_verdict(v, r2, string),
    ensures
        r1 == r2,
{
    match (r1, r2) {
        (Err(FSMError::NoValidTransition { from: f1, input_data: d1 }), Err(
            FSMError::NoValidTransition { from: f2, input_data: d2 },
        )) => {
            assert(f1 == f2);
            assert(d1.index == d2.index);
            assert(d1.character == d2.character);
            assert(d1.string == d2.string);
            assert(d1 == d2);
            assert(r1 == r2);
        },
        (Err(FSMError::StateDoesNotExist(s1)), Err(FSMError::StateDoesNotExist(s2))) => {
            assert(s1 == s2);
            assert(r1 == r2);
        },
        (Ok(u1), Ok(u2)) => {
            assert(u1 == u2);
            assert(r1 == r2);
        },
        _ => {
            assert(false);
        },
    }
}

/// First match wins: when the transitions before position `k` of a state's
/// list all fail on `ch` and the one at `k` matches, the scan's outcome is
/// transition `k`'s, whatever stands after it — the transitions after the
/// first match are never evaluated for effect.
pub proof fn lemma_first_match_wins<State, Effect, F>(
    ts: Seq<Transition<State, Effect, F>>,
    ch: char,
    k: int,
) where
    State: Eq + PartialEq + Copy,
    Effect: Eq + PartialEq + Copy,
    F: Fn(char) -> bool + Copy,
    requires
        0 <= k < ts.len(),
        spec_transit(ts[k], ch).0 is Some,
        forall|j: int| 0 <= j < k ==> spec_transit(#[trigger] ts[j], ch).0 is None,
    ensures
        spec_scan(ts, ch) == Some((ts[k].to, ts[k].effect)),
    decreases k,
{
    if k == 0 {
    } else {
        let sub = ts.drop_first();
        assert(forall|j: int| 0 <= j < ts.len() - 1 ==> sub[j] == ts[j + 1]);
        lemma_first_match_wins(sub, ch, k - 1);
    }
}

/// A scan fails exactly when every transition of the list fails: no match
/// is ever passed over.
pub proof fn lemma_scan_none<State, Effect, F>(
    ts: Seq<Transition<State, Effect, F>>,
    ch: char,
) where
    State: Eq + PartialEq + Copy,
    Effect: Eq + PartialEq + Copy,
    F: Fn(char) -> bool + Copy,
    ensures
        spec_scan(ts, ch) is None <==> forall|j: int|
            0 <= j < ts.len() ==> spec_transit(#[trigger] ts[j], ch).0 is None,
    decreases ts.len(),
{
    if ts.len() == 0 {
    } else {
        let sub = ts.drop_first();
        assert(forall|j: int| 0 <= j < ts.len() - 1 ==> sub[j] == ts[j + 1]);
        lemma_scan_none(sub, ch);
        if spec_transit(ts[0], ch).0 is Some {
            assert(spec_scan(ts, ch) is Some);
        } else {
            assert(spec_scan(ts, ch) == spec_scan(sub, ch));
            if spec_scan(ts, ch) is None {
                assert forall|j: int|
                    0 <= j < ts.len() implies spec_transit(#[trigger] ts[j], ch).0 is None by {
                    if j > 0 {
                        assert(ts[j] == sub[j - 1]);
                    }
                }
            }
        }
    }
}

/// The state the machine holds after consuming the first `n` characters,
/// when each of them was consumed by a matching transition; `None` when the
/// run fails before position `n`.
pub open spec fn spec_state_at<State, Effect, F>(
    table: TableView<State, Effect, F>,
    s0: State,
    chars: Seq<char>,
    n: int,
) -> Option<State> where
    State: Eq + PartialEq + Copy,
    Effect: Eq + PartialEq + Copy,
    F: Fn(char) -> bool + Copy,
    decreases n,
{
    if n <= 0 {
        Some(s0)
    } else {
        match spec_state_at(table, s0, chars, n - 1) {
            None => None,
            Some(s) => match spec_lookup(table, s) {
                None => None,
                Some(ts) => match spec_scan(ts, chars[n - 1]) {
                    None => None,
                    Some((s2, _)) => Some(s2),
                },
            },
        }
    }
}

/// Rejection position accuracy, generalized over the starting position: a
/// failure reported by the run names the exact position and character at
/// which the machine, having consumed every earlier character, found no
/// matching transition (or no row for its state).
proof fn lemma_rejection_position_from<State, Effect, F>(
    table: TableView<State, Effect, F>,
    s0: State,
    chars: Seq<char>,
    i: int,
    s: State,
) where
    State: Eq + PartialEq + Copy,
    Effect: Eq + PartialEq + Copy,
    F: Fn(char) -> bool + Copy,
    requires
        0 <= i <= chars.len(),
        spec_state_at(table, s0, chars, i) == Some(s),
    ensures
        match spec_run_from(table, s, chars, i).verdict {
            RunVerdict::Accepted => true,
            RunVerdict::MissingState { state, index } => {
                &&& i <= index < chars.len()
                &&& spec_state_at(table, s0, chars, index) == Some(state)
                &&& spec_lookup(table, state) is None
            },
            RunVerdict::Rejected { from, index, character } => {
                &&& i <= index < chars.len()
                &&& character == chars[index]
                &&& spec_state_at(table, s0, chars, index) == Some(from)
                &&& match spec_lookup(table, from) {
                    Some(ts) => spec_scan(ts, chars[index]) is None,
                    None => false,
                }
            },
        },
    decreases chars.len() - i,
{
    if i == chars.len() {
    } else {
        match spec_lookup(table, s) {
            None => {},
            Some(ts) => match spec_scan(ts, chars[i]) {
                None => {},
                Some((s2, _)) => {
                    assert(spec_state_at(table, s0, chars, i + 1) == Some(s2));
                    lemma_rejection_position_from(table, s0, chars, i + 1, s2);
                },
            },
        }
    }
}

/// Rejection position accuracy: when a run over `chars` from `s0` is
/// rejected, the reported index and character are exactly the position and
/// the character of the first failure — every earlier character was
/// consumed by a matching transition, bringing the machine to the reported
/// state, and there no transition matches. A missing-state failure is
/// positioned the same way.
pub proof fn lemma_rejection_position<State, Effect, F>(
    table: TableView<State, Effect, F>,
    s0: State,
    chars: Seq<char>,
) where
    State: Eq + PartialEq + Copy,
    Effect: Eq + PartialEq + Copy,
    F: Fn(char) -> bool + Copy,
    ensures
        match spec_run_from(table, s0, chars, 0).verdict {
            RunVerdict::Accepted => true,
            RunVerdict::MissingState { state, index } => {
                &&& 0 <= index < chars.len()
                &&& spec_state_at(table, s0, chars, index) == Some(state)
                &&& spec_lookup(table, state) is None
            },
            RunVerdict::Rejected { from, index, character } => {
                &&& 0 <= index < chars.len()
                &&& character == chars[index]
                &&& spec_state_at(table, s0, chars, index) == Some(from)
                &&& match spec_lookup(table, from) {
                    Some(ts) => spec_scan(ts, chars[index]) is None,
                    None => false,
                }
            },
        },
{
    lemma_rejection_position_from(table, s0, chars, 0, s0);
}

/// Merge effect ordering: attaching `effects` to the transitions of `ts`
/// leading to `to` gives the first such transition `effects[0]`, the second
/// `effects[1]`, and so on, in declared list order — the rank of a
/// transition among the matching ones is `count_matches` up to its
/// position. Transitions to other states, and matching transitions beyond
/// the supplied effects, keep the effect they had; no target or condition
/// changes.
pub proof fn lemma_assign_effects_ordering<State, Effect, F>(
    ts: Seq<Transition<State, Effect, F>>,
    to: State,
    effects: Seq<Effect>,
    j: int,
) where
    State: Eq + PartialEq + Copy,
    Effect: Eq + PartialEq + Copy,
    F: Fn(char) -> bool + Copy,
    requires
        0 <= j < ts.len(),
    ensures
        spec_assign_effects(ts, to, effects).len() == ts.len(),
        spec_assign_effects(ts, to, effects)[j].to == ts[j].to,
        spec_assign_effects(ts, to, effects)[j].condition == ts[j].condition,
        ts[j].to == to && count_matches(ts, to, j) < effects.len() ==> spec_assign_effects(
            ts,
            to,
            effects,
        )[j].effect == Some(effects[count_matches(ts, to, j)]),
        ts[j].to == to && count_matches(ts, to, j) >= effects.len() ==> spec_assign_effects(
            ts,
            to,
            effects,
        )[j] == ts[j],
        ts[j].to != to ==> spec_assign_effects(ts, to, effects)[j] == ts[j],
{
}

/// Positions of dispatches survive concatenation: when every entry of two
/// logs lies between `lo` and `hi`, so does every entry of the log they
/// form together.
proof fn lemma_log_concat_bounds<Effect>(
    a: Seq<Dispatch<Effect>>,
    b: Seq<Dispatch<Effect>>,
    c: Seq<Dispatch<Effect>>,
    lo: int,
    hi: int,
) where Effect: Eq + PartialEq + Copy
    requires
        c == a + b,
        forall|j: int| 0 <= j < a.len() ==> lo <= (#[trigger] a[j]).index < hi,
        forall|j: int| 0 <= j < b.len() ==> lo <= (#[trigger] b[j]).index < hi,
    ensures
        forall|j: int| 0 <= j < c.len() ==> lo <= (#[trigger] c[j]).index < hi,
{
    assert forall|j: int| 0 <= j < c.len() implies lo <= (#[trigger] c[j]).index < hi by {
        if j < a.len() {
            assert(c[j] == a[j]);
        } else {
            assert(c[j] == b[j - a.len()]);
        }
    }
}

/// The single entry that one consumed character may add to the log lies at
/// that character's position.
proof fn lemma_step_log_bounds<Effect>(eff: Option<Effect>, i: int, ch: char, hi: int) where
    Effect: Eq + PartialEq + Copy,
    requires
        0 <= i < hi,
        hi <= usize::MAX,
    ensures
        forall|j: int|
            0 <= j < step_log(eff, i, ch).len() ==> i <= (#[trigger] step_log(eff, i, ch)[j]).index
                < hi,
{
    match eff {
        Some(e) => {
            assert(step_log(eff, i, ch).len() == 1);
            assert(step_log(eff, i, ch)[0].index == i as usize);
        },
        None => {
            assert(step_log(eff, i, ch).len() == 0);
        },
    }
}

/// The per-character dispatches of a run all lie within the string: every
/// entry of the model's log carries a position at or after the starting
/// one and before the string's end.
proof fn lemma_run_log_bounds<State, Effect, F>(
    table: TableView<State, Effect, F>,
    s: State,
    chars: Seq<char>,
    i: int,
) where
    State: Eq + PartialEq + Copy,
    Effect: Eq + PartialEq + Copy,
    F: Fn(char) -> bool + Copy,
    requires
        0 <= i,
        chars.len() <= usize::MAX,
    ensures
        forall|j: int|
            0 <= j < spec_run_from(table, s, chars, i).log.len() ==> i <= (#[trigger] spec_run_from(
                table,
                s,
                chars,
                i,
            ).log[j]).index < chars.len(),
    decreases chars.len() - i,
{
    if i < 0 || i >= chars.len() {
    } else {
        let ch = chars[i];
        match spec_lookup(table, s) {
            None => {},
            Some(ts) => match spec_scan(ts, ch) {
                None => {},
                Some((s2, eff)) => {
                    lemma_run_log_bounds(table, s2, chars, i + 1);
                    let here = step_log(eff, i, ch);
                    let rest = spec_run_from(table, s2, chars, i + 1);
                    let whole = spec_run_from(table, s, chars, i);
                    assert(whole.log == here + rest.log);
                    lemma_step_log_bounds(eff, i, ch, chars.len() as int);
                    assert(forall|j: int|
                        0 <= j < rest.log.len() ==> i <= (#[trigger] rest.log[j]).index
                            < chars.len());
                    lemma_log_concat_bounds(here, rest.log, whole.log, i, chars.len() as int);
                },
            },
        }
    }
}

/// The post-effect fires once, only on full acceptance: when a run accepts
/// and the machine has a post-effect, the full dispatch list is the
/// per-character log followed by exactly one post-effect entry, positioned
/// at the string's length with the `'\0'` sentinel — every other entry lies
/// before the string's end. On a rejected run, or without a post-effect,
/// the list is the per-character log alone and no entry reaches the
/// string's end.
pub proof fn lemma_post_effect_once<State, Effect, F>(
    fsm: FSM<State, Effect, F>,
    chars: Seq<char>,
) where
    State: Eq + PartialEq + Copy,
    Effect: Eq + PartialEq + Copy,
    F: Fn(char) -> bool + Copy,
    requires
        chars.len() <= usize::MAX,
    ensures
        ({
            let m = fsm.run_model(chars);
            let full = fsm.spec_dispatches(chars);
            &&& forall|j: int| 0 <= j < m.log.len() ==> (#[trigger] m.log[j]).index < chars.len()
            &&& m.verdict is Accepted && fsm.post_effect is Some ==> {
                &&& full.len() == m.log.len() + 1
                &&& full == m.log.push(
                    Dispatch {
                        effect: fsm.post_effect->Some_0,
                        index: chars.len() as usize,
                        character: '\0',
                    },
                )
                &&& full.last().index == chars.len()
            }
            &&& !(m.verdict is Accepted && fsm.post_effect is Some) ==> full == m.log
        }),
{
    lemma_run_log_bounds(fsm.table(), fsm.initial_state, chars, 0);
}

} // verus!
