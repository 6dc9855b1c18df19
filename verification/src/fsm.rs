//! The machine itself: construction, bulk effect merging, and the run loop
//! that drives an input string through the transition table.

use vstd::prelude::*;

use crate::types::{Effector, StatesConnection, StreamData, Transition, spec_transit,
    transition_wf};
use vstd::laws_eq::obeys_concrete_eq;
use vstd::string::StrSliceExecFns;

verus! {

/// The transition table as the specification sees it: for each registered
/// state, in registration order, its ordered list of outgoing transitions.
pub type TableView<State, Effect, F> = Seq<(State, Seq<Transition<State, Effect, F>>)>;

/// A finite state machine with side effects (a Mealy automaton): an initial
/// state, a transition table, and an optional effect dispatched once after
/// the whole input has been accepted.
///
/// The table is an ordered list of `(state, transitions)` rows; a state's
/// row is found by scanning for the first row whose key equals the state,
/// so registering a state twice leaves the later row unreachable.
pub struct FSM<State, Effect, F> where
    State: Eq + PartialEq + Copy,
    Effect: Eq + PartialEq + Copy,
    F: Fn(char) -> bool + Copy,
{
    /// State at the beginning of a run through a stream.
    pub initial_state: State,
    /// Transition graph: each registered state with its ordered outgoing
    /// transitions.
    pub transition_table: Vec<(State, Vec<Transition<State, Effect, F>>)>,
    /// Side effect dispatched once, after the last character of an accepted
    /// string.
    pub post_effect: Option<Effect>,
}

/// An error raised while constructing or running an FSM.
#[derive(Copy, Clone, Debug)]
pub enum FSMError<'a, State> where State: Eq + PartialEq + Copy {
    /// A referenced state is absent from the transition table: raised at
    /// construction for the initial state, and at merge or run time for a
    /// referenced source, destination or current state.
    StateDoesNotExist(State),
    /// Effect merging found no transition between the named states to attach
    /// an effect to, or was handed more effects than there are such
    /// transitions.
    TransitionDoesNotExist(StatesConnection<State>),
    /// At the given position no outgoing transition of the current state
    /// matches the current character: the canonical rejection outcome,
    /// carrying the exact failure position and character.
    NoValidTransition {
        /// The state the machine was in when no transition matched.
        from: State,
        /// The input string, the failing position, and the failing character.
        input_data: StreamData<'a>,
    },
}

/// One delivered side effect of a run: the effect tag together with the
/// position and character it was produced at. For the post-effect the index
/// equals the string's character length and the character is `'\0'`.
#[derive(Copy, Clone, Debug, PartialEq, Eq)]
pub struct Dispatch<Effect> where Effect: Eq + PartialEq + Copy {
    /// The effect tag delivered.
    pub effect: Effect,
    /// Character position the effect was produced at.
    pub index: usize,
    /// The character that was consumed by the matching transition.
    pub character: char,
}

/// How a run over a character sequence ends.
pub enum RunVerdict<State> where State: Eq + PartialEq + Copy {
    /// Every character was consumed by a matching transition.
    Accepted,
    /// The machine reached `state` at character position `index`, and the
    /// table has no row for it.
    MissingState { state: State, index: int },
    /// At character position `index`, holding `character`, no transition out
    /// of `from` matched.
    Rejected { from: State, index: int, character: char },
}

/// A run's outcome together with the side effects of the transitions taken,
/// in stream order. The log stops at the failing position on a rejected run
/// and never includes the post-effect; see [`spec_dispatches`] for the full
/// dispatch list of a run.
pub struct RunModel<State, Effect> where
    State: Eq + PartialEq + Copy,
    Effect: Eq + PartialEq + Copy,
{
    /// How the run ended.
    pub verdict: RunVerdict<State>,
    /// The effects of the transitions taken, in stream order.
    pub log: Seq<Dispatch<Effect>>,
}

/// The table view of a vector of rows.
pub open spec fn table_view_of<State, Effect, F>(
    table: Seq<(State, Vec<Transition<State, Effect, F>>)>,
) -> TableView<State, Effect, F> where
    State: Eq + PartialEq + Copy,
    Effect: Eq + PartialEq + Copy,
    F: Fn(char) -> bool + Copy,
{
    table.map_values(|row: (State, Vec<Transition<State, Effect, F>>)| (row.0, row.1@))
}

/// The position of the first table row registered under `s`, if any.
pub open spec fn spec_lookup_index<State, Effect, F>(
    table: TableView<State, Effect, F>,
    s: State,
) -> Option<int> where
    State: Eq + PartialEq + Copy,
    Effect: Eq + PartialEq + Copy,
    F: Fn(char) -> bool + Copy,
    decreases table.len(),
{
    if table.len() == 0 {
        None
    } else if table[0].0 == s {
        Some(0)
    } else {
        match spec_lookup_index(table.drop_first(), s) {
            Some(k) => Some(k + 1),
            None => None,
        }
    }
}

/// [`spec_lookup_index`] names the first row keyed by `s`, and
/// [`spec_lookup`] is that row's transition list.
pub proof fn lemma_lookup_first_index<State, Effect, F>(
    table: TableView<State, Effect, F>,
    s: State,
) where
    State: Eq + PartialEq + Copy,
    Effect: Eq + PartialEq + Copy,
    F: Fn(char) -> bool + Copy,
    ensures
        match spec_lookup_index(table, s) {
            Some(k) => {
                &&& 0 <= k < table.len()
                &&& table[k].0 == s
                &&& forall|j: int| 0 <= j < k ==> table[j].0 != s
                &&& spec_lookup(table, s) == Some(table[k].1)
            },
            None => {
                &&& forall|j: int| 0 <= j < table.len() ==> table[j].0 != s
                &&& spec_lookup(table, s) is None
            },
        },
    decreases table.len(),
{
    if table.len() == 0 {
    } else if table[0].0 == s {
    } else {
        let sub = table.drop_first();
        lemma_lookup_first_index(sub, s);
        assert(forall|j: int| 1 <= j < table.len() ==> table[j] == sub[j - 1]);
    }
}

/// The row of the first table entry registered under `s`, if any.
pub open spec fn spec_lookup<State, Effect, F>(
    table: TableView<State, Effect, F>,
    s: State,
) -> Option<Seq<Transition<State, Effect, F>>> where
    State: Eq + PartialEq + Copy,
    Effect: Eq + PartialEq + Copy,
    F: Fn(char) -> bool + Copy,
    decreases table.len(),
{
    if table.len() == 0 {
        None
    } else if table[0].0 == s {
        Some(table[0].1)
    } else {
        spec_lookup(table.drop_first(), s)
    }
}

/// The first transition of `ts` that matches `ch`, as target state and
/// effect; `None` when no transition matches.
pub open spec fn spec_scan<State, Effect, F>(
    ts: Seq<Transition<State, Effect, F>>,
    ch: char,
) -> Option<(State, Option<Effect>)> where
    State: Eq + PartialEq + Copy,
    Effect: Eq + PartialEq + Copy,
    F: Fn(char) -> bool + Copy,
    decreases ts.len(),
{
    if ts.len() == 0 {
        None
    } else {
        match spec_transit(ts[0], ch) {
            (Some(s2), eff) => Some((s2, eff)),
            (None, _) => spec_scan(ts.drop_first(), ch),
        }
    }
}

/// What one consumed character adds to the dispatch log: one entry carrying
/// the taken transition's effect, position and character, or nothing when
/// the transition carries no effect.
pub open spec fn step_log<Effect>(eff: Option<Effect>, i: int, ch: char) -> Seq<
    Dispatch<Effect>,
> where Effect: Eq + PartialEq + Copy {
    match eff {
        Some(e) => seq![Dispatch { effect: e, index: i as usize, character: ch }],
        None => Seq::empty(),
    }
}

/// The run of the machine over `chars`, starting in state `s` at position
/// `i`: consult the table at each position, take the first matching
/// transition, record its effect, and stop at the first failure.
pub open spec fn spec_run_from<State, Effect, F>(
    table: TableView<State, Effect, F>,
    s: State,
    chars: Seq<char>,
    i: int,
) -> RunModel<State, Effect> where
    State: Eq + PartialEq + Copy,
    Effect: Eq + PartialEq + Copy,
    F: Fn(char) -> bool + Copy,
    decreases chars.len() - i,
{
    if i < 0 || i >= chars.len() {
        RunModel { verdict: RunVerdict::Accepted, log: Seq::empty() }
    } else {
        let ch = chars[i];
        match spec_lookup(table, s) {
            None => RunModel {
                verdict: RunVerdict::MissingState { state: s, index: i },
                log: Seq::empty(),
            },
            Some(ts) => match spec_scan(ts, ch) {
                None => RunModel {
                    verdict: RunVerdict::Rejected { from: s, index: i, character: ch },
                    log: Seq::empty(),
                },
                Some((s2, eff)) => {
                    let rest = spec_run_from(table, s2, chars, i + 1);
                    RunModel { verdict: rest.verdict, log: step_log(eff, i, ch) + rest.log }
                },
            },
        }
    }
}

/// A failure of effect merging, as the specification describes it.
pub enum MergeError<State> where State: Eq + PartialEq + Copy {
    /// A state named by the connection has no row in the table.
    StateMissing(State),
    /// No transition leads from the connection's source to its destination,
    /// or more effects were supplied than there are such transitions.
    TransitionMissing(StatesConnection<State>),
}

/// How many of the first `upto` transitions of `ts` lead to `to`.
pub open spec fn count_matches<State, Effect, F>(
    ts: Seq<Transition<State, Effect, F>>,
    to: State,
    upto: int,
) -> int where
    State: Eq + PartialEq + Copy,
    Effect: Eq + PartialEq + Copy,
    F: Fn(char) -> bool + Copy,
    decreases upto,
{
    if upto <= 0 {
        0
    } else {
        count_matches(ts, to, upto - 1) + if ts[upto - 1].to == to {
            1int
        } else {
            0int
        }
    }
}

/// The transition list `ts` with `effects` attached, in order, to the
/// transitions leading to `to`: the first such transition receives
/// `effects[0]`, the second `effects[1]`, and so on; transitions beyond the
/// supplied effects, and transitions to other states, keep the effect they
/// had.
pub open spec fn spec_assign_effects<State, Effect, F>(
    ts: Seq<Transition<State, Effect, F>>,
    to: State,
    effects: Seq<Effect>,
) -> Seq<Transition<State, Effect, F>> where
    State: Eq + PartialEq + Copy,
    Effect: Eq + PartialEq + Copy,
    F: Fn(char) -> bool + Copy,
{
    Seq::new(
        ts.len(),
        |j: int|
            if ts[j].to == to && count_matches(ts, to, j) < effects.len() {
                Transition {
                    to: ts[j].to,
                    condition: ts[j].condition,
                    effect: Some(effects[count_matches(ts, to, j)]),
                }
            } else {
                ts[j]
            },
    )
}

/// One step of effect merging: the table after attaching `effects` to the
/// transitions between the states of `conn`, or the error that the entry
/// raises. The destination is checked first, then the source; an entry with
/// no matching transition, or with more effects than matching transitions,
/// fails without changing the table.
pub open spec fn spec_merge_entry<State, Effect, F>(
    table: TableView<State, Effect, F>,
    conn: StatesConnection<State>,
    effects: Seq<Effect>,
) -> Result<TableView<State, Effect, F>, MergeError<State>> where
    State: Eq + PartialEq + Copy,
    Effect: Eq + PartialEq + Copy,
    F: Fn(char) -> bool + Copy,
{
    if spec_lookup(table, conn.to) is None {
        Err(MergeError::StateMissing(conn.to))
    } else {
        match spec_lookup_index(table, conn.from) {
            None => Err(MergeError::StateMissing(conn.from)),
            Some(k) => {
                let ts = table[k].1;
                let m = count_matches(ts, conn.to, ts.len() as int);
                if m == 0 || effects.len() > m {
                    Err(MergeError::TransitionMissing(conn))
                } else {
                    Ok(table.update(k, (table[k].0, spec_assign_effects(ts, conn.to, effects))))
                }
            },
        }
    }
}

/// Effect merging from entry `i` on: entries are applied in list order, and
/// the first failing entry stops the merge, leaving the table as the
/// entries before it made it.
pub open spec fn spec_merge_from<State, Effect, F>(
    table: TableView<State, Effect, F>,
    entries: Seq<(StatesConnection<State>, Seq<Effect>)>,
    i: int,
) -> (TableView<State, Effect, F>, Option<MergeError<State>>) where
    State: Eq + PartialEq + Copy,
    Effect: Eq + PartialEq + Copy,
    F: Fn(char) -> bool + Copy,
    decreases entries.len() - i,
{
    if i < 0 || i >= entries.len() {
        (table, None)
    } else {
        match spec_merge_entry(table, entries[i].0, entries[i].1) {
            Ok(t2) => spec_merge_from(t2, entries, i + 1),
            Err(e) => (table, Some(e)),
        }
    }
}

/// The effect map as the specification sees it: the connections with their
/// effect lists, in list order.
pub open spec fn entries_view<State, Effect>(
    m: Seq<(StatesConnection<State>, Vec<Effect>)>,
) -> Seq<(StatesConnection<State>, Seq<Effect>)> where
    State: Eq + PartialEq + Copy,
    Effect: Eq + PartialEq + Copy,
{
    m.map_values(|p: (StatesConnection<State>, Vec<Effect>)| (p.0, p.1@))
}

/// The correspondence between a run's result and the model's verdict —
/// success exactly on acceptance; a missing row reported as the state that
/// lacks one; rejection reported with the first failing position and
/// character and a reference to the input. The verdict determines the
/// result completely: two results that match the same verdict are equal.
pub open spec fn result_matches_verdict<'a, State>(
    v: RunVerdict<State>,
    r: Result<(), FSMError<'a, State>>,
    string: &'a String,
) -> bool where State: Eq + PartialEq + Copy {
    match r {
        Ok(()) => v is Accepted,
        Err(e) => match e {
            FSMError::StateDoesNotExist(s) => v matches RunVerdict::MissingState { state, index }
                && s == state,
            FSMError::NoValidTransition { from, input_data } => {
                &&& v matches RunVerdict::Rejected { from: f, index, character } && from == f
                    && input_data.index as int == index && input_data.character == character
                &&& input_data.string == string
            },
            FSMError::TransitionDoesNotExist(_) => false,
        },
    }
}

/// Every transition of every row of the table is well formed: its condition,
/// if any, is a total and deterministic predicate.
pub open spec fn table_wf<State, Effect, F>(table: TableView<State, Effect, F>) -> bool where
    State: Eq + PartialEq + Copy,
    Effect: Eq + PartialEq + Copy,
    F: Fn(char) -> bool + Copy,
{
    forall|k: int, j: int|
        0 <= k < table.len() && 0 <= j < table[k].1.len() ==> transition_wf(
            #[trigger] table[k].1[j],
        )
}

impl<State, Effect, F> FSM<State, Effect, F> where
    State: Eq + PartialEq + Copy,
    Effect: Eq + PartialEq + Copy,
    F: Fn(char) -> bool + Copy,
{
    /// The transition table as the specification sees it.
    pub open spec fn table(self) -> TableView<State, Effect, F> {
        table_view_of(self.transition_table@)
    }

    /// The machine is well formed when every predicate of its table is a
    /// total and deterministic function of the character.
    pub open spec fn wf(self) -> bool {
        table_wf(self.table())
    }

    /// The model of running this machine over `chars` from its initial
    /// state.
    pub open spec fn run_model(self, chars: Seq<char>) -> RunModel<State, Effect> {
        spec_run_from(self.table(), self.initial_state, chars, 0)
    }

    /// Everything a run over `chars` dispatches, in order: the effects of
    /// the transitions taken and, when the run accepts and a post-effect is
    /// set, the post-effect once, last, at index `chars.len()` with the
    /// `'\0'` sentinel.
    pub open spec fn spec_dispatches(self, chars: Seq<char>) -> Seq<Dispatch<Effect>> {
        let m = self.run_model(chars);
        match self.post_effect {
            Some(p) => if m.verdict is Accepted {
                m.log.push(Dispatch { effect: p, index: chars.len() as usize, character: '\0' })
            } else {
                m.log
            },
            None => m.log,
        }
    }

    /// Creates a new machine from an initial state, a transition table and
    /// an optional post-effect, wrapping the three verbatim; fails when the
    /// table has no row for the initial state.
    pub fn new<'a>(
        initial_state: State,
        transition_table: Vec<(State, Vec<Transition<State, Effect, F>>)>,
        post_effect: Option<Effect>,
    ) -> (r: Result<Self, FSMError<'a, State>>)
        requires
            obeys_concrete_eq::<State>(),
        ensures
            match r {
                Ok(fsm) => {
                    &&& spec_lookup(table_view_of(transition_table@), initial_state) is Some
                    &&& fsm.initial_state == initial_state
                    &&& fsm.transition_table == transition_table
                    &&& fsm.post_effect == post_effect
                },
                Err(e) => {
                    &&& spec_lookup(table_view_of(transition_table@), initial_state) is None
                    &&& e == FSMError::StateDoesNotExist(initial_state)
                },
            },
    {
        proof {
            lemma_lookup_first_index(table_view_of(transition_table@), initial_state);
        }
        match find_row(&transition_table, initial_state) {
            Some(_) => Ok(Self { initial_state, transition_table, post_effect }),
            None => Err(FSMError::StateDoesNotExist(initial_state)),
        }
    }

    /// Attaches the effects of one `(connection, effects)` entry to the
    /// transitions between the connection's states: exactly
    /// [`spec_merge_entry`] of the table, leaving the table unchanged on
    /// failure.
    fn apply_entry<'a>(&mut self, conn: StatesConnection<State>, effects: &Vec<Effect>) -> (r:
        Result<(), FSMError<'a, State>>)
        requires
            obeys_concrete_eq::<State>(),
        ensures
            final(self).initial_state == old(self).initial_state,
            final(self).post_effect == old(self).post_effect,
            table_wf(old(self).table()) ==> table_wf(final(self).table()),
            match spec_merge_entry(old(self).table(), conn, effects@) {
                Ok(t2) => r is Ok && final(self).table() == t2,
                Err(e) => {
                    &&& final(self).table() == old(self).table()
                    &&& match r {
                        Ok(()) => false,
                        Err(re) => match re {
                            FSMError::StateDoesNotExist(s) => e == MergeError::StateMissing(s),
                            FSMError::TransitionDoesNotExist(c) => e
                                == MergeError::TransitionMissing(c),
                            FSMError::NoValidTransition { .. } => false,
                        },
                    }
                },
            },
    {
        proof {
            lemma_lookup_first_index(self.table(), conn.to);
        }
        if find_row(&self.transition_table, conn.to).is_none() {
            return Err(FSMError::StateDoesNotExist(conn.to));
        }
        let k = match find_row(&self.transition_table, conn.from) {
            Some(k) => k,
            None => {
                return Err(FSMError::StateDoesNotExist(conn.from));
            },
        };
        let ghost ts = self.table()[k as int].1;
        proof {
            lemma_lookup_first_index(self.table(), conn.from);
            assert(self.table()[k as int] == (self.transition_table@[k as int].0,
                self.transition_table@[k as int].1@));
        }
        let row_len = self.transition_table[k].1.len();
        let mut m: usize = 0;
        let mut j: usize = 0;
        while j < row_len
            invariant
                obeys_concrete_eq::<State>(),
                *self == *old(self),
                0 <= k < self.transition_table@.len(),
                ts == self.transition_table@[k as int].1@,
                row_len == ts.len(),
                0 <= j <= row_len,
                m <= j,
                m as int == count_matches(ts, conn.to, j as int),
            decreases row_len - j,
        {
            let hit = self.transition_table[k].1[j].to == conn.to;
            proof {
                reveal(vstd::laws_eq::obeys_concrete_eq);
                assert(hit <==> ts[j as int].to == conn.to);
            }
            if hit {
                m += 1;
            }
            j += 1;
        }
        if m == 0 || effects.len() > m {
            return Err(FSMError::TransitionDoesNotExist(conn));
        }
        let ghost assigned = spec_assign_effects(ts, conn.to, effects@);
        let st = self.transition_table[k].0;
        let mut new_ts: Vec<Transition<State, Effect, F>> = Vec::new();
        let mut rank: usize = 0;
        j = 0;
        proof {
            assert(new_ts@ =~= assigned.take(0));
        }
        while j < row_len
            invariant
                obeys_concrete_eq::<State>(),
                *self == *old(self),
                0 <= k < self.transition_table@.len(),
                ts == self.transition_table@[k as int].1@,
                row_len == ts.len(),
                assigned == spec_assign_effects(ts, conn.to, effects@),
                0 <= j <= row_len,
                rank <= j,
                rank as int == count_matches(ts, conn.to, j as int),
                new_ts@ == assigned.take(j as int),
            decreases row_len - j,
        {
            let mut t = self.transition_table[k].1[j];
            let hit = t.to == conn.to;
            proof {
                reveal(vstd::laws_eq::obeys_concrete_eq);
                assert(t == ts[j as int]);
                assert(hit <==> ts[j as int].to == conn.to);
            }
            if hit {
                if rank < effects.len() {
                    t.effect = Some(effects[rank]);
                }
                rank += 1;
            }
            proof {
                assert(t == assigned[j as int]);
                assert(assigned.take(j as int + 1) =~= assigned.take(j as int).push(
                    assigned[j as int]));
            }
            new_ts.push(t);
            j += 1;
        }
        proof {
            assert(new_ts@ =~= assigned);
        }
        self.transition_table[k] = (st, new_ts);
        proof {
            let old_view = old(self).table();
            assert(self.table() =~= old_view.update(k as int, (old_view[k as int].0, assigned)));
            assert(table_wf(old_view) ==> table_wf(self.table())) by {
                if table_wf(old_view) {
                    assert forall|k2: int, j2: int|
                        0 <= k2 < self.table().len() && 0 <= j2 < self.table()[k2].1.len()
                            implies transition_wf(#[trigger] self.table()[k2].1[j2]) by {
                        if k2 == k as int {
                            assert(transition_wf(old_view[k2].1[j2]));
                            assert(self.table()[k2].1[j2].condition == old_view[k2].1[
                                j2].condition);
                        } else {
                            assert(transition_wf(old_view[k2].1[j2]));
                        }
                    }
                }
            }
        }
        Ok(())
    }

    /// Merges effects into the existing machine, state pair by state pair,
    /// aligned to the declared order of each state's transitions.
    ///
    /// Entries are applied in list order: for each `(connection, effects)`
    /// entry, the transitions from `connection.from` to `connection.to`
    /// receive the effects in sequence, first matching transition first —
    /// exactly [`spec_merge_from`] over the map. An entry naming an
    /// unregistered state, or addressing fewer matching transitions than it
    /// supplies effects for, stops the merge with an error, keeping the
    /// changes of the entries before it.
    ///
    /// (This method exists mainly to reuse one transition graph, the
    /// topology, under different effect configurations; for typical cases
    /// build the machine with its effects through [`FSM::new`].)
    pub fn merge_effects<'a>(&mut self, effects_map: &Vec<(StatesConnection<State>, Vec<
        Effect,
    >)>) -> (r: Result<(), FSMError<'a, State>>)
        requires
            obeys_concrete_eq::<State>(),
        ensures
            final(self).initial_state == old(self).initial_state,
            final(self).post_effect == old(self).post_effect,
            old(self).wf() ==> final(self).wf(),
            ({
                let (t2, err) = spec_merge_from(old(self).table(), entries_view(effects_map@), 0);
                &&& final(self).table() == t2
                &&& match r {
                    Ok(()) => err is None,
                    Err(e) => match e {
                        FSMError::StateDoesNotExist(s) => err == Some(
                            MergeError::StateMissing(s),
                        ),
                        FSMError::TransitionDoesNotExist(c) => err == Some(
                            MergeError::TransitionMissing(c),
                        ),
                        FSMError::NoValidTransition { .. } => false,
                    },
                }
            }),
    {
        let ghost entries = entries_view(effects_map@);
        let ghost t0 = self.table();
        let end = effects_map.len();
        let mut i: usize = 0;
        while i < end
            invariant
                obeys_concrete_eq::<State>(),
                end == effects_map@.len(),
                entries == entries_view(effects_map@),
                0 <= i <= end,
                t0 == old(self).table(),
                spec_merge_from(t0, entries, 0) == spec_merge_from(self.table(), entries, i as int),
                self.initial_state == old(self).initial_state,
                self.post_effect == old(self).post_effect,
                table_wf(t0) ==> table_wf(self.table()),
            decreases end - i,
        {
            let conn = effects_map[i].0;
            let effects = &effects_map[i].1;
            proof {
                assert(entries[i as int] == (conn, effects@));
            }
            match self.apply_entry(conn, effects) {
                Ok(()) => {},
                Err(e) => {
                    return Err(e);
                },
            }
            i += 1;
        }
        Ok(())
    }

    /// Runs `string` through the machine and returns, besides the verdict,
    /// everything the run dispatches, in stream order.
    ///
    /// The verdict is exactly the model's: `Ok(())` if and only if every
    /// character was consumed by a matching transition; rejection carries
    /// the first failing position and character; a missing row for the
    /// current state is reported as [`FSMError::StateDoesNotExist`]. The
    /// returned log is exactly [`FSM::spec_dispatches`] of the input.
    pub fn trace<'a>(&self, string: &'a String) -> (r: (
        Result<(), FSMError<'a, State>>,
        Vec<Dispatch<Effect>>,
    ))
        requires
            obeys_concrete_eq::<State>(),
            self.wf(),
        ensures
            r.1@ == self.spec_dispatches(string@),
            result_matches_verdict(self.run_model(string@).verdict, r.0, string),
    {
        let ghost chars = string@;
        let mut log: Vec<Dispatch<Effect>> = Vec::new();
        let mut curr = self.initial_state;
        let n = string.as_str().unicode_len();
        let mut i: usize = 0;
        while i < n
            invariant
                obeys_concrete_eq::<State>(),
                self.wf(),
                n == chars.len(),
                chars == string@,
                0 <= i <= n,
                ({
                    let m0 = spec_run_from(self.table(), self.initial_state, chars, 0);
                    let mi = spec_run_from(self.table(), curr, chars, i as int);
                    m0.verdict == mi.verdict && m0.log == log@ + mi.log
                }),
            decreases n - i,
        {
            let ch = string.as_str().get_char(i);
            proof {
                lemma_lookup_first_index(self.table(), curr);
            }
            let k = match find_row(&self.transition_table, curr) {
                Some(k) => k,
                None => {
                    proof {
                        assert(log@ + spec_run_from(self.table(), curr, chars, i as int).log
                            =~= log@);
                    }
                    return (Err(FSMError::StateDoesNotExist(curr)), log);
                },
            };
            let ts = &self.transition_table[k].1;
            proof {
                let view = self.table();
                let k0 = spec_lookup_index(view, curr)->Some_0;
                assert(k0 == k as int);
                assert(view[k as int] == (self.transition_table@[k as int].0,
                    self.transition_table@[k as int].1@));
                assert(spec_lookup(self.table(), curr) == Some(ts@));
                assert(forall|j: int| 0 <= j < ts@.len() ==> transition_wf(#[trigger] ts@[j]))
                    by {
                    assert(forall|j: int| 0 <= j < ts@.len() ==> ts@[j] == self.table()[
                        k as int].1[j]);
                }
            }
            match scan_list(ts, ch) {
                Some((s2, eff)) => {
                    let ghost log_before = log@;
                    let ghost mi = spec_run_from(self.table(), curr, chars, i as int);
                    let ghost rest = spec_run_from(self.table(), s2, chars, i as int + 1);
                    if let Some(e) = eff {
                        log.push(Dispatch { effect: e, index: i, character: ch });
                    }
                    proof {
                        assert(mi.log =~= step_log(eff, i as int, ch) + rest.log);
                        assert(log_before + mi.log =~= log@ + rest.log);
                        assert(spec_run_from(self.table(), self.initial_state, chars, 0).log
                            == log_before + mi.log);
                    }
                    curr = s2;
                    i += 1;
                },
                None => {
                    proof {
                        assert(log@ + spec_run_from(self.table(), curr, chars, i as int).log
                            =~= log@);
                    }
                    return (
                        (Err(FSMError::NoValidTransition {
                            from: curr,
                            input_data: StreamData { string, index: i, character: ch },
                        })),
                        log,
                    );
                },
            }
        }
        proof {
            assert(log@ + spec_run_from(self.table(), curr, chars, i as int).log =~= log@);
        }
        if let Some(p) = self.post_effect {
            log.push(Dispatch { effect: p, index: n, character: '\0' });
        }
        (Ok(()), log)
    }

    /// Runs `string` through the machine to validate it, dispatching the
    /// effect of every transition taken — and, on full acceptance, the
    /// post-effect once — to `effector`, each with its stream context, in
    /// stream order.
    ///
    /// The verdict is exactly the model's, as for [`FSM::trace`]: `Ok(())`
    /// if and only if every character was consumed by a matching transition,
    /// with rejection carrying the first failing position and character.
    pub fn proceed<'a, E>(&self, string: &'a String, effector: Option<&mut E>) -> (r: Result<
        (),
        FSMError<'a, State>,
    >) where E: Effector<Effect>
        requires
            obeys_concrete_eq::<State>(),
            self.wf(),
        ensures
            result_matches_verdict(self.run_model(string@).verdict, r, string),
    {
        let (result, log) = self.trace(string);
        if let Some(effector) = effector {
            let mut idx: usize = 0;
            let end = log.len();
            while idx < end
                invariant
                    end == log@.len(),
                decreases end - idx,
            {
                let d = log[idx];
                effector.dispatch(d.effect, StreamData {
                    string,
                    index: d.index,
                    character: d.character,
                });
                idx += 1;
            }
        }
        result
    }
}

/// The first transition of `ts` matching `ch`, by evaluating the transitions
/// in declared order and stopping at the first match: exactly [`spec_scan`].
fn scan_list<State, Effect, F>(
    ts: &Vec<Transition<State, Effect, F>>,
    ch: char,
) -> (r: Option<(State, Option<Effect>)>) where
    State: Eq + PartialEq + Copy,
    Effect: Eq + PartialEq + Copy,
    F: Fn(char) -> bool + Copy,
    requires
        forall|j: int| 0 <= j < ts@.len() ==> transition_wf(#[trigger] ts@[j]),
    ensures
        r == spec_scan(ts@, ch),
{
    let n = ts.len();
    let mut j: usize = 0;
    proof {
        assert(ts@.skip(0) =~= ts@);
    }
    while j < n
        invariant
            n == ts@.len(),
            0 <= j <= n,
            forall|j2: int| 0 <= j2 < ts@.len() ==> transition_wf(#[trigger] ts@[j2]),
            spec_scan(ts@, ch) == spec_scan(ts@.skip(j as int), ch),
        decreases n - j,
    {
        let (next, eff) = ts[j].transit(ch);
        proof {
            assert(ts@.skip(j as int)[0] == ts@[j as int]);
            assert(ts@.skip(j as int).drop_first() =~= ts@.skip(j as int + 1));
        }
        if let Some(s2) = next {
            return Some((s2, eff));
        }
        j += 1;
    }
    proof {
        assert(ts@.skip(n as int) =~= Seq::empty());
    }
    None
}

/// The first row of `table` keyed by `s`, as a position, scanning in
/// registration order.
fn find_row<State, Effect, F>(
    table: &Vec<(State, Vec<Transition<State, Effect, F>>)>,
    s: State,
) -> (r: Option<usize>) where
    State: Eq + PartialEq + Copy,
    Effect: Eq + PartialEq + Copy,
    F: Fn(char) -> bool + Copy,
    requires
        obeys_concrete_eq::<State>(),
    ensures
        match r {
            Some(k) => spec_lookup_index(table_view_of(table@), s) == Some(k as int),
            None => spec_lookup_index(table_view_of(table@), s) is None,
        },
{
    proof {
        lemma_lookup_first_index(table_view_of(table@), s);
    }
    let ghost view = table_view_of(table@);
    let n = table.len();
    let mut k: usize = 0;
    while k < n
        invariant
            obeys_concrete_eq::<State>(),
            n == table@.len(),
            view == table_view_of(table@),
            0 <= k <= n,
            forall|j: int| 0 <= j < k ==> view[j].0 != s,
            match spec_lookup_index(view, s) {
                Some(i) => 0 <= i < view.len() && view[i].0 == s && forall|j: int|
                    0 <= j < i ==> view[j].0 != s,
                None => forall|j: int| 0 <= j < view.len() ==> view[j].0 != s,
            },
        decreases n - k,
    {
        let hit = table[k].0 == s;
        proof {
            reveal(vstd::laws_eq::obeys_concrete_eq);
            assert(view[k as int].0 == table@[k as int].0);
            assert(hit <==> view[k as int].0 == s);
        }
        if hit {
            return Some(k);
        }
        k += 1;
    }
    None
}

} // verus!
