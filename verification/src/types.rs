//! The building blocks of an automaton: character predicates, transitions,
//! per-character stream context, and the effector capability.

use vstd::prelude::*;

verus! {

/// What it means, at the specification level, for a predicate to accept a
/// character: `true` is a permitted result of calling `p` on `ch`.
///
/// For a deterministic predicate (see [`pred_deterministic`]) this pins the
/// result of every call down exactly.
pub open spec fn pred_accepts<F: Fn(char) -> bool>(p: F, ch: char) -> bool {
    call_ensures(p, (ch,), true)
}

/// A predicate is total: it may be called on every character.
pub open spec fn pred_total<F: Fn(char) -> bool>(p: F) -> bool {
    forall|ch: char| #[trigger] call_requires(p, (ch,))
}

/// A predicate is deterministic: for each character it permits at most one
/// result. A pure function of the character, as transition conditions are
/// meant to be, satisfies this.
pub open spec fn pred_deterministic<F: Fn(char) -> bool>(p: F) -> bool {
    forall|ch: char, r1: bool, r2: bool|
        #![trigger call_ensures(p, (ch,), r1), call_ensures(p, (ch,), r2)]
        call_ensures(p, (ch,), r1) && call_ensures(p, (ch,), r2) ==> r1 == r2
}

/// A predicate that is both total and deterministic behaves as the pure
/// function `char -> bool` that the engine expects.
pub open spec fn pred_wf<F: Fn(char) -> bool>(p: F) -> bool {
    pred_total(p) && pred_deterministic(p)
}

/// A directed edge of the transition graph: a target state, an optional
/// predicate guarding the edge, and an optional effect tag dispatched when
/// the edge is taken. An edge without a condition matches every character
/// and serves as a fallback; it must stand last in its state's list, or it
/// shadows the edges after it.
#[derive(Clone, Copy)]
pub struct Transition<State, Effect, F> where
    State: Eq + PartialEq + Copy,
    Effect: Eq + PartialEq + Copy,
    F: Fn(char) -> bool + Copy,
{
    /// Predicate that validates the current character of the stream;
    /// `None` makes the transition unconditional.
    pub condition: Option<F>,
    /// Next state.
    pub to: State,
    /// Side effect dispatched after a successful match; `None` means none.
    pub effect: Option<Effect>,
}

/// A transition is well formed when its condition, if any, is a total and
/// deterministic predicate.
pub open spec fn transition_wf<State, Effect, F>(t: Transition<State, Effect, F>) -> bool where
    State: Eq + PartialEq + Copy,
    Effect: Eq + PartialEq + Copy,
    F: Fn(char) -> bool + Copy,
{
    match t.condition {
        Some(p) => pred_wf(p),
        None => true,
    }
}

/// The outcome of evaluating a transition against a character: the target
/// state and the effect when the edge matches, `(None, None)` otherwise.
pub open spec fn spec_transit<State, Effect, F>(
    t: Transition<State, Effect, F>,
    ch: char,
) -> (Option<State>, Option<Effect>) where
    State: Eq + PartialEq + Copy,
    Effect: Eq + PartialEq + Copy,
    F: Fn(char) -> bool + Copy,
{
    match t.condition {
        Some(p) => if pred_accepts(p, ch) {
            (Some(t.to), t.effect)
        } else {
            (None, None)
        },
        None => (Some(t.to), t.effect),
    }
}

impl<State, Effect, F> Transition<State, Effect, F> where
    State: Eq + PartialEq + Copy,
    Effect: Eq + PartialEq + Copy,
    F: Fn(char) -> bool + Copy,
{
    /// Creates a new transition to `to`, guarded by `condition`, carrying
    /// `effect`.
    pub fn new(to: State, condition: Option<F>, effect: Option<Effect>) -> (t: Self)
        ensures
            t.to == to,
            t.condition == condition,
            t.effect == effect,
    {
        Self { to, condition, effect }
    }

    /// Matches the next state and side effect for the current character:
    /// exactly [`spec_transit`] of this transition and the character.
    pub fn transit(&self, ch: char) -> (r: (Option<State>, Option<Effect>))
        requires
            transition_wf(*self),
        ensures
            r == spec_transit(*self, ch),
    {
        match self.condition {
            Some(condition) => {
                if condition(ch) {
                    (Some(self.to), self.effect)
                } else {
                    proof {
                        assert(!pred_accepts(condition, ch)) by {
                            if call_ensures(condition, (ch,), true) {
                                assert(false);
                            }
                        }
                    }
                    (None, None)
                }
            },
            None => (Some(self.to), self.effect),
        }
    }
}

/// Read-only stream context handed to the effector on each dispatch: the
/// full input string, the current character position, and the current
/// character. For the post-effect dispatch the index equals the string's
/// character length and the character is the `'\0'` sentinel.
#[derive(Copy, Clone, Debug)]
pub struct StreamData<'a> {
    /// Reference to the input string.
    pub string: &'a String,
    /// Current character position in the input string.
    pub index: usize,
    /// Current character of the input string.
    pub character: char,
}

/// A pair of states used purely as a lookup key when attaching effects in
/// bulk to the transitions between `from` and `to`.
#[derive(Copy, Clone, Debug, PartialEq, Eq)]
pub struct StatesConnection<State> where State: Eq + PartialEq + Copy {
    /// Source state of the transitions addressed.
    pub from: State,
    /// Destination state of the transitions addressed.
    pub to: State,
}

/// The capability through which the engine delivers side effects: an
/// external sink that receives each dispatched effect together with its
/// stream context and mutates caller-owned state. The engine promises
/// nothing about the sink's behaviour; callers implement it.
pub trait Effector<Effect> where Effect: Eq + PartialEq + Copy {
    /// Applies one side effect, given the stream context it was produced in.
    fn dispatch(&mut self, effect: Effect, input_data: StreamData<'_>);
}

} // verus!
