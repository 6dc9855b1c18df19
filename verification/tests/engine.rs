//! The engine's own behaviour on small machines: construction and merge
//! errors, exact dispatch traces, the first-match tie-break, rejection
//! positions, and the post-effect firing once, only on full acceptance.

use mealy_fsm::{Dispatch, Effector, FSM, FSMError, StatesConnection, StreamData, Transition};

type Pred = fn(char) -> bool;

/// An effector that records every dispatch it receives, in order.
struct Recorder {
    seen: Vec<(u8, usize, char)>,
}

impl Effector<u8> for Recorder {
    fn dispatch(&mut self, effect: u8, input_data: StreamData) {
        self.seen.push((effect, input_data.index, input_data.character));
    }
}

fn is_a(ch: char) -> bool {
    ch == 'a'
}

fn is_vowel(ch: char) -> bool {
    "aeiou".contains(ch)
}

fn is_letter(ch: char) -> bool {
    ch.is_ascii_alphabetic()
}

/// One state that loops on 'a' with effect 1, with post-effect 9.
fn loop_fsm() -> FSM<u8, u8, Pred> {
    let table: Vec<(u8, Vec<Transition<u8, u8, Pred>>)> =
        vec![(0, vec![Transition::new(0, Some(is_a), Some(1))])];
    FSM::new(0, table, Some(9)).unwrap()
}

#[test]
fn empty_string_is_accepted_and_post_effect_fires_at_zero() {
    let fsm = loop_fsm();
    let s = String::new();
    let (result, log) = fsm.trace(&s);
    assert!(result.is_ok());
    assert_eq!(log, vec![Dispatch { effect: 9, index: 0, character: '\0' }]);

    let mut rec = Recorder { seen: Vec::new() };
    assert!(fsm.proceed(&s, Some(&mut rec)).is_ok());
    assert_eq!(rec.seen, vec![(9, 0, '\0')]);
}

#[test]
fn trace_reports_each_effect_with_its_position() {
    let fsm = loop_fsm();
    let s = String::from("aaa");
    let (result, log) = fsm.trace(&s);
    assert!(result.is_ok());
    assert_eq!(
        log,
        vec![
            Dispatch { effect: 1, index: 0, character: 'a' },
            Dispatch { effect: 1, index: 1, character: 'a' },
            Dispatch { effect: 1, index: 2, character: 'a' },
            Dispatch { effect: 9, index: 3, character: '\0' },
        ]
    );
}

#[test]
fn repeated_runs_agree() {
    let fsm = loop_fsm();
    let ok = String::from("aa");
    let bad = String::from("ab");
    let (r1, log1) = fsm.trace(&ok);
    let (r2, log2) = fsm.trace(&ok);
    assert_eq!(r1.is_ok(), r2.is_ok());
    assert_eq!(log1, log2);

    for _ in 0..2 {
        match fsm.trace(&bad).0 {
            Err(FSMError::NoValidTransition { from, input_data }) => {
                assert_eq!(from, 0);
                assert_eq!(input_data.index, 1);
                assert_eq!(input_data.character, 'b');
            },
            other => panic!("unexpected result: {:?}", other),
        }
    }
}

#[test]
fn first_match_wins_on_overlapping_predicates() {
    // 'a' is both a vowel and a letter: the earlier transition's effect fires
    let table: Vec<(u8, Vec<Transition<u8, u8, Pred>>)> = vec![(
        0,
        vec![
            Transition::new(0, Some(is_vowel), Some(1)),
            Transition::new(0, Some(is_letter), Some(2)),
        ],
    )];
    let fsm = FSM::new(0, table, None).unwrap();

    let s = String::from("ax");
    let (result, log) = fsm.trace(&s);
    assert!(result.is_ok());
    assert_eq!(
        log,
        vec![
            Dispatch { effect: 1, index: 0, character: 'a' },
            Dispatch { effect: 2, index: 1, character: 'x' },
        ]
    );
}

#[test]
fn unconditional_fallback_shadows_later_transitions() {
    // the fallback placed first always matches: the edge after it never fires
    let table: Vec<(u8, Vec<Transition<u8, u8, Pred>>)> = vec![(
        0,
        vec![Transition::new(0, None, Some(1)), Transition::new(0, Some(is_a), Some(2))],
    )];
    let fsm = FSM::new(0, table, None).unwrap();
    let s = String::from("a");
    let (result, log) = fsm.trace(&s);
    assert!(result.is_ok());
    assert_eq!(log, vec![Dispatch { effect: 1, index: 0, character: 'a' }]);
}

#[test]
fn post_effect_never_fires_on_rejection() {
    let fsm = loop_fsm();
    let mut rec = Recorder { seen: Vec::new() };
    let s = String::from("ab");
    let result = fsm.proceed(&s, Some(&mut rec));
    assert!(result.is_err());
    // the dispatches before the failing position are kept; no post-effect
    assert_eq!(rec.seen, vec![(1, 0, 'a')]);
}

#[test]
fn construction_fails_for_unregistered_initial_state() {
    let table: Vec<(u8, Vec<Transition<u8, u8, Pred>>)> =
        vec![(0, vec![Transition::new(0, Some(is_a), None)])];
    match FSM::new(3, table, None) {
        Err(FSMError::StateDoesNotExist(s)) => assert_eq!(s, 3),
        other => panic!("unexpected result: {:?}", other.map(|_| ())),
    }
}

#[test]
fn run_reports_a_destination_that_was_never_registered() {
    // state 1 is reachable but has no row of its own
    let table: Vec<(u8, Vec<Transition<u8, u8, Pred>>)> =
        vec![(0, vec![Transition::new(1, Some(is_a), None)])];
    let fsm = FSM::new(0, table, None).unwrap();
    match fsm.trace(&String::from("aa")).0 {
        Err(FSMError::StateDoesNotExist(s)) => assert_eq!(s, 1),
        other => panic!("unexpected result: {:?}", other),
    }
}

fn two_edges_fsm() -> FSM<u8, u8, Pred> {
    // two transitions from 0 to 1, then a way back
    let table: Vec<(u8, Vec<Transition<u8, u8, Pred>>)> = vec![
        (
            0,
            vec![
                Transition::new(1, Some(is_vowel), None),
                Transition::new(1, Some(is_letter), None),
            ],
        ),
        (1, vec![Transition::new(0, None, None)]),
    ];
    FSM::new(0, table, None).unwrap()
}

#[test]
fn merge_assigns_effects_in_declared_transition_order() {
    let mut fsm = two_edges_fsm();
    let entries = vec![(StatesConnection { from: 0, to: 1 }, vec![11u8, 22u8])];
    assert!(fsm.merge_effects(&entries).is_ok());

    // 'a' takes the first (vowel) edge, 'x' the second (letter) edge
    let s = String::from("a");
    let (result, log) = fsm.trace(&s);
    assert!(result.is_ok());
    assert_eq!(log, vec![Dispatch { effect: 11, index: 0, character: 'a' }]);

    let s2 = String::from("x");
    let (result, log) = fsm.trace(&s2);
    assert!(result.is_ok());
    assert_eq!(log, vec![Dispatch { effect: 22, index: 0, character: 'x' }]);
}

#[test]
fn merge_with_fewer_effects_keeps_the_remaining_transitions() {
    let mut fsm = two_edges_fsm();
    let entries = vec![(StatesConnection { from: 0, to: 1 }, vec![11u8])];
    assert!(fsm.merge_effects(&entries).is_ok());

    let s = String::from("a");
    let (result, log) = fsm.trace(&s);
    assert!(result.is_ok());
    assert_eq!(log, vec![Dispatch { effect: 11, index: 0, character: 'a' }]);

    // the second matching transition keeps its (absent) effect
    let s2 = String::from("x");
    let (result, log) = fsm.trace(&s2);
    assert!(result.is_ok());
    assert_eq!(log, vec![]);
}

#[test]
fn merge_fails_when_the_destination_is_unregistered() {
    let mut fsm = two_edges_fsm();
    let entries = vec![(StatesConnection { from: 0, to: 7 }, vec![11u8])];
    match fsm.merge_effects(&entries) {
        Err(FSMError::StateDoesNotExist(s)) => assert_eq!(s, 7),
        other => panic!("unexpected result: {:?}", other),
    }
}

#[test]
fn merge_fails_when_the_source_is_unregistered() {
    let mut fsm = two_edges_fsm();
    let entries = vec![(StatesConnection { from: 7, to: 1 }, vec![11u8])];
    match fsm.merge_effects(&entries) {
        Err(FSMError::StateDoesNotExist(s)) => assert_eq!(s, 7),
        other => panic!("unexpected result: {:?}", other),
    }
}

#[test]
fn merge_fails_when_no_transition_connects_the_states() {
    let mut fsm = two_edges_fsm();
    // both states exist, but nothing leads from 1 to 1
    let entries = vec![(StatesConnection { from: 1, to: 1 }, vec![11u8])];
    match fsm.merge_effects(&entries) {
        Err(FSMError::TransitionDoesNotExist(conn)) => {
            assert_eq!(conn.from, 1);
            assert_eq!(conn.to, 1);
        },
        other => panic!("unexpected result: {:?}", other),
    }
}

#[test]
fn merge_fails_with_more_effects_than_matching_transitions() {
    let mut fsm = two_edges_fsm();
    let entries = vec![(StatesConnection { from: 0, to: 1 }, vec![11u8, 22u8, 33u8])];
    match fsm.merge_effects(&entries) {
        Err(FSMError::TransitionDoesNotExist(conn)) => {
            assert_eq!(conn.from, 0);
            assert_eq!(conn.to, 1);
        },
        other => panic!("unexpected result: {:?}", other),
    }
}

#[test]
fn failed_merge_keeps_the_entries_before_the_failing_one() {
    let mut fsm = two_edges_fsm();
    let entries = vec![
        (StatesConnection { from: 0, to: 1 }, vec![11u8, 22u8]),
        (StatesConnection { from: 1, to: 9 }, vec![33u8]),
    ];
    assert!(fsm.merge_effects(&entries).is_err());

    // the first entry was applied before the second failed
    let s = String::from("a");
    let (result, log) = fsm.trace(&s);
    assert!(result.is_ok());
    assert_eq!(log, vec![Dispatch { effect: 11, index: 0, character: 'a' }]);
}
