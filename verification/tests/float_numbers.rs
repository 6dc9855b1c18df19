//! A float-recognizing automaton exercised through the public run contract:
//! accepted and rejected strings, with exact rejection positions.

use mealy_fsm::{Effector, FSM, FSMError, StreamData, Transition};

type Pred = fn(char) -> bool;

#[allow(non_camel_case_types)]
#[derive(Eq, PartialEq, Clone, Copy, Hash, Debug)]
enum State {
    INIT,
    SIGN,
    INTEGER_PART,
    FRACTION_PART,
    ZERO,
}

struct NoopEffector;

impl Effector<u8> for NoopEffector {
    fn dispatch(&mut self, _effect: u8, _input_data: StreamData) {}
}

fn is_sign(ch: char) -> bool {
    ch == '+' || ch == '-'
}

fn is_nonzero_digit(ch: char) -> bool {
    ('1'..='9').contains(&ch)
}

fn is_digit(ch: char) -> bool {
    ('0'..='9').contains(&ch)
}

fn is_zero(ch: char) -> bool {
    ch == '0'
}

fn is_dot(ch: char) -> bool {
    ch == '.'
}

fn setup_fsm() -> FSM<State, u8, Pred> {
    let table: Vec<(State, Vec<Transition<State, u8, Pred>>)> = vec![
        (
            State::INIT,
            vec![
                Transition::new(State::SIGN, Some(is_sign), None),
                Transition::new(State::INTEGER_PART, Some(is_nonzero_digit), None),
                Transition::new(State::ZERO, Some(is_zero), None),
            ],
        ),
        (
            State::SIGN,
            vec![
                Transition::new(State::INTEGER_PART, Some(is_nonzero_digit), None),
                Transition::new(State::ZERO, Some(is_zero), None),
            ],
        ),
        (
            State::INTEGER_PART,
            vec![
                Transition::new(State::INTEGER_PART, Some(is_digit), None),
                Transition::new(State::FRACTION_PART, Some(is_dot), None),
            ],
        ),
        (
            State::FRACTION_PART,
            vec![Transition::new(State::FRACTION_PART, Some(is_digit), None)],
        ),
        (
            State::ZERO,
            vec![Transition::new(State::FRACTION_PART, Some(is_dot), None)],
        ),
    ];

    let fsm = FSM::new(State::INIT, table, None);
    assert!(fsm.is_ok());
    fsm.unwrap()
}

fn test_valid_string(fsm: &FSM<State, u8, Pred>, string: &String, effector: Option<&mut NoopEffector>) {
    let result = fsm.proceed(string, effector);

    if result.is_err() {
        println!("\n========\n\n{:?}\n\n=========\n", result.unwrap_err());
        panic!("string was rejected");
    }

    assert!(result.is_ok());
}

fn test_invalid_string(
    fsm: &FSM<State, u8, Pred>,
    string: &String,
    index: usize,
    character: char,
    effector: Option<&mut NoopEffector>,
) {
    let result = fsm.proceed(string, effector);
    assert!(result.is_err());

    let error_from_res = result.unwrap_err();

    match error_from_res {
        FSMError::NoValidTransition { input_data, .. } => {
            assert_eq!(input_data.index, index);
            assert_eq!(input_data.character, character);
        },
        other => panic!("unexpected error: {:?}", other),
    }

    println!("\n========\n\n{:?}\n\n=========\n", error_from_res);
}

#[test]
fn float_numbers_it_validates_float_numbers() {
    let fsm = setup_fsm();

    {
        let string = String::from("0");
        test_valid_string(&fsm, &string, None);
    }

    {
        let string = String::from("12345");
        test_valid_string(&fsm, &string, None);
    }

    {
        let string = String::from("+12345");
        test_valid_string(&fsm, &string, None);
    }

    {
        let string = String::from("-12345");
        test_valid_string(&fsm, &string, None);
    }

    {
        let string = String::from("12345.9876");
        test_valid_string(&fsm, &string, None);
    }

    {
        let string = String::from("-12345.9876");
        test_valid_string(&fsm, &string, None);
    }

    {
        let string = String::from("+12345.9876");
        test_valid_string(&fsm, &string, None);
    }

    {
        let string = String::from("0.12345");
        test_valid_string(&fsm, &string, None);
    }

    {
        let string = String::from("-0.12345");
        test_valid_string(&fsm, &string, None);
    }

    {
        let string = String::from("+0.12345");
        test_valid_string(&fsm, &string, None);
    }
}

#[test]
fn float_numbers_it_invalidates_incorrect_string() {
    let fsm = setup_fsm();

    // From INIT state
    {
        let string = String::from("w1234");
        test_invalid_string(&fsm, &string, 0, 'w', None);
    }

    // From SIGN state
    {
        let string = String::from("++1234");
        test_invalid_string(&fsm, &string, 1, '+', None);
    }

    // From INTEGER_PART state
    {
        let string = String::from("1110b");
        test_invalid_string(&fsm, &string, 4, 'b', None);
    }

    // From ZERO state
    {
        let string = String::from("001234");
        test_invalid_string(&fsm, &string, 1, '0', None);
    }

    // From FRACTION_PART state
    {
        let string = String::from("12..0126");
        test_invalid_string(&fsm, &string, 3, '.', None);
    }
}

#[test]
fn tests_it_validates_float_numbers() {
    let fsm = setup_fsm();

    test_valid_string(&fsm, &String::from("12345"), None);
    test_valid_string(&fsm, &String::from("+12345"), None);
    test_valid_string(&fsm, &String::from("-12345"), None);
    test_valid_string(&fsm, &String::from("12345.9876"), None);
    test_valid_string(&fsm, &String::from("-12345.9876"), None);
    test_valid_string(&fsm, &String::from("+12345.9876"), None);
    test_valid_string(&fsm, &String::from("0.12345"), None);
    test_valid_string(&fsm, &String::from("-0.12345"), None);
    test_valid_string(&fsm, &String::from("+0.12345"), None);
}

#[test]
fn tests_it_invalidates_incorrect_string() {
    let fsm = setup_fsm();

    test_invalid_string(&fsm, &String::from("w1234"), 0, 'w', None);
    test_invalid_string(&fsm, &String::from("++1234"), 1, '+', None);
    test_invalid_string(&fsm, &String::from("1110b"), 4, 'b', None);
    test_invalid_string(&fsm, &String::from("001234"), 1, '0', None);
    test_invalid_string(&fsm, &String::from("12..0126"), 3, '.', None);
}
