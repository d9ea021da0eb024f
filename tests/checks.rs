use state_machine_builder::checks::{
    validate, validate_end_states, validate_legal_variable_name, validate_unique_elements,
};
use state_machine_builder::state_machines::{
    select_machine, Machine, MooreMachine, MooreOutputFunction, MooreTransition, StateMachine,
};

fn strings(items: &[&str]) -> Vec<String> {
    items.iter().map(|s| s.to_string()).collect()
}

fn transition(from: &str, read: &[&str], to: &str) -> MooreTransition {
    MooreTransition {
        current_state: from.to_string(),
        read_symbol: strings(read),
        new_state: to.to_string(),
    }
}

fn output(state: &str, symbol: &str) -> MooreOutputFunction {
    MooreOutputFunction { current_state: state.to_string(), output_symbol: symbol.to_string() }
}

fn create_moore_machine() -> MooreMachine {
    Machine {
        states: strings(&["A", "B", "C"]),
        input_alphabet: strings(&["a", "b"]),
        output_alphabet: strings(&["o0", "o1"]),
        transitions: vec![
            transition("A", &["a"], "B"),
            transition("B", &["b"], "C"),
            transition("C", &["a", "b"], "A"),
        ],
        output_function: vec![output("A", "o0"), output("B", "o1")],
        start_state: "A".to_string(),
        end_states: strings(&["C"]),
    }
}

fn parse_moore(machine: MooreMachine) -> StateMachine {
    select_machine(Some(machine), None).unwrap()
}

#[test]
fn test_validate_unique_elements() {
    let machine = &create_moore_machine();

    assert!(validate_unique_elements(&machine).is_ok());
}

#[test]
fn test_validate_unique_elements_duplicate_states() {
    let mut machine = create_moore_machine();
    machine.states = vec!["A".to_string(), "B".to_string(), "A".to_string()];

    assert!(validate_unique_elements(&machine).is_err());
}

#[test]
fn test_validate_unique_elements_duplicate_input_alphabet() {
    let mut machine = create_moore_machine();
    machine.input_alphabet = vec!["a".to_string(), "b".to_string(), "a".to_string()];

    assert!(validate_unique_elements(&machine).is_err());
}

#[test]
fn test_validate_unique_elements_duplicate_output_alphabet() {
    let mut machine = create_moore_machine();
    machine.output_alphabet = vec!["o0".to_string(), "o1".to_string(), "o0".to_string()];

    assert!(validate_unique_elements(&machine).is_err());
}

#[test]
fn test_validate_end_states() {
    let machine = &create_moore_machine();

    assert!(validate_end_states(&machine).is_ok());
}

#[test]
fn test_validate_end_states_not_subset() {
    let mut machine = create_moore_machine();
    machine.states = vec!["A".to_string(), "B".to_string()];
    machine.end_states = vec!["C".to_string()];

    assert!(validate_end_states(&machine).is_err());
}

#[test]
fn test_validate_legal_variable_name() {
    let machine = &create_moore_machine();

    assert!(validate_legal_variable_name(&machine).is_ok());
}

#[test]
fn test_validate_legal_variable_name_state_starts_with_number() {
    let mut machine = create_moore_machine();
    machine.states = vec!["1".to_string(), "B".to_string()];

    assert!(validate_legal_variable_name(&machine).is_err());
}

#[test]
fn test_validate_legal_variable_name_state_empty() {
    let mut machine = create_moore_machine();
    machine.states = vec!["".to_string(), "B".to_string()];

    assert!(validate_legal_variable_name(&machine).is_err());
}

#[test]
fn test_validate_legal_variable_name_input_starts_with_number() {
    let mut machine = create_moore_machine();
    machine.input_alphabet = vec!["1".to_string(), "b".to_string()];

    assert!(validate_legal_variable_name(&machine).is_err());
}

#[test]
fn test_config_moore() {
    let state_machine = parse_moore(create_moore_machine());

    let val = match state_machine {
        StateMachine::Moore(m) => validate_unique_elements(&m),
        _ => panic!("Wrong state machine type."),
    };

    assert!(val.is_ok());
}

#[test]
fn test_end_states_moore() {
    let state_machine = parse_moore(create_moore_machine());

    let val = match state_machine {
        StateMachine::Moore(m) => validate_end_states(&m),
        _ => panic!("Wrong state machine type."),
    };

    assert!(val.is_ok());
}

#[test]
fn test_validate_legal_variable_name_moore() {
    let state_machine = parse_moore(create_moore_machine());

    let val = match state_machine {
        StateMachine::Moore(m) => validate_legal_variable_name(&m),
        _ => panic!("Wrong state machine type."),
    };

    assert!(val.is_ok());
}

#[test]
fn duplicate_across_roles_is_named() {
    let mut machine = create_moore_machine();
    machine.input_alphabet = strings(&["a", "B"]);

    assert_eq!(
        validate_unique_elements(&machine),
        Err("Duplicate elements found: B".to_string())
    );
}

#[test]
fn every_duplicate_is_listed_once() {
    let mut machine = create_moore_machine();
    machine.states = strings(&["A", "B", "A", "A"]);
    machine.output_alphabet = strings(&["o0", "B"]);

    assert_eq!(
        validate_unique_elements(&machine),
        Err("Duplicate elements found: A, B".to_string())
    );
}

#[test]
fn empty_machine_has_no_duplicates() {
    let mut machine = create_moore_machine();
    machine.states = vec![];
    machine.input_alphabet = vec![];
    machine.output_alphabet = vec![];

    assert_eq!(validate_unique_elements(&machine), Ok(()));
}

#[test]
fn end_states_not_states_are_listed() {
    let mut machine = create_moore_machine();
    machine.end_states = strings(&["C", "D", "A", "E"]);

    assert_eq!(
        validate_end_states(&machine),
        Err("The end states must be a subset of the states; not states: D, E".to_string())
    );
}

#[test]
fn empty_end_states_pass() {
    let mut machine = create_moore_machine();
    machine.states = vec![];
    machine.end_states = vec![];

    assert_eq!(validate_end_states(&machine), Ok(()));
}

#[test]
fn illegal_identifier_messages_name_role() {
    let mut machine = create_moore_machine();
    machine.states = strings(&["A", "2B"]);
    assert_eq!(
        validate_legal_variable_name(&machine),
        Err("The state 2B starts with a number.".to_string())
    );

    let mut machine = create_moore_machine();
    machine.input_alphabet = strings(&["a", ""]);
    assert_eq!(
        validate_legal_variable_name(&machine),
        Err("The input  is empty.".to_string())
    );

    let mut machine = create_moore_machine();
    machine.output_alphabet = strings(&["9o", "1p"]);
    assert_eq!(
        validate_legal_variable_name(&machine),
        Err("The output 9o starts with a number.".to_string())
    );
}

#[test]
fn states_are_checked_before_inputs() {
    let mut machine = create_moore_machine();
    machine.states = strings(&["A", "3"]);
    machine.input_alphabet = strings(&["1"]);

    assert_eq!(
        validate_legal_variable_name(&machine),
        Err("The state 3 starts with a number.".to_string())
    );
}

#[test]
fn non_ascii_numeric_first_character_is_illegal() {
    let mut machine = create_moore_machine();
    machine.states = strings(&["\u{0663}x"]);

    assert!(validate_legal_variable_name(&machine).is_err());
}

#[test]
fn alphabetic_identifiers_are_legal() {
    let mut machine = create_moore_machine();
    machine.states = strings(&["idle", "Run"]);
    machine.input_alphabet = strings(&["go", "s1"]);
    machine.output_alphabet = strings(&["lamp"]);

    assert_eq!(validate_legal_variable_name(&machine), Ok(()));
}

#[test]
fn validate_stops_at_first_failure() {
    let mut machine = create_moore_machine();
    machine.states = strings(&["1", "1"]);
    machine.end_states = strings(&["Z"]);
    assert_eq!(validate(&machine), Err("Duplicate elements found: 1".to_string()));

    machine.states = strings(&["1", "C"]);
    assert_eq!(
        validate(&machine),
        Err("The end states must be a subset of the states; not states: Z".to_string())
    );

    machine.end_states = strings(&["C"]);
    assert_eq!(validate(&machine), Err("The state 1 starts with a number.".to_string()));

    assert_eq!(validate(&create_moore_machine()), Ok(()));
}
