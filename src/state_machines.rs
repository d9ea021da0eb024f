use vstd::prelude::*;

verus! {

/// A Moore machine: transitions carry no output, outputs belong to states.
pub type MooreMachine = Machine<MooreTransition, Vec<MooreOutputFunction>>;

/// A Mealy machine: each transition carries its own output.
pub type MealyMachine = Machine<MealyTransition, Option<()>>;

/// A finite state machine, either a Moore or a Mealy machine.
#[derive(Debug)]
pub enum StateMachine {
    Moore(MooreMachine),
    Mealy(MealyMachine),
}

/// A state machine generic over its transition kind `T` and output representation `M`.
#[derive(Debug)]
pub struct Machine<T, M> {
    /// The states, in declaration order.
    pub states: Vec<String>,
    /// The boolean input signals.
    pub input_alphabet: Vec<String>,
    /// The boolean output signals.
    pub output_alphabet: Vec<String>,
    /// The transitions, in the order in which they are tried.
    pub transitions: Vec<T>,
    /// The per-state outputs of a Moore machine; unused for a Mealy machine.
    pub output_function: M,
    /// The initial state.
    pub start_state: String,
    /// The accepting states; possibly empty.
    pub end_states: Vec<String>,
}

/// A transition of a Moore machine, taken when every input in `read_symbol` is set.
#[derive(Debug)]
pub struct MooreTransition {
    pub current_state: String,
    pub read_symbol: Vec<String>,
    pub new_state: String,
}

/// One entry of a Moore machine's output function: in `current_state`, `output_symbol` is set.
#[derive(Debug)]
pub struct MooreOutputFunction {
    pub current_state: String,
    pub output_symbol: String,
}

/// A transition of a Mealy machine, which also sets `output_symbol`.
#[derive(Debug)]
pub struct MealyTransition {
    pub current_state: String,
    pub read_symbol: Vec<String>,
    pub new_state: String,
    pub output_symbol: String,
}

/// The character sequences of a sequence of strings.
pub open spec fn names(v: Seq<String>) -> Seq<Seq<char>> {
    v.map_values(|s: String| s@)
}

/// States, then input alphabet, then output alphabet: every identifier the machine declares.
pub open spec fn identifiers<T, M>(m: Machine<T, M>) -> Seq<Seq<char>> {
    names(m.states@) + names(m.input_alphabet@) + names(m.output_alphabet@)
}

/// Why the textual description could not be read as exactly one kind of machine.
#[derive(Debug, PartialEq, Eq, Structural)]
pub enum ParseError {
    /// It reads as neither a Moore nor a Mealy machine.
    NoMachine,
    /// It reads as both a Moore and a Mealy machine.
    Ambiguous,
}

impl ParseError {
    /// A message for the user.
    pub fn message(&self) -> (r: &'static str)
        ensures
            *self == ParseError::NoMachine ==> r@
                == "The YAML file does not contain a Moore or a Mealy machine. Please check the syntax of the file."@,
            *self == ParseError::Ambiguous ==> r@
                == "The YAML file contains both a Moore and a Mealy machine."@,
    {
        match self {
            ParseError::NoMachine => "The YAML file does not contain a Moore or a Mealy machine. Please check the syntax of the file.",
            ParseError::Ambiguous => "The YAML file contains both a Moore and a Mealy machine.",
        }
    }
}

/// Decides the machine kind from the two attempted readings of one description:
/// exactly one of them must have succeeded.
pub fn select_machine(moore: Option<MooreMachine>, mealy: Option<MealyMachine>) -> (r: Result<
    StateMachine,
    ParseError,
>)
    ensures
        moore.is_some() && mealy.is_some() <==> r == Err::<StateMachine, ParseError>(ParseError::Ambiguous),
        moore.is_none() && mealy.is_none() <==> r == Err::<StateMachine, ParseError>(ParseError::NoMachine),
        moore.is_some() && mealy.is_none() ==> r == Ok::<StateMachine, ParseError>(StateMachine::Moore(moore.unwrap())),
        moore.is_none() && mealy.is_some() ==> r == Ok::<StateMachine, ParseError>(StateMachine::Mealy(mealy.unwrap())),
{
    match (moore, mealy) {
        (Some(m), None) => Ok(StateMachine::Moore(m)),
        (None, Some(m)) => Ok(StateMachine::Mealy(m)),
        (None, None) => Err(ParseError::NoMachine),
        (Some(_), Some(_)) => Err(ParseError::Ambiguous),
    }
}

} // verus!
