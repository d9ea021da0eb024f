//! C code generation for Moore machines.
//!
//! The header and source files are fixed C text with insertion points for the
//! machine's name, its states, inputs and outputs, its initial state, the
//! output reset and one `case` per state. The pieces that depend on the
//! machine are produced here, each as a string with an exact description.

use crate::checks::join;
use crate::files::Files;
use crate::state_machines::{
    names, Machine, MooreMachine, MooreOutputFunction, MooreTransition, StateMachine,
};
use vstd::prelude::*;
use vstd::string::*;

verus! {

// ---------------------------------------------------------------------------
// Declarations and output reset
// ---------------------------------------------------------------------------

/// One line per item: four spaces, the type prefix, the item and the separator.
pub open spec fn declaration_lines(items: Seq<Seq<char>>, data_type: Seq<char>, separator: Seq<
    char,
>) -> Seq<char>
    decreases items.len(),
{
    if items.len() == 0 {
        Seq::empty()
    } else {
        declaration_lines(items.drop_last(), data_type, separator) + "    "@ + data_type
            + items.last() + separator + "\n"@
    }
}

/// One statement per output that clears it, in the order of `outputs`.
pub open spec fn reset_lines(outputs: Seq<Seq<char>>) -> Seq<char>
    decreases outputs.len(),
{
    if outputs.len() == 0 {
        Seq::empty()
    } else {
        reset_lines(outputs.drop_last()) + "    output->"@ + outputs.last() + " = false;\n"@
    }
}

/// The declaration lines of `items`, as `declaration_lines` describes them.
fn set_declaration(items: &Vec<String>, data_type: &str, separator: &str) -> (r: String)
    ensures
        r@ == declaration_lines(names(items@), data_type@, separator@),
{
    let mut r = String::new();
    let mut i: usize = 0;
    assert(names(items@).take(0) =~= Seq::<Seq<char>>::empty());
    while i < items.len()
        invariant
            0 <= i <= items.len(),
            r@ == declaration_lines(names(items@).take(i as int), data_type@, separator@),
        decreases items.len() - i,
    {
        assert(names(items@).take(i as int + 1).drop_last() =~= names(items@).take(i as int));
        r.append("    ");
        r.append(data_type);
        r.append(items[i].as_str());
        r.append(separator);
        r.append("\n");
        i = i + 1;
    }
    assert(names(items@).take(items.len() as int) =~= names(items@));
    r
}

/// The statements that clear every output, as `reset_lines` describes them.
fn reset_output(outputs: &Vec<String>) -> (r: String)
    ensures
        r@ == reset_lines(names(outputs@)),
{
    let mut r = String::new();
    let mut i: usize = 0;
    assert(names(outputs@).take(0) =~= Seq::<Seq<char>>::empty());
    while i < outputs.len()
        invariant
            0 <= i <= outputs.len(),
            r@ == reset_lines(names(outputs@).take(i as int)),
        decreases outputs.len() - i,
    {
        assert(names(outputs@).take(i as int + 1).drop_last() =~= names(outputs@).take(i as int));
        r.append("    output->");
        r.append(outputs[i].as_str());
        r.append(" = false;\n");
        i = i + 1;
    }
    assert(names(outputs@).take(outputs.len() as int) =~= names(outputs@));
    r
}

// ---------------------------------------------------------------------------
// Per-state dispatch of a Moore machine
// ---------------------------------------------------------------------------

/// The output symbol of the first entry of `f` for `state`: later entries for
/// the same state are not honoured.
pub open spec fn first_output(f: Seq<MooreOutputFunction>, state: Seq<char>) -> Option<Seq<char>>
    decreases f.len(),
{
    if f.len() == 0 {
        None
    } else {
        match first_output(f.drop_last(), state) {
            Some(o) => Some(o),
            None => if f.last().current_state@ == state {
                Some(f.last().output_symbol@)
            } else {
                None
            },
        }
    }
}

/// The statement that sets the output `o`.
pub open spec fn set_output_line(o: Seq<char>) -> Seq<char> {
    "            output->"@ + o + " = true;\n"@
}

/// The conjunction of the inputs in `symbols`.
pub open spec fn guard(symbols: Seq<Seq<char>>) -> Seq<char> {
    join(symbols.map_values(|s: Seq<char>| "input."@ + s), " && "@)
}

/// The guarded jump to `t`'s new state, which leaves the `switch` when taken.
pub open spec fn transition_block(t: MooreTransition) -> Seq<char> {
    "            if ("@ + guard(names(t.read_symbol@)) + ") {\n                *state = "@
        + t.new_state@ + ";\n                break;\n            }\n"@
}

/// The blocks of the transitions of `ts` that leave `state`, in list order.
pub open spec fn transitions_code(ts: Seq<MooreTransition>, state: Seq<char>) -> Seq<char>
    decreases ts.len(),
{
    if ts.len() == 0 {
        Seq::empty()
    } else if ts.last().current_state@ == state {
        transitions_code(ts.drop_last(), state) + transition_block(ts.last())
    } else {
        transitions_code(ts.drop_last(), state)
    }
}

/// The `case` of `state`: the first output entry for it, then its transitions.
pub open spec fn case_text(m: MooreMachine, state: Seq<char>) -> Seq<char> {
    let outputs = match first_output(m.output_function@, state) {
        Some(o) => set_output_line(o),
        None => Seq::empty(),
    };
    "        case "@ + state + ":\n"@ + outputs + transitions_code(m.transitions@, state)
        + "            break;\n"@
}

/// The `case`s of `states`, in order, each followed by an empty line.
pub open spec fn cases_text(m: MooreMachine, states: Seq<Seq<char>>) -> Seq<char>
    decreases states.len(),
{
    if states.len() == 0 {
        Seq::empty()
    } else {
        cases_text(m, states.drop_last()) + case_text(m, states.last()) + "\n"@
    }
}

/// The conjunction of the inputs in `symbols`, as `guard` describes it.
fn guard_code(symbols: &Vec<String>) -> (r: String)
    ensures
        r@ == guard(names(symbols@)),
{
    let ghost terms = names(symbols@).map_values(|s: Seq<char>| "input."@ + s);
    let mut r = String::new();
    let mut i: usize = 0;
    assert(terms.take(0) =~= Seq::<Seq<char>>::empty());
    while i < symbols.len()
        invariant
            0 <= i <= symbols.len(),
            terms == names(symbols@).map_values(|s: Seq<char>| "input."@ + s),
            r@ == join(terms.take(i as int), " && "@),
        decreases symbols.len() - i,
    {
        let ghost before = r@;
        assert(terms.take(i as int + 1).drop_last() =~= terms.take(i as int));
        assert(terms[i as int] == "input."@ + symbols@[i as int]@);
        if i > 0 {
            r.append(" && ");
        }
        r.append("input.");
        r.append(symbols[i].as_str());
        if i > 0 {
            assert(r@ =~= before + " && "@ + terms[i as int]);
        } else {
            assert(r@ =~= terms[i as int]);
        }
        i = i + 1;
    }
    assert(terms.take(symbols.len() as int) =~= terms);
    r
}

/// The output statement of the first output entry for `state`, if there is one.
fn output_code(f: &Vec<MooreOutputFunction>, state: &String) -> (r: String)
    ensures
        r@ == match first_output(f@, state@) {
            Some(o) => set_output_line(o),
            None => Seq::empty(),
        },
{
    let mut i: usize = 0;
    assert(f@.take(0) =~= Seq::<MooreOutputFunction>::empty());
    while i < f.len()
        invariant
            0 <= i <= f.len(),
            first_output(f@.take(i as int), state@) is None,
        decreases f.len() - i,
    {
        assert(f@.take(i as int + 1).drop_last() =~= f@.take(i as int));
        if f[i].current_state == *state {
            let mut r = String::from_str("            output->");
            r.append(f[i].output_symbol.as_str());
            r.append(" = true;\n");
            proof {
                lemma_first_output_prefix(f@, state@, i as int + 1);
            }
            return r;
        }
        i = i + 1;
    }
    assert(f@.take(f.len() as int) =~= f@);
    String::new()
}

/// An entry found in a prefix is the first entry of the whole list.
proof fn lemma_first_output_prefix(f: Seq<MooreOutputFunction>, state: Seq<char>, n: int)
    requires
        0 <= n <= f.len(),
        first_output(f.take(n), state) is Some,
    ensures
        first_output(f, state) == first_output(f.take(n), state),
    decreases f.len() - n,
{
    if n < f.len() {
        assert(f.take(n + 1).drop_last() =~= f.take(n));
        lemma_first_output_prefix(f, state, n + 1);
    } else {
        assert(f.take(n) =~= f);
    }
}

/// The `case` of `state`, as `case_text` describes it.
fn case_code(m: &MooreMachine, state: &String) -> (r: String)
    ensures
        r@ == case_text(*m, state@),
{
    let mut r = String::from_str("        case ");
    r.append(state.as_str());
    r.append(":\n");
    let outputs = output_code(&m.output_function, state);
    r.append(outputs.as_str());
    let ghost head = r@;
    let ts = &m.transitions;
    let mut i: usize = 0;
    assert(ts@.take(0) =~= Seq::<MooreTransition>::empty());
    while i < ts.len()
        invariant
            0 <= i <= ts.len(),
            ts == &m.transitions,
            r@ == head + transitions_code(ts@.take(i as int), state@),
        decreases ts.len() - i,
    {
        assert(ts@.take(i as int + 1).drop_last() =~= ts@.take(i as int));
        let t = &ts[i];
        if t.current_state == *state {
            let ghost before = r@;
            r.append("            if (");
            let g = guard_code(&t.read_symbol);
            r.append(g.as_str());
            r.append(") {\n                *state = ");
            r.append(t.new_state.as_str());
            r.append(";\n                break;\n            }\n");
            assert(r@ =~= before + transition_block(*t));
        }
        i = i + 1;
    }
    assert(ts@.take(ts.len() as int) =~= ts@);
    r.append("            break;\n");
    r
}

/// The `case`s of all states of `m`, in declaration order, each followed by an empty line.
pub fn all_cases(m: &MooreMachine) -> (r: String)
    ensures
        r@ == cases_text(*m, names(m.states@)),
{
    let states = &m.states;
    let mut r = String::new();
    let mut i: usize = 0;
    assert(names(states@).take(0) =~= Seq::<Seq<char>>::empty());
    while i < states.len()
        invariant
            0 <= i <= states.len(),
            states == &m.states,
            r@ == cases_text(*m, names(states@).take(i as int)),
        decreases states.len() - i,
    {
        assert(names(states@).take(i as int + 1).drop_last() =~= names(states@).take(i as int));
        let c = case_code(m, &states[i]);
        r.append(c.as_str());
        r.append("\n");
        i = i + 1;
    }
    assert(names(states@).take(states.len() as int) =~= names(states@));
    r
}

// ---------------------------------------------------------------------------
// Header, source and the two files
// ---------------------------------------------------------------------------

/// The generated header: the state enumeration, the input and output structs,
/// the initial state and the declaration of the step function.
pub open spec fn header_text<T, M>(name: Seq<char>, m: Machine<T, M>) -> Seq<char> {
    "#ifndef "@ + name + "_H\n#define "@ + name + "_H\n\n#include <stdbool.h>\n\ntypedef enum {\n"@
        + declaration_lines(names(m.states@), ""@, ","@) + "} "@ + name
        + "_state_t;\n\ntypedef struct {\n"@ + declaration_lines(
        names(m.input_alphabet@),
        "bool "@,
        ";"@,
    ) + "} "@ + name + "_input_t;\n\ntypedef struct {\n"@ + declaration_lines(
        names(m.output_alphabet@),
        "bool "@,
        ";"@,
    ) + "} "@ + name + "_output_t;\n\n#define "@ + name + "_INITIAL_STATE "@ + m.start_state@
        + "\n\nvoid "@ + name + "_step("@ + name + "_state_t *state, "@ + name + "_input_t input, "@
        + name + "_output_t *output);\n\n#endif\n"@
}

/// The generated source: the step function, which clears every output and then
/// dispatches on the current state.
pub open spec fn source_text(name: Seq<char>, m: MooreMachine) -> Seq<char> {
    "#include \""@ + name + ".h\"\n\nvoid "@ + name + "_step("@ + name + "_state_t *state, "@ + name
        + "_input_t input, "@ + name + "_output_t *output)\n{\n"@ + reset_lines(
        names(m.output_alphabet@),
    ) + "    switch (*state) {\n"@ + cases_text(m, names(m.states@)) + "    }\n}\n"@
}

/// The header for a machine, as `header_text` describes it.
fn header_code<T, M>(name: &str, m: &Machine<T, M>) -> (r: String)
    ensures
        r@ == header_text(name@, *m),
{
    let mut r = String::from_str("#ifndef ");
    r.append(name);
    r.append("_H\n#define ");
    r.append(name);
    r.append("_H\n\n#include <stdbool.h>\n\ntypedef enum {\n");
    r.append(set_declaration(&m.states, "", ",").as_str());
    r.append("} ");
    r.append(name);
    r.append("_state_t;\n\ntypedef struct {\n");
    r.append(set_declaration(&m.input_alphabet, "bool ", ";").as_str());
    r.append("} ");
    r.append(name);
    r.append("_input_t;\n\ntypedef struct {\n");
    r.append(set_declaration(&m.output_alphabet, "bool ", ";").as_str());
    r.append("} ");
    r.append(name);
    r.append("_output_t;\n\n#define ");
    r.append(name);
    r.append("_INITIAL_STATE ");
    r.append(m.start_state.as_str());
    r.append("\n\nvoid ");
    r.append(name);
    r.append("_step(");
    r.append(name);
    r.append("_state_t *state, ");
    r.append(name);
    r.append("_input_t input, ");
    r.append(name);
    r.append("_output_t *output);\n\n#endif\n");
    r
}

/// The source for a Moore machine, as `source_text` describes it.
fn source_code(name: &str, m: &MooreMachine) -> (r: String)
    ensures
        r@ == source_text(name@, *m),
{
    let mut r = String::from_str("#include \"");
    r.append(name);
    r.append(".h\"\n\nvoid ");
    r.append(name);
    r.append("_step(");
    r.append(name);
    r.append("_state_t *state, ");
    r.append(name);
    r.append("_input_t input, ");
    r.append(name);
    r.append("_output_t *output)\n{\n");
    r.append(reset_output(&m.output_alphabet).as_str());
    r.append("    switch (*state) {\n");
    r.append(all_cases(m).as_str());
    r.append("    }\n}\n");
    r
}

/// The files generated for a machine named `name`.
pub open spec fn generated_files(name: Seq<char>, m: MooreMachine) -> Seq<(Seq<char>, Seq<char>)> {
    seq![(name + ".h"@, header_text(name, m)), (name + ".c"@, source_text(name, m))]
}

/// The error for a machine kind that has no generator.
pub open spec fn mealy_unsupported_message() -> Seq<char> {
    "Mealy machines are not supported yet."@
}

/// Generates the C header `<name>.h` and source `<name>.c` of a Moore machine
/// and adds them to `files`. A Mealy machine is refused and nothing is added.
pub fn generate(name: &str, state_machine: &StateMachine, files: Files) -> (r: Result<
    Files,
    String,
>)
    ensures
        match state_machine {
            StateMachine::Moore(m) => r is Ok && r->Ok_0.spec_path() == files.spec_path()
                && r->Ok_0.view_entries() == files.view_entries() + generated_files(name@, *m),
            StateMachine::Mealy(_) => r is Err && r->Err_0@ == mealy_unsupported_message(),
        },
{
    match state_machine {
        StateMachine::Moore(m) => {
            let header = header_code(name, m);
            let source = source_code(name, m);
            let ghost before = files.view_entries();
            let mut files = files;
            let mut header_name = String::from_str(name);
            header_name.append(".h");
            let mut source_name = String::from_str(name);
            source_name.append(".c");
            files.add_file(header_name, header);
            files.add_file(source_name, source);
            assert(files.view_entries() =~= before + generated_files(name@, *m));
            Ok(files)
        },
        StateMachine::Mealy(_) => Err(String::from_str("Mealy machines are not supported yet.")),
    }
}

} // verus!
