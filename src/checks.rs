use crate::state_machines::{identifiers, names, Machine};
use vstd::prelude::*;
use vstd::string::*;

verus! {

// ---------------------------------------------------------------------------
// Shared helpers
// ---------------------------------------------------------------------------

/// `items` separated by `sep`.
pub open spec fn join(items: Seq<Seq<char>>, sep: Seq<char>) -> Seq<char>
    decreases items.len(),
{
    if items.len() == 0 {
        Seq::empty()
    } else if items.len() == 1 {
        items[0]
    } else {
        join(items.drop_last(), sep) + sep + items.last()
    }
}

/// Whether `v` holds a string equal to `x`.
fn contains_name(v: &Vec<String>, x: &String) -> (r: bool)
    ensures
        r == names(v@).contains(x@),
{
    let mut i: usize = 0;
    while i < v.len()
        invariant
            0 <= i <= v.len(),
            forall|j: int| 0 <= j < i ==> names(v@)[j] != x@,
        decreases v.len() - i,
    {
        if v[i] == *x {
            assert(names(v@)[i as int] == x@);
            return true;
        }
        i = i + 1;
    }
    false
}

/// Writes `items` separated by ", " after `prefix`.
fn append_joined(prefix: &str, items: &Vec<String>) -> (r: String)
    ensures
        r@ == prefix@ + join(names(items@), ", "@),
{
    let mut r = String::from_str(prefix);
    let mut i: usize = 0;
    while i < items.len()
        invariant
            0 <= i <= items.len(),
            r@ == prefix@ + join(names(items@).take(i as int), ", "@),
        decreases items.len() - i,
    {
        proof {
            let t = names(items@).take(i as int + 1);
            assert(t.drop_last() =~= names(items@).take(i as int));
            assert(t.last() == items@[i as int]@);
            if i == 0 {
                assert(names(items@).take(0) =~= Seq::<Seq<char>>::empty());
            }
        }
        if i > 0 {
            r.append(", ");
        }
        r.append(items[i].as_str());
        i = i + 1;
    }
    assert(names(items@).take(items.len() as int) =~= names(items@));
    r
}

// ---------------------------------------------------------------------------
// Unique identifiers
// ---------------------------------------------------------------------------

/// Each identifier of `v` that occurs in it more than once, listed once, in the
/// order in which its second occurrence comes.
pub open spec fn duplicates(v: Seq<Seq<char>>) -> Seq<Seq<char>>
    decreases v.len(),
{
    if v.len() == 0 {
        Seq::empty()
    } else {
        let d = duplicates(v.drop_last());
        if v.drop_last().contains(v.last()) && !d.contains(v.last()) {
            d.push(v.last())
        } else {
            d
        }
    }
}

/// The report of duplicated identifiers.
pub open spec fn duplicates_message(d: Seq<Seq<char>>) -> Seq<char> {
    "Duplicate elements found: "@ + join(d, ", "@)
}

/// Scans `items` after the identifiers already in `seen`, recording the repeats in `dups`.
fn scan_duplicates(items: &Vec<String>, seen: &mut Vec<String>, dups: &mut Vec<String>)
    requires
        names(old(dups)@) == duplicates(names(old(seen)@)),
    ensures
        names(final(seen)@) == names(old(seen)@) + names(items@),
        names(final(dups)@) == duplicates(names(final(seen)@)),
{
    let ghost seen0 = names(seen@);
    let mut i: usize = 0;
    while i < items.len()
        invariant
            0 <= i <= items.len(),
            names(seen@) == seen0 + names(items@).take(i as int),
            names(dups@) == duplicates(names(seen@)),
        decreases items.len() - i,
    {
        let x = &items[i];
        let ghost before = names(seen@);
        let repeated = contains_name(seen, x);
        if repeated && !contains_name(dups, x) {
            dups.push(x.clone());
            assert(names(dups@) =~= duplicates(names(seen@)).push(x@));
        }
        seen.push(x.clone());
        proof {
            assert(names(seen@) =~= before.push(x@));
            assert(names(seen@).drop_last() =~= before);
            assert(names(items@).take(i as int + 1) =~= names(items@).take(i as int).push(x@));
        }
        i = i + 1;
    }
    assert(names(items@).take(items.len() as int) =~= names(items@));
}

/// Checks that no identifier is used twice among the states, the input alphabet
/// and the output alphabet; on failure the message lists every duplicate.
pub fn validate_unique_elements<T, U>(machine: &Machine<T, U>) -> (r: Result<(), String>)
    ensures
        match r {
            Ok(_) => duplicates(identifiers(*machine)).len() == 0,
            Err(msg) => duplicates(identifiers(*machine)).len() > 0 && msg@ == duplicates_message(
                duplicates(identifiers(*machine)),
            ),
        },
{
    let mut seen: Vec<String> = Vec::new();
    let mut dups: Vec<String> = Vec::new();
    assert(names(seen@) =~= Seq::<Seq<char>>::empty());
    assert(names(dups@) =~= duplicates(names(seen@)));
    scan_duplicates(&machine.states, &mut seen, &mut dups);
    scan_duplicates(&machine.input_alphabet, &mut seen, &mut dups);
    scan_duplicates(&machine.output_alphabet, &mut seen, &mut dups);
    assert(names(seen@) =~= identifiers(*machine));
    if dups.len() > 0 {
        return Err(append_joined("Duplicate elements found: ", &dups));
    }
    Ok(())
}

// ---------------------------------------------------------------------------
// End states
// ---------------------------------------------------------------------------

/// The entries of `ends` that are not among `states`, in order.
pub open spec fn missing_end_states(states: Seq<Seq<char>>, ends: Seq<Seq<char>>) -> Seq<Seq<char>>
    decreases ends.len(),
{
    if ends.len() == 0 {
        Seq::empty()
    } else {
        let m = missing_end_states(states, ends.drop_last());
        if states.contains(ends.last()) {
            m
        } else {
            m.push(ends.last())
        }
    }
}

/// The report of end states that are not states.
pub open spec fn end_states_message(missing: Seq<Seq<char>>) -> Seq<char> {
    "The end states must be a subset of the states; not states: "@ + join(missing, ", "@)
}

/// Checks that every end state is one of the states; an empty set of end states
/// always passes. On failure the message lists the end states that are not states.
pub fn validate_end_states<T, U>(machine: &Machine<T, U>) -> (r: Result<(), String>)
    ensures
        match r {
            Ok(_) => missing_end_states(names(machine.states@), names(machine.end_states@)).len()
                == 0,
            Err(msg) => {
                let missing = missing_end_states(
                    names(machine.states@),
                    names(machine.end_states@),
                );
                missing.len() > 0 && msg@ == end_states_message(missing)
            },
        },
{
    let ends = &machine.end_states;
    let ghost states = names(machine.states@);
    let mut missing: Vec<String> = Vec::new();
    let mut i: usize = 0;
    assert(names(missing@) =~= missing_end_states(states, names(ends@).take(0)));
    while i < ends.len()
        invariant
            0 <= i <= ends.len(),
            states == names(machine.states@),
            names(missing@) == missing_end_states(states, names(ends@).take(i as int)),
        decreases ends.len() - i,
    {
        let ghost before = names(missing@);
        proof {
            assert(names(ends@).take(i as int + 1).drop_last() =~= names(ends@).take(i as int));
        }
        if !contains_name(&machine.states, &ends[i]) {
            missing.push(ends[i].clone());
            assert(names(missing@) =~= before.push(ends@[i as int]@));
        }
        i = i + 1;
    }
    assert(names(ends@).take(ends.len() as int) =~= names(ends@));
    if missing.len() > 0 {
        return Err(
            append_joined("The end states must be a subset of the states; not states: ", &missing),
        );
    }
    Ok(())
}

// ---------------------------------------------------------------------------
// Legal identifiers
// ---------------------------------------------------------------------------

/// Whether std's `char::is_numeric` holds of `c`.
pub uninterp spec fn numeric_char(c: char) -> bool;

/// Relies on `char::is_numeric`: true exactly for the characters of Unicode's
/// number categories, which hold the ASCII digits and no ASCII letter.
#[verifier::external_body]
fn is_numeric(c: char) -> (r: bool)
    ensures
        r == numeric_char(c),
        '0' <= c <= '9' ==> r,
        ('a' <= c <= 'z' || 'A' <= c <= 'Z') ==> !r,
{
    c.is_numeric()
}

/// An identifier must be non-empty and must not start with a numeric character.
pub open spec fn legal_identifier(s: Seq<char>) -> bool {
    s.len() > 0 && !numeric_char(s[0])
}

/// Whether `s` is non-empty and starts with an ASCII digit.
pub open spec fn starts_with_digit(s: Seq<char>) -> bool {
    s.len() > 0 && '0' <= s[0] <= '9'
}

/// Whether `s` is non-empty and starts with an ASCII letter.
pub open spec fn starts_with_letter(s: Seq<char>) -> bool {
    s.len() > 0 && ('a' <= s[0] <= 'z' || 'A' <= s[0] <= 'Z')
}

/// The first identifier of `v` that is not legal, if any.
pub open spec fn first_illegal(v: Seq<Seq<char>>) -> Option<Seq<char>>
    decreases v.len(),
{
    if v.len() == 0 {
        None
    } else {
        match first_illegal(v.drop_last()) {
            Some(s) => Some(s),
            None => if legal_identifier(v.last()) {
                None
            } else {
                Some(v.last())
            },
        }
    }
}

/// The report of the illegal identifier `s`, which plays the role `role`.
pub open spec fn illegal_message(role: Seq<char>, s: Seq<char>) -> Seq<char> {
    if s.len() == 0 {
        "The "@ + role + " "@ + s + " is empty."@
    } else {
        "The "@ + role + " "@ + s + " starts with a number."@
    }
}

/// The report of the first illegal identifier among the states, then the
/// inputs, then the outputs; `None` when all are legal.
pub open spec fn legality_report<T, M>(m: Machine<T, M>) -> Option<Seq<char>> {
    match first_illegal(names(m.states@)) {
        Some(s) => Some(illegal_message("state"@, s)),
        None => match first_illegal(names(m.input_alphabet@)) {
            Some(s) => Some(illegal_message("input"@, s)),
            None => match first_illegal(names(m.output_alphabet@)) {
                Some(s) => Some(illegal_message("output"@, s)),
                None => None,
            },
        },
    }
}

/// Whether `s` is a legal identifier.
fn is_legal(s: &String) -> (r: bool)
    ensures
        r == legal_identifier(s@),
        starts_with_digit(s@) ==> !r,
        starts_with_letter(s@) ==> r,
{
    let t = s.as_str();
    if t.unicode_len() == 0 {
        false
    } else {
        !is_numeric(t.get_char(0))
    }
}

/// The report for the first illegal identifier of `v`, which all play `role`.
fn check_legal(v: &Vec<String>, role: &str) -> (r: Option<String>)
    ensures
        match first_illegal(names(v@)) {
            Some(s) => r is Some && r->Some_0@ == illegal_message(role@, s),
            None => r is None,
        },
        (exists|j: int| 0 <= j < v@.len() && starts_with_digit(#[trigger] names(v@)[j])) ==> r is Some,
        (forall|j: int| 0 <= j < v@.len() ==> starts_with_letter(#[trigger] names(v@)[j])) ==> r is None,
{
    let mut i: usize = 0;
    while i < v.len()
        invariant
            0 <= i <= v.len(),
            first_illegal(names(v@).take(i as int)) is None,
            forall|j: int| 0 <= j < i ==> !starts_with_digit(#[trigger] names(v@)[j]),
        decreases v.len() - i,
    {
        assert(names(v@).take(i as int + 1).drop_last() =~= names(v@).take(i as int));
        if !is_legal(&v[i]) {
            let mut msg = String::from_str("The ");
            msg.append(role);
            msg.append(" ");
            msg.append(v[i].as_str());
            if v[i].as_str().unicode_len() == 0 {
                msg.append(" is empty.");
            } else {
                msg.append(" starts with a number.");
            }
            proof {
                lemma_first_illegal_prefix(names(v@), i as int + 1);
                assert(!starts_with_letter(names(v@)[i as int]));
            }
            return Some(msg);
        }
        i = i + 1;
    }
    assert(names(v@).take(v.len() as int) =~= names(v@));
    None
}

/// An illegal identifier found in a prefix is the first illegal one of the whole sequence.
proof fn lemma_first_illegal_prefix(v: Seq<Seq<char>>, n: int)
    requires
        0 <= n <= v.len(),
        first_illegal(v.take(n)) is Some,
    ensures
        first_illegal(v) == first_illegal(v.take(n)),
    decreases v.len() - n,
{
    if n < v.len() {
        assert(v.take(n + 1).drop_last() =~= v.take(n));
        lemma_first_illegal_prefix(v, n + 1);
    } else {
        assert(v.take(n) =~= v);
    }
}

/// Checks that no state, input or output is empty or starts with a numeric
/// character. Fails on the first such identifier, naming it and its role.
pub fn validate_legal_variable_name<T, U>(machine: &Machine<T, U>) -> (r: Result<(), String>)
    ensures
        match r {
            Ok(_) => legality_report(*machine) is None,
            Err(msg) => legality_report(*machine) == Some(msg@),
        },
        (exists|i: int|
            0 <= i < identifiers(*machine).len() && starts_with_digit(
                #[trigger] identifiers(*machine)[i],
            )) ==> r is Err,
        (forall|i: int|
            0 <= i < identifiers(*machine).len() ==> starts_with_letter(
                #[trigger] identifiers(*machine)[i],
            )) ==> r is Ok,
{
    proof {
        lemma_identifiers_index(*machine);
    }
    match check_legal(&machine.states, "state") {
        Some(msg) => return Err(msg),
        None => {},
    }
    match check_legal(&machine.input_alphabet, "input") {
        Some(msg) => return Err(msg),
        None => {},
    }
    match check_legal(&machine.output_alphabet, "output") {
        Some(msg) => return Err(msg),
        None => {},
    }
    Ok(())
}

// ---------------------------------------------------------------------------
// What the checks decide
// ---------------------------------------------------------------------------

/// Whether `x` occurs at two different positions of `v`.
pub open spec fn repeated(v: Seq<Seq<char>>, x: Seq<char>) -> bool {
    exists|i: int, j: int| 0 <= i < j < v.len() && #[trigger] v[i] == x && #[trigger] v[j] == x
}

proof fn lemma_push_contains(s: Seq<Seq<char>>, y: Seq<char>, x: Seq<char>)
    ensures
        s.push(y).contains(x) <==> s.contains(x) || x == y,
{
    if s.push(y).contains(x) {
        let k = choose|k: int| 0 <= k < s.push(y).len() && s.push(y)[k] == x;
        if k < s.len() {
            assert(s[k] == x);
        }
    }
    if s.contains(x) {
        let k = choose|k: int| 0 <= k < s.len() && s[k] == x;
        assert(s.push(y)[k] == x);
    }
    if x == y {
        assert(s.push(y)[s.len() as int] == x);
    }
}

proof fn lemma_duplicates_contains(v: Seq<Seq<char>>, x: Seq<char>)
    ensures
        duplicates(v).contains(x) <==> repeated(v, x),
    decreases v.len(),
{
    if v.len() > 0 {
        let w = v.drop_last();
        let y = v.last();
        let d = duplicates(w);
        lemma_duplicates_contains(w, x);
        lemma_duplicates_contains(w, y);
        lemma_push_contains(d, y, x);
        if repeated(w, x) {
            let (i, j) = choose|i: int, j: int|
                0 <= i < j < w.len() && #[trigger] w[i] == x && #[trigger] w[j] == x;
            assert(v[i] == x && v[j] == x);
        }
        if repeated(v, x) {
            let (i, j) = choose|i: int, j: int|
                0 <= i < j < v.len() && #[trigger] v[i] == x && #[trigger] v[j] == x;
            if j < v.len() - 1 {
                assert(w[i] == x && w[j] == x);
            } else {
                assert(w[i] == y);
                assert(w.contains(y));
            }
        }
        if x == y && w.contains(y) {
            let i = choose|i: int| 0 <= i < w.len() && w[i] == y;
            assert(v[i] == x && v[v.len() - 1] == x);
        }
        if repeated(w, x) {
            assert(d.contains(x));
        }
    }
}

/// The uniqueness check passes exactly when no identifier occurs twice among
/// the states, the input alphabet and the output alphabet; and every identifier
/// that does occur twice is named among the duplicates that the failure lists.
pub proof fn lemma_unique_elements<T, M>(m: Machine<T, M>)
    ensures
        duplicates(identifiers(m)).len() == 0 <==> identifiers(m).no_duplicates(),
        forall|x: Seq<char>| #[trigger]
            duplicates(identifiers(m)).contains(x) <==> repeated(identifiers(m), x),
{
    let v = identifiers(m);
    assert forall|x: Seq<char>| #[trigger] duplicates(v).contains(x) <==> repeated(v, x) by {
        lemma_duplicates_contains(v, x);
    }
    if duplicates(v).len() > 0 {
        let x = duplicates(v)[0];
        assert(duplicates(v).contains(x));
        let (i, j) = choose|i: int, j: int|
            0 <= i < j < v.len() && #[trigger] v[i] == x && #[trigger] v[j] == x;
        assert(!v.no_duplicates());
    }
    if !v.no_duplicates() {
        let (i, j) = choose|i: int, j: int|
            0 <= i < v.len() && 0 <= j < v.len() && i != j && v[i] == v[j];
        let x = v[i];
        if i < j {
            assert(repeated(v, x));
        } else {
            assert(v[j] == x && v[i] == x);
            assert(repeated(v, x));
        }
        assert(duplicates(v).contains(x));
    }
}

proof fn lemma_missing_contains(states: Seq<Seq<char>>, ends: Seq<Seq<char>>, x: Seq<char>)
    ensures
        missing_end_states(states, ends).contains(x) <==> ends.contains(x) && !states.contains(x),
    decreases ends.len(),
{
    if ends.len() > 0 {
        let w = ends.drop_last();
        lemma_missing_contains(states, w, x);
        lemma_push_contains(missing_end_states(states, w), ends.last(), x);
        if w.contains(x) {
            let i = choose|i: int| 0 <= i < w.len() && w[i] == x;
            assert(ends[i] == x);
        }
        if ends.contains(x) {
            let i = choose|i: int| 0 <= i < ends.len() && ends[i] == x;
            if i < ends.len() - 1 {
                assert(w[i] == x);
            } else {
                assert(ends.last() == x);
            }
        }
    }
}

/// The end-state check passes exactly when every end state is a state; an
/// end state that is not a state is named in the failure.
pub proof fn lemma_end_states<T, M>(m: Machine<T, M>)
    ensures
        missing_end_states(names(m.states@), names(m.end_states@)).len() == 0 <==> names(
            m.end_states@,
        ).to_set().subset_of(names(m.states@).to_set()),
        forall|x: Seq<char>| #[trigger]
            missing_end_states(names(m.states@), names(m.end_states@)).contains(x) <==> names(
                m.end_states@,
            ).contains(x) && !names(m.states@).contains(x),
{
    let states = names(m.states@);
    let ends = names(m.end_states@);
    let missing = missing_end_states(states, ends);
    assert forall|x: Seq<char>| #[trigger]
        missing.contains(x) <==> ends.contains(x) && !states.contains(x) by {
        lemma_missing_contains(states, ends, x);
    }
    if missing.len() > 0 {
        assert(missing.contains(missing[0]));
        assert(ends.to_set().contains(missing[0]));
    }
    if !ends.to_set().subset_of(states.to_set()) {
        let x = choose|x: Seq<char>| ends.to_set().contains(x) && !states.to_set().contains(x);
        assert(missing.contains(x));
    }
}

proof fn lemma_first_illegal_none(v: Seq<Seq<char>>)
    ensures
        first_illegal(v) is None <==> forall|i: int| 0 <= i < v.len() ==> legal_identifier(#[trigger] v[i]),
    decreases v.len(),
{
    if v.len() > 0 {
        let w = v.drop_last();
        lemma_first_illegal_none(w);
        if first_illegal(v) is None {
            assert forall|i: int| 0 <= i < v.len() implies legal_identifier(#[trigger] v[i]) by {
                if i < v.len() - 1 {
                    assert(v[i] == w[i]);
                }
            }
        }
        if forall|i: int| 0 <= i < v.len() ==> legal_identifier(#[trigger] v[i]) {
            assert forall|i: int| 0 <= i < w.len() implies legal_identifier(#[trigger] w[i]) by {
                assert(v[i] == w[i]);
            }
            assert(legal_identifier(v[v.len() - 1]));
        }
    }
}

/// Each identifier of `m` is a state, an input or an output, at the matching position.
proof fn lemma_identifiers_index<T, M>(m: Machine<T, M>)
    ensures
        ({
            let s = names(m.states@);
            let a = names(m.input_alphabet@);
            let o = names(m.output_alphabet@);
            &&& identifiers(m).len() == s.len() + a.len() + o.len()
            &&& forall|i: int| 0 <= i < s.len() ==> identifiers(m)[i] == #[trigger] s[i]
            &&& forall|i: int| 0 <= i < a.len() ==> identifiers(m)[s.len() + i] == #[trigger] a[i]
            &&& forall|i: int|
                0 <= i < o.len() ==> identifiers(m)[s.len() + a.len() + i] == #[trigger] o[i]
            &&& forall|i: int|
                0 <= i < identifiers(m).len() ==> #[trigger] identifiers(m)[i] == (if i < s.len() {
                    s[i]
                } else if i < s.len() + a.len() {
                    a[i - s.len()]
                } else {
                    o[i - s.len() - a.len()]
                })
        }),
{
}

/// The identifier check passes exactly when every state, input and output is
/// non-empty and does not start with a numeric character.
pub proof fn lemma_legal_identifiers<T, M>(m: Machine<T, M>)
    ensures
        legality_report(m) is None <==> forall|i: int|
            0 <= i < identifiers(m).len() ==> legal_identifier(#[trigger] identifiers(m)[i]),
{
    let s = names(m.states@);
    let a = names(m.input_alphabet@);
    let o = names(m.output_alphabet@);
    let v = identifiers(m);
    lemma_first_illegal_none(s);
    lemma_first_illegal_none(a);
    lemma_first_illegal_none(o);
    assert forall|i: int| 0 <= i < v.len() implies #[trigger] v[i] == (if i < s.len() {
        s[i]
    } else if i < s.len() + a.len() {
        a[i - s.len()]
    } else {
        o[i - s.len() - a.len()]
    }) by {}
    if forall|i: int| 0 <= i < v.len() ==> legal_identifier(#[trigger] v[i]) {
        assert forall|i: int| 0 <= i < s.len() implies legal_identifier(#[trigger] s[i]) by {
            assert(v[i] == s[i]);
        }
        assert forall|i: int| 0 <= i < a.len() implies legal_identifier(#[trigger] a[i]) by {
            assert(v[i + s.len()] == a[i]);
        }
        assert forall|i: int| 0 <= i < o.len() implies legal_identifier(#[trigger] o[i]) by {
            assert(v[i + s.len() + a.len()] == o[i]);
        }
    }
}

// ---------------------------------------------------------------------------
// All checks
// ---------------------------------------------------------------------------

/// The report of the first check that fails, taking uniqueness, then end
/// states, then identifiers; `None` when all pass.
pub open spec fn validation_report<T, M>(m: Machine<T, M>) -> Option<Seq<char>> {
    let dups = duplicates(identifiers(m));
    let missing = missing_end_states(names(m.states@), names(m.end_states@));
    if dups.len() > 0 {
        Some(duplicates_message(dups))
    } else if missing.len() > 0 {
        Some(end_states_message(missing))
    } else {
        legality_report(m)
    }
}

/// Runs the uniqueness, end-state and identifier checks in that order and stops
/// at the first that fails, returning its message.
pub fn validate<T, U>(machine: &Machine<T, U>) -> (r: Result<(), String>)
    ensures
        match r {
            Ok(_) => validation_report(*machine) is None,
            Err(msg) => validation_report(*machine) == Some(msg@),
        },
{
    validate_unique_elements(machine)?;
    validate_end_states(machine)?;
    validate_legal_variable_name(machine)
}

} // verus!
