//! Rendering of the message that names the fields left out of a comparison.
use vstd::prelude::*;
use vstd::string::*;

verus! {

/// The character model of each name in a list of string slices.
pub open spec fn names_of(fields: Seq<&str>) -> Seq<Seq<char>> {
    fields.map_values(|s: &str| s@)
}

/// A field name between backticks.
pub open spec fn quoted(name: Seq<char>) -> Seq<char> {
    "`"@ + name + "`"@
}

/// The quoted names joined by `", "`.
pub open spec fn comma_list(names: Seq<Seq<char>>) -> Seq<char>
    decreases names.len(),
{
    if names.len() == 0 {
        Seq::empty()
    } else if names.len() == 1 {
        quoted(names[0])
    } else {
        comma_list(names.drop_last()) + ", "@ + quoted(names.last())
    }
}

/// The list of names as it reads in a sentence: `` `a` ``, `` `a` and `b` ``,
/// or `` `a`, `b`, and `c` ``.
pub open spec fn spec_fields_string(names: Seq<Seq<char>>) -> Seq<char> {
    if names.len() == 0 {
        Seq::empty()
    } else if names.len() == 1 {
        quoted(names[0])
    } else if names.len() == 2 {
        quoted(names[0]) + " and "@ + quoted(names[1])
    } else {
        comma_list(names.drop_last()) + ", and "@ + quoted(names.last())
    }
}

/// The verb that agrees with a list of `n` fields.
pub open spec fn spec_verb(n: nat) -> Seq<char> {
    if n == 1 {
        "is"@
    } else {
        "are"@
    }
}

/// The full message, with the case label in front when there is one.
pub open spec fn spec_description(case_name: Option<Seq<char>>, names: Seq<Seq<char>>) -> Seq<
    char,
> {
    let body = "(Fields "@ + spec_fields_string(names) + " "@ + spec_verb(names.len())
        + " updated by default)"@;
    match case_name {
        Some(c) => c + " "@ + body,
        None => body,
    }
}

/// The character model of an optional case label.
pub open spec fn label_of(case_name: Option<&str>) -> Option<Seq<char>> {
    match case_name {
        Some(c) => Some(c@),
        None => None,
    }
}

/// Renders the message for a comparison that left out `fields`.
pub fn description(case_name: Option<&str>, fields: Vec<&str>) -> (r: String)
    ensures
        r@ == spec_description(label_of(case_name), names_of(fields@)),
{
    let ghost names = names_of(fields@);
    let verb = verb(fields.len());
    let fields = fields_string(fields);
    let mut body = String::from_str("(Fields ");
    body.append(fields.as_str());
    body.append(" ");
    body.append(verb.as_str());
    body.append(" updated by default)");
    assert(body@ =~= "(Fields "@ + spec_fields_string(names) + " "@ + spec_verb(names.len())
        + " updated by default)"@);
    match case_name {
        Some(c) => {
            let mut out = String::from_str(c);
            out.append(" ");
            out.append(body.as_str());
            assert(out@ =~= c@ + " "@ + body@);
            out
        },
        None => body,
    }
}

fn verb(field_size: usize) -> (r: String)
    ensures
        r@ == spec_verb(field_size as nat),
{
    if field_size == 1 {
        String::from_str("is")
    } else {
        String::from_str("are")
    }
}

fn quote(name: &str) -> (r: String)
    ensures
        r@ == quoted(name@),
{
    let mut r = String::from_str("`");
    r.append(name);
    r.append("`");
    r
}

fn fields_string(fields: Vec<&str>) -> (r: String)
    ensures
        r@ == spec_fields_string(names_of(fields@)),
{
    let ghost names = names_of(fields@);
    let n = fields.len();
    if n == 0 {
        return String::new();
    }
    if n == 1 {
        return quote(fields[0]);
    }
    if n == 2 {
        let mut out = quote(fields[0]);
        out.append(" and ");
        let q = quote(fields[1]);
        out.append(q.as_str());
        return out;
    }
    let mut out = quote(fields[0]);
    proof {
        assert(names.take(1).drop_last() =~= Seq::<Seq<char>>::empty());
    }
    let mut i: usize = 1;
    while i + 1 < n
        invariant
            n == fields.len(),
            n >= 3,
            1 <= i <= n - 1,
            names == names_of(fields@),
            out@ == comma_list(names.take(i as int)),
        decreases n - i,
    {
        out.append(", ");
        let q = quote(fields[i]);
        out.append(q.as_str());
        proof {
            assert(names.take(i + 1).drop_last() =~= names.take(i as int));
        }
        i += 1;
    }
    out.append(", and ");
    let q = quote(fields[n - 1]);
    out.append(q.as_str());
    proof {
        assert(names.drop_last() =~= names.take(i as int));
    }
    out
}

} // verus!
