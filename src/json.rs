use vstd::prelude::*;

use crate::hydra_types::{FlattenedHydraJobset, HydraJobsetInput, HydraJobsets, JobInputCollection};

verus! {

/// A string written as a JSON string literal: in quotes, with JSON's escapes.
pub uninterp spec fn json_quoted(s: Seq<char>) -> Seq<char>;

/// Relies on serde_json's `Display` of `Value::String`: the JSON literal of the string.
#[verifier::external_body]
fn json_string(s: &str) -> (r: String)
    ensures
        r@ == json_quoted(s@),
{
    serde_json::Value::String(s.to_string()).to_string()
}

pub open spec fn bool_text(b: bool) -> Seq<char> {
    if b {
        "true"@
    } else {
        "false"@
    }
}

pub open spec fn digit_text(d: u64) -> Seq<char> {
    if d == 0 {
        "0"@
    } else if d == 1 {
        "1"@
    } else if d == 2 {
        "2"@
    } else if d == 3 {
        "3"@
    } else if d == 4 {
        "4"@
    } else if d == 5 {
        "5"@
    } else if d == 6 {
        "6"@
    } else if d == 7 {
        "7"@
    } else if d == 8 {
        "8"@
    } else {
        "9"@
    }
}

/// The decimal digits of `n`, without leading zeros.
pub open spec fn decimal_text(n: u64) -> Seq<char>
    decreases n,
{
    if n < 10 {
        digit_text(n)
    } else {
        decimal_text(n / 10) + digit_text(n % 10)
    }
}

pub open spec fn indent_text(level: nat) -> Seq<char>
    decreases level,
{
    if level == 0 {
        Seq::empty()
    } else {
        indent_text((level - 1) as nat) + "  "@
    }
}

/// What stands before a line at depth `level`: nothing in compact form, else
/// a line break and two spaces per level.
pub open spec fn line_break(pretty: bool, level: nat) -> Seq<char> {
    if pretty {
        "\n"@ + indent_text(level)
    } else {
        Seq::empty()
    }
}

/// The start of a member of an object at depth `level`, up to its value.
pub open spec fn member_head(pretty: bool, level: nat, first: bool, key: Seq<char>) -> Seq<char> {
    (if first {
        Seq::empty()
    } else {
        ","@
    }) + line_break(pretty, level + 1) + json_quoted(key) + if pretty {
        ": "@
    } else {
        ":"@
    }
}

#[verifier::opaque]
pub open spec fn member_text(
    pretty: bool,
    level: nat,
    first: bool,
    key: Seq<char>,
    value: Seq<char>,
) -> Seq<char> {
    member_head(pretty, level, first, key) + value
}

/// The end of an object at depth `level`; an empty object is `{}`.
#[verifier::opaque]
pub open spec fn close_text(pretty: bool, level: nat, empty: bool) -> Seq<char> {
    if empty {
        "}"@
    } else {
        line_break(pretty, level) + "}"@
    }
}

#[verifier::opaque]
pub open spec fn input_json(i: HydraJobsetInput, pretty: bool, level: nat) -> Seq<char> {
    "{"@ + member_text(pretty, level, true, "type"@, json_quoted(i.input_type@)) + member_text(
        pretty,
        level,
        false,
        "value"@,
        json_quoted(i.value@),
    ) + member_text(pretty, level, false, "emailresponsible"@, bool_text(i.emailresponsible))
        + close_text(pretty, level, false)
}

pub open spec fn inputs_members(
    s: Seq<(Seq<char>, HydraJobsetInput)>,
    pretty: bool,
    level: nat,
) -> Seq<char>
    decreases s.len(),
{
    if s.len() == 0 {
        Seq::empty()
    } else {
        inputs_members(s.drop_last(), pretty, level) + member_text(
            pretty,
            level,
            s.len() == 1,
            s.last().0,
            input_json(s.last().1, pretty, level + 1),
        )
    }
}

/// A collection of inputs as a JSON object, in key order.
#[verifier::opaque]
pub open spec fn inputs_json(s: Seq<(Seq<char>, HydraJobsetInput)>, pretty: bool, level: nat) -> Seq<
    char,
> {
    "{"@ + inputs_members(s, pretty, level) + close_text(pretty, level, s.len() == 0)
}

pub open spec fn optional_member(
    pretty: bool,
    level: nat,
    key: Seq<char>,
    value: Option<String>,
) -> Seq<char> {
    match value {
        Some(v) => member_text(pretty, level, false, key, json_quoted(v@)),
        None => Seq::empty(),
    }
}

/// A flattened jobset as a JSON object: its fields in their fixed order,
/// `nixexprinput` and `nixexprpath` only where they are set.
#[verifier::opaque]
pub open spec fn jobset_json(f: FlattenedHydraJobset, pretty: bool, level: nat) -> Seq<char> {
    "{"@ + member_text(pretty, level, true, "enabled"@, bool_text(f.enabled)) + member_text(
        pretty,
        level,
        false,
        "hidden"@,
        bool_text(f.hidden),
    ) + member_text(pretty, level, false, "description"@, json_quoted(f.description@))
        + member_text(pretty, level, false, "checkinterval"@, decimal_text(f.checkinterval))
        + member_text(pretty, level, false, "schedulingshares"@, decimal_text(f.schedulingshares))
        + member_text(pretty, level, false, "enableemail"@, bool_text(f.enableemail))
        + member_text(pretty, level, false, "emailoverride"@, json_quoted(f.emailoverride@))
        + member_text(pretty, level, false, "keepnr"@, decimal_text(f.keepnr)) + member_text(
        pretty,
        level,
        false,
        "flake"@,
        json_quoted(f.flake@),
    ) + optional_member(pretty, level, "nixexprinput"@, f.nixexprinput) + optional_member(
        pretty,
        level,
        "nixexprpath"@,
        f.nixexprpath,
    ) + member_text(pretty, level, false, "inputs"@, inputs_json(f.inputs@, pretty, level + 1))
        + close_text(pretty, level, false)
}

pub open spec fn jobsets_members(
    s: Seq<(Seq<char>, FlattenedHydraJobset)>,
    pretty: bool,
    level: nat,
) -> Seq<char>
    decreases s.len(),
{
    if s.len() == 0 {
        Seq::empty()
    } else {
        jobsets_members(s.drop_last(), pretty, level) + member_text(
            pretty,
            level,
            s.len() == 1,
            s.last().0,
            jobset_json(s.last().1, pretty, level + 1),
        )
    }
}

/// Jobsets under their keys as one JSON object, in key order.
pub open spec fn jobsets_json(s: Seq<(Seq<char>, FlattenedHydraJobset)>, pretty: bool) -> Seq<char> {
    "{"@ + jobsets_members(s, pretty, 0) + close_text(pretty, 0, s.len() == 0)
}

fn digit_str(d: u64) -> (r: &'static str)
    requires
        d < 10,
    ensures
        r@ == digit_text(d),
{
    if d == 0 {
        "0"
    } else if d == 1 {
        "1"
    } else if d == 2 {
        "2"
    } else if d == 3 {
        "3"
    } else if d == 4 {
        "4"
    } else if d == 5 {
        "5"
    } else if d == 6 {
        "6"
    } else if d == 7 {
        "7"
    } else if d == 8 {
        "8"
    } else {
        "9"
    }
}

fn push_decimal(out: &mut String, n: u64)
    ensures
        final(out)@ == old(out)@ + decimal_text(n),
    decreases n,
{
    if n < 10 {
        out.append(digit_str(n));
    } else {
        push_decimal(out, n / 10);
        out.append(digit_str(n % 10));
        assert(final(out)@ =~= old(out)@ + decimal_text(n));
    }
}

fn push_line_break(out: &mut String, pretty: bool, level: usize)
    ensures
        final(out)@ == old(out)@ + line_break(pretty, level as nat),
{
    if pretty {
        out.append("\n");
        let mut i: usize = 0;
        while i < level
            invariant
                i <= level,
                out@ == old(out)@ + "\n"@ + indent_text(i as nat),
            decreases level - i,
        {
            out.append("  ");
            i = i + 1;
        }
        assert(out@ =~= old(out)@ + line_break(pretty, level as nat));
    } else {
        assert(out@ =~= old(out)@ + line_break(pretty, level as nat));
    }
}

/// Writes the start of a member, up to its value.
fn push_member_head(out: &mut String, pretty: bool, level: usize, first: bool, key: &str)
    requires
        level < usize::MAX,
    ensures
        final(out)@ == old(out)@ + member_head(pretty, level as nat, first, key@),
{
    let ghost start = out@;
    if !first {
        out.append(",");
    }
    push_line_break(out, pretty, level + 1);
    let quoted = json_string(key);
    out.append(quoted.as_str());
    if pretty {
        out.append(": ");
    } else {
        out.append(":");
    }
    assert(out@ =~= start + member_head(pretty, level as nat, first, key@));
}

fn push_close(out: &mut String, pretty: bool, level: usize, empty: bool)
    ensures
        final(out)@ == old(out)@ + close_text(pretty, level as nat, empty),
{
    reveal(close_text);
    let ghost start = out@;
    if !empty {
        push_line_break(out, pretty, level);
    }
    out.append("}");
    assert(out@ =~= start + close_text(pretty, level as nat, empty));
}

fn push_str_member(out: &mut String, pretty: bool, level: usize, first: bool, key: &str, value: &str)
    requires
        level < usize::MAX,
    ensures
        final(out)@ == old(out)@ + member_text(pretty, level as nat, first, key@, json_quoted(value@)),
{
    reveal(member_text);
    let ghost start = out@;
    push_member_head(out, pretty, level, first, key);
    let quoted = json_string(value);
    out.append(quoted.as_str());
    assert(out@ =~= start + member_text(pretty, level as nat, first, key@, json_quoted(value@)));
}

fn push_bool_member(out: &mut String, pretty: bool, level: usize, first: bool, key: &str, value: bool)
    requires
        level < usize::MAX,
    ensures
        final(out)@ == old(out)@ + member_text(pretty, level as nat, first, key@, bool_text(value)),
{
    reveal(member_text);
    let ghost start = out@;
    push_member_head(out, pretty, level, first, key);
    if value {
        out.append("true");
    } else {
        out.append("false");
    }
    assert(out@ =~= start + member_text(pretty, level as nat, first, key@, bool_text(value)));
}

fn push_u64_member(out: &mut String, pretty: bool, level: usize, first: bool, key: &str, value: u64)
    requires
        level < usize::MAX,
    ensures
        final(out)@ == old(out)@ + member_text(pretty, level as nat, first, key@, decimal_text(value)),
{
    reveal(member_text);
    let ghost start = out@;
    push_member_head(out, pretty, level, first, key);
    push_decimal(out, value);
    assert(out@ =~= start + member_text(pretty, level as nat, first, key@, decimal_text(value)));
}

fn push_input_json(out: &mut String, i: &HydraJobsetInput, pretty: bool, level: usize)
    requires
        level < usize::MAX,
    ensures
        final(out)@ == old(out)@ + input_json(*i, pretty, level as nat),
{
    let mut body = String::from_str("{");
    push_str_member(&mut body, pretty, level, true, "type", i.input_type.as_str());
    push_str_member(&mut body, pretty, level, false, "value", i.value.as_str());
    push_bool_member(&mut body, pretty, level, false, "emailresponsible", i.emailresponsible);
    push_close(&mut body, pretty, level, false);
    proof {
        reveal(input_json);
    }
    assert(body@ == input_json(*i, pretty, level as nat));
    out.append(body.as_str());
}

fn push_input_member(
    out: &mut String,
    pretty: bool,
    level: usize,
    first: bool,
    key: &str,
    i: &HydraJobsetInput,
)
    requires
        level < usize::MAX - 1,
    ensures
        final(out)@ == old(out)@ + member_text(
            pretty,
            level as nat,
            first,
            key@,
            input_json(*i, pretty, level as nat + 1),
        ),
{
    reveal(member_text);
    let ghost start = out@;
    push_member_head(out, pretty, level, first, key);
    push_input_json(out, i, pretty, level + 1);
    assert(out@ =~= start + member_text(
        pretty,
        level as nat,
        first,
        key@,
        input_json(*i, pretty, level as nat + 1),
    ));
}

fn push_inputs_json(out: &mut String, c: &JobInputCollection, pretty: bool, level: usize)
    requires
        level < usize::MAX - 1,
    ensures
        final(out)@ == old(out)@ + inputs_json(c@, pretty, level as nat),
{
    reveal(inputs_json);
    let ghost start = out@;
    out.append("{");
    let entries = c.entries();
    let n = entries.len();
    let mut i: usize = 0;
    while i < n
        invariant
            n == c@.len(),
            entries@.len() == n,
            forall|j: int|
                0 <= j < n ==> (#[trigger] entries@[j]).0@ == c@[j].0 && entries@[j].1
                    == c@[j].1,
            level < usize::MAX - 1,
            i <= n,
            out@ == start + "{"@ + inputs_members(c@.take(i as int), pretty, level as nat),
        decreases n - i,
    {
        let ghost before = out@;
        let ghost s = c@.take(i as int + 1);
        push_input_member(out, pretty, level, i == 0, entries[i].0.as_str(), &entries[i].1);
        proof {
            assert(s.drop_last() =~= c@.take(i as int));
            assert(s.last() == c@[i as int]);
            assert(out@ =~= start + "{"@ + inputs_members(s, pretty, level as nat));
        }
        i = i + 1;
    }
    push_close(out, pretty, level, n == 0);
    proof {
        assert(c@.take(n as int) =~= c@);
    }
    assert(out@ =~= start + inputs_json(c@, pretty, level as nat));
}

fn push_optional_member(
    out: &mut String,
    pretty: bool,
    level: usize,
    key: &str,
    value: &Option<String>,
)
    requires
        level < usize::MAX,
    ensures
        final(out)@ == old(out)@ + optional_member(pretty, level as nat, key@, *value),
{
    match value {
        Some(v) => push_str_member(out, pretty, level, false, key, v.as_str()),
        None => {
            assert(out@ =~= out@ + Seq::<char>::empty());
        },
    }
}

fn push_inputs_member(out: &mut String, pretty: bool, level: usize, c: &JobInputCollection)
    requires
        level < usize::MAX - 2,
    ensures
        final(out)@ == old(out)@ + member_text(
            pretty,
            level as nat,
            false,
            "inputs"@,
            inputs_json(c@, pretty, level as nat + 1),
        ),
{
    reveal(member_text);
    let ghost start = out@;
    push_member_head(out, pretty, level, false, "inputs");
    push_inputs_json(out, c, pretty, level + 1);
    assert(out@ =~= start + member_text(
        pretty,
        level as nat,
        false,
        "inputs"@,
        inputs_json(c@, pretty, level as nat + 1),
    ));
}

fn push_jobset_member(
    out: &mut String,
    pretty: bool,
    level: usize,
    first: bool,
    key: &str,
    f: &FlattenedHydraJobset,
)
    requires
        level < usize::MAX - 3,
    ensures
        final(out)@ == old(out)@ + member_text(
            pretty,
            level as nat,
            first,
            key@,
            jobset_json(*f, pretty, level as nat + 1),
        ),
{
    reveal(member_text);
    let ghost start = out@;
    push_member_head(out, pretty, level, first, key);
    push_jobset_json(out, f, pretty, level + 1);
    assert(out@ =~= start + member_text(
        pretty,
        level as nat,
        first,
        key@,
        jobset_json(*f, pretty, level as nat + 1),
    ));
}

fn push_jobset_json(out: &mut String, f: &FlattenedHydraJobset, pretty: bool, level: usize)
    requires
        level < usize::MAX - 2,
    ensures
        final(out)@ == old(out)@ + jobset_json(*f, pretty, level as nat),
{
    let mut body = String::from_str("{");
    push_bool_member(&mut body, pretty, level, true, "enabled", f.enabled);
    push_bool_member(&mut body, pretty, level, false, "hidden", f.hidden);
    push_str_member(&mut body, pretty, level, false, "description", f.description.as_str());
    push_u64_member(&mut body, pretty, level, false, "checkinterval", f.checkinterval);
    push_u64_member(&mut body, pretty, level, false, "schedulingshares", f.schedulingshares);
    push_bool_member(&mut body, pretty, level, false, "enableemail", f.enableemail);
    push_str_member(&mut body, pretty, level, false, "emailoverride", f.emailoverride.as_str());
    push_u64_member(&mut body, pretty, level, false, "keepnr", f.keepnr);
    push_str_member(&mut body, pretty, level, false, "flake", f.flake.as_str());
    push_optional_member(&mut body, pretty, level, "nixexprinput", &f.nixexprinput);
    push_optional_member(&mut body, pretty, level, "nixexprpath", &f.nixexprpath);
    push_inputs_member(&mut body, pretty, level, &f.inputs);
    push_close(&mut body, pretty, level, false);
    proof {
        reveal(jobset_json);
    }
    assert(body@ == jobset_json(*f, pretty, level as nat));
    out.append(body.as_str());
}

impl FlattenedHydraJobset {
    /// The jobset as a JSON object, compact or indented by two spaces.
    pub fn to_json(&self, pretty: bool) -> (r: String)
        ensures
            r@ == jobset_json(*self, pretty, 0),
    {
        let mut out = String::new();
        push_jobset_json(&mut out, self, pretty, 0);
        assert(out@ =~= jobset_json(*self, pretty, 0));
        out
    }
}

/// Jobsets under their keys as one JSON object, compact or indented by two spaces.
pub fn jobsets_to_json(jobs: &HydraJobsets, pretty: bool) -> (r: String)
    ensures
        r@ == jobsets_json(jobs@, pretty),
{
    let mut out = String::new();
    out.append("{");
    let entries = jobs.entries();
    let n = entries.len();
    let mut i: usize = 0;
    while i < n
        invariant
            n == jobs@.len(),
            entries@.len() == n,
            forall|j: int|
                0 <= j < n ==> (#[trigger] entries@[j]).0@ == jobs@[j].0 && entries@[j].1
                    == jobs@[j].1,
            i <= n,
            out@ == "{"@ + jobsets_members(jobs@.take(i as int), pretty, 0),
        decreases n - i,
    {
        let ghost s = jobs@.take(i as int + 1);
        push_jobset_member(&mut out, pretty, 0, i == 0, entries[i].0.as_str(), &entries[i].1);
        proof {
            assert(s.drop_last() =~= jobs@.take(i as int));
            assert(s.last() == jobs@[i as int]);
            assert(out@ =~= "{"@ + jobsets_members(s, pretty, 0));
        }
        i = i + 1;
    }
    push_close(&mut out, pretty, 0, n == 0);
    proof {
        assert(jobs@.take(n as int) =~= jobs@);
    }
    assert(out@ =~= jobsets_json(jobs@, pretty));
    out
}

} // verus!
