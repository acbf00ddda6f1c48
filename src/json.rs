//! A plain model of JSON values and their canonical compact text.

use vstd::prelude::*;

verus! {

/// A JSON value. Numbers are held as their canonical decimal text; object
/// members keep the order in which the document lists them.
pub enum JsonValue {
    Null,
    Bool(bool),
    Number(String),
    Str(String),
    Array(Vec<JsonValue>),
    Object(Vec<JsonMember>),
}

/// One `key: value` member of a JSON object.
pub struct JsonMember {
    pub key: String,
    pub value: JsonValue,
}

/// The JSON string literal that serde_json writes for `s`: quotes around
/// the text, with the characters that need it escaped.
pub uninterp spec fn json_quoted(s: Seq<char>) -> Seq<char>;

/// Number of elements of an array, or members of an object.
pub open spec fn child_count(v: JsonValue) -> nat {
    match v {
        JsonValue::Array(items) => items@.len(),
        JsonValue::Object(members) => members@.len(),
        _ => 0,
    }
}

/// Canonical compact text of a JSON value: no whitespace, members in order.
pub open spec fn json_text(v: JsonValue) -> Seq<char>
    decreases v, 1nat, 0nat,
{
    match v {
        JsonValue::Null => seq!['n', 'u', 'l', 'l'],
        JsonValue::Bool(b) => if b {
            seq!['t', 'r', 'u', 'e']
        } else {
            seq!['f', 'a', 'l', 's', 'e']
        },
        JsonValue::Number(n) => n@,
        JsonValue::Str(s) => json_quoted(s@),
        JsonValue::Array(_) => seq!['['] + children_text(v, child_count(v)) + seq![']'],
        JsonValue::Object(_) => seq!['{'] + children_text(v, child_count(v)) + seq!['}'],
    }
}

/// Text of the first `n` children of an array or object, separated by commas.
pub open spec fn children_text(v: JsonValue, n: nat) -> Seq<char>
    decreases v, 0nat, n,
{
    if n == 0 || n > child_count(v) {
        seq![]
    } else {
        let sep = if n == 1 {
            Seq::<char>::empty()
        } else {
            seq![',']
        };
        let last = match v {
            JsonValue::Array(items) => json_text(items@[n - 1]),
            JsonValue::Object(members) => json_quoted(members@[n - 1].key@) + seq![':'] + json_text(
                members@[n - 1].value,
            ),
            _ => seq![],
        };
        children_text(v, (n - 1) as nat) + sep + last
    }
}

/// Relies on serde_json::to_string on a `str`: it writes the string as a
/// JSON string literal, and cannot fail on a `str`.
#[verifier::external_body]
fn quote(s: &str) -> (r: String)
    ensures
        r@ == json_quoted(s@),
{
    serde_json::to_string(s).unwrap_or_default()
}

/// Appends the JSON string literal of `s` to `out`.
pub fn write_quoted(s: &str, out: &mut String)
    ensures
        final(out)@ == old(out)@ + json_quoted(s@),
{
    let q = quote(s);
    out.append(q.as_str());
}

/// The punctuation characters of JSON text.
pub open spec fn is_punct(c: char) -> bool {
    c == '[' || c == ']' || c == '{' || c == '}' || c == ',' || c == ':'
}

/// Appends one punctuation character.
pub fn push_punct(out: &mut String, c: char)
    requires
        is_punct(c),
    ensures
        final(out)@ == old(out)@ + seq![c],
{
    if c == '[' {
        proof { reveal_strlit("["); }
        out.append("[");
    } else if c == ']' {
        proof { reveal_strlit("]"); }
        out.append("]");
    } else if c == '{' {
        proof { reveal_strlit("{"); }
        out.append("{");
    } else if c == '}' {
        proof { reveal_strlit("}"); }
        out.append("}");
    } else if c == ',' {
        proof { reveal_strlit(","); }
        out.append(",");
    } else {
        proof { reveal_strlit(":"); }
        out.append(":");
    }
}

/// Appends the canonical text of `v` to `out`.
pub fn write_json(v: &JsonValue, out: &mut String)
    ensures
        final(out)@ == old(out)@ + json_text(*v),
    decreases v,
{
    match v {
        JsonValue::Null => {
            proof { reveal_strlit("null"); }
            out.append("null");
        },
        JsonValue::Bool(b) => {
            if *b {
                proof { reveal_strlit("true"); }
                out.append("true");
            } else {
                proof { reveal_strlit("false"); }
                out.append("false");
            }
        },
        JsonValue::Number(n) => {
            out.append(n.as_str());
        },
        JsonValue::Str(s) => {
            write_quoted(s.as_str(), out);
        },
        JsonValue::Array(items) => {
            let ghost start = out@;
            push_punct(out, '[');
            let mut i: usize = 0;
            while i < items.len()
                invariant
                    i <= items@.len(),
                    *v == JsonValue::Array(*items),
                    out@ == start + seq!['['] + children_text(*v, i as nat),
                decreases items@.len() - i,
            {
                if i > 0 {
                    push_punct(out, ',');
                }
                proof {
                    assert(decreases_to!(*v => v->Array_0));
                    assert(decreases_to!(*items => items@[i as int]));
                }
                write_json(&items[i], out);
                i = i + 1;
            }
            push_punct(out, ']');
        },
        JsonValue::Object(members) => {
            let ghost start = out@;
            push_punct(out, '{');
            let mut i: usize = 0;
            while i < members.len()
                invariant
                    i <= members@.len(),
                    *v == JsonValue::Object(*members),
                    out@ == start + seq!['{'] + children_text(*v, i as nat),
                decreases members@.len() - i,
            {
                if i > 0 {
                    push_punct(out, ',');
                }
                write_quoted(members[i].key.as_str(), out);
                push_punct(out, ':');
                proof {
                    assert(decreases_to!(*v => v->Object_0));
                    assert(decreases_to!(*members => members@[i as int]));
                }
                write_json(&members[i].value, out);
                i = i + 1;
            }
            push_punct(out, '}');
        },
    }
}

/// The canonical compact text of `v`.
pub fn to_json_text(v: &JsonValue) -> (r: String)
    ensures
        r@ == json_text(*v),
{
    let mut out = String::new();
    write_json(v, &mut out);
    out
}

} // verus!
