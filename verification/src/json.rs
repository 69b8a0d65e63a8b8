//! The library's own model of a JSON document, with verified compact and
//! pretty serializers. The override blob of the config is carried as such a
//! value and serialized into the launch script; the routing table is built
//! and pretty-printed from one.

use vstd::prelude::*;

verus! {

broadcast use vstd::std_specs::vec::axiom_vec_index_decreases;

/// One member of a JSON object.
#[derive(Debug)]
pub struct JsonMember {
    pub key: String,
    pub value: JsonValue,
}

/// A JSON document. Numbers are carried as their literal numeral text and
/// written out verbatim; object members keep their given order.
#[derive(Debug)]
pub enum JsonValue {
    Null,
    Bool(bool),
    Num(String),
    Str(String),
    Arr(Vec<JsonValue>),
    Obj(Vec<JsonMember>),
}

/// The character for one lower-case hexadecimal digit.
pub open spec fn spec_hex_digit(d: int) -> char {
    if d < 10 {
        crate::text::spec_digit_char(d)
    } else if d == 10 {
        'a'
    } else if d == 11 {
        'b'
    } else if d == 12 {
        'c'
    } else if d == 13 {
        'd'
    } else if d == 14 {
        'e'
    } else {
        'f'
    }
}

/// How one character appears inside a JSON string literal: quote and
/// backslash are escaped, the named control characters take their short
/// escapes, the other control characters take a `\u00xx` escape, and
/// everything else stands as itself.
pub open spec fn spec_escape_char(c: char) -> Seq<char> {
    if c == '"' {
        seq!['\\', '"']
    } else if c == '\\' {
        seq!['\\', '\\']
    } else if c == '\u{8}' {
        seq!['\\', 'b']
    } else if c == '\t' {
        seq!['\\', 't']
    } else if c == '\n' {
        seq!['\\', 'n']
    } else if c == '\u{c}' {
        seq!['\\', 'f']
    } else if c == '\r' {
        seq!['\\', 'r']
    } else if (c as u32) < 32 {
        seq!['\\', 'u', '0', '0', spec_hex_digit((c as u32) as int / 16), spec_hex_digit(
            (c as u32) as int % 16,
        )]
    } else {
        seq![c]
    }
}

/// A character sequence escaped for a JSON string literal.
pub open spec fn spec_escape(s: Seq<char>) -> Seq<char>
    decreases s.len(),
{
    if s.len() == 0 {
        Seq::empty()
    } else {
        spec_escape(s.drop_last()) + spec_escape_char(s.last())
    }
}

/// A JSON string literal: quoted and escaped.
pub open spec fn spec_json_string(s: Seq<char>) -> Seq<char> {
    seq!['"'] + spec_escape(s) + seq!['"']
}

/// The compact serialization of a value, as `serde_json::to_string` writes
/// it: no spaces, `,` and `:` separators, members in their given order.
pub open spec fn spec_json_compact(v: JsonValue) -> Seq<char>
    decreases v,
{
    match v {
        JsonValue::Null => "null"@,
        JsonValue::Bool(b) => if b {
            "true"@
        } else {
            "false"@
        },
        JsonValue::Num(n) => n@,
        JsonValue::Str(s) => spec_json_string(s@),
        JsonValue::Arr(items) => "["@ + spec_compact_arr(items, items@.len() as int) + "]"@,
        JsonValue::Obj(members) => "{"@ + spec_compact_obj(members, members@.len() as int)
            + "}"@,
    }
}

/// The first `i` items of an array, compact, comma-separated.
pub open spec fn spec_compact_arr(items: Vec<JsonValue>, i: int) -> Seq<char>
    decreases items, i,
    when i <= items@.len()
{
    if i <= 0 {
        Seq::empty()
    } else {
        spec_compact_arr(items, i - 1) + (if i == 1 {
            Seq::empty()
        } else {
            seq![',']
        }) + spec_json_compact(items@[i - 1])
    }
}

/// The first `i` members of an object, compact, comma-separated.
pub open spec fn spec_compact_obj(members: Vec<JsonMember>, i: int) -> Seq<char>
    decreases members, i,
    when i <= members@.len()
{
    if i <= 0 {
        Seq::empty()
    } else {
        spec_compact_obj(members, i - 1) + (if i == 1 {
            Seq::empty()
        } else {
            seq![',']
        }) + spec_json_string(members@[i - 1].key@) + seq![':'] + spec_json_compact(
            members@[i - 1].value,
        )
    }
}

/// `n` levels of two-space indentation.
pub open spec fn spec_indent(n: int) -> Seq<char>
    decreases n,
{
    if n <= 0 {
        Seq::empty()
    } else {
        spec_indent(n - 1) + seq![' ', ' ']
    }
}

/// The pretty serialization of a value at indentation depth `ind`, as
/// `serde_json::to_string_pretty` writes it: two-space indentation, one
/// item per line, `": "` after each key, empty containers on one line.
pub open spec fn spec_json_pretty(v: JsonValue, ind: int) -> Seq<char>
    decreases v,
{
    match v {
        JsonValue::Null => "null"@,
        JsonValue::Bool(b) => if b {
            "true"@
        } else {
            "false"@
        },
        JsonValue::Num(n) => n@,
        JsonValue::Str(s) => spec_json_string(s@),
        JsonValue::Arr(items) => if items@.len() == 0 {
            "[]"@
        } else {
            "["@ + spec_pretty_arr(items, items@.len() as int, ind) + seq!['\n'] + spec_indent(
                ind,
            ) + "]"@
        },
        JsonValue::Obj(members) => if members@.len() == 0 {
            "{}"@
        } else {
            "{"@ + spec_pretty_obj(members, members@.len() as int, ind) + seq!['\n']
                + spec_indent(ind) + "}"@
        },
    }
}

/// The first `i` items of an array, pretty, each on its own line.
pub open spec fn spec_pretty_arr(items: Vec<JsonValue>, i: int, ind: int) -> Seq<char>
    decreases items, i,
    when i <= items@.len()
{
    if i <= 0 {
        Seq::empty()
    } else {
        spec_pretty_arr(items, i - 1, ind) + (if i == 1 {
            seq!['\n']
        } else {
            seq![',', '\n']
        }) + spec_indent(ind + 1) + spec_json_pretty(items@[i - 1], ind + 1)
    }
}

/// The first `i` members of an object, pretty, each on its own line.
pub open spec fn spec_pretty_obj(members: Vec<JsonMember>, i: int, ind: int) -> Seq<char>
    decreases members, i,
    when i <= members@.len()
{
    if i <= 0 {
        Seq::empty()
    } else {
        spec_pretty_obj(members, i - 1, ind) + (if i == 1 {
            seq!['\n']
        } else {
            seq![',', '\n']
        }) + spec_indent(ind + 1) + spec_json_string(members@[i - 1].key@) + ": "@
            + spec_json_pretty(members@[i - 1].value, ind + 1)
    }
}

/// Relies on String::push: appends one character to the string.
#[verifier::external_body]
fn push_char(s: &mut String, c: char)
    ensures
        final(s)@ == old(s)@.push(c),
{
    s.push(c);
}

fn push_hex_digit(s: &mut String, e: u32)
    requires
        e < 16,
    ensures
        final(s)@ == old(s)@.push(spec_hex_digit(e as int)),
{
    if e == 0 {
        push_char(s, '0');
    } else if e == 1 {
        push_char(s, '1');
    } else if e == 2 {
        push_char(s, '2');
    } else if e == 3 {
        push_char(s, '3');
    } else if e == 4 {
        push_char(s, '4');
    } else if e == 5 {
        push_char(s, '5');
    } else if e == 6 {
        push_char(s, '6');
    } else if e == 7 {
        push_char(s, '7');
    } else if e == 8 {
        push_char(s, '8');
    } else if e == 9 {
        push_char(s, '9');
    } else if e == 10 {
        push_char(s, 'a');
    } else if e == 11 {
        push_char(s, 'b');
    } else if e == 12 {
        push_char(s, 'c');
    } else if e == 13 {
        push_char(s, 'd');
    } else if e == 14 {
        push_char(s, 'e');
    } else {
        push_char(s, 'f');
    }
}

fn push_escaped_char(s: &mut String, c: char)
    ensures
        final(s)@ == old(s)@ + spec_escape_char(c),
{
    if c == '"' {
        push_char(s, '\\');
        push_char(s, '"');
    } else if c == '\\' {
        push_char(s, '\\');
        push_char(s, '\\');
    } else if c == '\u{8}' {
        push_char(s, '\\');
        push_char(s, 'b');
    } else if c == '\t' {
        push_char(s, '\\');
        push_char(s, 't');
    } else if c == '\n' {
        push_char(s, '\\');
        push_char(s, 'n');
    } else if c == '\u{c}' {
        push_char(s, '\\');
        push_char(s, 'f');
    } else if c == '\r' {
        push_char(s, '\\');
        push_char(s, 'r');
    } else if (c as u32) < 32 {
        push_char(s, '\\');
        push_char(s, 'u');
        push_char(s, '0');
        push_char(s, '0');
        push_hex_digit(s, (c as u32) / 16);
        push_hex_digit(s, (c as u32) % 16);
    } else {
        push_char(s, c);
    }
    proof {
        assert(s@ =~= old(s)@ + spec_escape_char(c));
    }
}

/// Appends `s` quoted and escaped as a JSON string literal.
pub fn push_json_string(out: &mut String, s: &String)
    ensures
        final(out)@ == old(out)@ + spec_json_string(s@),
{
    let n: usize = s.as_str().unicode_len();
    push_char(out, '"');
    let mut i: usize = 0;
    while i < n
        invariant
            i <= n,
            n == s@.len(),
            out@ == old(out)@ + seq!['"'] + spec_escape(s@.take(i as int)),
        decreases n - i,
    {
        let c = s.as_str().get_char(i);
        push_escaped_char(out, c);
        proof {
            assert(s@.take(i + 1).drop_last() =~= s@.take(i as int));
            assert(s@.take(i + 1).last() == s@[i as int]);
            assert(out@ =~= old(out)@ + seq!['"'] + spec_escape(s@.take(i + 1)));
        }
        i = i + 1;
    }
    push_char(out, '"');
    proof {
        assert(s@.take(n as int) =~= s@);
        assert(out@ =~= old(out)@ + spec_json_string(s@));
    }
}

/// Appends the compact serialization of `v`.
#[verifier::loop_isolation(false)]
pub fn push_json_compact(out: &mut String, v: &JsonValue)
    ensures
        final(out)@ == old(out)@ + spec_json_compact(*v),
    decreases *v,
{
    match v {
        JsonValue::Null => {
            out.append("null");
        },
        JsonValue::Bool(b) => {
            if *b {
                out.append("true");
            } else {
                out.append("false");
            }
        },
        JsonValue::Num(n) => {
            out.append(n.as_str());
        },
        JsonValue::Str(s) => {
            push_json_string(out, s);
        },
        JsonValue::Arr(items) => {
            out.append("[");
            let mut i: usize = 0;
            while i < items.len()
                invariant
                    i <= items@.len(),
                    out@ == old(out)@ + "["@ + spec_compact_arr(*items, i as int),
                decreases items@.len() - i,
            {
                if i > 0 {
                    push_char(out, ',');
                }
                proof {
                    assert(decreases_to!(*v => items@[i as int]));
                }
                push_json_compact(out, &items[i]);
                proof {
                    assert(out@ =~= old(out)@ + "["@ + spec_compact_arr(*items, i + 1));
                }
                i = i + 1;
            }
            out.append("]");
            proof {
                assert(out@ =~= old(out)@ + spec_json_compact(*v));
            }
        },
        JsonValue::Obj(members) => {
            out.append("{");
            let mut i: usize = 0;
            while i < members.len()
                invariant
                    i <= members@.len(),
                    out@ == old(out)@ + "{"@ + spec_compact_obj(*members, i as int),
                decreases members@.len() - i,
            {
                if i > 0 {
                    push_char(out, ',');
                }
                push_json_string(out, &members[i].key);
                push_char(out, ':');
                proof {
                    assert(decreases_to!(*v => members@[i as int].value));
                }
                push_json_compact(out, &members[i].value);
                proof {
                    assert(out@ =~= old(out)@ + "{"@ + spec_compact_obj(*members, i + 1));
                }
                i = i + 1;
            }
            out.append("}");
            proof {
                assert(out@ =~= old(out)@ + spec_json_compact(*v));
            }
        },
    }
}

/// The compact serialization of `v` as a fresh string.
pub fn json_compact(v: &JsonValue) -> (r: String)
    ensures
        r@ == spec_json_compact(*v),
{
    let mut out = String::new();
    push_json_compact(&mut out, v);
    proof {
        assert(out@ =~= spec_json_compact(*v));
    }
    out
}

/// Appends the pretty serialization of `v`; `pad` holds the current
/// indentation, two spaces per level of depth `ind`.
#[verifier::loop_isolation(false)]
#[verifier::rlimit(80)]
fn push_json_pretty_at(out: &mut String, v: &JsonValue, pad: &String, ind: Ghost<int>)
    requires
        ind@ >= 0,
        pad@ == spec_indent(ind@),
    ensures
        final(out)@ == old(out)@ + spec_json_pretty(*v, ind@),
    decreases *v,
{
    match v {
        JsonValue::Null => {
            out.append("null");
        },
        JsonValue::Bool(b) => {
            if *b {
                out.append("true");
            } else {
                out.append("false");
            }
        },
        JsonValue::Num(n) => {
            out.append(n.as_str());
        },
        JsonValue::Str(s) => {
            push_json_string(out, s);
        },
        JsonValue::Arr(items) => {
            if items.len() == 0 {
                out.append("[]");
            } else {
                let mut pad2 = pad.clone();
                pad2.append("  ");
                proof {
                    reveal_strlit("  ");
                    assert(pad2@ =~= spec_indent(ind@ + 1));
                }
                out.append("[");
                let mut i: usize = 0;
                while i < items.len()
                    invariant
                        i <= items@.len(),
                        ind@ >= 0,
                        pad@ == spec_indent(ind@),
                        pad2@ == spec_indent(ind@ + 1),
                        out@ == old(out)@ + "["@ + spec_pretty_arr(*items, i as int, ind@),
                    decreases items@.len() - i,
                {
                    if i > 0 {
                        push_char(out, ',');
                    }
                    push_char(out, '\n');
                    out.append(pad2.as_str());
                    proof {
                        assert(decreases_to!(*v => items@[i as int]));
                    }
                    push_json_pretty_at(out, &items[i], &pad2, Ghost(ind@ + 1));
                    proof {
                        assert(out@ =~= old(out)@ + "["@ + spec_pretty_arr(
                            *items,
                            i + 1,
                            ind@,
                        ));
                    }
                    i = i + 1;
                }
                push_char(out, '\n');
                out.append(pad.as_str());
                out.append("]");
                proof {
                    assert(out@ =~= old(out)@ + spec_json_pretty(*v, ind@));
                }
            }
        },
        JsonValue::Obj(members) => {
            if members.len() == 0 {
                out.append("{}");
            } else {
                let mut pad2 = pad.clone();
                pad2.append("  ");
                proof {
                    reveal_strlit("  ");
                    assert(pad2@ =~= spec_indent(ind@ + 1));
                }
                out.append("{");
                let mut i: usize = 0;
                while i < members.len()
                    invariant
                        i <= members@.len(),
                        ind@ >= 0,
                        pad@ == spec_indent(ind@),
                        pad2@ == spec_indent(ind@ + 1),
                        out@ == old(out)@ + "{"@ + spec_pretty_obj(*members, i as int, ind@),
                    decreases members@.len() - i,
                {
                    if i > 0 {
                        push_char(out, ',');
                    }
                    push_char(out, '\n');
                    out.append(pad2.as_str());
                    push_json_string(out, &members[i].key);
                    out.append(": ");
                    proof {
                        assert(decreases_to!(*v => members@[i as int].value));
                    }
                    push_json_pretty_at(out, &members[i].value, &pad2, Ghost(ind@ + 1));
                    proof {
                        assert(out@ =~= old(out)@ + "{"@ + spec_pretty_obj(
                            *members,
                            i + 1,
                            ind@,
                        ));
                    }
                    i = i + 1;
                }
                push_char(out, '\n');
                out.append(pad.as_str());
                out.append("}");
                proof {
                    assert(out@ =~= old(out)@ + spec_json_pretty(*v, ind@));
                }
            }
        },
    }
}

/// The pretty serialization of `v` as a fresh string, starting at the
/// outermost indentation depth.
pub fn json_pretty(v: &JsonValue) -> (r: String)
    ensures
        r@ == spec_json_pretty(*v, 0),
{
    let mut out = String::new();
    let pad = String::new();
    push_json_pretty_at(&mut out, v, &pad, Ghost(0int));
    proof {
        assert(out@ =~= spec_json_pretty(*v, 0));
    }
    out
}

} // verus!
