//! Plain-text layout of a report tree: one `key: value` line per scalar entry,
//! nested objects and lists indented by two spaces beneath their key, and list
//! elements introduced by their `[index]`. Scalars and lists of scalars are
//! written as compact JSON.
use vstd::prelude::*;
use crate::encoding::ReportValue;
use crate::ip::{decimal_text, format_decimal, signed_decimal_text};
use crate::text::hex_digit;

verus! {

/// One character as a JSON string writes it: quotation mark and reverse solidus
/// escaped with a reverse solidus, backspace, form feed, line feed, carriage
/// return and tab by their short escapes, other controls below U+0020 as `\u00`
/// and two lowercase hex digits, and every other character unchanged.
pub open spec fn json_char(c: char) -> Seq<char> {
    if c == '"' {
        seq!['\\', '"']
    } else if c == '\\' {
        seq!['\\', '\\']
    } else if c == '\u{8}' {
        seq!['\\', 'b']
    } else if c == '\u{c}' {
        seq!['\\', 'f']
    } else if c == '\n' {
        seq!['\\', 'n']
    } else if c == '\r' {
        seq!['\\', 'r']
    } else if c == '\t' {
        seq!['\\', 't']
    } else if (c as u32) < 0x20 {
        seq!['\\', 'u', '0', '0', hex_digit(((c as u32) / 16) as u8), hex_digit(((c as u32) % 16) as u8)]
    } else {
        seq![c]
    }
}

/// The characters of `s`, each as a JSON string writes it.
pub open spec fn json_escaped(s: Seq<char>) -> Seq<char>
    decreases s.len(),
{
    if s.len() == 0 {
        Seq::empty()
    } else {
        json_escaped(s.drop_last()) + json_char(s.last())
    }
}

/// The JSON text of a string: its escaped characters between quotation marks.
pub open spec fn json_string_text(s: Seq<char>) -> Seq<char> {
    seq!['"'] + json_escaped(s) + seq!['"']
}

/// `serde_json::to_string` on a string: the quoted text with the escapes of its
/// compact formatter (`format_escaped_str`); writing a string cannot fail.
#[verifier::external_body]
fn json_string(s: &str) -> (r: String)
    ensures
        r@ == json_string_text(s@),
{
    serde_json::to_string(s).unwrap_or_default()
}

/// Parts joined by commas.
pub open spec fn comma_join(parts: Seq<Seq<char>>) -> Seq<char>
    decreases parts.len(),
{
    if parts.len() == 0 {
        Seq::empty()
    } else if parts.len() == 1 {
        parts[0]
    } else {
        comma_join(parts.drop_last()) + seq![','] + parts.last()
    }
}

/// Compact JSON text of a leaf; an octet string is written as its list of octets.
pub open spec fn json_leaf(v: ReportValue) -> Seq<char> {
    match v {
        ReportValue::Null => "null"@,
        ReportValue::Bool(b) => if b { "true"@ } else { "false"@ },
        ReportValue::Integer(n) => signed_decimal_text(n as int),
        ReportValue::Text(s) => json_string_text(s@),
        ReportValue::Bytes(b) => seq!['['] + comma_join(Seq::new(b.len() as nat, |i: int| decimal_text(b@[i] as nat)))
            + seq![']'],
        _ => Seq::empty(),
    }
}

/// Compact JSON text of a leaf or of a list of leaves.
pub open spec fn json_inline(v: ReportValue) -> Seq<char> {
    match v {
        ReportValue::Array(items) => seq!['['] + comma_join(Seq::new(items.len() as nat, |i: int| json_leaf(items@[i])))
            + seq![']'],
        _ => json_leaf(v),
    }
}

/// An object, or a list holding an object or a list: written on lines of its own.
pub open spec fn is_nested(v: ReportValue) -> bool {
    match v {
        ReportValue::Object(_) => true,
        ReportValue::Array(items) => exists|i: int|
            0 <= i < items.len() && ((#[trigger] items@[i]) is Object || items@[i] is Array),
        _ => false,
    }
}

/// The number of entries or elements of a value.
pub open spec fn width(v: ReportValue) -> int {
    match v {
        ReportValue::Object(fields) => fields.len() as int,
        ReportValue::Array(items) => items.len() as int,
        _ => 0,
    }
}

/// The text layout of `v`, each line opening with `pad`.
pub open spec fn layout(v: ReportValue, pad: Seq<char>) -> Seq<char>
    decreases v, width(v) + 1,
{
    match v {
        ReportValue::Object(_) => entries_layout(v, pad, width(v)),
        ReportValue::Array(_) => elements_layout(v, pad, width(v)),
        _ => pad + json_inline(v) + seq!['\n'],
    }
}

/// The layout of the first `n` entries of an object.
pub open spec fn entries_layout(v: ReportValue, pad: Seq<char>, n: int) -> Seq<char>
    decreases v, n,
{
    match v {
        ReportValue::Object(fields) => if n <= 0 || n > fields.len() {
            Seq::empty()
        } else {
            let key = fields@[n - 1].0@;
            let value = fields@[n - 1].1;
            entries_layout(v, pad, n - 1) + pad + key + seq![':'] + if is_nested(value) {
                seq!['\n'] + layout(value, pad + seq![' ', ' '])
            } else {
                seq![' '] + json_inline(value) + seq!['\n']
            }
        },
        _ => Seq::empty(),
    }
}

/// The layout of the first `n` elements of a list.
pub open spec fn elements_layout(v: ReportValue, pad: Seq<char>, n: int) -> Seq<char>
    decreases v, n,
{
    match v {
        ReportValue::Array(items) => if n <= 0 || n > items.len() {
            Seq::empty()
        } else {
            elements_layout(v, pad, n - 1) + pad + seq!['['] + decimal_text((n - 1) as nat) + seq![']', '\n']
                + layout(items@[n - 1], pad + seq![' ', ' '])
        },
        _ => Seq::empty(),
    }
}


fn push(out: &mut String, s: &str)
    ensures
        final(out)@ == old(out)@ + s@,
{
    out.append(s);
}

proof fn lemma_join_step(parts: Seq<Seq<char>>, i: int)
    requires
        0 <= i < parts.len(),
    ensures
        comma_join(parts.take(i + 1)) == comma_join(parts.take(i)) + (if i == 0 { Seq::<char>::empty() } else { seq![','] })
            + parts[i],
{
    let t = parts.take(i + 1);
    assert(t.drop_last() =~= parts.take(i));
    if i == 0 {
        assert(comma_join(parts.take(0)) =~= Seq::<char>::empty());
        assert(Seq::<char>::empty() + Seq::<char>::empty() + parts[0] =~= parts[0]);
    }
}

/// Append the compact JSON text of a leaf.
fn write_leaf(v: &ReportValue, out: &mut String)
    ensures
        final(out)@ == old(out)@ + json_leaf(*v),
{
    match v {
        ReportValue::Null => {
            proof {
                reveal_strlit("null");
            }
            push(out, "null");
        },
        ReportValue::Bool(b) => {
            proof {
                reveal_strlit("true");
                reveal_strlit("false");
            }
            if *b {
                push(out, "true");
            } else {
                push(out, "false");
            }
        },
        ReportValue::Integer(n) => {
            let digits = format_decimal(*n);
            push(out, digits.as_str());
        },
        ReportValue::Text(s) => {
            let quoted = json_string(s.as_str());
            push(out, quoted.as_str());
        },
        ReportValue::Bytes(b) => {
            proof {
                reveal_strlit("[");
                reveal_strlit("]");
                reveal_strlit(",");
            }
            let ghost parts = Seq::new(b.len() as nat, |k: int| decimal_text(b@[k] as nat));
            let ghost start = out@;
            push(out, "[");
            let mut i: usize = 0;
            while i < b.len()
                invariant
                    i <= b@.len(),
                    parts == Seq::new(b.len() as nat, |k: int| decimal_text(b@[k] as nat)),
                    out@ == start + seq!['['] + comma_join(parts.take(i as int)),
                decreases b@.len() - i,
            {
                let ghost before = out@;
                proof {
                    reveal_strlit(",");
                }
                if i > 0 {
                    push(out, ",");
                }
                let ghost sep: Seq<char> = if i == 0 { Seq::empty() } else { seq![','] };
                assert(out@ =~= before + sep);
                let digits = format_decimal(b[i] as i128);
                assert(digits@ == parts[i as int]);
                push(out, digits.as_str());
                proof {
                    lemma_join_step(parts, i as int);
                    assert(out@ =~= start + seq!['['] + comma_join(parts.take(i + 1)));
                }
                i = i + 1;
            }
            push(out, "]");
            proof {
                assert(parts.take(b@.len() as int) =~= parts);
            }
            assert(out@ =~= start + json_leaf(*v));
        },
        _ => {},
    }
}

/// Append the compact JSON text of a leaf or of a list of leaves.
fn write_inline(v: &ReportValue, out: &mut String)
    ensures
        final(out)@ == old(out)@ + json_inline(*v),
{
    match v {
        ReportValue::Array(items) => {
            proof {
                reveal_strlit("[");
                reveal_strlit("]");
                reveal_strlit(",");
            }
            let ghost parts = Seq::new(items.len() as nat, |k: int| json_leaf(items@[k]));
            let ghost start = out@;
            push(out, "[");
            let mut i: usize = 0;
            while i < items.len()
                invariant
                    i <= items@.len(),
                    parts == Seq::new(items.len() as nat, |k: int| json_leaf(items@[k])),
                    out@ == start + seq!['['] + comma_join(parts.take(i as int)),
                decreases items@.len() - i,
            {
                let ghost before = out@;
                proof {
                    reveal_strlit(",");
                }
                if i > 0 {
                    push(out, ",");
                }
                let ghost sep: Seq<char> = if i == 0 { Seq::empty() } else { seq![','] };
                assert(out@ =~= before + sep);
                write_leaf(&items[i], out);
                assert(json_leaf(items@[i as int]) == parts[i as int]);
                proof {
                    lemma_join_step(parts, i as int);
                    assert(out@ =~= start + seq!['['] + comma_join(parts.take(i + 1)));
                }
                i = i + 1;
            }
            push(out, "]");
            proof {
                assert(parts.take(items@.len() as int) =~= parts);
            }
            assert(out@ =~= start + json_inline(*v));
        },
        _ => write_leaf(v, out),
    }
}

/// Whether the value is written on lines of its own.
fn nested(v: &ReportValue) -> (r: bool)
    ensures
        r == is_nested(*v),
{
    match v {
        ReportValue::Object(_) => true,
        ReportValue::Array(items) => {
            let mut i: usize = 0;
            while i < items.len()
                invariant
                    *v == ReportValue::Array(*items),
                    i <= items@.len(),
                    forall|k: int| 0 <= k < i ==> !((#[trigger] items@[k]) is Object || items@[k] is Array),
                decreases items@.len() - i,
            {
                match &items[i] {
                    ReportValue::Object(_) | ReportValue::Array(_) => {
                        assert(items@[i as int] is Object || items@[i as int] is Array);
                        return true;
                    },
                    _ => {},
                }
                i = i + 1;
            }
            false
        },
        _ => false,
    }
}

/// Append the text layout of `v`, each line opening with `pad`.
fn write_layout(v: &ReportValue, pad: &str, out: &mut String)
    ensures
        final(out)@ == old(out)@ + layout(*v, pad@),
    decreases v,
{
    proof {
        reveal_strlit(":");
        reveal_strlit(" ");
        reveal_strlit("  ");
        reveal_strlit("\n");
        reveal_strlit("[");
        reveal_strlit("]\n");
    }
    let ghost start = out@;
    match v {
        ReportValue::Object(fields) => {
            let mut child = String::new();
            child.append(pad);
            child.append("  ");
            assert(child@ =~= pad@ + seq![' ', ' ']);
            let mut i: usize = 0;
            while i < fields.len()
                invariant
                    *v == ReportValue::Object(*fields),
                    child@ == pad@ + seq![' ', ' '],
                    i <= fields@.len(),
                    out@ == start + entries_layout(*v, pad@, i as int),
                decreases fields@.len() - i,
            {
                proof {
                    assert(decreases_to!(*fields => fields[i as int]));
                    assert(decreases_to!(*v => (*v)->Object_0));
                }
                let ghost before = out@;
                proof {
                    reveal_strlit(":");
                    reveal_strlit(" ");
                    reveal_strlit("\n");
                }
                push(out, pad);
                push(out, fields[i].0.as_str());
                push(out, ":");
                let ghost head = out@;
                assert(head =~= before + pad@ + fields@[i as int].0@ + seq![':']);
                let value = &fields[i].1;
                let ghost tail: Seq<char> = if is_nested(*value) {
                    seq!['\n'] + layout(*value, pad@ + seq![' ', ' '])
                } else {
                    seq![' '] + json_inline(*value) + seq!['\n']
                };
                if nested(value) {
                    push(out, "\n");
                    write_layout(value, child.as_str(), out);
                } else {
                    push(out, " ");
                    write_inline(value, out);
                    push(out, "\n");
                }
                assert(out@ =~= head + tail);
                assert(entries_layout(*v, pad@, i + 1) == entries_layout(*v, pad@, i as int) + pad@
                    + fields@[i as int].0@ + seq![':'] + tail);
                assert(out@ =~= start + entries_layout(*v, pad@, i + 1));
                i = i + 1;
            }
        },
        ReportValue::Array(items) => {
            let mut child = String::new();
            child.append(pad);
            child.append("  ");
            assert(child@ =~= pad@ + seq![' ', ' ']);
            let mut i: usize = 0;
            while i < items.len()
                invariant
                    *v == ReportValue::Array(*items),
                    child@ == pad@ + seq![' ', ' '],
                    i <= items@.len(),
                    out@ == start + elements_layout(*v, pad@, i as int),
                decreases items@.len() - i,
            {
                proof {
                    assert(decreases_to!(*items => items[i as int]));
                    assert(decreases_to!(*v => (*v)->Array_0));
                }
                let ghost before = out@;
                proof {
                    reveal_strlit("[");
                    reveal_strlit("]\n");
                }
                push(out, pad);
                push(out, "[");
                let index = format_decimal(i as i128);
                push(out, index.as_str());
                push(out, "]\n");
                let ghost head = out@;
                assert(head =~= before + pad@ + seq!['['] + decimal_text(i as nat) + seq![']', '\n']);
                write_layout(&items[i], child.as_str(), out);
                assert(out@ =~= head + layout(items@[i as int], pad@ + seq![' ', ' ']));
                assert(elements_layout(*v, pad@, i + 1) == elements_layout(*v, pad@, i as int) + pad@ + seq!['[']
                    + decimal_text(i as nat) + seq![']', '\n'] + layout(items@[i as int], pad@ + seq![' ', ' ']));
                assert(out@ =~= start + elements_layout(*v, pad@, i + 1));
                i = i + 1;
            }
        },
        _ => {
            push(out, pad);
            write_inline(v, out);
            push(out, "\n");
            assert(out@ =~= start + layout(*v, pad@));
        },
    }
}

/// The plain-text layout of a report tree: for each object entry, its key and a
/// colon, then either its compact JSON text on the same line or, for an object
/// or a list holding an object or a list, its own layout indented by two spaces
/// on the lines below; each list element is introduced by an `[index]` line.
pub fn render_text(v: &ReportValue) -> (r: String)
    ensures
        r@ == layout(*v, Seq::empty()),
{
    proof {
        reveal_strlit("");
    }
    let mut out = String::new();
    assert(""@ =~= Seq::<char>::empty());
    write_layout(v, "", &mut out);
    assert(out@ =~= layout(*v, Seq::empty()));
    out
}

} // verus!
