//! The structured output encoder: a canonical, compact JSON rendering of a
//! queried field. The document always exposes exactly two top-level
//! members, `value` and `metadata`, whatever attribute set was selected
//! for the human-readable path.

use vstd::prelude::*;
use crate::data::{Field, FieldMetadataV, FieldV, Value, ValueV};
use crate::text::{dec_int, push_dec_i64, push_str_chars};

verus! {

/// The escape sequence of one string character. Quotes, backslashes and
/// the common control characters are escaped; any other character stands
/// for itself.
pub open spec fn escape_char(c: char) -> Seq<char> {
    if c == '"' {
        seq!['\\', '"']
    } else if c == '\\' {
        seq!['\\', '\\']
    } else if c == '\n' {
        seq!['\\', 'n']
    } else if c == '\r' {
        seq!['\\', 'r']
    } else if c == '\t' {
        seq!['\\', 't']
    } else {
        seq![c]
    }
}

/// The escaped body of a string literal.
pub open spec fn escape_string(s: Seq<char>) -> Seq<char>
    decreases s.len(),
{
    if s.len() == 0 {
        Seq::empty()
    } else {
        escape_char(s[0]) + escape_string(s.drop_first())
    }
}

/// A quoted, escaped JSON string literal.
pub open spec fn json_string(s: Seq<char>) -> Seq<char> {
    seq!['"'] + escape_string(s) + seq!['"']
}

/// The JSON rendering of one scalar value.
pub open spec fn json_value(v: ValueV) -> Seq<char> {
    match v {
        ValueV::Bool(b) => if b {
            seq!['t', 'r', 'u', 'e']
        } else {
            seq!['f', 'a', 'l', 's', 'e']
        },
        ValueV::Int(i) => dec_int(i),
        ValueV::Str(s) => json_string(s),
    }
}

pub open spec fn json_null() -> Seq<char> {
    seq!['n', 'u', 'l', 'l']
}

/// An optional value: `null` when absent, never coerced to a default.
pub open spec fn json_opt_value(v: Option<ValueV>) -> Seq<char> {
    match v {
        Some(v) => json_value(v),
        None => json_null(),
    }
}

/// An optional string: `null` when absent.
pub open spec fn json_opt_string(s: Option<Seq<char>>) -> Seq<char> {
    match s {
        Some(s) => json_string(s),
        None => json_null(),
    }
}

/// The metadata object, every optional sub-field present as given or
/// `null`, in a fixed key order.
pub open spec fn json_metadata(m: FieldMetadataV) -> Seq<char> {
    "{\"doc\":"@ + json_opt_string(m.doc) + ",\"contract\":"@ + json_opt_string(m.contract)
        + ",\"type\":"@ + json_opt_string(m.typ) + ",\"default\":"@ + json_opt_value(
        m.default_value,
    ) + ",\"provenance\":"@ + json_opt_string(m.provenance) + "}"@
}

/// The whole structured document: exactly a `value` member and a
/// `metadata` member.
pub open spec fn json_field(f: FieldV) -> Seq<char> {
    "{\"value\":"@ + json_opt_value(f.value) + ",\"metadata\":"@ + json_metadata(f.metadata)
        + "}"@
}

/// Escaping distributes over extending a string by one character.
pub proof fn lemma_escape_snoc(s: Seq<char>, c: char)
    ensures
        escape_string(s.push(c)) == escape_string(s) + escape_char(c),
    decreases s.len(),
{
    if s.len() == 0 {
        let t = s.push(c);
        assert(t.len() == 1);
        assert(t[0] == c);
        assert(t.drop_first() =~= Seq::<char>::empty());
        assert(escape_string(t) == escape_char(t[0]) + escape_string(t.drop_first()));
        assert(escape_string(Seq::<char>::empty()) == Seq::<char>::empty());
        assert(escape_string(t) == escape_char(c) + Seq::<char>::empty());
        assert(escape_string(s) == Seq::<char>::empty());
        assert(escape_char(c) + Seq::<char>::empty() =~= Seq::<char>::empty() + escape_char(c));
        assert(escape_string(s.push(c)) =~= escape_string(s) + escape_char(c));
    } else {
        lemma_escape_snoc(s.drop_first(), c);
        assert(s.push(c).drop_first() =~= s.drop_first().push(c));
        assert(escape_string(s.push(c)) =~= escape_string(s) + escape_char(c));
    }
}

/// Append the escaped body of `s` to `out`.
fn push_escaped(out: &mut Vec<char>, s: &str)
    ensures
        final(out)@ == old(out)@ + escape_string(s@),
{
    let n = s.unicode_len();
    let mut i: usize = 0;
    while i < n
        invariant
            n == s@.len(),
            i <= n,
            out@ == old(out)@ + escape_string(s@.subrange(0, i as int)),
        decreases n - i,
    {
        let c = s.get_char(i);
        if c == '"' {
            out.push('\\');
            out.push('"');
        } else if c == '\\' {
            out.push('\\');
            out.push('\\');
        } else if c == '\n' {
            out.push('\\');
            out.push('n');
        } else if c == '\r' {
            out.push('\\');
            out.push('r');
        } else if c == '\t' {
            out.push('\\');
            out.push('t');
        } else {
            out.push(c);
        }
        proof {
            lemma_escape_snoc(s@.subrange(0, i as int), c);
            assert(s@.subrange(0, i as int).push(c) =~= s@.subrange(0, i + 1 as int));
            assert(out@ =~= old(out)@ + escape_string(s@.subrange(0, i + 1 as int)));
        }
        i = i + 1;
    }
    assert(s@.subrange(0, n as int) =~= s@);
}

/// Append a quoted, escaped string literal to `out`.
pub(crate) fn push_json_string(out: &mut Vec<char>, s: &str)
    ensures
        final(out)@ == old(out)@ + json_string(s@),
{
    out.push('"');
    push_escaped(out, s);
    out.push('"');
    assert(final(out)@ =~= old(out)@ + json_string(s@));
}

/// Append one scalar value to `out`.
fn push_value(out: &mut Vec<char>, v: &Value)
    ensures
        final(out)@ == old(out)@ + json_value(v@),
{
    match v {
        Value::Bool(b) => {
            if *b {
                push_str_chars(out, "true");
                proof {
                    reveal_strlit("true");
                    assert(final(out)@ =~= old(out)@ + json_value(v@));
                }
            } else {
                push_str_chars(out, "false");
                proof {
                    reveal_strlit("false");
                    assert(final(out)@ =~= old(out)@ + json_value(v@));
                }
            }
        },
        Value::Int(i) => {
            push_dec_i64(out, *i);
        },
        Value::Str(s) => {
            push_json_string(out, s.as_str());
        },
    }
}

fn push_null(out: &mut Vec<char>)
    ensures
        final(out)@ == old(out)@ + json_null(),
{
    push_str_chars(out, "null");
    proof {
        reveal_strlit("null");
        assert(final(out)@ =~= old(out)@ + json_null());
    }
}

fn push_opt_value(out: &mut Vec<char>, v: &Option<Value>)
    ensures
        final(out)@ == old(out)@ + json_opt_value(crate::data::opt_value_view(*v)),
{
    match v {
        Some(v) => push_value(out, v),
        None => push_null(out),
    }
}

fn push_opt_string(out: &mut Vec<char>, s: &Option<String>)
    ensures
        final(out)@ == old(out)@ + json_opt_string(crate::data::opt_str_view(*s)),
{
    match s {
        Some(s) => push_json_string(out, s.as_str()),
        None => push_null(out),
    }
}

/// Encode a found field as its canonical structured document.
pub fn encode_field(f: &Field) -> (r: String)
    ensures
        r@ == json_field(f@),
{
    let mut out: Vec<char> = Vec::new();
    push_str_chars(&mut out, "{\"value\":");
    push_opt_value(&mut out, &f.value);
    push_str_chars(&mut out, ",\"metadata\":");
    push_str_chars(&mut out, "{\"doc\":");
    push_opt_string(&mut out, &f.metadata.doc);
    push_str_chars(&mut out, ",\"contract\":");
    push_opt_string(&mut out, &f.metadata.contract);
    push_str_chars(&mut out, ",\"type\":");
    push_opt_string(&mut out, &f.metadata.typ);
    push_str_chars(&mut out, ",\"default\":");
    push_opt_value(&mut out, &f.metadata.default_value);
    push_str_chars(&mut out, ",\"provenance\":");
    push_opt_string(&mut out, &f.metadata.provenance);
    push_str_chars(&mut out, "}");
    push_str_chars(&mut out, "}");
    assert(out@ =~= json_field(f@));
    crate::text::chars_to_string(&out)
}

} // verus!
