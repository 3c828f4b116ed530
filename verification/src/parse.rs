//! A reader for the canonical structured documents that [`crate::json`]
//! produces, and the proof that encoding then reading a field loses
//! nothing.

use vstd::prelude::*;
use crate::data::{FieldMetadataV, FieldV, ValueV};
use crate::json::{
    escape_char, escape_string, json_field, json_metadata, json_null, json_opt_string,
    json_opt_value, json_string, json_value,
};
use crate::text::{
    all_digits, dec_digits, dec_int, is_digit, lemma_dec_digits_are_digits, lemma_dec_digits_len,
    lemma_pow10_19, lemma_str_to_nat_dec_digits, str_to_nat,
};

verus! {

/// Strip a literal prefix, yielding the remainder.
pub open spec fn parse_lit(s: Seq<char>, l: Seq<char>) -> Option<Seq<char>> {
    if l.len() <= s.len() && s.subrange(0, l.len() as int) == l {
        Some(s.skip(l.len() as int))
    } else {
        None
    }
}

/// The character an escape code stands for.
pub open spec fn unescape_code(c: char) -> Option<char> {
    if c == '"' {
        Some('"')
    } else if c == '\\' {
        Some('\\')
    } else if c == 'n' {
        Some('\n')
    } else if c == 'r' {
        Some('\r')
    } else if c == 't' {
        Some('\t')
    } else {
        None
    }
}

/// Read the body of a string literal up to its closing quote: the content
/// with escapes undone, and the remainder after the quote.
pub open spec fn unescape(s: Seq<char>) -> Option<(Seq<char>, Seq<char>)>
    decreases s.len(),
{
    if s.len() == 0 {
        None
    } else if s[0] == '"' {
        Some((Seq::empty(), s.drop_first()))
    } else if s[0] == '\\' {
        if s.len() < 2 {
            None
        } else {
            match unescape_code(s[1]) {
                Some(c) => match unescape(s.skip(2)) {
                    Some(r) => Some((seq![c] + r.0, r.1)),
                    None => None,
                },
                None => None,
            }
        }
    } else {
        match unescape(s.drop_first()) {
            Some(r) => Some((seq![s[0]] + r.0, r.1)),
            None => None,
        }
    }
}

/// Read a quoted string literal.
pub open spec fn parse_string(s: Seq<char>) -> Option<(Seq<char>, Seq<char>)> {
    if s.len() > 0 && s[0] == '"' {
        unescape(s.drop_first())
    } else {
        None
    }
}

/// Split a maximal run of decimal digits off the front.
pub open spec fn take_digits(s: Seq<char>) -> (Seq<char>, Seq<char>)
    decreases s.len(),
{
    if s.len() == 0 || !is_digit(s[0]) {
        (Seq::empty(), s)
    } else {
        let r = take_digits(s.drop_first());
        (seq![s[0]] + r.0, r.1)
    }
}

/// Read a decimal integer, optional minus sign first. Rejects runs longer
/// than nineteen digits and values outside the 64-bit range.
pub open spec fn parse_int(s: Seq<char>) -> Option<(int, Seq<char>)> {
    if s.len() > 0 && s[0] == '-' {
        let r = take_digits(s.drop_first());
        if r.0.len() == 0 || r.0.len() > 19 {
            None
        } else if -(str_to_nat(r.0) as int) < i64::MIN {
            None
        } else {
            Some((-(str_to_nat(r.0) as int), r.1))
        }
    } else {
        let r = take_digits(s);
        if r.0.len() == 0 || r.0.len() > 19 {
            None
        } else if str_to_nat(r.0) > i64::MAX {
            None
        } else {
            Some((str_to_nat(r.0) as int, r.1))
        }
    }
}

/// Read one scalar value: a string, a boolean literal, or an integer.
pub open spec fn parse_value(s: Seq<char>) -> Option<(ValueV, Seq<char>)> {
    if s.len() == 0 {
        None
    } else if s[0] == '"' {
        match parse_string(s) {
            Some(r) => Some((ValueV::Str(r.0), r.1)),
            None => None,
        }
    } else if s[0] == 't' {
        match parse_lit(s, seq!['t', 'r', 'u', 'e']) {
            Some(r) => Some((ValueV::Bool(true), r)),
            None => None,
        }
    } else if s[0] == 'f' {
        match parse_lit(s, seq!['f', 'a', 'l', 's', 'e']) {
            Some(r) => Some((ValueV::Bool(false), r)),
            None => None,
        }
    } else {
        match parse_int(s) {
            Some(r) => Some((ValueV::Int(r.0), r.1)),
            None => None,
        }
    }
}

/// Read an optional value: `null` or a scalar.
pub open spec fn parse_opt_value(s: Seq<char>) -> Option<(Option<ValueV>, Seq<char>)> {
    if s.len() > 0 && s[0] == 'n' {
        match parse_lit(s, json_null()) {
            Some(r) => Some((None, r)),
            None => None,
        }
    } else {
        match parse_value(s) {
            Some(r) => Some((Some(r.0), r.1)),
            None => None,
        }
    }
}

/// Read an optional string: `null` or a string literal.
pub open spec fn parse_opt_string(s: Seq<char>) -> Option<(Option<Seq<char>>, Seq<char>)> {
    if s.len() > 0 && s[0] == 'n' {
        match parse_lit(s, json_null()) {
            Some(r) => Some((None, r)),
            None => None,
        }
    } else {
        match parse_string(s) {
            Some(r) => Some((Some(r.0), r.1)),
            None => None,
        }
    }
}

/// Read a metadata object back: the five optional sub-fields in their
/// fixed key order, and the remainder after the closing brace.
pub open spec fn parse_metadata(s: Seq<char>) -> Option<(FieldMetadataV, Seq<char>)> {
    match parse_lit(s, "{\"doc\":"@) {
        Some(s1) => match parse_opt_string(s1) {
            Some((doc, s2)) => match parse_lit(s2, ",\"contract\":"@) {
                Some(s3) => match parse_opt_string(s3) {
                    Some((contract, s4)) => match parse_lit(s4, ",\"type\":"@) {
                        Some(s5) => match parse_opt_string(s5) {
                            Some((typ, s6)) => match parse_lit(s6, ",\"default\":"@) {
                                Some(s7) => match parse_opt_value(s7) {
                                    Some((default_value, s8)) => match parse_lit(
                                        s8,
                                        ",\"provenance\":"@,
                                    ) {
                                        Some(s9) => match parse_opt_string(s9) {
                                            Some((provenance, s10)) => match parse_lit(s10, "}"@) {
                                                Some(s11) => Some(
                                                    (
                                                        FieldMetadataV {
                                                            doc,
                                                            contract,
                                                            typ,
                                                            default_value,
                                                            provenance,
                                                        },
                                                        s11,
                                                    ),
                                                ),
                                                None => None,
                                            },
                                            None => None,
                                        },
                                        None => None,
                                    },
                                    None => None,
                                },
                                None => None,
                            },
                            None => None,
                        },
                        None => None,
                    },
                    None => None,
                },
                None => None,
            },
            None => None,
        },
        None => None,
    }
}

/// Read a whole structured document back into a field model. Accepts
/// exactly the canonical shape the encoder emits: both top-level members,
/// the metadata keys in their fixed order, and nothing trailing.
pub open spec fn parse_field(s: Seq<char>) -> Option<FieldV> {
    match parse_lit(s, "{\"value\":"@) {
        Some(s1) => match parse_opt_value(s1) {
            Some((value, s2)) => match parse_lit(s2, ",\"metadata\":"@) {
                Some(s3) => match parse_metadata(s3) {
                    Some((metadata, s4)) => match parse_lit(s4, "}"@) {
                        Some(s5) => if s5.len() == 0 {
                            Some(FieldV { value, metadata })
                        } else {
                            None
                        },
                        None => None,
                    },
                    None => None,
                },
                None => None,
            },
            None => None,
        },
        None => None,
    }
}

/// Concatenation of character sequences is associative.
pub proof fn lemma_seq_assoc(a: Seq<char>, b: Seq<char>, c: Seq<char>)
    ensures
        (a + b) + c == a + (b + c),
{
    assert((a + b) + c =~= a + (b + c));
}

/// Stripping a literal off a string that starts with it leaves the rest.
pub proof fn lemma_parse_lit(l: Seq<char>, rest: Seq<char>)
    ensures
        parse_lit(l + rest, l) == Some(rest),
{
    let s = l + rest;
    assert(s.subrange(0, l.len() as int) =~= l);
    assert(s.skip(l.len() as int) =~= rest);
}

/// Undoing the escapes of an escaped string recovers it, and reading
/// stops exactly at the closing quote.
pub proof fn lemma_unescape_escape(x: Seq<char>, rest: Seq<char>)
    ensures
        unescape(escape_string(x) + seq!['"'] + rest) == Some((x, rest)),
    decreases x.len(),
{
    let s = escape_string(x) + seq!['"'] + rest;
    if x.len() == 0 {
        assert(escape_string(x) == Seq::<char>::empty());
        assert(s =~= seq!['"'] + rest);
        assert(s[0] == '"');
        assert(s.drop_first() =~= rest);
        assert(x =~= Seq::<char>::empty());
    } else {
        let c = x[0];
        let tail_enc = escape_string(x.drop_first()) + seq!['"'] + rest;
        assert(escape_string(x) == escape_char(c) + escape_string(x.drop_first()));
        lemma_unescape_escape(x.drop_first(), rest);
        if c == '"' || c == '\\' || c == '\n' || c == '\r' || c == '\t' {
            let code = escape_char(c)[1];
            assert(s =~= seq!['\\', code] + tail_enc);
            assert(s[0] == '\\');
            assert(s[1] == code);
            assert(unescape_code(code) == Some(c));
            assert(s.skip(2) =~= tail_enc);
            assert(seq![c] + x.drop_first() =~= x);
        } else {
            assert(escape_char(c) =~= seq![c]);
            assert(s =~= seq![c] + tail_enc);
            assert(s[0] == c);
            assert(s.drop_first() =~= tail_enc);
            assert(seq![c] + x.drop_first() =~= x);
        }
    }
}

/// Reading a quoted literal recovers the string it encodes.
pub proof fn lemma_parse_string(x: Seq<char>, rest: Seq<char>)
    ensures
        parse_string(json_string(x) + rest) == Some((x, rest)),
{
    let s = json_string(x) + rest;
    assert(s[0] == '"');
    assert(s.drop_first() =~= escape_string(x) + seq!['"'] + rest);
    lemma_unescape_escape(x, rest);
}

/// Splitting digits off a digit run followed by a non-digit gives exactly
/// the run.
pub proof fn lemma_take_digits(d: Seq<char>, rest: Seq<char>)
    requires
        all_digits(d),
        rest.len() == 0 || !is_digit(rest[0]),
    ensures
        take_digits(d + rest) == (d, rest),
    decreases d.len(),
{
    let s = d + rest;
    if d.len() == 0 {
        assert(s =~= rest);
        assert(d =~= Seq::<char>::empty());
    } else {
        assert(is_digit(d[0]));
        assert(s[0] == d[0]);
        assert(s.drop_first() =~= d.drop_first() + rest);
        assert(all_digits(d.drop_first()));
        lemma_take_digits(d.drop_first(), rest);
        assert(seq![s[0]] + d.drop_first() =~= d);
    }
}

/// What `take_digits` splits off is a digit run, the two halves together
/// are the input, and the remainder starts with no digit.
pub proof fn lemma_take_digits_shape(s: Seq<char>)
    ensures
        all_digits(take_digits(s).0),
        take_digits(s).0 + take_digits(s).1 == s,
        take_digits(s).1.len() > 0 ==> !is_digit(take_digits(s).1[0]),
        take_digits(s).0.len() + take_digits(s).1.len() == s.len(),
    decreases s.len(),
{
    if s.len() == 0 || !is_digit(s[0]) {
        assert(take_digits(s).0 + take_digits(s).1 =~= s);
    } else {
        lemma_take_digits_shape(s.drop_first());
        let r0 = take_digits(s.drop_first()).0;
        let r1 = take_digits(s.drop_first()).1;
        lemma_seq_assoc(seq![s[0]], r0, r1);
        assert(seq![s[0]] + (r0 + r1) =~= s);
        assert(take_digits(s).0 + take_digits(s).1 == s);
    }
}

/// Reading a rendered integer recovers it when what follows starts with no
/// digit.
pub proof fn lemma_parse_int(i: int, rest: Seq<char>)
    requires
        i64::MIN <= i <= i64::MAX,
        rest.len() == 0 || !is_digit(rest[0]),
    ensures
        parse_int(dec_int(i) + rest) == Some((i, rest)),
{
    lemma_pow10_19();
    if i < 0 {
        let m = (-i) as nat;
        let s = dec_int(i) + rest;
        assert(dec_int(i) == seq!['-'] + dec_digits(m));
        assert(s[0] == '-');
        lemma_dec_digits_are_digits(m);
        assert(s.drop_first() =~= dec_digits(m) + rest);
        lemma_take_digits(dec_digits(m), rest);
        lemma_dec_digits_len(m, 19);
        lemma_str_to_nat_dec_digits(m);
    } else {
        let m = i as nat;
        let s = dec_int(i) + rest;
        lemma_dec_digits_are_digits(m);
        assert(s[0] == dec_digits(m)[0]);
        assert(is_digit(s[0]));
        assert(s[0] != '-');
        lemma_take_digits(dec_digits(m), rest);
        lemma_dec_digits_len(m, 19);
        lemma_str_to_nat_dec_digits(m);
    }
}

/// Reading a rendered scalar recovers it.
pub proof fn lemma_parse_value(v: ValueV, rest: Seq<char>)
    requires
        v.wf(),
        rest.len() == 0 || !is_digit(rest[0]),
    ensures
        parse_value(json_value(v) + rest) == Some((v, rest)),
{
    let s = json_value(v) + rest;
    match v {
        ValueV::Bool(b) => {
            if b {
                assert(s[0] == 't');
                lemma_parse_lit(seq!['t', 'r', 'u', 'e'], rest);
            } else {
                assert(s[0] == 'f');
                lemma_parse_lit(seq!['f', 'a', 'l', 's', 'e'], rest);
            }
        },
        ValueV::Int(i) => {
            if i < 0 {
                assert(s[0] == '-');
            } else {
                lemma_dec_digits_are_digits(i as nat);
                assert(s[0] == dec_digits(i as nat)[0]);
                assert(is_digit(s[0]));
            }
            assert(s[0] != '"' && s[0] != 't' && s[0] != 'f');
            lemma_parse_int(i, rest);
        },
        ValueV::Str(x) => {
            assert(s[0] == '"');
            assert(s =~= json_string(x) + rest);
            lemma_parse_string(x, rest);
        },
    }
}

/// Reading a rendered optional scalar recovers it.
pub proof fn lemma_parse_opt_value(v: Option<ValueV>, rest: Seq<char>)
    requires
        (v matches Some(v) ==> v.wf()),
        rest.len() == 0 || !is_digit(rest[0]),
    ensures
        parse_opt_value(json_opt_value(v) + rest) == Some((v, rest)),
{
    let s = json_opt_value(v) + rest;
    match v {
        None => {
            assert(s[0] == 'n');
            lemma_parse_lit(json_null(), rest);
        },
        Some(v) => {
            match v {
                ValueV::Bool(b) => {
                    assert(s[0] == (if b {
                        't'
                    } else {
                        'f'
                    }));
                },
                ValueV::Int(i) => {
                    if i < 0 {
                        assert(s[0] == '-');
                    } else {
                        lemma_dec_digits_are_digits(i as nat);
                        assert(s[0] == dec_digits(i as nat)[0]);
                        assert(is_digit(s[0]));
                    }
                },
                ValueV::Str(x) => {
                    assert(s[0] == '"');
                },
            }
            assert(s[0] != 'n');
            assert(s =~= json_value(v) + rest);
            lemma_parse_value(v, rest);
        },
    }
}

/// Reading a rendered optional string recovers it.
pub proof fn lemma_parse_opt_string(x: Option<Seq<char>>, rest: Seq<char>)
    ensures
        parse_opt_string(json_opt_string(x) + rest) == Some((x, rest)),
{
    let s = json_opt_string(x) + rest;
    match x {
        None => {
            assert(s[0] == 'n');
            lemma_parse_lit(json_null(), rest);
        },
        Some(x) => {
            assert(s[0] == '"');
            assert(s =~= json_string(x) + rest);
            lemma_parse_string(x, rest);
        },
    }
}

/// Reading a rendered metadata object recovers every sub-field and stops
/// exactly after its closing brace.
#[verifier::rlimit(100)]
#[verifier::spinoff_prover]
pub proof fn lemma_parse_metadata(m: FieldMetadataV, rest: Seq<char>)
    requires
        m.wf(),
    ensures
        parse_metadata(json_metadata(m) + rest) == Some((m, rest)),
{
    let l1 = "{\"doc\":"@;
    let l2 = ",\"contract\":"@;
    let l3 = ",\"type\":"@;
    let l4 = ",\"default\":"@;
    let l5 = ",\"provenance\":"@;
    let l6 = "}"@;
    reveal_strlit(",\"provenance\":");
    let jd = json_opt_string(m.doc);
    let jc = json_opt_string(m.contract);
    let jt = json_opt_string(m.typ);
    let jdef = json_opt_value(m.default_value);
    let jp = json_opt_string(m.provenance);

    let s10 = l6 + rest;
    let s9 = jp + s10;
    let s8 = l5 + s9;
    let s7 = jdef + s8;
    let s6 = l4 + s7;
    let s5 = jt + s6;
    let s4 = l3 + s5;
    let s3 = jc + s4;
    let s2 = l2 + s3;
    let s1 = jd + s2;
    let s = l1 + s1;

    // Re-associate the encoder's left-nested concatenation one seam at a
    // time; each step moves a single segment across the parenthesis.
    let p1 = l1 + jd;
    let p2 = p1 + l2;
    let p3 = p2 + jc;
    let p4 = p3 + l3;
    let p5 = p4 + jt;
    let p6 = p5 + l4;
    let p7 = p6 + jdef;
    let p8 = p7 + l5;
    let p9 = p8 + jp;
    assert(json_metadata(m) == p9 + l6);
    lemma_seq_assoc(p9, l6, rest);
    lemma_seq_assoc(p8, jp, s10);
    lemma_seq_assoc(p7, l5, s9);
    lemma_seq_assoc(p6, jdef, s8);
    lemma_seq_assoc(p5, l4, s7);
    lemma_seq_assoc(p4, jt, s6);
    lemma_seq_assoc(p3, l3, s5);
    lemma_seq_assoc(p2, jc, s4);
    lemma_seq_assoc(p1, l2, s3);
    lemma_seq_assoc(l1, jd, s2);
    assert(json_metadata(m) + rest == s);

    lemma_parse_lit(l1, s1);
    assert(parse_lit(s, l1) == Some(s1));
    lemma_parse_opt_string(m.doc, s2);
    lemma_parse_lit(l2, s3);
    lemma_parse_opt_string(m.contract, s4);
    lemma_parse_lit(l3, s5);
    lemma_parse_opt_string(m.typ, s6);
    lemma_parse_lit(l4, s7);
    assert(s8[0] == ',');
    assert(!is_digit(','));
    lemma_parse_opt_value(m.default_value, s8);
    lemma_parse_lit(l5, s9);
    lemma_parse_opt_string(m.provenance, s10);
    lemma_parse_lit(l6, rest);
    assert(parse_lit(s10, l6) == Some(rest));
    assert(FieldMetadataV {
        doc: m.doc,
        contract: m.contract,
        typ: m.typ,
        default_value: m.default_value,
        provenance: m.provenance,
    } == m);
}

/// Round trip for the structured format: reading back the canonical
/// document of any well-formed field reproduces the field's value and
/// every metadata sub-field — the encoder loses nothing.
#[verifier::rlimit(100)]
#[verifier::spinoff_prover]
pub proof fn lemma_structured_round_trip(f: FieldV)
    requires
        f.wf(),
    ensures
        parse_field(json_field(f)) == Some(f),
{
    let l1 = "{\"value\":"@;
    let l2 = ",\"metadata\":"@;
    let l3 = "}"@;
    reveal_strlit(",\"metadata\":");
    let jv = json_opt_value(f.value);
    let jm = json_metadata(f.metadata);

    let s4 = Seq::<char>::empty();
    let s3 = l3 + s4;
    let s2 = jm + s3;
    let s1 = l2 + s2;
    let s0 = jv + s1;
    let s = l1 + s0;
    assert(s3 =~= l3);
    assert(json_field(f) =~= s);

    lemma_parse_lit(l1, s0);
    assert(parse_lit(s, l1) == Some(s0));

    assert(s1[0] == ',');
    assert(!is_digit(','));
    lemma_parse_opt_value(f.value, s1);
    assert(parse_opt_value(s0) == Some((f.value, s1)));

    lemma_parse_lit(l2, s2);
    lemma_parse_metadata(f.metadata, s3);
    assert(parse_metadata(s2) == Some((f.metadata, s3)));
    lemma_parse_lit(l3, s4);
    assert(parse_lit(s3, l3) == Some(s4));
    assert(parse_field(json_field(f)) == Some(f));
}

} // verus!
