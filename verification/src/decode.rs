//! The executable reader for structured documents: it accepts exactly what
//! the specification-level parser accepts, so the round-trip law carries
//! over to running code.

use vstd::prelude::*;
use crate::data::{opt_str_view, opt_value_view, Field, FieldMetadata, Value};
use crate::json::json_null;
use crate::parse::{
    lemma_take_digits_shape, parse_field, parse_int, parse_lit, parse_metadata, parse_opt_string,
    parse_opt_value, parse_string, parse_value, take_digits, unescape, unescape_code,
};
use crate::text::{
    chars_to_string, digit_val, is_digit, lemma_pow10_mono, lemma_pow10_19, lemma_str_to_nat_bound,
    pow10, str_to_nat,
};

verus! {

/// The characters of a string slice, in order.
fn str_to_chars(s: &str) -> (v: Vec<char>)
    ensures
        v@ == s@,
{
    let n = s.unicode_len();
    let mut v: Vec<char> = Vec::new();
    let mut i: usize = 0;
    while i < n
        invariant
            n == s@.len(),
            i <= n,
            v@ == s@.subrange(0, i as int),
        decreases n - i,
    {
        v.push(s.get_char(i));
        assert(v@ =~= s@.subrange(0, i + 1 as int));
        i = i + 1;
    }
    assert(s@.subrange(0, n as int) =~= s@);
    v
}

/// Match a literal at position `i`, yielding the position after it.
fn expect_lit(v: &Vec<char>, i: usize, lit: &str) -> (r: Option<usize>)
    requires
        i <= v@.len(),
    ensures
        match r {
            Some(j) => i <= j <= v@.len() && parse_lit(v@.skip(i as int), lit@) == Some(
                v@.skip(j as int),
            ),
            None => parse_lit(v@.skip(i as int), lit@) is None,
        },
{
    let n = lit.unicode_len();
    if v.len() - i < n {
        return None;
    }
    let mut k: usize = 0;
    while k < n
        invariant
            n == lit@.len(),
            i + n <= v@.len(),
            v@.len() <= usize::MAX,
            k <= n,
            forall|t: int| 0 <= t < k ==> v@[i + t] == lit@[t],
        decreases n - k,
    {
        let c = v[i + k];
        if c != lit.get_char(k) {
            proof {
                let s = v@.skip(i as int);
                assert(s.subrange(0, n as int)[k as int] == v@[i + k]);
                assert(s.subrange(0, n as int) != lit@);
            }
            return None;
        }
        k = k + 1;
    }
    proof {
        let s = v@.skip(i as int);
        assert(s.subrange(0, n as int) =~= lit@);
        assert(s.skip(n as int) =~= v@.skip(i + n as int));
    }
    Some(i + n)
}

/// The escape code a character stands for, if any.
fn unescape_code_of(e: char) -> (r: Option<char>)
    ensures
        r == unescape_code(e),
{
    if e == '"' {
        Some('"')
    } else if e == '\\' {
        Some('\\')
    } else if e == 'n' {
        Some('\n')
    } else if e == 'r' {
        Some('\r')
    } else if e == 't' {
        Some('\t')
    } else {
        None
    }
}

/// Read the remaining body of a string literal: `acc` holds what was read
/// so far.
fn scan_string_body(v: &Vec<char>, j: usize, acc: Vec<char>) -> (r: Option<(String, usize)>)
    requires
        j <= v@.len(),
    ensures
        match r {
            Some(p) => p.1 <= v@.len() && (unescape(v@.skip(j as int)) matches Some(t) && p.0@
                == acc@ + t.0 && v@.skip(p.1 as int) == t.1),
            None => unescape(v@.skip(j as int)) is None,
        },
    decreases v@.len() - j,
{
    if j >= v.len() {
        return None;
    }
    let c = v[j];
    assert(v@.skip(j as int)[0] == c);
    if c == '"' {
        proof {
            assert(v@.skip(j as int).drop_first() =~= v@.skip(j + 1 as int));
            assert(acc@ + Seq::<char>::empty() =~= acc@);
        }
        Some((chars_to_string(&acc), j + 1))
    } else if c == '\\' {
        if v.len() - j < 2 {
            return None;
        }
        let e = v[j + 1];
        assert(v@.skip(j as int)[1] == e);
        match unescape_code_of(e) {
            Some(d) => {
                let mut acc2 = acc;
                let ghost acc_old = acc2@;
                acc2.push(d);
                proof {
                    assert(v@.skip(j as int).skip(2) =~= v@.skip(j + 2 as int));
                }
                let r = scan_string_body(v, j + 2, acc2);
                proof {
                    let u = unescape(v@.skip(j + 2 as int));
                    if u is Some {
                        let t = u.unwrap();
                        assert(acc_old + (seq![d] + t.0) =~= (acc_old.push(d)) + t.0);
                    }
                }
                r
            },
            None => None,
        }
    } else {
        let mut acc2 = acc;
        let ghost acc_old = acc2@;
        acc2.push(c);
        proof {
            assert(v@.skip(j as int).drop_first() =~= v@.skip(j + 1 as int));
        }
        let r = scan_string_body(v, j + 1, acc2);
        proof {
            let u = unescape(v@.skip(j + 1 as int));
            if u is Some {
                let t = u.unwrap();
                assert(acc_old + (seq![c] + t.0) =~= (acc_old.push(c)) + t.0);
            }
        }
        r
    }
}

/// Read a quoted string literal at position `i`.
fn parse_string_at(v: &Vec<char>, i: usize) -> (r: Option<(String, usize)>)
    requires
        i <= v@.len(),
    ensures
        match r {
            Some(p) => p.1 <= v@.len() && parse_string(v@.skip(i as int)) == Some(
                (p.0@, v@.skip(p.1 as int)),
            ),
            None => parse_string(v@.skip(i as int)) is None,
        },
{
    if i >= v.len() {
        return None;
    }
    let c = v[i];
    assert(v@.skip(i as int)[0] == c);
    if c != '"' {
        return None;
    }
    proof {
        assert(v@.skip(i as int).drop_first() =~= v@.skip(i + 1 as int));
    }
    let acc: Vec<char> = Vec::new();
    assert(acc@ =~= Seq::<char>::empty());
    let r = scan_string_body(v, i + 1, acc);
    proof {
        let u = unescape(v@.skip(i + 1 as int));
        if u is Some {
            let t = u.unwrap();
            assert(Seq::<char>::empty() + t.0 =~= t.0);
        }
    }
    r
}

/// The numeric value of one digit character; ten for any other character.
fn digit_val_of(c: char) -> (d: u64)
    ensures
        d == digit_val(c),
{
    if c == '0' {
        0
    } else if c == '1' {
        1
    } else if c == '2' {
        2
    } else if c == '3' {
        3
    } else if c == '4' {
        4
    } else if c == '5' {
        5
    } else if c == '6' {
        6
    } else if c == '7' {
        7
    } else if c == '8' {
        8
    } else if c == '9' {
        9
    } else {
        10
    }
}

/// Accumulate the digit run that starts at `start`; `j` and `acc` carry
/// the progress. Rejects runs longer than nineteen digits.
fn scan_digits(v: &Vec<char>, start: usize, j: usize, acc: u64) -> (r: Option<(u64, usize)>)
    requires
        start <= j <= v@.len(),
        j - start <= take_digits(v@.skip(start as int)).0.len(),
        j - start <= 19,
        acc == str_to_nat(take_digits(v@.skip(start as int)).0.subrange(0, j - start)),
    ensures
        ({
            let ds = take_digits(v@.skip(start as int)).0;
            let rest = take_digits(v@.skip(start as int)).1;
            match r {
                Some(p) => 1 <= ds.len() <= 19 && p.0 == str_to_nat(ds) && p.1 == start + ds.len()
                    && p.1 <= v@.len() && v@.skip(p.1 as int) == rest,
                None => ds.len() == 0 || ds.len() > 19,
            }
        }),
    decreases v@.len() - j,
{
    proof {
        lemma_take_digits_shape(v@.skip(start as int));
    }
    let ghost s0 = v@.skip(start as int);
    let ghost ds = take_digits(s0).0;
    let ghost rest = take_digits(s0).1;
    let ghost k = j - start;

    let run_ended = if j == v.len() {
        true
    } else {
        digit_val_of(v[j]) >= 10
    };
    proof {
        if k < ds.len() {
            assert(s0[k] == ds[k]);
            assert(is_digit(ds[k]));
            assert(s0[k] == v@[j as int]);
        }
    }
    if run_ended {
        proof {
            // The run cannot extend past `j`, so `j` is exactly its end.
            if k < ds.len() {
                assert(j < v@.len());
                assert(false);
            }
            assert(k == ds.len());
        }
        if j == start {
            return None;
        }
        proof {
            assert(ds.subrange(0, ds.len() as int) =~= ds);
            assert(s0.skip(ds.len() as int) =~= rest);
            assert(v@.skip(start + ds.len() as int) =~= s0.skip(ds.len() as int));
        }
        return Some((acc, j));
    }
    // v[j] is a digit.
    proof {
        if k == ds.len() {
            assert(s0[k] == rest[0]);
            assert(false);
        }
    }
    if j - start == 19 {
        // A twentieth digit: the run is too long.
        proof {
            assert(ds.len() > 19);
        }
        return None;
    }
    let d = digit_val_of(v[j]);
    proof {
        lemma_str_to_nat_bound(ds.subrange(0, k));
        assert(forall|t: int| 0 <= t < k ==> ds.subrange(0, k)[t] == ds[t]);
        lemma_pow10_mono((k) as nat, 18);
        lemma_pow10_19();
        assert(pow10(19) == 10 * pow10(18));
        assert(acc < pow10(18));
        assert(ds.subrange(0, k + 1).drop_last() =~= ds.subrange(0, k));
        assert(ds.subrange(0, k + 1).last() == ds[k]);
        assert(ds[k] == s0[k]);
        assert(s0[k] == v@[j as int]);
    }
    let acc2 = acc * 10 + d;
    assert(acc2 == str_to_nat(take_digits(v@.skip(start as int)).0.subrange(0, j + 1 - start)));
    scan_digits(v, start, j + 1, acc2)
}

/// Read a decimal integer at position `i`.
fn parse_int_at(v: &Vec<char>, i: usize) -> (r: Option<(i64, usize)>)
    requires
        i <= v@.len(),
    ensures
        match r {
            Some(p) => p.1 <= v@.len() && parse_int(v@.skip(i as int)) == Some(
                (p.0 as int, v@.skip(p.1 as int)),
            ),
            None => parse_int(v@.skip(i as int)) is None,
        },
{
    let negative = i < v.len() && v[i] == '-';
    proof {
        if i < v@.len() {
            assert(v@.skip(i as int)[0] == v@[i as int]);
        }
    }
    if negative {
        proof {
            assert(v@.skip(i as int).drop_first() =~= v@.skip(i + 1 as int));
            assert(take_digits(v@.skip(i + 1 as int)).0.subrange(0, 0) =~= Seq::<char>::empty());
        }
        match scan_digits(v, i + 1, i + 1, 0) {
            Some((m, j)) => {
                if m > 9223372036854775808u64 {
                    None
                } else if m == 9223372036854775808u64 {
                    Some((i64::MIN, j))
                } else {
                    Some((-(m as i64), j))
                }
            },
            None => None,
        }
    } else {
        if i >= v.len() {
            proof {
                assert(v@.skip(i as int).len() == 0);
                lemma_take_digits_shape(v@.skip(i as int));
            }
            return None;
        }
        proof {
            assert(take_digits(v@.skip(i as int)).0.subrange(0, 0) =~= Seq::<char>::empty());
        }
        match scan_digits(v, i, i, 0) {
            Some((m, j)) => {
                if m > 9223372036854775807u64 {
                    None
                } else {
                    Some((m as i64, j))
                }
            },
            None => None,
        }
    }
}

/// Read one scalar value at position `i`.
fn parse_value_at(v: &Vec<char>, i: usize) -> (r: Option<(Value, usize)>)
    requires
        i <= v@.len(),
    ensures
        match r {
            Some(p) => p.1 <= v@.len() && parse_value(v@.skip(i as int)) == Some(
                (p.0@, v@.skip(p.1 as int)),
            ),
            None => parse_value(v@.skip(i as int)) is None,
        },
{
    if i >= v.len() {
        return None;
    }
    let c = v[i];
    assert(v@.skip(i as int)[0] == c);
    if c == '"' {
        match parse_string_at(v, i) {
            Some((x, j)) => Some((Value::Str(x), j)),
            None => None,
        }
    } else if c == 't' {
        proof {
            reveal_strlit("true");
            assert("true"@ =~= seq!['t', 'r', 'u', 'e']);
        }
        match expect_lit(v, i, "true") {
            Some(j) => Some((Value::Bool(true), j)),
            None => None,
        }
    } else if c == 'f' {
        proof {
            reveal_strlit("false");
            assert("false"@ =~= seq!['f', 'a', 'l', 's', 'e']);
        }
        match expect_lit(v, i, "false") {
            Some(j) => Some((Value::Bool(false), j)),
            None => None,
        }
    } else {
        match parse_int_at(v, i) {
            Some((n, j)) => Some((Value::Int(n), j)),
            None => None,
        }
    }
}

/// Read `null` or a scalar value at position `i`.
fn parse_opt_value_at(v: &Vec<char>, i: usize) -> (r: Option<(Option<Value>, usize)>)
    requires
        i <= v@.len(),
    ensures
        match r {
            Some(p) => p.1 <= v@.len() && parse_opt_value(v@.skip(i as int)) == Some(
                (opt_value_view(p.0), v@.skip(p.1 as int)),
            ),
            None => parse_opt_value(v@.skip(i as int)) is None,
        },
{
    proof {
        if i < v@.len() {
            assert(v@.skip(i as int)[0] == v@[i as int]);
        }
    }
    if i < v.len() && v[i] == 'n' {
        proof {
            reveal_strlit("null");
            assert("null"@ =~= json_null());
        }
        match expect_lit(v, i, "null") {
            Some(j) => Some((None, j)),
            None => None,
        }
    } else {
        match parse_value_at(v, i) {
            Some((x, j)) => Some((Some(x), j)),
            None => None,
        }
    }
}

/// Read `null` or a string literal at position `i`.
fn parse_opt_string_at(v: &Vec<char>, i: usize) -> (r: Option<(Option<String>, usize)>)
    requires
        i <= v@.len(),
    ensures
        match r {
            Some(p) => p.1 <= v@.len() && parse_opt_string(v@.skip(i as int)) == Some(
                (opt_str_view(p.0), v@.skip(p.1 as int)),
            ),
            None => parse_opt_string(v@.skip(i as int)) is None,
        },
{
    proof {
        if i < v@.len() {
            assert(v@.skip(i as int)[0] == v@[i as int]);
        }
    }
    if i < v.len() && v[i] == 'n' {
        proof {
            reveal_strlit("null");
            assert("null"@ =~= json_null());
        }
        match expect_lit(v, i, "null") {
            Some(j) => Some((None, j)),
            None => None,
        }
    } else {
        match parse_string_at(v, i) {
            Some((x, j)) => Some((Some(x), j)),
            None => None,
        }
    }
}

/// Read a metadata object at position `i`.
#[verifier::rlimit(100)]
#[verifier::spinoff_prover]
fn parse_metadata_at(v: &Vec<char>, i: usize) -> (r: Option<(FieldMetadata, usize)>)
    requires
        i <= v@.len(),
    ensures
        match r {
            Some(p) => p.1 <= v@.len() && parse_metadata(v@.skip(i as int)) == Some(
                (p.0@, v@.skip(p.1 as int)),
            ),
            None => parse_metadata(v@.skip(i as int)) is None,
        },
{
    let j1 = match expect_lit(v, i, "{\"doc\":") {
        Some(j) => j,
        None => {
            return None;
        },
    };
    let (doc, j2) = match parse_opt_string_at(v, j1) {
        Some(p) => p,
        None => {
            return None;
        },
    };
    let j3 = match expect_lit(v, j2, ",\"contract\":") {
        Some(j) => j,
        None => {
            return None;
        },
    };
    let (contract, j4) = match parse_opt_string_at(v, j3) {
        Some(p) => p,
        None => {
            return None;
        },
    };
    let j5 = match expect_lit(v, j4, ",\"type\":") {
        Some(j) => j,
        None => {
            return None;
        },
    };
    let (typ, j6) = match parse_opt_string_at(v, j5) {
        Some(p) => p,
        None => {
            return None;
        },
    };
    let j7 = match expect_lit(v, j6, ",\"default\":") {
        Some(j) => j,
        None => {
            return None;
        },
    };
    let (default_value, j8) = match parse_opt_value_at(v, j7) {
        Some(p) => p,
        None => {
            return None;
        },
    };
    let j9 = match expect_lit(v, j8, ",\"provenance\":") {
        Some(j) => j,
        None => {
            return None;
        },
    };
    let (provenance, j10) = match parse_opt_string_at(v, j9) {
        Some(p) => p,
        None => {
            return None;
        },
    };
    let j11 = match expect_lit(v, j10, "}") {
        Some(j) => j,
        None => {
            return None;
        },
    };
    Some((FieldMetadata { doc, contract, typ, default_value, provenance }, j11))
}

/// Read a whole structured document back into a field: the reader for the
/// canonical format the encoder emits.
#[verifier::rlimit(100)]
#[verifier::spinoff_prover]
pub fn decode_field(s: &str) -> (r: Option<Field>)
    ensures
        match r {
            Some(f) => parse_field(s@) == Some(f@),
            None => parse_field(s@) is None,
        },
{
    let v = str_to_chars(s);
    proof {
        assert(v@.skip(0) =~= s@);
    }
    let j1 = match expect_lit(&v, 0, "{\"value\":") {
        Some(j) => j,
        None => {
            return None;
        },
    };
    let (value, j2) = match parse_opt_value_at(&v, j1) {
        Some(p) => p,
        None => {
            return None;
        },
    };
    let j3 = match expect_lit(&v, j2, ",\"metadata\":") {
        Some(j) => j,
        None => {
            return None;
        },
    };
    let (metadata, j4) = match parse_metadata_at(&v, j3) {
        Some(p) => p,
        None => {
            return None;
        },
    };
    let j5 = match expect_lit(&v, j4, "}") {
        Some(j) => j,
        None => {
            return None;
        },
    };
    if j5 == v.len() {
        Some(Field { value, metadata })
    } else {
        proof {
            assert(v@.skip(j5 as int).len() != 0);
        }
        None
    }
}

} // verus!
