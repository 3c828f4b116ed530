//! The human-readable path: an annotated report of a found field,
//! containing exactly the attributes that are both selected and present.

use vstd::prelude::*;
use crate::attrs::Attributes;
use crate::data::{Field, FieldV, Value, ValueV};
use crate::json::json_value;
use crate::text::{chars_to_string, push_dec_i64, push_str_chars};

verus! {

/// One section of the annotated report.
pub enum Section {
    Contract(Seq<char>),
    Typ(Seq<char>),
    Default(ValueV),
    Value(ValueV),
    Doc(Seq<char>),
}

pub open spec fn contract_section(f: FieldV, a: Attributes) -> Seq<Section> {
    match f.metadata.contract {
        Some(c) => if a.contract {
            seq![Section::Contract(c)]
        } else {
            seq![]
        },
        None => seq![],
    }
}

pub open spec fn typ_section(f: FieldV, a: Attributes) -> Seq<Section> {
    match f.metadata.typ {
        Some(t) => if a.typ {
            seq![Section::Typ(t)]
        } else {
            seq![]
        },
        None => seq![],
    }
}

pub open spec fn default_section(f: FieldV, a: Attributes) -> Seq<Section> {
    match f.metadata.default_value {
        Some(v) => if a.default {
            seq![Section::Default(v)]
        } else {
            seq![]
        },
        None => seq![],
    }
}

pub open spec fn value_section(f: FieldV, a: Attributes) -> Seq<Section> {
    match f.value {
        Some(v) => if a.value {
            seq![Section::Value(v)]
        } else {
            seq![]
        },
        None => seq![],
    }
}

pub open spec fn doc_section(f: FieldV, a: Attributes) -> Seq<Section> {
    match f.metadata.doc {
        Some(d) => if a.doc {
            seq![Section::Doc(d)]
        } else {
            seq![]
        },
        None => seq![],
    }
}

/// The sections of the report: the attributes that are both selected and
/// present, in a fixed order.
pub open spec fn report_sections(f: FieldV, a: Attributes) -> Seq<Section> {
    contract_section(f, a) + typ_section(f, a) + default_section(f, a) + value_section(f, a)
        + doc_section(f, a)
}

/// One rendered report line. Scalar values are rendered exactly as in the
/// structured output.
pub open spec fn render_section(s: Section) -> Seq<char> {
    match s {
        Section::Contract(c) => "* contract: "@ + c + seq!['\n'],
        Section::Typ(t) => "* type: "@ + t + seq!['\n'],
        Section::Default(v) => "* default: "@ + json_value(v) + seq!['\n'],
        Section::Value(v) => "* value: "@ + json_value(v) + seq!['\n'],
        Section::Doc(d) => "* documentation: "@ + d + seq!['\n'],
    }
}

pub open spec fn render_sections(ss: Seq<Section>) -> Seq<char>
    decreases ss.len(),
{
    if ss.len() == 0 {
        Seq::empty()
    } else {
        render_section(ss[0]) + render_sections(ss.drop_first())
    }
}

/// The whole annotated report of a field under an attribute selection.
pub open spec fn report_text(f: FieldV, a: Attributes) -> Seq<char> {
    render_sections(report_sections(f, a))
}

/// Rendering distributes over concatenation of section lists.
pub proof fn lemma_render_concat(a: Seq<Section>, b: Seq<Section>)
    ensures
        render_sections(a + b) == render_sections(a) + render_sections(b),
    decreases a.len(),
{
    if a.len() == 0 {
        assert(a + b =~= b);
        assert(render_sections(a) + render_sections(b) =~= render_sections(b));
    } else {
        lemma_render_concat(a.drop_first(), b);
        assert((a + b).drop_first() =~= a.drop_first() + b);
        assert((a + b)[0] == a[0]);
        assert(render_section(a[0]) + (render_sections(a.drop_first()) + render_sections(b))
            =~= (render_section(a[0]) + render_sections(a.drop_first())) + render_sections(b));
    }
}

/// Rendering a one-section list is that section's line.
pub proof fn lemma_render_singleton(x: Section)
    ensures
        render_sections(seq![x]) == render_section(x),
{
    assert(seq![x].drop_first() =~= Seq::<Section>::empty());
    assert(render_section(x) + render_sections(Seq::<Section>::empty()) =~= render_section(x));
}

/// Append one scalar value, rendered as in the structured output.
fn push_report_value(out: &mut Vec<char>, v: &Value)
    ensures
        final(out)@ == old(out)@ + json_value(v@),
{
    match v {
        Value::Bool(b) => {
            if *b {
                push_str_chars(out, "true");
                proof {
                    reveal_strlit("true");
                    assert(final(out)@ =~= old(out)@ + json_value(v@));
                }
            } else {
                push_str_chars(out, "false");
                proof {
                    reveal_strlit("false");
                    assert(final(out)@ =~= old(out)@ + json_value(v@));
                }
            }
        },
        Value::Int(i) => {
            push_dec_i64(out, *i);
        },
        Value::Str(s) => {
            crate::json::push_json_string(out, s.as_str());
        },
    }
}

/// Append the contract section, when selected and present.
fn push_contract_section(out: &mut Vec<char>, f: &Field, attrs: Attributes) -> (added: bool)
    ensures
        final(out)@ == old(out)@ + render_sections(contract_section(f@, attrs)),
        added == (contract_section(f@, attrs).len() > 0),
{
    let ghost sec = contract_section(f@, attrs);
    let mut added = false;
    match &f.metadata.contract {
        Some(c) => {
            if attrs.contract {
                push_str_chars(out, "* contract: ");
                push_str_chars(out, c.as_str());
                out.push('\n');
                added = true;
            }
        },
        None => {},
    }
    proof {
        if sec.len() > 0 {
            lemma_render_singleton(sec[0]);
            assert(sec =~= seq![sec[0]]);
        }
        assert(final(out)@ =~= old(out)@ + render_sections(sec));
    }
    added
}

/// Append the type section, when selected and present.
fn push_typ_section(out: &mut Vec<char>, f: &Field, attrs: Attributes) -> (added: bool)
    ensures
        final(out)@ == old(out)@ + render_sections(typ_section(f@, attrs)),
        added == (typ_section(f@, attrs).len() > 0),
{
    let ghost sec = typ_section(f@, attrs);
    let mut added = false;
    match &f.metadata.typ {
        Some(t) => {
            if attrs.typ {
                push_str_chars(out, "* type: ");
                push_str_chars(out, t.as_str());
                out.push('\n');
                added = true;
            }
        },
        None => {},
    }
    proof {
        if sec.len() > 0 {
            lemma_render_singleton(sec[0]);
            assert(sec =~= seq![sec[0]]);
        }
        assert(final(out)@ =~= old(out)@ + render_sections(sec));
    }
    added
}

/// Append the default section, when selected and present.
fn push_default_section(out: &mut Vec<char>, f: &Field, attrs: Attributes) -> (added: bool)
    ensures
        final(out)@ == old(out)@ + render_sections(default_section(f@, attrs)),
        added == (default_section(f@, attrs).len() > 0),
{
    let ghost sec = default_section(f@, attrs);
    let mut added = false;
    match &f.metadata.default_value {
        Some(v) => {
            if attrs.default {
                push_str_chars(out, "* default: ");
                push_report_value(out, v);
                out.push('\n');
                added = true;
            }
        },
        None => {},
    }
    proof {
        if sec.len() > 0 {
            lemma_render_singleton(sec[0]);
            assert(sec =~= seq![sec[0]]);
        }
        assert(final(out)@ =~= old(out)@ + render_sections(sec));
    }
    added
}

/// Append the value section, when selected and present.
fn push_value_section(out: &mut Vec<char>, f: &Field, attrs: Attributes) -> (added: bool)
    ensures
        final(out)@ == old(out)@ + render_sections(value_section(f@, attrs)),
        added == (value_section(f@, attrs).len() > 0),
{
    let ghost sec = value_section(f@, attrs);
    let mut added = false;
    match &f.value {
        Some(v) => {
            if attrs.value {
                push_str_chars(out, "* value: ");
                push_report_value(out, v);
                out.push('\n');
                added = true;
            }
        },
        None => {},
    }
    proof {
        if sec.len() > 0 {
            lemma_render_singleton(sec[0]);
            assert(sec =~= seq![sec[0]]);
        }
        assert(final(out)@ =~= old(out)@ + render_sections(sec));
    }
    added
}

/// Append the documentation section, when selected and present.
fn push_doc_section(out: &mut Vec<char>, f: &Field, attrs: Attributes) -> (added: bool)
    ensures
        final(out)@ == old(out)@ + render_sections(doc_section(f@, attrs)),
        added == (doc_section(f@, attrs).len() > 0),
{
    let ghost sec = doc_section(f@, attrs);
    let mut added = false;
    match &f.metadata.doc {
        Some(d) => {
            if attrs.doc {
                push_str_chars(out, "* documentation: ");
                push_str_chars(out, d.as_str());
                out.push('\n');
                added = true;
            }
        },
        None => {},
    }
    proof {
        if sec.len() > 0 {
            lemma_render_singleton(sec[0]);
            assert(sec =~= seq![sec[0]]);
        }
        assert(final(out)@ =~= old(out)@ + render_sections(sec));
    }
    added
}

/// Render the annotated report of a found field: the report text, and
/// whether any selected attribute was present to show (the caller's
/// "found" signal).
pub fn render_report(f: &Field, attrs: Attributes) -> (r: (String, bool))
    ensures
        r.0@ == report_text(f@, attrs),
        r.1 == (report_sections(f@, attrs).len() > 0),
{
    let ghost fv = f@;
    let mut out: Vec<char> = Vec::new();
    let a1 = push_contract_section(&mut out, f, attrs);
    let a2 = push_typ_section(&mut out, f, attrs);
    let a3 = push_default_section(&mut out, f, attrs);
    let a4 = push_value_section(&mut out, f, attrs);
    let a5 = push_doc_section(&mut out, f, attrs);
    let found = a1 || a2 || a3 || a4 || a5;
    proof {
        let c1 = contract_section(fv, attrs);
        let c2 = typ_section(fv, attrs);
        let c3 = default_section(fv, attrs);
        let c4 = value_section(fv, attrs);
        let c5 = doc_section(fv, attrs);
        lemma_render_concat(c1, c2);
        lemma_render_concat(c1 + c2, c3);
        lemma_render_concat(c1 + c2 + c3, c4);
        lemma_render_concat(c1 + c2 + c3 + c4, c5);
        assert(out@ =~= render_sections(report_sections(fv, attrs)));
        assert(found == (report_sections(fv, attrs).len() > 0));
    }
    (chars_to_string(&out), found)
}

/// With the documentation attribute off, the report holds no documentation
/// section, and its text does not depend on the documentation the metadata
/// carries: two fields that differ in documentation alone render alike.
pub proof fn lemma_human_doc_filtered(f1: FieldV, f2: FieldV, a: Attributes)
    requires
        !a.doc,
        f1.value == f2.value,
        f1.metadata.contract == f2.metadata.contract,
        f1.metadata.typ == f2.metadata.typ,
        f1.metadata.default_value == f2.metadata.default_value,
        f1.metadata.provenance == f2.metadata.provenance,
    ensures
        forall|i: int|
            0 <= i < report_sections(f1, a).len() ==> !(#[trigger] report_sections(f1, a)[i]
                is Doc),
        report_sections(f1, a) == report_sections(f2, a),
        report_text(f1, a) == report_text(f2, a),
{
    assert(doc_section(f1, a) =~= Seq::<Section>::empty());
    assert(report_sections(f1, a) =~= report_sections(f2, a));
}

} // verus!
