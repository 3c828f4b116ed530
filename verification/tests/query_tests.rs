use nickel_query::attrs::{Attributes, QueryRequest};
use nickel_query::data::{Field, FieldMetadata, QueryOutcome, Value};
use nickel_query::present::{present, Presentation, PresentationError};
use nickel_query::report::render_report;

fn request(doc: bool, contract: bool, typ: bool, default: bool, value: bool) -> QueryRequest {
    QueryRequest { doc, contract, typ, default, value, format: None }
}

fn sample_metadata() -> FieldMetadata {
    FieldMetadata {
        doc: Some(String::from("the answer")),
        contract: Some(String::from("Number")),
        typ: Some(String::from("Number")),
        default_value: Some(Value::Int(7)),
        provenance: Some(String::from("config.ncl")),
    }
}

fn sample_field() -> Field {
    Field { value: Some(Value::Int(42)), metadata: sample_metadata() }
}

#[test]
fn default_attribute_set_is_stable_and_non_empty() {
    let q1 = request(false, false, false, false, false);
    let q2 = request(false, false, false, false, false);
    let a1 = q1.query_attributes();
    let a2 = q2.query_attributes();
    assert_eq!(a1, a2);
    assert_eq!(a1, Attributes::default());
    assert!(a1.doc || a1.contract || a1.typ || a1.default || a1.value);
}

#[test]
fn explicit_attribute_set_is_exact() {
    let q = request(true, false, true, false, false);
    assert!(q.attributes_specified());
    let a = q.query_attributes();
    assert!(a.doc);
    assert!(!a.contract);
    assert!(a.typ);
    assert!(!a.default);
    assert!(!a.value);
}

#[test]
fn single_flag_enables_nothing_else() {
    let q = request(false, false, false, false, true);
    let a = q.query_attributes();
    assert!(!a.doc && !a.contract && !a.typ && !a.default && a.value);
}

#[test]
fn human_report_shows_selected_attributes() {
    let f = sample_field();
    let attrs = Attributes::default();
    let (text, found) = render_report(&f, attrs);
    assert!(found);
    assert_eq!(
        text,
        "* contract: Number\n* type: Number\n* default: 7\n* value: 42\n* documentation: the answer\n"
    );
}

#[test]
fn human_report_filters_doc_out() {
    let f = sample_field();
    let attrs = Attributes { doc: false, contract: true, typ: true, default: true, value: true };
    let (text, found) = render_report(&f, attrs);
    assert!(found);
    assert!(!text.contains("documentation"));
    assert!(!text.contains("the answer"));

    let mut without_doc = sample_field();
    without_doc.metadata.doc = None;
    let (text2, _) = render_report(&without_doc, attrs);
    assert_eq!(text, text2);
}

#[test]
fn human_report_empty_when_nothing_selected_is_present() {
    let f = Field {
        value: None,
        metadata: FieldMetadata {
            doc: Some(String::from("only docs")),
            contract: None,
            typ: None,
            default_value: None,
            provenance: None,
        },
    };
    let attrs = Attributes { doc: false, contract: true, typ: true, default: true, value: true };
    let (text, found) = render_report(&f, attrs);
    assert!(!found);
    assert_eq!(text, "");
}

#[test]
fn not_found_is_success_with_diagnostic_in_human_path() {
    let q = request(false, false, false, false, false);
    let r = present(&QueryOutcome::NotFound, &q);
    let p: Presentation = r.expect("not found must not fail");
    assert!(p.output.is_none());
    assert!(!p.found);
    assert_eq!(p.diagnostic.as_deref(), Some("No metadata found for this field."));
}

#[test]
fn not_found_is_success_with_diagnostic_in_structured_path() {
    let mut q = request(false, false, false, false, false);
    q.format = Some(String::from("json"));
    let r = present(&QueryOutcome::NotFound, &q);
    let p = r.expect("not found must not fail");
    assert!(p.output.is_none());
    assert!(!p.found);
    assert_eq!(p.diagnostic.as_deref(), Some("No metadata found for this field."));
}

#[test]
fn found_without_metadata_to_show_gets_diagnostic() {
    let f = Field {
        value: None,
        metadata: FieldMetadata {
            doc: None,
            contract: None,
            typ: None,
            default_value: None,
            provenance: None,
        },
    };
    let q = request(false, false, false, false, false);
    let p = present(&QueryOutcome::Found(f), &q).expect("human path must not fail");
    assert!(!p.found);
    assert_eq!(p.output.as_deref(), Some(""));
    assert_eq!(p.diagnostic.as_deref(), Some("No metadata found for this field."));
}

#[test]
fn unsupported_format_is_encoding_failure() {
    let mut q = request(false, false, false, false, false);
    q.format = Some(String::from("yaml"));
    let r = present(&QueryOutcome::Found(sample_field()), &q);
    match r {
        Err(PresentationError::EncodingFailed { cause }) => {
            assert_eq!(cause, "unsupported export format: yaml");
        },
        Ok(_) => panic!("an unregistered format must not succeed"),
    }
}

#[test]
fn structured_path_ignores_attribute_selection() {
    let mut q1 = request(false, false, false, false, false);
    q1.format = Some(String::from("json"));
    let mut q2 = request(true, false, false, false, true);
    q2.format = Some(String::from("json"));
    let p1 = present(&QueryOutcome::Found(sample_field()), &q1).unwrap();
    let p2 = present(&QueryOutcome::Found(sample_field()), &q2).unwrap();
    assert_eq!(p1.output, p2.output);
    assert!(p1.found);
    assert!(p1.diagnostic.is_none());
}

#[test]
fn empty_path_advisory_comes_only_without_a_path() {
    let none: Option<String> = None;
    let some = Some(String::from("server.port"));
    let w = nickel_query::present::empty_path_advisory(&none);
    assert_eq!(w.as_deref(), Some("empty query path: querying the root of the document"));
    assert!(nickel_query::present::empty_path_advisory(&some).is_none());
}
