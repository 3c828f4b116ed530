//! Result presentation: dispatch between the human-readable report and the
//! structured output, with the format registry and its failure mode.

use vstd::prelude::*;
use crate::attrs::QueryRequest;
use crate::data::{FieldV, QueryOutcome};
use crate::json::{encode_field, json_field};
use crate::parse::{lemma_structured_round_trip, parse_field};
use crate::report::{render_report, report_sections, report_text};

verus! {

/// A presentation failure: the requested structured format's encoder
/// rejected the request. No other error originates in presentation.
#[derive(Debug)]
pub enum PresentationError {
    EncodingFailed { cause: String },
}

/// What one query presents: at most one document for the output sink, at
/// most one diagnostic line for the error stream, and whether metadata
/// was found and shown.
pub struct Presentation {
    pub output: Option<String>,
    pub diagnostic: Option<String>,
    pub found: bool,
}

/// The diagnostic for a query that yielded no metadata to show.
pub open spec fn no_metadata_text() -> Seq<char> {
    "No metadata found for this field."@
}

/// The diagnostic line for a query that yielded no metadata to show.
pub fn no_metadata_message() -> (r: String)
    ensures
        r@ == no_metadata_text(),
{
    "No metadata found for this field.".to_owned()
}

/// The names with a registered structured encoder. New formats register
/// here without touching the dispatch logic.
pub open spec fn format_registered(name: Seq<char>) -> bool {
    name == "json"@
}

/// Whether a structured encoder is registered under `name`.
pub fn is_registered_format(name: &str) -> (r: bool)
    ensures
        r == format_registered(name@),
{
    let n = name.to_owned();
    let json = String::from_str("json");
    n == json
}

/// The failure cause reported for a format nobody registered.
pub open spec fn unsupported_format_text(name: Seq<char>) -> Seq<char> {
    "unsupported export format: "@ + name
}

fn unsupported_format_message(name: &str) -> (r: String)
    ensures
        r@ == unsupported_format_text(name@),
{
    String::from_str("unsupported export format: ").concat(name)
}

/// Present the outcome of one query.
///
/// Without a format the annotated report is produced, filtered by the
/// resolved attribute set; with a registered format the full structured
/// document is produced, the attribute set notwithstanding. An outcome
/// without metadata is a success with a diagnostic in either path, and an
/// unregistered format name is the one failure.
pub fn present(outcome: &QueryOutcome, request: &QueryRequest) -> (r: Result<
    Presentation,
    PresentationError,
>)
    ensures
        outcome is NotFound ==> (r matches Ok(p) && p.output is None && !p.found && (
        p.diagnostic matches Some(d) && d@ == no_metadata_text())),
        outcome matches QueryOutcome::Found(f) ==> match request.format {
            None => (r matches Ok(p) && (p.output matches Some(o) && o@ == report_text(
                f@,
                request.spec_query_attributes(),
            )) && p.found == (report_sections(f@, request.spec_query_attributes()).len() > 0) && (
            p.found ==> p.diagnostic is None) && (!p.found ==> (p.diagnostic matches Some(d) && d@
                == no_metadata_text()))),
            Some(n) => if format_registered(n@) {
                r matches Ok(p) && (p.output matches Some(o) && o@ == json_field(f@)) && p.found
                    && p.diagnostic is None
            } else {
                r matches Err(e) && (e matches PresentationError::EncodingFailed { cause } && cause@
                    == unsupported_format_text(n@))
            },
        },
{
    match outcome {
        QueryOutcome::NotFound => Ok(
            Presentation {
                output: None,
                diagnostic: Some(no_metadata_message()),
                found: false,
            },
        ),
        QueryOutcome::Found(f) => match &request.format {
            None => {
                let attrs = request.query_attributes();
                let (text, found) = render_report(f, attrs);
                let diagnostic = if found {
                    None
                } else {
                    Some(no_metadata_message())
                };
                Ok(Presentation { output: Some(text), diagnostic, found })
            },
            Some(name) => {
                if is_registered_format(name.as_str()) {
                    Ok(
                        Presentation {
                            output: Some(encode_field(f)),
                            diagnostic: None,
                            found: true,
                        },
                    )
                } else {
                    Err(
                        PresentationError::EncodingFailed {
                            cause: unsupported_format_message(name.as_str()),
                        },
                    )
                }
            },
        },
    }
}

/// The structured document is complete whatever attribute set the request
/// carries: it always exposes both the `value` member and the `metadata`
/// member of the field, recoverable untouched by the reader.
pub proof fn lemma_structured_completeness(f: FieldV)
    requires
        f.wf(),
    ensures
        parse_field(json_field(f)) matches Some(g) && g.value == f.value && g.metadata
            == f.metadata,
{
    lemma_structured_round_trip(f);
}

/// The advisory shown before querying when the caller names no field: the
/// query then targets the root of the document. Emitting it is not an
/// error and does not change the outcome.
pub open spec fn empty_path_advisory_text() -> Seq<char> {
    "empty query path: querying the root of the document"@
}

/// The advisory for an absent query path: present exactly when no field
/// path was given.
pub fn empty_path_advisory(field_path: &Option<String>) -> (r: Option<String>)
    ensures
        field_path is Some ==> r is None,
        field_path is None ==> (r matches Some(w) && w@ == empty_path_advisory_text()),
{
    match field_path {
        Some(_) => None,
        None => Some("empty query path: querying the root of the document".to_owned()),
    }
}

} // verus!
