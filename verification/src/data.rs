//! The data model of a metadata query: scalar values, field metadata, and
//! the outcome of looking a field up.

use vstd::prelude::*;

verus! {

/// A scalar configuration value as the presenter sees it. The evaluator
/// hands fields over in this plain form; the presenter never inspects
/// anything richer.
#[derive(Debug, Clone, PartialEq)]
pub enum Value {
    Bool(bool),
    Int(i64),
    Str(String),
}

/// Mathematical model of a [`Value`].
pub enum ValueV {
    Bool(bool),
    Int(int),
    Str(Seq<char>),
}

impl View for Value {
    type V = ValueV;

    open spec fn view(&self) -> ValueV {
        match self {
            Value::Bool(b) => ValueV::Bool(*b),
            Value::Int(i) => ValueV::Int(*i as int),
            Value::Str(s) => ValueV::Str(s@),
        }
    }
}

impl ValueV {
    /// Every integer a field can actually hold fits a machine word.
    pub open spec fn wf(self) -> bool {
        match self {
            ValueV::Int(i) => i64::MIN <= i <= i64::MAX,
            _ => true,
        }
    }
}

/// The non-value annotations attached to a field: documentation text, a
/// contract annotation, a type annotation, a default expression, and the
/// provenance of the field. Every part is optional.
#[derive(Debug, Clone, PartialEq)]
pub struct FieldMetadata {
    pub doc: Option<String>,
    pub contract: Option<String>,
    pub typ: Option<String>,
    pub default_value: Option<Value>,
    pub provenance: Option<String>,
}

/// Mathematical model of a [`FieldMetadata`].
pub struct FieldMetadataV {
    pub doc: Option<Seq<char>>,
    pub contract: Option<Seq<char>>,
    pub typ: Option<Seq<char>>,
    pub default_value: Option<ValueV>,
    pub provenance: Option<Seq<char>>,
}

/// The model of an optional string.
pub open spec fn opt_str_view(o: Option<String>) -> Option<Seq<char>> {
    match o {
        Some(s) => Some(s@),
        None => None,
    }
}

/// The model of an optional value.
pub open spec fn opt_value_view(o: Option<Value>) -> Option<ValueV> {
    match o {
        Some(v) => Some(v@),
        None => None,
    }
}

impl View for FieldMetadata {
    type V = FieldMetadataV;

    open spec fn view(&self) -> FieldMetadataV {
        FieldMetadataV {
            doc: opt_str_view(self.doc),
            contract: opt_str_view(self.contract),
            typ: opt_str_view(self.typ),
            default_value: opt_value_view(self.default_value),
            provenance: opt_str_view(self.provenance),
        }
    }
}

impl FieldMetadataV {
    pub open spec fn wf(self) -> bool {
        match self.default_value {
            Some(v) => v.wf(),
            None => true,
        }
    }
}

/// A queried field: an optional value (a field may be declared without
/// one) together with its metadata. Produced once per query by the
/// evaluator and read-only to this library.
#[derive(Debug, Clone, PartialEq)]
pub struct Field {
    pub value: Option<Value>,
    pub metadata: FieldMetadata,
}

/// Mathematical model of a [`Field`].
pub struct FieldV {
    pub value: Option<ValueV>,
    pub metadata: FieldMetadataV,
}

impl View for Field {
    type V = FieldV;

    open spec fn view(&self) -> FieldV {
        FieldV { value: opt_value_view(self.value), metadata: self.metadata@ }
    }
}

impl FieldV {
    pub open spec fn wf(self) -> bool {
        &&& match self.value {
            Some(v) => v.wf(),
            None => true,
        }
        &&& self.metadata.wf()
    }
}

/// The model of every field an evaluator can hand over is well formed.
pub proof fn lemma_field_view_wf(f: Field)
    ensures
        f@.wf(),
{
}

/// The outcome of looking a field up: the field with its metadata, or
/// nothing. `NotFound` is a valid terminal outcome, not a failure.
pub enum QueryOutcome {
    Found(Field),
    NotFound,
}

} // verus!
