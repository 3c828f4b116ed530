//! Selection of the metadata attributes to display for a queried field.

use vstd::prelude::*;

verus! {

/// The set of metadata attributes selected for display: documentation,
/// contract, type, default and value. Once resolved from the caller's
/// flags the set is immutable for the duration of one query.
#[derive(Clone, Copy, PartialEq, Eq, Structural, Debug)]
pub struct Attributes {
    pub doc: bool,
    pub contract: bool,
    pub typ: bool,
    pub default: bool,
    pub value: bool,
}

impl Attributes {
    /// The default selection, used when the caller requests no attribute
    /// explicitly: every attribute is shown. This choice is user-visible
    /// behaviour and must stay stable.
    pub open spec fn spec_default() -> Attributes {
        Attributes { doc: true, contract: true, typ: true, default: true, value: true }
    }

    /// True when at least one attribute is selected.
    pub open spec fn spec_any(self) -> bool {
        self.doc || self.contract || self.typ || self.default || self.value
    }
}

impl Default for Attributes {
    /// The default selection of attributes.
    fn default() -> (r: Attributes)
        ensures
            r == Attributes::spec_default(),
    {
        Attributes { doc: true, contract: true, typ: true, default: true, value: true }
    }
}

/// The caller's query request: one presence flag per attribute, and an
/// optional name of a structured output format (absence selects the
/// human-readable path).
pub struct QueryRequest {
    pub doc: bool,
    pub contract: bool,
    pub typ: bool,
    pub default: bool,
    pub value: bool,
    pub format: Option<String>,
}

impl QueryRequest {
    /// True when the caller set at least one attribute flag.
    pub open spec fn spec_attributes_specified(self) -> bool {
        self.doc || self.contract || self.typ || self.default || self.value
    }

    /// The attribute set this request resolves to: the flags as given when
    /// any is set, the fixed default selection otherwise.
    pub open spec fn spec_query_attributes(self) -> Attributes {
        if !self.spec_attributes_specified() {
            Attributes::spec_default()
        } else {
            Attributes {
                doc: self.doc,
                contract: self.contract,
                typ: self.typ,
                default: self.default,
                value: self.value,
            }
        }
    }

    /// Whether any attribute was requested explicitly.
    pub fn attributes_specified(&self) -> (r: bool)
        ensures
            r == self.spec_attributes_specified(),
    {
        self.doc || self.contract || self.typ || self.default || self.value
    }

    /// Resolve the requested attribute flags to the set of attributes to
    /// show, substituting the default selection when none was requested.
    pub fn query_attributes(&self) -> (r: Attributes)
        ensures
            r == self.spec_query_attributes(),
    {
        if !self.attributes_specified() {
            Attributes::default()
        } else {
            Attributes {
                doc: self.doc,
                contract: self.contract,
                typ: self.typ,
                default: self.default,
                value: self.value,
            }
        }
    }
}

/// With all five flags off, the resolved attribute set is always the same
/// fixed default selection, and that selection is not empty.
pub proof fn lemma_default_attribute_set(q: QueryRequest)
    requires
        !q.doc,
        !q.contract,
        !q.typ,
        !q.default,
        !q.value,
    ensures
        q.spec_query_attributes() == Attributes::spec_default(),
        q.spec_query_attributes().spec_any(),
{
}

/// With at least one flag on, the resolved attribute set is exactly the
/// flags given: no attribute is enabled that was not requested.
pub proof fn lemma_explicit_attributes_exact(q: QueryRequest)
    requires
        q.spec_attributes_specified(),
    ensures
        q.spec_query_attributes().doc == q.doc,
        q.spec_query_attributes().contract == q.contract,
        q.spec_query_attributes().typ == q.typ,
        q.spec_query_attributes().default == q.default,
        q.spec_query_attributes().value == q.value,
{
}

} // verus!
