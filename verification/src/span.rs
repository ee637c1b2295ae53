//! Spans: timed records of one logical unit of work, with a name, a set of
//! key-value attributes, and an optional parent for tree reconstruction.

use vstd::prelude::*;

verus! {

/// One key-value attribute attached to a span.
pub struct Attr {
    pub key: String,
    pub value: String,
}

/// Mathematical model of an attribute.
pub ghost struct AttrModel {
    pub key: Seq<char>,
    pub value: Seq<char>,
}

impl View for Attr {
    type V = AttrModel;

    open spec fn view(&self) -> AttrModel {
        AttrModel { key: self.key@, value: self.value@ }
    }
}

/// A finished span: closed, timestamped, ready for export.
pub struct Span {
    pub id: u64,
    pub parent: Option<u64>,
    pub name: String,
    pub start: u64,
    pub end: u64,
    pub attrs: Vec<Attr>,
}

/// Mathematical model of a finished span.
pub ghost struct SpanModel {
    pub id: int,
    pub parent: Option<int>,
    pub name: Seq<char>,
    pub start: int,
    pub end: int,
    pub attrs: Seq<AttrModel>,
}

/// The model of a sequence of attributes.
pub open spec fn attrs_view(s: Seq<Attr>) -> Seq<AttrModel> {
    s.map(|i: int, a: Attr| a@)
}

impl View for Span {
    type V = SpanModel;

    open spec fn view(&self) -> SpanModel {
        SpanModel {
            id: self.id as int,
            parent: match self.parent {
                Some(p) => Some(p as int),
                None => None,
            },
            name: self.name@,
            start: self.start as int,
            end: self.end as int,
            attrs: attrs_view(self.attrs@),
        }
    }
}

/// The model of a sequence of finished spans.
pub open spec fn spans_view(s: Seq<Span>) -> Seq<SpanModel> {
    s.map(|i: int, x: Span| x@)
}

impl SpanModel {
    /// A finished span never ends before it starts.
    pub open spec fn wf(self) -> bool {
        0 <= self.start <= self.end <= u64::MAX
    }
}

} // verus!
