//! The trace context of a span and its carriage in the three B3 headers.

use crate::hex::{
    hex16, lemma_hex16_shape, lemma_parse_hex16, parse_hex, read_header_as_u64, u64_hex,
};
use vstd::prelude::*;

verus! {

/// Name of the header that carries the trace id.
pub const TRACE_ID_HEADER: &'static str = "X-B3-TraceId";

/// Name of the header that carries the span id.
pub const SPAN_ID_HEADER: &'static str = "X-B3-SpanId";

/// Name of the header that carries the id of the parent span.
pub const PARENT_SPAN_ID_HEADER: &'static str = "X-B3-ParentSpanId";

/// The identity of one span within a distributed trace. Each id is kept as
/// it is rendered; a root has an empty `parent_span_id`.
pub struct OpenTrace {
    pub trace_id: String,
    pub span_id: String,
    pub parent_span_id: String,
}

/// The three rendered ids of a trace context.
pub struct TraceView {
    pub trace_id: Seq<char>,
    pub span_id: Seq<char>,
    pub parent_span_id: Seq<char>,
}

impl View for OpenTrace {
    type V = TraceView;

    open spec fn view(&self) -> TraceView {
        TraceView {
            trace_id: self.trace_id@,
            span_id: self.span_id@,
            parent_span_id: self.parent_span_id@,
        }
    }
}

/// The rendering of an optional id: sixteen digits, or nothing at all.
pub open spec fn hex16_opt(id: Option<u64>) -> Seq<char> {
    match id {
        Some(i) => hex16(i),
        None => Seq::empty(),
    }
}

/// The context with the given ids.
pub open spec fn context(trace_id: u64, span_id: u64, parent_span_id: Option<u64>) -> TraceView {
    TraceView {
        trace_id: hex16(trace_id),
        span_id: hex16(span_id),
        parent_span_id: hex16_opt(parent_span_id),
    }
}

/// The child of `parent` whose own span id is `span_id`: it stays in the
/// parent's trace and names the parent's span as its parent.
pub open spec fn child_of(parent: TraceView, span_id: u64) -> TraceView {
    TraceView {
        trace_id: parent.trace_id,
        span_id: hex16(span_id),
        parent_span_id: parent.span_id,
    }
}

/// `rand::random::<u64>()`: a number drawn from the thread's generator.
/// Nothing is promised of the number.
#[verifier::external_body]
pub(crate) fn rand_u64() -> (r: u64) {
    rand::random::<u64>()
}

impl OpenTrace {
    /// The context with the given ids, each rendered as sixteen digits.
    pub fn new(trace_id: u64, span_id: u64, parent_span_id: Option<u64>) -> (r: Self)
        ensures
            r@ == context(trace_id, span_id, parent_span_id),
    {
        let parent = match parent_span_id {
            Some(p) => u64_hex(p),
            None => String::new(),
        };
        OpenTrace { trace_id: u64_hex(trace_id), span_id: u64_hex(span_id), parent_span_id: parent }
    }

    /// A context in the trace `trace_id` with a freshly drawn span id.
    pub fn from_parent(trace_id: u64, parent_span_id: Option<u64>) -> (r: Self)
        ensures
            exists|span_id: u64| r@ == context(trace_id, span_id, parent_span_id),
    {
        OpenTrace::new(trace_id, rand_u64(), parent_span_id)
    }

    /// Whether the context is a root, that is, names no parent span.
    pub fn is_root(&self) -> (r: bool)
        ensures
            r == (self@.parent_span_id.len() == 0),
    {
        self.parent_span_id.as_str().is_empty()
    }
}

impl Default for OpenTrace {
    /// A new root: one freshly drawn id serves as trace id and as span id.
    fn default() -> (r: Self)
        ensures
            exists|id: u64| r@ == context(id, id, None),
            r@.span_id == r@.trace_id,
            r@.parent_span_id.len() == 0,
    {
        let id = rand_u64();
        OpenTrace::new(id, id, None)
    }
}

/// The values of the three B3 headers of one request, each absent or the
/// text that the header holds.
pub struct B3Headers {
    pub trace_id: Option<String>,
    pub span_id: Option<String>,
    pub parent_span_id: Option<String>,
}

/// The values of the three B3 headers as plain text.
pub struct B3View {
    pub trace_id: Option<Seq<char>>,
    pub span_id: Option<Seq<char>>,
    pub parent_span_id: Option<Seq<char>>,
}

/// The text of an optional header value.
pub open spec fn text_of(value: Option<String>) -> Option<Seq<char>> {
    match value {
        Some(s) => Some(s@),
        None => None,
    }
}

/// The number that an optional header value holds.
pub open spec fn parse_header(value: Option<Seq<char>>) -> Option<u64> {
    match value {
        Some(s) => parse_hex(s),
        None => None,
    }
}

impl View for B3Headers {
    type V = B3View;

    open spec fn view(&self) -> B3View {
        B3View {
            trace_id: text_of(self.trace_id),
            span_id: text_of(self.span_id),
            parent_span_id: text_of(self.parent_span_id),
        }
    }
}

/// The headers that carry `ctx`: trace id and span id always, the parent's
/// id only where there is one.
pub open spec fn encoded(ctx: TraceView) -> B3View {
    B3View {
        trace_id: Some(ctx.trace_id),
        span_id: Some(ctx.span_id),
        parent_span_id: if ctx.parent_span_id.len() == 0 {
            None
        } else {
            Some(ctx.parent_span_id)
        },
    }
}

/// The context that the headers give when `fresh` is the id to fall back
/// on. A trace id that is missing or malformed is replaced by `fresh`; a
/// span id that is missing or malformed is the trace id; a parent id that
/// is missing or malformed is absent.
pub open spec fn decoded(headers: B3View, fresh: u64) -> TraceView {
    let trace_id = match parse_header(headers.trace_id) {
        Some(t) => t,
        None => fresh,
    };
    let span_id = match parse_header(headers.span_id) {
        Some(s) => s,
        None => trace_id,
    };
    context(trace_id, span_id, parse_header(headers.parent_span_id))
}

fn option_str(value: &Option<String>) -> (r: Option<&str>)
    ensures
        r is Some == value is Some,
        r matches Some(s) ==> s@ == value->0@,
{
    match value {
        Some(s) => Some(s.as_str()),
        None => None,
    }
}

impl B3Headers {
    /// No B3 header at all.
    pub fn none() -> (r: Self)
        ensures
            r@ == (B3View { trace_id: None, span_id: None, parent_span_id: None }),
    {
        B3Headers { trace_id: None, span_id: None, parent_span_id: None }
    }

    /// The headers that carry `ctx` to the next service. The header of the
    /// parent span is left out when `ctx` is a root.
    pub fn encode(ctx: &OpenTrace) -> (r: Self)
        ensures
            r@ == encoded(ctx@),
    {
        let parent = if ctx.is_root() {
            None
        } else {
            Some(ctx.parent_span_id.clone())
        };
        B3Headers {
            trace_id: Some(ctx.trace_id.clone()),
            span_id: Some(ctx.span_id.clone()),
            parent_span_id: parent,
        }
    }

    /// The number that the trace id header holds, if it holds one.
    pub fn trace_id_value(&self) -> (r: Option<u64>)
        ensures
            r == parse_header(self@.trace_id),
    {
        read_header_as_u64(option_str(&self.trace_id))
    }

    /// The context that these headers give, with `fresh` as the trace id
    /// where the headers hold none.
    pub fn decode(&self, fresh: u64) -> (r: OpenTrace)
        ensures
            r@ == decoded(self@, fresh),
    {
        let trace_id = match self.trace_id_value() {
            Some(t) => t,
            None => fresh,
        };
        let span_id = match read_header_as_u64(option_str(&self.span_id)) {
            Some(s) => s,
            None => trace_id,
        };
        OpenTrace::new(trace_id, span_id, read_header_as_u64(option_str(&self.parent_span_id)))
    }
}

/// The context of an inbound request, from its B3 headers. Where the trace
/// id header is missing or malformed a fresh id is drawn.
pub fn from_req(headers: &B3Headers) -> (r: OpenTrace)
    ensures
        exists|fresh: u64| r@ == decoded(headers@, fresh),
        parse_header(headers@.trace_id) matches Some(t) ==> r@ == decoded(headers@, t),
        parse_header(headers@.span_id) is None ==> r@.span_id == r@.trace_id,
        parse_header(headers@.parent_span_id) is None ==> r@.parent_span_id.len() == 0,
{
    let fresh = match headers.trace_id_value() {
        Some(t) => t,
        None => rand_u64(),
    };
    headers.decode(fresh)
}

/// A context that went out in headers comes back unchanged, with or without
/// a parent, whatever fresh id the receiver would have had ready.
pub proof fn lemma_b3_round_trip(
    trace_id: u64,
    span_id: u64,
    parent_span_id: Option<u64>,
    fresh: u64,
)
    ensures
        decoded(encoded(context(trace_id, span_id, parent_span_id)), fresh) == context(
            trace_id,
            span_id,
            parent_span_id,
        ),
{
    lemma_parse_hex16(trace_id);
    lemma_parse_hex16(span_id);
    match parent_span_id {
        Some(p) => {
            lemma_parse_hex16(p);
            lemma_hex16_shape(p);
        },
        None => {},
    }
}

/// A request without any B3 header starts a trace of its own: the span id
/// is the trace id and there is no parent.
pub proof fn lemma_decode_without_headers(fresh: u64)
    ensures
        decoded(B3View { trace_id: None, span_id: None, parent_span_id: None }, fresh) == context(
            fresh,
            fresh,
            None,
        ),
{
}

/// Where the trace id header holds a number, the fallback id plays no part.
pub proof fn lemma_decode_ignores_fresh(headers: B3View, a: u64, b: u64)
    requires
        parse_header(headers.trace_id) is Some,
    ensures
        decoded(headers, a) == decoded(headers, b),
{
}

} // verus!
