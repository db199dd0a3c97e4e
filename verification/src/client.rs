//! What the client adds to every outbound request: the B3 headers of a
//! child of the current span.

use crate::fields::{child_span_with, context_of, ExtendedLog};
use crate::trace::{child_of, encoded, rand_u64, B3Headers};
use vstd::prelude::*;

verus! {

/// The headers with which an outbound call continues the trace of the
/// current span, where the span that the call opens has the id `span_id`.
/// Outside any span, and in a span that lacks a trace id or a span id,
/// there are none and the call goes out untraced.
pub fn trace_headers_with(current: Option<&ExtendedLog>, span_id: u64) -> (r: Option<B3Headers>)
    requires
        current matches Some(fields) ==> fields.wf(),
    ensures
        r is Some == (current matches Some(fields) && context_of(fields.data()) is Some),
        r matches Some(headers) ==> headers@ == encoded(
            child_of(context_of(current->0.data())->0, span_id),
        ),
{
    match child_span_with(current, span_id) {
        Some(child) => Some(B3Headers::encode(&child)),
        None => None,
    }
}

/// The headers with which an outbound call continues the trace of the
/// current span, under a freshly drawn span id.
pub fn set_trace(current: Option<&ExtendedLog>) -> (r: Option<B3Headers>)
    requires
        current matches Some(fields) ==> fields.wf(),
    ensures
        r is Some == (current matches Some(fields) && context_of(fields.data()) is Some),
        r matches Some(headers) ==> exists|span_id: u64|
            headers@ == encoded(child_of(context_of(current->0.data())->0, span_id)),
{
    trace_headers_with(current, rand_u64())
}

} // verus!
