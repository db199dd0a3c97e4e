//! The handling of one inbound request: the span it runs under, the order
//! of the steps, and what is done to the response.

use crate::error::{FallError, NOT_FOUND};
use crate::fields::{
    context_of, default_keys, field_text, recorded, recorded_all, PARENT_SPAN_ID, SPAN_ID,
    TRACE_ID,
};
use crate::log::Level;
use crate::trace::{decoded, from_req, parse_header, B3Headers, OpenTrace, TraceView};
use vstd::prelude::*;

verus! {

/// Name of the span that a request runs under.
pub const SPAN_NAME: &'static str = "web";

/// The span that is opened for a request.
pub struct SpanStart {
    /// The name of the span.
    pub name: &'static str,
    /// The level of the span.
    pub level: Level,
    /// The trace context that the span carries in its first three fields.
    /// Its fourth field, the padding, is declared and left empty.
    pub context: OpenTrace,
}

/// The fields that a span is given at its creation to carry `ctx`: its
/// three ids, by name.
pub open spec fn span_attrs(ctx: TraceView) -> Seq<(Seq<char>, Seq<char>)> {
    seq![
        (TRACE_ID@, ctx.trace_id),
        (SPAN_ID@, ctx.span_id),
        (PARENT_SPAN_ID@, ctx.parent_span_id),
    ]
}

impl OpenTrace {
    /// The fields that a span is given at its creation to carry this
    /// context.
    pub fn attrs(&self) -> (r: Vec<(String, String)>)
        ensures
            crate::fields::pairs(r@) == span_attrs(self@),
    {
        let mut r: Vec<(String, String)> = Vec::new();
        r.push((TRACE_ID.to_owned(), self.trace_id.clone()));
        r.push((SPAN_ID.to_owned(), self.span_id.clone()));
        r.push((PARENT_SPAN_ID.to_owned(), self.parent_span_id.clone()));
        assert(crate::fields::pairs(r@) =~= span_attrs(self@));
        r
    }
}

/// The handler whose hooks do what the middleware does by default.
pub struct DefaultRequestHandler;

impl DefaultRequestHandler {
    /// The span for a request with the B3 headers `headers`: a span named
    /// `web` at level `INFO` with the context that the headers give.
    pub fn new_span(&self, headers: &B3Headers) -> (r: SpanStart)
        ensures
            r.name@ == SPAN_NAME@,
            r.level == Level::INFO,
            exists|fresh: u64| r.context@ == decoded(headers@, fresh),
            parse_header(headers@.trace_id) matches Some(t) ==> r.context@ == decoded(
                headers@,
                t,
            ),
    {
        SpanStart { name: SPAN_NAME, level: Level::INFO, context: from_req(headers) }
    }

    /// The check before a request is handled: every request passes.
    pub fn pre_request(&self) -> (r: Result<(), FallError>)
        ensures
            r is Ok,
    {
        Ok(())
    }

    /// What becomes of a response with status `status`: the body of a
    /// `404` is replaced by the one that reports that status as an error,
    /// any other response stays as it is.
    pub fn post_response(&self, status: u16) -> (r: Option<FallError>)
        ensures
            r is Some == (status == NOT_FOUND),
            r matches Some(e) ==> e == FallError::HTTP_ERROR(NOT_FOUND, None) && e.wf(),
    {
        if status == NOT_FOUND {
            Some(FallError::HTTP_ERROR(status, None))
        } else {
            None
        }
    }
}

/// How far the handling of a request has come.
#[derive(Clone, Copy, Debug, PartialEq, Eq)]
pub enum CallState {
    /// The request has arrived and nothing was done yet.
    Received,
    /// The span is entered and the check before the request is awaited.
    Checking,
    /// The check passed and the inner service is awaited.
    Serving,
    /// The response or the error was handed back and the span was left.
    Finished,
}

/// What the middleware is told when the work it asked for is done.
#[derive(Clone, Copy, Debug, PartialEq, Eq)]
pub enum CallEvent {
    /// The middleware was called with the request.
    Called,
    /// The check before the request passed.
    Accepted,
    /// The check before the request ended in an error.
    Rejected,
    /// The inner service returned a response.
    Responded,
    /// The inner service returned an error.
    Failed,
}

/// What the middleware does next.
#[derive(Clone, Copy, Debug, PartialEq, Eq)]
pub enum CallAction {
    /// Open the span for the request, enter it and await the check before
    /// the request.
    EnterSpan,
    /// Call the inner service and await it, still under the span.
    CallService,
    /// Answer with the response that reports the error of the check, and
    /// leave the span. The inner service is not called.
    RespondWithError,
    /// Apply the hook for responses to what the inner service returned,
    /// leave the span and answer with the result.
    PostResponse,
    /// Leave the span and hand the error of the inner service on as it is.
    ForwardError,
}

/// What follows `event` in `state`, if `event` can come in `state`.
pub open spec fn next_step(state: CallState, event: CallEvent) -> Option<(CallState, CallAction)> {
    match (state, event) {
        (CallState::Received, CallEvent::Called) => Some(
            (CallState::Checking, CallAction::EnterSpan),
        ),
        (CallState::Checking, CallEvent::Accepted) => Some(
            (CallState::Serving, CallAction::CallService),
        ),
        (CallState::Checking, CallEvent::Rejected) => Some(
            (CallState::Finished, CallAction::RespondWithError),
        ),
        (CallState::Serving, CallEvent::Responded) => Some(
            (CallState::Finished, CallAction::PostResponse),
        ),
        (CallState::Serving, CallEvent::Failed) => Some(
            (CallState::Finished, CallAction::ForwardError),
        ),
        _ => None,
    }
}

/// One step of the middleware: the state after `event` and what to do
/// next, or `None` where `event` cannot come in `state`.
pub fn call(state: CallState, event: CallEvent) -> (r: Option<(CallState, CallAction)>)
    ensures
        r == next_step(state, event),
{
    match state {
        CallState::Received => match event {
            CallEvent::Called => Some((CallState::Checking, CallAction::EnterSpan)),
            _ => None,
        },
        CallState::Checking => match event {
            CallEvent::Accepted => Some((CallState::Serving, CallAction::CallService)),
            CallEvent::Rejected => Some((CallState::Finished, CallAction::RespondWithError)),
            _ => None,
        },
        CallState::Serving => match event {
            CallEvent::Responded => Some((CallState::Finished, CallAction::PostResponse)),
            CallEvent::Failed => Some((CallState::Finished, CallAction::ForwardError)),
            _ => None,
        },
        CallState::Finished => None,
    }
}

/// The place of a state in the order in which states are passed.
pub open spec fn progress(state: CallState) -> int {
    match state {
        CallState::Received => 0,
        CallState::Checking => 1,
        CallState::Serving => 2,
        CallState::Finished => 3,
    }
}

/// The order of the steps. The inner service is called only after the
/// check before the request passed; the hook for responses runs only on
/// what the inner service returned; the span is entered once, at the start;
/// every step moves on, so that a request is done after at most three.
pub proof fn lemma_call_order(state: CallState, event: CallEvent)
    ensures
        next_step(state, event) matches Some((after, action)) ==> {
            &&& progress(after) > progress(state)
            &&& (action == CallAction::EnterSpan <==> state == CallState::Received)
            &&& (action == CallAction::CallService <==> state == CallState::Checking && event
                == CallEvent::Accepted)
            &&& (action == CallAction::RespondWithError <==> event == CallEvent::Rejected)
            &&& (action == CallAction::PostResponse <==> event == CallEvent::Responded)
            &&& (action == CallAction::ForwardError <==> event == CallEvent::Failed)
        },
        next_step(CallState::Finished, event) is None,
{
}

/// A span that was given the fields of a context holds that context,
/// whatever further keys the layer was configured with.
pub proof fn lemma_span_holds_context(keys: Seq<Seq<char>>, ctx: TraceView)
    requires
        default_keys().is_prefix_of(keys),
    ensures
        context_of(recorded_all(keys, Map::empty(), span_attrs(ctx))) == Some(ctx),
{
    reveal_strlit("trace_id");
    reveal_strlit("span_id");
    reveal_strlit("parent_span_id");
    let attrs = span_attrs(ctx);
    let empty = Map::<Seq<char>, Seq<char>>::empty();
    assert(keys[0] == default_keys()[0]);
    assert(keys[1] == default_keys()[1]);
    assert(keys[2] == default_keys()[2]);
    assert(keys.contains(TRACE_ID@));
    assert(keys.contains(SPAN_ID@));
    assert(keys.contains(PARENT_SPAN_ID@));
    assert(TRACE_ID@.len() == 8 && SPAN_ID@.len() == 7 && PARENT_SPAN_ID@.len() == 14);
    let one = attrs.drop_last().drop_last();
    let two = attrs.drop_last();
    assert(one.drop_last() =~= Seq::<(Seq<char>, Seq<char>)>::empty());
    assert(recorded_all(keys, empty, one.drop_last()) == empty);
    let first = recorded_all(keys, empty, one);
    assert(first == recorded(keys, empty, TRACE_ID@, ctx.trace_id));
    let second = recorded_all(keys, empty, two);
    assert(second == recorded(keys, first, SPAN_ID@, ctx.span_id));
    let third = recorded_all(keys, empty, attrs);
    assert(third == recorded(keys, second, PARENT_SPAN_ID@, ctx.parent_span_id));
    assert(field_text(third, PARENT_SPAN_ID@) == ctx.parent_span_id);
}

} // verus!
