use fall::client::{set_trace, trace_headers_with};
use fall::error::{ErrorContent, ErrorKind, FallError};
use fall::fields::ExtendedLog;
use fall::log::{FallLog, Level};
use fall::trace::{B3Headers, OpenTrace};
use fall::web::{call, CallAction, CallEvent, CallState, DefaultRequestHandler, SPAN_NAME};

fn is_hex16(s: &str) -> bool {
    s.len() == 16 && s.chars().all(|c| matches!(c, '0'..='9' | 'a'..='f'))
}

#[test]
fn default_handler_opens_a_web_span_at_info() {
    let start = DefaultRequestHandler.new_span(&B3Headers {
        trace_id: Some("a1b2".to_string()),
        span_id: Some("cd".to_string()),
        parent_span_id: Some("77".to_string()),
    });
    assert_eq!(start.name, "web");
    assert_eq!(SPAN_NAME, "web");
    assert_eq!(start.level, Level::INFO);
    assert_eq!(start.context.trace_id, "000000000000a1b2");
    assert_eq!(start.context.span_id, "00000000000000cd");
    assert_eq!(start.context.parent_span_id, "0000000000000077");
}

#[test]
fn default_handler_falls_back_without_headers() {
    let start = DefaultRequestHandler.new_span(&B3Headers::none());
    assert!(is_hex16(&start.context.trace_id));
    assert_eq!(start.context.span_id, start.context.trace_id);
    assert_eq!(start.context.parent_span_id, "");
}

#[test]
fn the_fields_of_a_context() {
    let attrs = OpenTrace::new(1, 2, Some(3)).attrs();
    assert_eq!(
        attrs,
        vec![
            ("trace_id".to_string(), "0000000000000001".to_string()),
            ("span_id".to_string(), "0000000000000002".to_string()),
            ("parent_span_id".to_string(), "0000000000000003".to_string()),
        ]
    );
    let root = OpenTrace::new(1, 2, None).attrs();
    assert_eq!(root[2], ("parent_span_id".to_string(), String::new()));
}

#[test]
fn default_handler_lets_every_request_pass() {
    assert!(DefaultRequestHandler.pre_request().is_ok());
}

#[test]
fn post_response_rewrites_only_a_404() {
    for status in [100u16, 200, 204, 301, 400, 403, 405, 418, 500, 999] {
        assert!(DefaultRequestHandler.post_response(status).is_none());
    }
    let e = DefaultRequestHandler.post_response(404).unwrap();
    assert_eq!(e.status_code(), 404);
    assert_eq!(e.to_string(), "404 Not Found");
    let response = e.error_response(Some("00000000000000aa".to_string()));
    assert_eq!(response.status, 404);
    match response.content {
        ErrorContent::Json(body) => {
            assert_eq!(body.trace_id, Some("00000000000000aa".to_string()));
            assert_eq!(body.status, 404);
            assert_eq!(body.message, "404 Not Found");
        }
        ErrorContent::Raw(_) => panic!("a 404 is reported as JSON"),
    }
}

#[test]
fn a_request_that_passes_the_check_reaches_the_service() {
    assert_eq!(
        call(CallState::Received, CallEvent::Called),
        Some((CallState::Checking, CallAction::EnterSpan))
    );
    assert_eq!(
        call(CallState::Checking, CallEvent::Accepted),
        Some((CallState::Serving, CallAction::CallService))
    );
    assert_eq!(
        call(CallState::Serving, CallEvent::Responded),
        Some((CallState::Finished, CallAction::PostResponse))
    );
}

#[test]
fn an_error_of_the_service_bypasses_the_response_hook() {
    assert_eq!(
        call(CallState::Serving, CallEvent::Failed),
        Some((CallState::Finished, CallAction::ForwardError))
    );
}

#[test]
fn pre_request_rejection() {
    let log = FallLog::new("svc".to_string(), ());
    let start = DefaultRequestHandler.new_span(&B3Headers::none());
    let span = log.new_span(&start.context.attrs());

    let mut state = CallState::Received;
    let mut actions = Vec::new();
    for event in [CallEvent::Called, CallEvent::Rejected] {
        let (next, action) = call(state, event).unwrap();
        state = next;
        actions.push(action);
    }
    assert_eq!(actions, vec![CallAction::EnterSpan, CallAction::RespondWithError]);
    assert_eq!(state, CallState::Finished);
    assert!(!actions.contains(&CallAction::CallService));
    for event in
        [CallEvent::Called, CallEvent::Accepted, CallEvent::Rejected, CallEvent::Responded, CallEvent::Failed]
    {
        assert_eq!(call(state, event), None);
    }

    let mut out = String::new();
    log.format_event(
        &mut out,
        "2018-01-26T18:30:09.453Z",
        Level::INFO,
        Some(&span),
        Some("handler"),
        &vec![("message".to_string(), "pre_request denied".to_string())],
    );
    assert!(out.starts_with("2018-01-26T18:30:09.453Z INFO [svc,"));
    assert!(out.ends_with("] handler: pre_request denied\n"));

    let rejection = FallError::new(418, "pre_request denied");
    let response = rejection.error_response(fall::fields::current_trace_id(Some(&span)));
    assert_eq!(response.status, 418);
    match response.content {
        ErrorContent::Json(body) => {
            assert_eq!(body.status, 418);
            assert_eq!(body.message, "pre_request denied");
            assert_eq!(body.trace_id, Some(start.context.trace_id.clone()));
        }
        ErrorContent::Raw(_) => panic!("a rejection is reported as JSON"),
    }
}

#[test]
fn events_out_of_turn_are_refused() {
    let states = [CallState::Received, CallState::Checking, CallState::Serving, CallState::Finished];
    let events = [
        CallEvent::Called,
        CallEvent::Accepted,
        CallEvent::Rejected,
        CallEvent::Responded,
        CallEvent::Failed,
    ];
    let mut accepted = 0;
    for s in states {
        for e in events {
            if let Some((next, action)) = call(s, e) {
                accepted += 1;
                assert_ne!(next, s);
                if action == CallAction::CallService {
                    assert_eq!((s, e), (CallState::Checking, CallEvent::Accepted));
                }
                if action == CallAction::PostResponse {
                    assert_eq!((s, e), (CallState::Serving, CallEvent::Responded));
                }
            }
        }
    }
    assert_eq!(accepted, 5);
}

#[test]
fn outbound_propagation() {
    let mut span = ExtendedLog::default();
    span.record_all(&OpenTrace::new(0xa1, 0xb2, Some(0xc3)).attrs());
    let headers = set_trace(Some(&span)).unwrap();
    assert_eq!(headers.trace_id.as_deref(), Some("00000000000000a1"));
    assert_eq!(headers.parent_span_id.as_deref(), Some("00000000000000b2"));
    let span_id = headers.span_id.unwrap();
    assert!(is_hex16(&span_id));
    assert_ne!(span_id, "00000000000000b2");
}

#[test]
fn outbound_headers_with_a_given_span_id() {
    let mut span = ExtendedLog::default();
    span.record_all(&OpenTrace::new(0xa1, 0xb2, None).attrs());
    let headers = trace_headers_with(Some(&span), 7).unwrap();
    assert_eq!(headers.trace_id.as_deref(), Some("00000000000000a1"));
    assert_eq!(headers.span_id.as_deref(), Some("0000000000000007"));
    assert_eq!(headers.parent_span_id.as_deref(), Some("00000000000000b2"));
}

#[test]
fn a_call_outside_any_span_goes_out_untraced() {
    assert!(set_trace(None).is_none());
    assert!(trace_headers_with(None, 1).is_none());
    let empty = ExtendedLog::default();
    assert!(set_trace(Some(&empty)).is_none());
}

#[test]
fn a_span_with_an_empty_span_id_sends_no_parent() {
    let mut span = ExtendedLog::default();
    span.record_debug("trace_id", "t".to_string());
    span.record_debug("span_id", String::new());
    let headers = trace_headers_with(Some(&span), 1).unwrap();
    assert_eq!(headers.trace_id.as_deref(), Some("t"));
    assert_eq!(headers.parent_span_id, None);
}

#[test]
fn errors_and_their_status() {
    assert_eq!(FallError::bad_request("bad").status_code(), 400);
    assert_eq!(FallError::unauthorized("who").status_code(), 401);
    assert_eq!(FallError::new(503, "later").status_code(), 503);
    assert_eq!(FallError::remote_err(502, "{}".to_string()).status_code(), 502);
    assert_eq!(FallError::io_error(ErrorKind::InvalidData, "disk".to_string()).status_code(), 500);
}

#[test]
fn errors_and_their_text() {
    assert_eq!(FallError::bad_request("bad").to_string(), "bad");
    assert_eq!(FallError::unauthorized("").to_string(), "");
    assert_eq!(FallError::remote_err(502, "{\"a\":1}".to_string()).to_string(), "{\"a\":1}");
    assert_eq!(FallError::io_error(ErrorKind::Other, "disk".to_string()).to_string(), "disk");
    assert_eq!(FallError::HTTP_ERROR(404, None).to_string(), "404 Not Found");
    assert_eq!(FallError::HTTP_ERROR(500, None).to_string(), "500 Internal Server Error");
    assert_eq!(FallError::HTTP_ERROR(200, None).to_string(), "200 OK");
    assert_eq!(FallError::HTTP_ERROR(999, None).to_string(), "999 <unknown status code>");
}

#[test]
fn errors_and_their_kind() {
    assert_eq!(FallError::bad_request("bad").io_kind(), ErrorKind::InvalidInput);
    assert_eq!(FallError::remote_err(500, String::new()).io_kind(), ErrorKind::InvalidData);
    assert_eq!(
        FallError::io_error(ErrorKind::Other, String::new()).io_kind(),
        ErrorKind::Other
    );
}

#[test]
fn a_remote_error_is_passed_on_as_it_came() {
    let response = FallError::remote_err(409, "{\"x\":1}".to_string()).error_response(None);
    assert_eq!(response.status, 409);
    match response.content {
        ErrorContent::Raw(body) => assert_eq!(body, "{\"x\":1}"),
        ErrorContent::Json(_) => panic!("a remote error keeps its body"),
    }
}

#[test]
fn an_io_error_is_reported_as_500() {
    let response =
        FallError::io_error(ErrorKind::InvalidInput, "no route".to_string()).error_response(None);
    assert_eq!(response.status, 500);
    match response.content {
        ErrorContent::Json(body) => {
            assert_eq!(body.trace_id, None);
            assert_eq!(body.status, 500);
            assert_eq!(body.message, "no route");
        }
        ErrorContent::Raw(_) => panic!("an io error is reported as JSON"),
    }
}
