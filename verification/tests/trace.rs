use fall::hex::{parse_hex_u64, read_header_as_u64, u64_hex};
use fall::trace::{from_req, B3Headers, OpenTrace};

fn is_hex16(s: &str) -> bool {
    s.len() == 16 && s.chars().all(|c| matches!(c, '0'..='9' | 'a'..='f'))
}

fn hex_len_is_16(i: u64) -> bool {
    u64_hex(i).len() == 16
}

#[test]
fn test_rand() {
    let a = OpenTrace::default();
    let b = OpenTrace::default();
    assert_ne!(a.trace_id, b.trace_id);
}

#[test]
fn test_hex_len() {
    quickcheck::quickcheck(hex_len_is_16 as fn(u64) -> bool);
}

#[test]
fn hex_renders_sixteen_lowercase_digits() {
    assert_eq!(u64_hex(0), "0000000000000000");
    assert_eq!(u64_hex(1), "0000000000000001");
    assert_eq!(u64_hex(0xa1b2), "000000000000a1b2");
    assert_eq!(u64_hex(0xcd), "00000000000000cd");
    assert_eq!(u64_hex(0x0123_4567_89ab_cdef), "0123456789abcdef");
    assert_eq!(u64_hex(u64::MAX), "ffffffffffffffff");
    assert_eq!(u64_hex(1 << 63), "8000000000000000");
}

#[test]
fn hex_agrees_with_the_standard_formatter() {
    let mut i: u64 = 1;
    for _ in 0..200 {
        assert_eq!(u64_hex(i), format!("{:016x}", i));
        i = i.wrapping_mul(6364136223846793005).wrapping_add(1442695040888963407);
    }
}

#[test]
fn parse_accepts_one_to_sixteen_digits_of_either_case() {
    assert_eq!(parse_hex_u64("0"), Some(0));
    assert_eq!(parse_hex_u64("a1b2"), Some(0xa1b2));
    assert_eq!(parse_hex_u64("A1B2"), Some(0xa1b2));
    assert_eq!(parse_hex_u64("cd"), Some(0xcd));
    assert_eq!(parse_hex_u64("77"), Some(0x77));
    assert_eq!(parse_hex_u64("ffffffffffffffff"), Some(u64::MAX));
    assert_eq!(parse_hex_u64("0000000000000001"), Some(1));
}

#[test]
fn parse_rejects_what_is_no_identifier() {
    assert_eq!(parse_hex_u64(""), None);
    assert_eq!(parse_hex_u64("g"), None);
    assert_eq!(parse_hex_u64("12 "), None);
    assert_eq!(parse_hex_u64(" 12"), None);
    assert_eq!(parse_hex_u64("+12"), None);
    assert_eq!(parse_hex_u64("-12"), None);
    assert_eq!(parse_hex_u64("0x12"), None);
    assert_eq!(parse_hex_u64("1_2"), None);
    assert_eq!(parse_hex_u64("00000000000000001"), None);
    assert_eq!(parse_hex_u64("1ffffffffffffffff"), None);
    assert_eq!(parse_hex_u64("é"), None);
}

#[test]
fn parse_reads_back_what_hex_wrote() {
    let mut i: u64 = 7;
    for _ in 0..200 {
        assert_eq!(parse_hex_u64(&u64_hex(i)), Some(i));
        i = i.wrapping_mul(6364136223846793005).wrapping_add(1442695040888963407);
    }
    assert_eq!(parse_hex_u64(&u64_hex(0)), Some(0));
    assert_eq!(parse_hex_u64(&u64_hex(u64::MAX)), Some(u64::MAX));
}

#[test]
fn read_header_handles_a_missing_header() {
    assert_eq!(read_header_as_u64(None), None);
    assert_eq!(read_header_as_u64(Some("ff")), Some(255));
    assert_eq!(read_header_as_u64(Some("zz")), None);
}

#[test]
fn new_renders_every_id() {
    let ctx = OpenTrace::new(0xa1b2, 0xcd, Some(0x77));
    assert_eq!(ctx.trace_id, "000000000000a1b2");
    assert_eq!(ctx.span_id, "00000000000000cd");
    assert_eq!(ctx.parent_span_id, "0000000000000077");
    assert!(!ctx.is_root());
}

#[test]
fn new_without_parent_is_a_root() {
    let ctx = OpenTrace::new(1, 2, None);
    assert_eq!(ctx.trace_id, "0000000000000001");
    assert_eq!(ctx.span_id, "0000000000000002");
    assert_eq!(ctx.parent_span_id, "");
    assert!(ctx.is_root());
}

#[test]
fn a_parent_of_zero_is_not_absent() {
    let ctx = OpenTrace::new(1, 2, Some(0));
    assert_eq!(ctx.parent_span_id, "0000000000000000");
    assert!(!ctx.is_root());
}

#[test]
fn default_is_a_root_of_its_own_trace() {
    let ctx = OpenTrace::default();
    assert!(is_hex16(&ctx.trace_id));
    assert_eq!(ctx.trace_id, ctx.span_id);
    assert_eq!(ctx.parent_span_id, "");
}

#[test]
fn from_parent_keeps_trace_and_parent() {
    let ctx = OpenTrace::from_parent(0xabc, Some(5));
    assert_eq!(ctx.trace_id, "0000000000000abc");
    assert!(is_hex16(&ctx.span_id));
    assert_eq!(ctx.parent_span_id, "0000000000000005");
    let root = OpenTrace::from_parent(0xabc, None);
    assert_eq!(root.parent_span_id, "");
}

#[test]
fn from_parent_draws_a_new_span_each_time() {
    let a = OpenTrace::from_parent(1, None);
    let b = OpenTrace::from_parent(1, None);
    assert_ne!(a.span_id, b.span_id);
}

#[test]
fn chained_request() {
    let headers = B3Headers {
        trace_id: Some("a1b2".to_string()),
        span_id: Some("cd".to_string()),
        parent_span_id: Some("77".to_string()),
    };
    let ctx = from_req(&headers);
    assert_eq!(ctx.trace_id, "000000000000a1b2");
    assert_eq!(ctx.span_id, "00000000000000cd");
    assert_eq!(ctx.parent_span_id, "0000000000000077");
}

#[test]
fn request_without_headers_starts_a_trace() {
    let ctx = from_req(&B3Headers::none());
    assert!(is_hex16(&ctx.trace_id));
    assert_eq!(ctx.span_id, ctx.trace_id);
    assert_eq!(ctx.parent_span_id, "");
}

#[test]
fn missing_span_id_falls_back_to_the_trace_id() {
    let headers = B3Headers {
        trace_id: Some("10".to_string()),
        span_id: None,
        parent_span_id: Some("zz".to_string()),
    };
    let ctx = from_req(&headers);
    assert_eq!(ctx.trace_id, "0000000000000010");
    assert_eq!(ctx.span_id, "0000000000000010");
    assert_eq!(ctx.parent_span_id, "");
}

#[test]
fn malformed_trace_id_is_replaced() {
    let headers = B3Headers {
        trace_id: Some("not hex".to_string()),
        span_id: Some("5".to_string()),
        parent_span_id: None,
    };
    let ctx = from_req(&headers);
    assert!(is_hex16(&ctx.trace_id));
    assert_eq!(ctx.span_id, "0000000000000005");
    assert_eq!(ctx.parent_span_id, "");
}

#[test]
fn decode_uses_the_fallback_only_without_a_trace_id() {
    let with = B3Headers { trace_id: Some("1".to_string()), span_id: None, parent_span_id: None };
    assert_eq!(with.decode(9).trace_id, "0000000000000001");
    assert_eq!(with.decode(9).span_id, "0000000000000001");
    let without = B3Headers::none();
    assert_eq!(without.decode(9).trace_id, "0000000000000009");
    assert_eq!(without.decode(9).span_id, "0000000000000009");
    assert_eq!(without.trace_id_value(), None);
    assert_eq!(with.trace_id_value(), Some(1));
}

#[test]
fn encode_omits_the_parent_of_a_root() {
    let headers = B3Headers::encode(&OpenTrace::new(1, 2, None));
    assert_eq!(headers.trace_id.as_deref(), Some("0000000000000001"));
    assert_eq!(headers.span_id.as_deref(), Some("0000000000000002"));
    assert_eq!(headers.parent_span_id, None);
}

#[test]
fn encode_sends_the_parent_of_a_child() {
    let headers = B3Headers::encode(&OpenTrace::new(1, 2, Some(3)));
    assert_eq!(headers.parent_span_id.as_deref(), Some("0000000000000003"));
}

#[test]
fn round_trip_with_and_without_parent() {
    for parent in [None, Some(0u64), Some(0x77), Some(u64::MAX)] {
        let ctx = OpenTrace::new(0xa1b2, 0xcd, parent);
        let back = B3Headers::encode(&ctx).decode(42);
        assert_eq!(back.trace_id, ctx.trace_id);
        assert_eq!(back.span_id, ctx.span_id);
        assert_eq!(back.parent_span_id, ctx.parent_span_id);
        let again = from_req(&B3Headers::encode(&ctx));
        assert_eq!(again.trace_id, ctx.trace_id);
        assert_eq!(again.span_id, ctx.span_id);
        assert_eq!(again.parent_span_id, ctx.parent_span_id);
    }
}

#[test]
fn header_names() {
    assert_eq!(fall::trace::TRACE_ID_HEADER, "X-B3-TraceId");
    assert_eq!(fall::trace::SPAN_ID_HEADER, "X-B3-SpanId");
    assert_eq!(fall::trace::PARENT_SPAN_ID_HEADER, "X-B3-ParentSpanId");
}
