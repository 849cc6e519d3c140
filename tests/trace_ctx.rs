use compactor::{
    parse_hex, ContextErrorKind, DecodeError, Headers, IntErrorKind, JaegerCtx, SpanId,
    TraceHeaderParser,
};

const B3_FLAGS: &str = "X-B3-Flags";
const B3_SAMPLED_HEADER: &str = "X-B3-Sampled";
const B3_TRACE_ID_HEADER: &str = "X-B3-TraceId";
const B3_PARENT_SPAN_ID_HEADER: &str = "X-B3-ParentSpanId";
const B3_SPAN_ID_HEADER: &str = "X-B3-SpanId";
const DEFAULT_JAEGER_TRACE_HEADER: &str = "uber-trace-id";

fn chars(s: &str) -> Vec<char> {
    s.chars().collect()
}

#[test]
fn test_decode_b3() {
    let parser = TraceHeaderParser::new();

    let mut headers = Headers::new();

    // No headers should be None
    assert!(parser.parse(&headers).unwrap().is_none());

    headers.insert(B3_TRACE_ID_HEADER, "ee25f");
    headers.insert(B3_SAMPLED_HEADER, "0");

    // Not sampled
    assert!(parser.parse(&headers).unwrap().is_none());

    headers.insert(B3_SAMPLED_HEADER, "1");

    // Missing required headers
    assert_eq!(
        parser.parse(&headers).unwrap_err().to_string(),
        "header 'X-B3-SpanId' not found"
    );

    headers.insert(B3_SPAN_ID_HEADER, "34e");

    let span = parser.parse(&headers).unwrap().unwrap();

    assert_eq!(span.span_id.get(), 0x34e);
    assert_eq!(span.trace_id.get(), 0xee25f);
    assert!(span.parent_span_id.is_none());

    headers.insert(B3_PARENT_SPAN_ID_HEADER, "4595945");

    let span = parser.parse(&headers).unwrap().unwrap();

    assert_eq!(span.span_id.get(), 0x34e);
    assert_eq!(span.trace_id.get(), 0xee25f);
    assert_eq!(span.parent_span_id.unwrap().get(), 0x4595945);

    headers.insert(B3_SPAN_ID_HEADER, "not a number");

    assert_eq!(
        parser.parse(&headers).unwrap_err().to_string(),
        "error decoding header 'X-B3-SpanId': value decode error: invalid digit found in string"
    );

    headers.insert(B3_SPAN_ID_HEADER, "0");

    assert_eq!(
        parser.parse(&headers).unwrap_err().to_string(),
        "error decoding header 'X-B3-SpanId': value cannot be 0"
    );
}

#[test]
fn test_decode_jaeger() {
    let parser = TraceHeaderParser::new();
    let mut headers = Headers::new();

    // Invalid format
    headers.insert(DEFAULT_JAEGER_TRACE_HEADER, "invalid");
    assert_eq!(
        parser.parse(&headers).unwrap_err().to_string(),
        "error decoding header 'uber-trace-id': Expected \"trace-id:span-id:parent-span-id:flags\""
    );

    // Not sampled
    headers.insert(DEFAULT_JAEGER_TRACE_HEADER, "343:4325345:0:0");
    assert!(parser.parse(&headers).unwrap().is_none());

    // Sampled
    headers.insert(DEFAULT_JAEGER_TRACE_HEADER, "3a43:432e345:0:1");
    let span = parser.parse(&headers).unwrap().unwrap();

    assert_eq!(span.trace_id.get(), 0x3a43);
    assert_eq!(span.span_id.get(), 0x432e345);
    assert!(span.parent_span_id.is_none());

    // Parent span
    headers.insert(DEFAULT_JAEGER_TRACE_HEADER, "343:4325345:3434:F");
    let span = parser.parse(&headers).unwrap().unwrap();

    assert_eq!(span.trace_id.get(), 0x343);
    assert_eq!(span.span_id.get(), 0x4325345);
    assert_eq!(span.parent_span_id.unwrap().get(), 0x3434);

    // Invalid trace id
    headers.insert(DEFAULT_JAEGER_TRACE_HEADER, "0:4325345:3434:1");
    assert_eq!(
        parser.parse(&headers).unwrap_err().to_string(),
        "error decoding header 'uber-trace-id': value cannot be 0"
    );

    headers.insert(
        DEFAULT_JAEGER_TRACE_HEADER,
        "008e813572f53b3a:008e813572f53b3a:0000000000000000:1",
    );

    let span = parser.parse(&headers).unwrap().unwrap();

    assert_eq!(span.trace_id.get(), 0x008e813572f53b3a);
    assert_eq!(span.span_id.get(), 0x008e813572f53b3a);
    assert!(span.parent_span_id.is_none());
}

#[test]
fn test_decode_jaeger_custom_header() {
    let parser = TraceHeaderParser::new().with_jaeger_header_name("my-awesome-header");

    let mut headers = Headers::new();

    let value = "1:2:3:1";

    // Default header is ignored
    headers.insert(DEFAULT_JAEGER_TRACE_HEADER, value);
    assert!(parser.parse(&headers).unwrap().is_none());

    // custom header is parsed
    let mut headers = Headers::new();
    headers.insert("my-awesome-header", value);
    let span = parser.parse(&headers).unwrap().unwrap();

    assert_eq!(span.trace_id.get(), 1);
    assert_eq!(span.span_id.get(), 2);
    assert_eq!(span.parent_span_id.unwrap().get(), 3);
}

#[test]
fn header_names_ignore_case() {
    let parser = TraceHeaderParser::new();
    let mut headers = Headers::new();
    headers.insert("UBER-TRACE-ID", "1:2:3:1");
    let span = parser.parse(&headers).unwrap().unwrap();
    assert_eq!(span.trace_id.get(), 1);
}

#[test]
fn b3_debug_flag_implies_sampled() {
    let parser = TraceHeaderParser::new();
    let mut headers = Headers::new();
    headers.insert(B3_TRACE_ID_HEADER, "a");
    headers.insert(B3_SPAN_ID_HEADER, "b");
    headers.insert(B3_SAMPLED_HEADER, "0");
    headers.insert(B3_FLAGS, "1");
    let span = parser.parse(&headers).unwrap().unwrap();
    assert_eq!(span.trace_id.get(), 0xa);
    assert_eq!(span.span_id.get(), 0xb);

    headers.insert(B3_FLAGS, "0");
    headers.insert(B3_SAMPLED_HEADER, "true");
    assert!(parser.parse(&headers).unwrap().is_some());
}

#[test]
fn non_text_header_is_an_error() {
    let parser = TraceHeaderParser::new();
    let mut headers = Headers::new();
    headers.insert(B3_TRACE_ID_HEADER, "a");
    headers.insert_non_text(B3_SAMPLED_HEADER);
    let err = parser.parse(&headers).unwrap_err();
    assert_eq!(err.kind, ContextErrorKind::InvalidUtf8);
    assert_eq!(
        err.to_string(),
        "header 'X-B3-Sampled' has non-UTF8 content: failed to convert header to a str"
    );
}

#[test]
fn jaeger_with_too_many_fields_is_invalid() {
    assert_eq!(
        JaegerCtx::from_chars(&chars("1:2:3:1:5")),
        Err(DecodeError::InvalidJaegerTrace)
    );
    assert_eq!(JaegerCtx::from_chars(&chars("1:2:3")), Err(DecodeError::InvalidJaegerTrace));
    assert_eq!(
        JaegerCtx::from_chars(&chars("1:2:3:1ff")),
        Err(DecodeError::ValueDecodeError { kind: IntErrorKind::PosOverflow })
    );
    let ctx = JaegerCtx::from_chars(&chars("1:2::1"));
    assert_eq!(ctx, Err(DecodeError::ValueDecodeError { kind: IntErrorKind::Empty }));
    let ctx = JaegerCtx::from_chars(&chars("+1f:2:0:1")).unwrap();
    assert_eq!(ctx.trace_id.get(), 0x1f);
    assert_eq!(ctx.parent_span_id, None::<SpanId>);
    assert_eq!(ctx.flags, 1);
}

#[test]
fn hex_parsing() {
    assert_eq!(parse_hex(&chars("ff"), 255), Ok(255));
    assert_eq!(parse_hex(&chars("FF"), 255), Ok(255));
    assert_eq!(parse_hex(&chars("100"), 255), Err(IntErrorKind::PosOverflow));
    assert_eq!(parse_hex(&chars("1ffz"), 255), Err(IntErrorKind::PosOverflow));
    assert_eq!(parse_hex(&chars("fz"), 255), Err(IntErrorKind::InvalidDigit));
    assert_eq!(parse_hex(&chars(""), 255), Err(IntErrorKind::Empty));
    assert_eq!(parse_hex(&chars("+"), 255), Err(IntErrorKind::InvalidDigit));
    assert_eq!(parse_hex(&chars("-1"), 255), Err(IntErrorKind::InvalidDigit));
    assert_eq!(parse_hex(&chars("+a"), 255), Ok(10));
    assert_eq!(
        parse_hex(&chars("ffffffffffffffffffffffffffffffff"), u128::MAX),
        Ok(u128::MAX)
    );
    assert_eq!(
        parse_hex(&chars("100000000000000000000000000000000"), u128::MAX),
        Err(IntErrorKind::PosOverflow)
    );
    assert_eq!(IntErrorKind::Empty.to_string(), "cannot parse integer from empty string");
}

#[test]
fn hex_parsing_small_bounds() {
    assert_eq!(parse_hex(&chars("0"), 0), Ok(0));
    assert_eq!(parse_hex(&chars("1"), 0), Err(IntErrorKind::PosOverflow));
    assert_eq!(parse_hex(&chars("5"), 5), Ok(5));
    assert_eq!(parse_hex(&chars("a"), 5), Err(IntErrorKind::PosOverflow));
    assert_eq!(parse_hex(&chars("g"), 5), Err(IntErrorKind::InvalidDigit));
}
