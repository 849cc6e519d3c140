use itertools::Itertools;
use vstd::prelude::*;
use vstd::string::*;

use crate::headers::{str_chars, Headers};
use crate::hex::{int_error_message, parse_hex, parse_hex_spec, IntErrorKind};

verus! {

/// Identifier of a trace; never zero.
#[derive(Clone, Copy, Debug, PartialEq, Eq, Structural)]
pub struct TraceId {
    pub id: u128,
}

impl TraceId {
    pub fn get(&self) -> (r: u128)
        ensures
            r == self.id,
    {
        self.id
    }
}

/// Identifier of a span; never zero.
#[derive(Clone, Copy, Debug, PartialEq, Eq, Structural)]
pub struct SpanId {
    pub id: u64,
}

impl SpanId {
    pub fn get(&self) -> (r: u64)
        ensures
            r == self.id,
    {
        self.id
    }
}

/// The tracing context a request carries.
#[derive(Clone, Copy, Debug, PartialEq, Eq, Structural)]
pub struct SpanContext {
    pub trace_id: TraceId,
    pub parent_span_id: Option<SpanId>,
    pub span_id: SpanId,
}

/// Error decoding a specific header value.
#[derive(Clone, Copy, Debug, PartialEq, Eq, Structural)]
pub enum DecodeError {
    /// The value is not a hexadecimal number of the right size.
    ValueDecodeError { kind: IntErrorKind },
    /// A Jaeger value is not four fields separated by colons.
    InvalidJaegerTrace,
    /// An identifier is zero.
    ZeroError,
}

pub open spec fn decode_error_message(e: DecodeError) -> Seq<char> {
    match e {
        DecodeError::ValueDecodeError { kind } => "value decode error: "@ + int_error_message(kind),
        DecodeError::InvalidJaegerTrace => "Expected \"trace-id:span-id:parent-span-id:flags\""@,
        DecodeError::ZeroError => "value cannot be 0"@,
    }
}

impl DecodeError {
    pub fn to_string(&self) -> (r: String)
        ensures
            r@ == decode_error_message(*self),
    {
        match self {
            DecodeError::ValueDecodeError { kind } => {
                let mut r = String::from_str("value decode error: ");
                let m = kind.to_string();
                r.append(m.as_str());
                r
            },
            DecodeError::InvalidJaegerTrace => String::from_str(
                "Expected \"trace-id:span-id:parent-span-id:flags\"",
            ),
            DecodeError::ZeroError => String::from_str("value cannot be 0"),
        }
    }
}

/// What went wrong with a header.
#[derive(Clone, Copy, Debug, PartialEq, Eq, Structural)]
pub enum ContextErrorKind {
    /// A required header is absent.
    Missing,
    /// The header's value is not visible ASCII text.
    InvalidUtf8,
    /// The header's value does not decode.
    HeaderDecodeError(DecodeError),
}

/// Error decoding a span context from request headers.
#[derive(Clone, Debug)]
pub struct ContextError {
    pub header: String,
    pub kind: ContextErrorKind,
}

impl View for ContextError {
    type V = (ContextErrorKind, Seq<char>);

    open spec fn view(&self) -> (ContextErrorKind, Seq<char>) {
        (self.kind, self.header@)
    }
}

pub open spec fn context_error_message(kind: ContextErrorKind, header: Seq<char>) -> Seq<char> {
    match kind {
        ContextErrorKind::Missing => "header '"@ + header + "' not found"@,
        ContextErrorKind::InvalidUtf8 => "header '"@ + header
            + "' has non-UTF8 content: failed to convert header to a str"@,
        ContextErrorKind::HeaderDecodeError(e) => "error decoding header '"@ + header + "': "@
            + decode_error_message(e),
    }
}

impl ContextError {
    fn new(header: &str, kind: ContextErrorKind) -> (r: ContextError)
        ensures
            r@ == (kind, header@),
    {
        ContextError { header: String::from_str(header), kind }
    }

    pub fn to_string(&self) -> (r: String)
        ensures
            r@ == context_error_message(self.kind, self.header@),
    {
        match self.kind {
            ContextErrorKind::Missing => {
                let mut r = String::from_str("header '");
                r.append(self.header.as_str());
                r.append("' not found");
                r
            },
            ContextErrorKind::InvalidUtf8 => {
                let mut r = String::from_str("header '");
                r.append(self.header.as_str());
                r.append("' has non-UTF8 content: failed to convert header to a str");
                r
            },
            ContextErrorKind::HeaderDecodeError(e) => {
                let mut r = String::from_str("error decoding header '");
                r.append(self.header.as_str());
                r.append("': ");
                let m = e.to_string();
                r.append(m.as_str());
                r
            },
        }
    }
}

/// A failure as plain values: its kind and the header it concerns.
pub type ContextFault = (ContextErrorKind, Seq<char>);

pub open spec fn result_view<T>(r: Result<T, ContextError>) -> Result<T, ContextFault> {
    match r {
        Ok(x) => Ok(x),
        Err(e) => Err(e@),
    }
}

/// A trace identifier written in hexadecimal.
pub open spec fn trace_id_of(s: Seq<char>) -> Result<TraceId, DecodeError> {
    match parse_hex_spec(s, u128::MAX as nat) {
        Err(kind) => Err(DecodeError::ValueDecodeError { kind }),
        Ok(v) => if v == 0 {
            Err(DecodeError::ZeroError)
        } else {
            Ok(TraceId { id: v as u128 })
        },
    }
}

/// A span identifier written in hexadecimal.
pub open spec fn span_id_of(s: Seq<char>) -> Result<SpanId, DecodeError> {
    match parse_hex_spec(s, u64::MAX as nat) {
        Err(kind) => Err(DecodeError::ValueDecodeError { kind }),
        Ok(v) => if v == 0 {
            Err(DecodeError::ZeroError)
        } else {
            Ok(SpanId { id: v as u64 })
        },
    }
}

/// Flags written in hexadecimal.
pub open spec fn flags_of(s: Seq<char>) -> Result<u8, DecodeError> {
    match parse_hex_spec(s, u8::MAX as nat) {
        Err(kind) => Err(DecodeError::ValueDecodeError { kind }),
        Ok(v) => Ok(v as u8),
    }
}

fn parse_trace(s: &Vec<char>) -> (r: Result<TraceId, DecodeError>)
    ensures
        r == trace_id_of(s@),
{
    match parse_hex(s, u128::MAX) {
        Err(kind) => Err(DecodeError::ValueDecodeError { kind }),
        Ok(v) => if v == 0 {
            Err(DecodeError::ZeroError)
        } else {
            Ok(TraceId { id: v })
        },
    }
}

fn parse_span(s: &Vec<char>) -> (r: Result<SpanId, DecodeError>)
    ensures
        r == span_id_of(s@),
{
    match parse_hex(s, u64::MAX as u128) {
        Err(kind) => Err(DecodeError::ValueDecodeError { kind }),
        Ok(v) => if v == 0 {
            Err(DecodeError::ZeroError)
        } else {
            Ok(SpanId { id: v as u64 })
        },
    }
}

fn parse_flags(s: &Vec<char>) -> (r: Result<u8, DecodeError>)
    ensures
        r == flags_of(s@),
{
    match parse_hex(s, u8::MAX as u128) {
        Err(kind) => Err(DecodeError::ValueDecodeError { kind }),
        Ok(v) => Ok(v as u8),
    }
}

/// The pieces of `v` between colons, in order; there is always one more
/// piece than there are colons.
pub open spec fn split_colon(v: Seq<char>) -> Seq<Seq<char>>
    decreases v.len(),
{
    if v.len() == 0 {
        seq![Seq::empty()]
    } else {
        let p = split_colon(v.drop_last());
        if v.last() == ':' {
            p.push(Seq::empty())
        } else {
            p.update(p.len() - 1, p.last().push(v.last()))
        }
    }
}

proof fn lemma_split_colon_nonempty(v: Seq<char>)
    ensures
        split_colon(v).len() >= 1,
    decreases v.len(),
{
    if v.len() > 0 {
        lemma_split_colon_nonempty(v.drop_last());
    }
}

pub open spec fn pieces_view(p: Seq<Vec<char>>) -> Seq<Seq<char>> {
    p.map_values(|x: Vec<char>| x@)
}

/// The pieces of `v` between colons.
fn split_on_colon(v: &Vec<char>) -> (r: Vec<Vec<char>>)
    ensures
        pieces_view(r@) == split_colon(v@),
{
    let mut done: Vec<Vec<char>> = Vec::new();
    let mut cur: Vec<char> = Vec::new();
    let mut i: usize = 0;
    while i < v.len()
        invariant
            i <= v.len(),
            pieces_view(done@).push(cur@) == split_colon(v@.take(i as int)),
        decreases v.len() - i,
    {
        let c = v[i];
        let ghost before = v@.take(i as int);
        assert(v@.take(i + 1).drop_last() == before);
        assert(v@.take(i + 1).last() == c);
        proof {
            lemma_split_colon_nonempty(before);
        }
        if c == ':' {
            let piece = cur;
            done.push(piece);
            cur = Vec::new();
            assert(pieces_view(done@) == pieces_view(done@.drop_last()).push(piece@));
            assert(pieces_view(done@).push(cur@) == split_colon(v@.take(i + 1)));
        } else {
            cur.push(c);
            assert(pieces_view(done@).push(cur@) =~= split_colon(v@.take(i + 1)));
        }
        i += 1;
    }
    assert(v@.take(v.len() as int) == v@);
    let ghost last = cur@;
    done.push(cur);
    assert(pieces_view(done@) =~= pieces_view(done@.drop_last()).push(last));
    done
}

/// Relies on itertools' `Itertools::collect_tuple`: `Some` with the items in
/// order when the iterator yields exactly four of them, `None` otherwise.
#[verifier::external_body]
fn four_pieces(pieces: Vec<Vec<char>>) -> (r: Option<(Vec<char>, Vec<char>, Vec<char>, Vec<char>)>)
    ensures
        r is Some <==> pieces@.len() == 4,
        r matches Some(t) ==> t.0 == pieces@[0] && t.1 == pieces@[1] && t.2 == pieces@[2] && t.3
            == pieces@[3],
{
    pieces.into_iter().collect_tuple()
}

/// The fields of a Jaeger `trace-id:span-id:parent-span-id:flags` value.
#[derive(Clone, Copy, Debug, PartialEq, Eq, Structural)]
pub struct JaegerCtx {
    pub trace_id: TraceId,
    pub span_id: SpanId,
    pub parent_span_id: Option<SpanId>,
    pub flags: u8,
}

/// Decodes a Jaeger value; a parent span of zero means there is none.
pub open spec fn jaeger_ctx_of(v: Seq<char>) -> Result<JaegerCtx, DecodeError> {
    let p = split_colon(v);
    if p.len() != 4 {
        Err(DecodeError::InvalidJaegerTrace)
    } else {
        match trace_id_of(p[0]) {
            Err(e) => Err(e),
            Ok(trace_id) => match span_id_of(p[1]) {
                Err(e) => Err(e),
                Ok(span_id) => match span_id_of(p[2]) {
                    Err(e) if e != DecodeError::ZeroError => Err(e),
                    parent => match flags_of(p[3]) {
                        Err(e) => Err(e),
                        Ok(flags) => Ok(
                            JaegerCtx {
                                trace_id,
                                span_id,
                                parent_span_id: match parent {
                                    Ok(s) => Some(s),
                                    Err(_) => None,
                                },
                                flags,
                            },
                        ),
                    },
                },
            },
        }
    }
}

impl JaegerCtx {
    pub fn from_chars(s: &Vec<char>) -> (r: Result<JaegerCtx, DecodeError>)
        ensures
            r == jaeger_ctx_of(s@),
    {
        let pieces = split_on_colon(s);
        let ghost pv = pieces_view(pieces@);
        let (trace_id, span_id, parent_span_id, flags) = match four_pieces(pieces) {
            None => {
                return Err(DecodeError::InvalidJaegerTrace);
            },
            Some(t) => t,
        };
        assert(trace_id@ == pv[0] && span_id@ == pv[1] && parent_span_id@ == pv[2] && flags@
            == pv[3]);
        let trace_id = match parse_trace(&trace_id) {
            Ok(t) => t,
            Err(e) => {
                return Err(e);
            },
        };
        let span_id = match parse_span(&span_id) {
            Ok(s) => s,
            Err(e) => {
                return Err(e);
            },
        };
        let parent_span_id = match parse_span(&parent_span_id) {
            Ok(s) => Some(s),
            Err(DecodeError::ZeroError) => None,
            Err(e) => {
                return Err(e);
            },
        };
        let flags = match parse_flags(&flags) {
            Ok(f) => f,
            Err(e) => {
                return Err(e);
            },
        };
        Ok(JaegerCtx { trace_id, span_id, parent_span_id, flags })
    }
}

/// The text under `name`: absent, text, or a failure where it is not text.
pub open spec fn header_text(h: Headers, name: Seq<char>) -> Result<Option<Seq<char>>, ContextFault> {
    match h.lookup(name) {
        None => Ok(None),
        Some(None) => Err((ContextErrorKind::InvalidUtf8, name)),
        Some(Some(v)) => Ok(Some(v)),
    }
}

/// The text under `name`, which must be present.
pub open spec fn required_text(h: Headers, name: Seq<char>) -> Result<Seq<char>, ContextFault> {
    match header_text(h, name) {
        Err(f) => Err(f),
        Ok(None) => Err((ContextErrorKind::Missing, name)),
        Ok(Some(v)) => Ok(v),
    }
}

/// The span identifier under `name`, if the header is present.
pub open spec fn parsed_span_spec(h: Headers, name: Seq<char>) -> Result<Option<SpanId>, ContextFault> {
    match header_text(h, name) {
        Err(f) => Err(f),
        Ok(None) => Ok(None),
        Ok(Some(v)) => match span_id_of(v) {
            Ok(s) => Ok(Some(s)),
            Err(e) => Err((ContextErrorKind::HeaderDecodeError(e), name)),
        },
    }
}

/// The span identifier under `name`, which must be present.
pub open spec fn required_span_spec(h: Headers, name: Seq<char>) -> Result<SpanId, ContextFault> {
    match parsed_span_spec(h, name) {
        Err(f) => Err(f),
        Ok(None) => Err((ContextErrorKind::Missing, name)),
        Ok(Some(s)) => Ok(s),
    }
}

/// The trace identifier under `name`, which must be present.
pub open spec fn required_trace_spec(h: Headers, name: Seq<char>) -> Result<TraceId, ContextFault> {
    match required_text(h, name) {
        Err(f) => Err(f),
        Ok(v) => match trace_id_of(v) {
            Ok(t) => Ok(t),
            Err(e) => Err((ContextErrorKind::HeaderDecodeError(e), name)),
        },
    }
}

/// Whether the B3 headers ask for the request to be traced: a debug flag of
/// `1`, or a sampled header of `1` or `true`.
pub open spec fn b3_sampled(h: Headers) -> Result<bool, ContextFault> {
    match header_text(h, "X-B3-Flags"@) {
        Err(f) => Err(f),
        Ok(flags) => if flags == Some("1"@) {
            Ok(true)
        } else {
            match header_text(h, "X-B3-Sampled"@) {
                Err(f) => Err(f),
                Ok(v) => Ok(v == Some("1"@) || v == Some("true"@)),
            }
        },
    }
}

/// Decodes the B3 multi-header format.
pub open spec fn decode_b3_spec(h: Headers) -> Result<Option<SpanContext>, ContextFault> {
    match b3_sampled(h) {
        Err(f) => Err(f),
        Ok(false) => Ok(None),
        Ok(true) => match required_trace_spec(h, "X-B3-TraceId"@) {
            Err(f) => Err(f),
            Ok(trace_id) => match parsed_span_spec(h, "X-B3-ParentSpanId"@) {
                Err(f) => Err(f),
                Ok(parent_span_id) => match required_span_spec(h, "X-B3-SpanId"@) {
                    Err(f) => Err(f),
                    Ok(span_id) => Ok(Some(SpanContext { trace_id, parent_span_id, span_id })),
                },
            },
        },
    }
}

/// Decodes the Jaeger header `name`; a context whose sampled flag is clear is
/// no context.
pub open spec fn decode_jaeger_spec(h: Headers, name: Seq<char>) -> Result<
    Option<SpanContext>,
    ContextFault,
> {
    match required_text(h, name) {
        Err(f) => Err(f),
        Ok(v) => match jaeger_ctx_of(v) {
            Err(e) => Err((ContextErrorKind::HeaderDecodeError(e), name)),
            Ok(c) => if c.flags % 2 == 0 {
                Ok(None)
            } else {
                Ok(
                    Some(
                        SpanContext {
                            trace_id: c.trace_id,
                            parent_span_id: c.parent_span_id,
                            span_id: c.span_id,
                        },
                    ),
                )
            },
        },
    }
}

/// The span context of a request: from the Jaeger header `jaeger` where it is
/// present, else from the B3 headers where a B3 trace identifier is present,
/// else none.
pub open spec fn parse_spec(h: Headers, jaeger: Seq<char>) -> Result<Option<SpanContext>, ContextFault> {
    if h.lookup(jaeger) is Some {
        decode_jaeger_spec(h, jaeger)
    } else if h.lookup("X-B3-TraceId"@) is Some {
        decode_b3_spec(h)
    } else {
        Ok(None)
    }
}

fn decoded_header(headers: &Headers, header: &str) -> (r: Result<Option<Vec<char>>, ContextError>)
    ensures
        match header_text(*headers, header@) {
            Ok(None) => r matches Ok(None),
            Ok(Some(v)) => r matches Ok(Some(w)) && w@ == v,
            Err(f) => r matches Err(e) && e@ == f,
        },
{
    let name = str_chars(header);
    match headers.get(&name) {
        None => Ok(None),
        Some(None) => Err(ContextError::new(header, ContextErrorKind::InvalidUtf8)),
        Some(Some(v)) => Ok(Some(v)),
    }
}

fn required_decoded_header(headers: &Headers, header: &str) -> (r: Result<Vec<char>, ContextError>)
    ensures
        match required_text(*headers, header@) {
            Ok(v) => r matches Ok(w) && w@ == v,
            Err(f) => r matches Err(e) && e@ == f,
        },
{
    match decoded_header(headers, header) {
        Err(e) => Err(e),
        Ok(None) => Err(ContextError::new(header, ContextErrorKind::Missing)),
        Ok(Some(v)) => Ok(v),
    }
}

fn parsed_span_header(headers: &Headers, header: &str) -> (r: Result<Option<SpanId>, ContextError>)
    ensures
        result_view(r) == parsed_span_spec(*headers, header@),
{
    match decoded_header(headers, header) {
        Err(e) => Err(e),
        Ok(None) => Ok(None),
        Ok(Some(v)) => match parse_span(&v) {
            Ok(s) => Ok(Some(s)),
            Err(e) => Err(ContextError::new(header, ContextErrorKind::HeaderDecodeError(e))),
        },
    }
}

fn required_span_header(headers: &Headers, header: &str) -> (r: Result<SpanId, ContextError>)
    ensures
        result_view(r) == required_span_spec(*headers, header@),
{
    match parsed_span_header(headers, header) {
        Err(e) => Err(e),
        Ok(None) => Err(ContextError::new(header, ContextErrorKind::Missing)),
        Ok(Some(s)) => Ok(s),
    }
}

fn required_trace_header(headers: &Headers, header: &str) -> (r: Result<TraceId, ContextError>)
    ensures
        result_view(r) == required_trace_spec(*headers, header@),
{
    match required_decoded_header(headers, header) {
        Err(e) => Err(e),
        Ok(v) => match parse_trace(&v) {
            Ok(t) => Ok(t),
            Err(e) => Err(ContextError::new(header, ContextErrorKind::HeaderDecodeError(e))),
        },
    }
}

/// Whether `a` and `b` hold the same characters.
fn chars_equal(a: &Vec<char>, b: &Vec<char>) -> (r: bool)
    ensures
        r == (a@ == b@),
{
    if a.len() != b.len() {
        return false;
    }
    let mut i: usize = 0;
    while i < a.len()
        invariant
            a.len() == b.len(),
            i <= a.len(),
            forall|k: int| 0 <= k < i ==> a@[k] == b@[k],
        decreases a.len() - i,
    {
        if a[i] != b[i] {
            return false;
        }
        i += 1;
    }
    assert(a@ =~= b@);
    true
}

/// Whether a header value is present, as text, and equal to `text`.
fn text_is(value: &Option<Vec<char>>, text: &str) -> (r: bool)
    ensures
        r == (match value {
            Some(v) => v@ == text@,
            None => false,
        }),
{
    match value {
        None => false,
        Some(v) => chars_equal(v, &str_chars(text)),
    }
}

fn decode_b3(headers: &Headers) -> (r: Result<Option<SpanContext>, ContextError>)
    ensures
        result_view(r) == decode_b3_spec(*headers),
{
    let flags = match decoded_header(headers, "X-B3-Flags") {
        Err(e) => {
            return Err(e);
        },
        Ok(v) => v,
    };
    let debug = text_is(&flags, "1");
    assert(debug == (header_text(*headers, "X-B3-Flags"@) == Ok::<
        Option<Seq<char>>,
        ContextFault,
    >(Some("1"@))));
    let sampled = if debug {
        true
    } else {
        let value = match decoded_header(headers, "X-B3-Sampled") {
            Err(e) => {
                return Err(e);
            },
            Ok(v) => v,
        };
        let s = text_is(&value, "1") || text_is(&value, "true");
        assert(s == (header_text(*headers, "X-B3-Sampled"@) == Ok::<
            Option<Seq<char>>,
            ContextFault,
        >(Some("1"@)) || header_text(*headers, "X-B3-Sampled"@) == Ok::<
            Option<Seq<char>>,
            ContextFault,
        >(Some("true"@))));
        s
    };
    if !sampled {
        return Ok(None);
    }
    let trace_id = match required_trace_header(headers, "X-B3-TraceId") {
        Err(e) => {
            return Err(e);
        },
        Ok(t) => t,
    };
    let parent_span_id = match parsed_span_header(headers, "X-B3-ParentSpanId") {
        Err(e) => {
            return Err(e);
        },
        Ok(p) => p,
    };
    let span_id = match required_span_header(headers, "X-B3-SpanId") {
        Err(e) => {
            return Err(e);
        },
        Ok(s) => s,
    };
    Ok(Some(SpanContext { trace_id, parent_span_id, span_id }))
}

fn decode_jaeger(headers: &Headers, jaeger_header: &str) -> (r: Result<
    Option<SpanContext>,
    ContextError,
>)
    ensures
        result_view(r) == decode_jaeger_spec(*headers, jaeger_header@),
{
    let value = match required_decoded_header(headers, jaeger_header) {
        Err(e) => {
            return Err(e);
        },
        Ok(v) => v,
    };
    let decoded = match JaegerCtx::from_chars(&value) {
        Err(e) => {
            return Err(ContextError::new(jaeger_header, ContextErrorKind::HeaderDecodeError(e)));
        },
        Ok(c) => c,
    };
    if decoded.flags % 2 == 0 {
        return Ok(None);
    }
    Ok(
        Some(
            SpanContext {
                trace_id: decoded.trace_id,
                parent_span_id: decoded.parent_span_id,
                span_id: decoded.span_id,
            },
        ),
    )
}

/// Extracts the span context, if any, from request headers.
#[derive(Clone, Debug)]
pub struct TraceHeaderParser {
    jaeger_header_name: String,
}

impl TraceHeaderParser {
    /// The name of the header read in the Jaeger format.
    pub closed spec fn jaeger_name(&self) -> Seq<char> {
        self.jaeger_header_name@
    }

    /// A parser that reads the Jaeger format from `uber-trace-id`.
    pub fn new() -> (r: TraceHeaderParser)
        ensures
            r.jaeger_name() == "uber-trace-id"@,
    {
        TraceHeaderParser { jaeger_header_name: String::from_str("uber-trace-id") }
    }

    /// The same parser, reading the Jaeger format from header `name`.
    pub fn with_jaeger_header_name(self, name: &str) -> (r: TraceHeaderParser)
        ensures
            r.jaeger_name() == name@,
    {
        TraceHeaderParser { jaeger_header_name: String::from_str(name) }
    }

    /// The span context described by `headers`, if any: Jaeger format first,
    /// then B3.
    pub fn parse(&self, headers: &Headers) -> (r: Result<Option<SpanContext>, ContextError>)
        ensures
            result_view(r) == parse_spec(*headers, self.jaeger_name()),
    {
        let jaeger_header = self.jaeger_header_name.as_str();
        if headers.contains_key(&str_chars(jaeger_header)) {
            decode_jaeger(headers, jaeger_header)
        } else if headers.contains_key(&str_chars("X-B3-TraceId")) {
            decode_b3(headers)
        } else {
            Ok(None)
        }
    }
}

impl Default for TraceHeaderParser {
    fn default() -> (r: TraceHeaderParser)
        ensures
            r.jaeger_name() == "uber-trace-id"@,
    {
        TraceHeaderParser::new()
    }
}

} // verus!
