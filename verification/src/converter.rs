use crate::config::matches_upper;
use crate::config::spec_upper;
use vstd::prelude::*;
use vstd::string::StringSliceAdditionalSpecFns;

verus! {

/// One header as the translation layer sees it: a (lower- or mixed-case)
/// name and a raw byte value.
#[derive(Debug)]
pub struct Header {
    pub name: String,
    pub value: Vec<u8>,
}

/// A byte allowed in an HTTP header value: horizontal tab, or anything
/// from space upward except DEL.
pub open spec fn spec_valid_header_byte(b: u8) -> bool {
    b == 9 || (32 <= b && b != 127)
}

/// Whether every byte of `bytes` may stand in an HTTP header value.
pub open spec fn spec_valid_header_value(bytes: Seq<u8>) -> bool {
    forall|i: int| 0 <= i < bytes.len() ==> spec_valid_header_byte(bytes[i])
}

/// Relies on http::HeaderValue::from_str, which accepts a string if and
/// only if each of its bytes is a valid header-value byte.
#[verifier::external_body]
pub(crate) fn header_value_str_ok(s: &str) -> (r: bool)
    ensures
        r == spec_valid_header_value(s.spec_bytes()),
{
    http::HeaderValue::from_str(s).is_ok()
}

/// Relies on http::HeaderValue::from_bytes, which accepts a byte slice
/// if and only if each of its bytes is a valid header-value byte.
#[verifier::external_body]
fn header_value_bytes_ok(bytes: &Vec<u8>) -> (r: bool)
    ensures
        r == spec_valid_header_value(bytes@),
{
    http::HeaderValue::from_bytes(bytes).is_ok()
}

/// A header name safe to forward across the host rewrite: anything but
/// `host` itself, compared case-insensitively.
pub open spec fn spec_valid_header_name(name: Seq<char>) -> bool {
    spec_upper(name) != "HOST"@
}

/// A header the translation forwards: its name is safe and its value
/// bytes are acceptable to the outbound header encoding.
pub open spec fn spec_forwardable(h: Header) -> bool {
    spec_valid_header_name(h.name@) && spec_valid_header_value(h.value@)
}

/// The forwarded header set: the input with the `host` header and any
/// header carrying invalid value bytes dropped, order kept.
pub open spec fn spec_convert_headers(headers: Seq<Header>) -> Seq<Header> {
    headers.filter(|h: Header| spec_forwardable(h))
}

/// Translates inbound requests into their outbound representation.
pub struct ActixToReqwestConverter {}

/// The bytes of one inbound body chunk, with a failed read reduced to no
/// bytes.
pub open spec fn spec_chunk_bytes(item: Result<Vec<u8>, String>) -> Seq<u8> {
    match item {
        Ok(chunk) => chunk@,
        Err(_) => Seq::empty(),
    }
}

/// The whole inbound body: every chunk's bytes, in order.
pub open spec fn spec_assembled_body(items: Seq<Result<Vec<u8>, String>>) -> Seq<u8> {
    items.map_values(|item: Result<Vec<u8>, String>| spec_chunk_bytes(item)).flatten()
}

impl ActixToReqwestConverter {
    pub fn is_valid_header_name(name: &str) -> (r: bool)
        ensures
            r == spec_valid_header_name(name@),
    {
        !matches_upper(name, "HOST")
    }

    /// Accumulate an inbound body, read as a sequence of chunks, into one
    /// buffer; a failed read anywhere fails the whole translation with
    /// the first read error.
    pub fn convert_body(payload: &Vec<Result<Vec<u8>, String>>) -> (r: Result<
        Vec<u8>,
        ConverterError,
    >)
        ensures
            r is Ok <==> (forall|i: int| 0 <= i < payload@.len() ==> payload@[i] is Ok),
            r matches Ok(body) ==> body@ == spec_assembled_body(payload@),
            r matches Err(e) ==> e matches ConverterError::Payload(m) && (exists|i: int|
                0 <= i < payload@.len() && ((#[trigger] payload@[i]) matches Err(em) && m@ == em@
                    && (forall|j: int| 0 <= j < i ==> payload@[j] is Ok))),
    {
        let n = payload.len();
        let mut body: Vec<u8> = Vec::new();
        let mut k: usize = 0;
        while k < n
            invariant
                n == payload@.len(),
                k <= n,
                forall|j: int| 0 <= j < k ==> payload@[j] is Ok,
                body@ == spec_assembled_body(payload@.take(k as int)),
            decreases n - k,
        {
            match &payload[k] {
                Ok(chunk) => {
                    let m = chunk.len();
                    let mut j: usize = 0;
                    while j < m
                        invariant
                            0 <= k < payload@.len(),
                            payload@[k as int] matches Ok(c) && c@ == chunk@,
                            m == chunk@.len(),
                            j <= m,
                            body@ == spec_assembled_body(payload@.take(k as int)) + chunk@.take(
                                j as int,
                            ),
                        decreases m - j,
                    {
                        body.push(chunk[j]);
                        proof {
                            assert(chunk@.take(j + 1) =~= chunk@.take(j as int).push(chunk@[
                            j as int]));
                        }
                        j += 1;
                    }
                    proof {
                        broadcast use vstd::prelude::Seq::lemma_flatten_push;

                        let f = |item: Result<Vec<u8>, String>| spec_chunk_bytes(item);
                        assert(payload@.take(k + 1).map_values(f) =~= payload@.take(
                            k as int,
                        ).map_values(f).push(spec_chunk_bytes(payload@[k as int])));
                        assert(chunk@.take(m as int) =~= chunk@);
                    }
                },
                Err(message) => {
                    return Err(ConverterError::Payload(message.clone()));
                },
            }
            k += 1;
        }
        proof {
            assert(payload@.take(n as int) =~= payload@);
        }
        Ok(body)
    }

    /// Copy every forwardable inbound header into a fresh outbound set,
    /// with room reserved for headers the caller appends afterwards.
    pub fn convert_headers(headers: Vec<Header>, additional_headers: usize) -> (r: Vec<Header>)
        ensures
            r@ == spec_convert_headers(headers@),
    {
        let ghost orig = headers@;
        let mut rest = headers;
        let mut target_headers: Vec<Header> = Vec::new();
        target_headers.reserve(additional_headers);
        while rest.len() > 0
            invariant
                rest@ == orig.skip(orig.len() - rest@.len()),
                rest@.len() <= orig.len(),
                target_headers@ == spec_convert_headers(orig.take(orig.len() - rest@.len())),
            decreases rest@.len(),
        {
            let ghost k = orig.len() - rest@.len();
            let header = rest.remove(0);
            proof {
                assert(orig[k] == header);
                broadcast use vstd::prelude::Seq::lemma_filter_push;

                let pred = |h: Header| spec_forwardable(h);
                assert(orig.take(k + 1) =~= orig.take(k).push(orig[k]));
            }
            if Self::is_valid_header_name(header.name.as_str()) && header_value_bytes_ok(
                &header.value,
            ) {
                target_headers.push(header);
            }
        }
        proof {
            assert(orig.take(orig.len() as int) =~= orig);
        }
        target_headers
    }
}

/// Translates upstream responses back into the inbound protocol.
pub struct ReqwestToActixConverter {}

/// A response as it is handed back to the inbound side: a status code
/// and the upstream body, verbatim. No upstream headers are forwarded.
#[derive(Debug)]
pub struct HttpResponse {
    pub status: u16,
    pub body: Vec<u8>,
}

/// A status code representable in the inbound protocol.
pub open spec fn spec_valid_status(code: u16) -> bool {
    100 <= code <= 999
}

/// Relies on http::StatusCode::from_u16 and as_u16: a code is accepted
/// if and only if it lies in 100..=999, and converts back to itself.
#[verifier::external_body]
fn status_from_u16(code: u16) -> (r: Option<u16>)
    ensures
        r is Some <==> spec_valid_status(code),
        r matches Some(c) ==> c == code,
{
    match http::StatusCode::from_u16(code) {
        Ok(status) => Some(status.as_u16()),
        Err(_) => None,
    }
}

impl ReqwestToActixConverter {
    pub fn convert_status_code(status_code: u16) -> (r: Result<u16, ConverterError>)
        ensures
            r is Ok <==> spec_valid_status(status_code),
            r matches Ok(c) ==> c == status_code,
            r matches Err(e) ==> e == ConverterError::InvalidStatusCode(status_code),
    {
        match status_from_u16(status_code) {
            Some(code) => Ok(code),
            None => Err(ConverterError::InvalidStatusCode(status_code)),
        }
    }

    /// Carry an upstream response over: the status code is checked
    /// against the inbound protocol's range, the body is attached
    /// verbatim, and no upstream headers are forwarded.
    pub fn convert_response(status_code: u16, body: Vec<u8>) -> (r: Result<
        HttpResponse,
        ConverterError,
    >)
        ensures
            r is Ok <==> spec_valid_status(status_code),
            r matches Ok(resp) ==> resp.status == status_code && resp.body == body,
            r matches Err(e) ==> e == ConverterError::InvalidStatusCode(status_code),
    {
        let status = Self::convert_status_code(status_code)?;
        Ok(HttpResponse { status, body })
    }
}

/// What can go wrong while translating between the two protocols.
#[derive(Debug)]
pub enum ConverterError {
    /// Reading the inbound body failed; the message describes the read
    /// error.
    Payload(String),
    /// The upstream status code does not fit the inbound protocol.
    InvalidStatusCode(u16),
}

} // verus!
