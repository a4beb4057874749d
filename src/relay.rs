use vstd::prelude::*;
use vstd::string::StrSliceExecFns;
use vstd::string::StringExecFns;
use vstd::utf8::{decode_utf8, encode_utf8, valid_utf8};

use crate::text::{contains, occurs_at, push_char};

verus! {

/// candid's `Nat`, the status of an HTTP response: carried through unread.
#[verifier::external_type_specification]
#[verifier::external_body]
pub struct ExNat(candid::Nat);

/// What the HTTP transport is paid for each relayed request.
pub const RELAY_CYCLES: u128 = 2_000_000_000_000;

/// A header of an HTTP request or response.
pub struct HttpHeader {
    pub name: String,
    pub value: String,
}

pub enum HttpMethod {
    Get,
    Post,
    Head,
}

/// A request for the HTTP transport, with what the transport is paid for it.
pub struct OutboundRequest {
    pub url: String,
    pub max_response_bytes: Option<u64>,
    pub method: HttpMethod,
    pub headers: Vec<HttpHeader>,
    pub body: Option<Vec<u8>>,
    /// The query method that shapes the response before it is agreed on.
    pub transform_method: Option<String>,
    pub cycles: u128,
}

/// A response of the HTTP transport.
pub struct HttpResponse {
    pub status: candid::Nat,
    pub headers: Vec<HttpHeader>,
    pub body: Vec<u8>,
}

/// What the response-shaping hook receives.
pub struct TransformArgs {
    pub response: HttpResponse,
    pub context: Vec<u8>,
}

/// Why the transport did not deliver a response.
pub enum RejectionCode {
    NoError,
    SysFatal,
    SysTransient,
    DestinationInvalid,
    CanisterReject,
    CanisterError,
    Unknown,
}

/// What a relayed request came back with: the response body, or the code and
/// message of the transport's failure.
pub type RelayOutcome = Result<Vec<u8>, (RejectionCode, String)>;

/// The name under which a rejection code is reported.
pub open spec fn code_name(c: RejectionCode) -> Seq<char> {
    match c {
        RejectionCode::NoError => "NoError"@,
        RejectionCode::SysFatal => "SysFatal"@,
        RejectionCode::SysTransient => "SysTransient"@,
        RejectionCode::DestinationInvalid => "DestinationInvalid"@,
        RejectionCode::CanisterReject => "CanisterReject"@,
        RejectionCode::CanisterError => "CanisterError"@,
        RejectionCode::Unknown => "Unknown"@,
    }
}

impl RejectionCode {
    /// The name under which the code is reported.
    pub fn name(&self) -> (r: String)
        ensures
            r@ == code_name(*self),
    {
        match self {
            RejectionCode::NoError => String::from_str("NoError"),
            RejectionCode::SysFatal => String::from_str("SysFatal"),
            RejectionCode::SysTransient => String::from_str("SysTransient"),
            RejectionCode::DestinationInvalid => String::from_str("DestinationInvalid"),
            RejectionCode::CanisterReject => String::from_str("CanisterReject"),
            RejectionCode::CanisterError => String::from_str("CanisterError"),
            RejectionCode::Unknown => String::from_str("Unknown"),
        }
    }
}

/// The decimal digit for `d`.
pub open spec fn digit_char(d: int) -> char {
    if d == 0 {
        '0'
    } else if d == 1 {
        '1'
    } else if d == 2 {
        '2'
    } else if d == 3 {
        '3'
    } else if d == 4 {
        '4'
    } else if d == 5 {
        '5'
    } else if d == 6 {
        '6'
    } else if d == 7 {
        '7'
    } else if d == 8 {
        '8'
    } else {
        '9'
    }
}

/// The decimal notation of `n`, without leading zeros.
pub open spec fn decimal(n: nat) -> Seq<char>
    decreases n,
{
    if n < 10 {
        seq![digit_char(n as int)]
    } else {
        decimal(n / 10).push(digit_char((n % 10) as int))
    }
}

/// The idempotency key of a request made at time `now`.
pub open spec fn idempotency_key(prefix: Seq<char>, now: nat) -> Seq<char> {
    prefix + decimal(now)
}

/// The JSON text of a string, as serde_json writes it.
pub uninterp spec fn json_string(s: Seq<char>) -> Seq<char>;

/// The JSON text of an object with one string member.
pub open spec fn json_body(key: Seq<char>, value: Seq<char>) -> Seq<char> {
    seq!['{'] + json_string(key) + seq![':'] + json_string(value) + seq!['}']
}

/// `h` declares a JSON body.
pub open spec fn is_json_content_type(h: HttpHeader) -> bool {
    h.name@ == "Content-Type"@ && h.value@ == "application/json"@
}

/// `r` posts `{field: payload}` as JSON to `endpoint`, keyed by `key_prefix`
/// and the time `now`, and has its response shaped by the `transform` hook.
pub open spec fn is_relay_request(
    r: OutboundRequest,
    endpoint: Seq<char>,
    key_prefix: Seq<char>,
    field: Seq<char>,
    payload: Seq<char>,
    now: nat,
) -> bool {
    &&& r.url@ == endpoint
    &&& r.max_response_bytes is None
    &&& r.method == HttpMethod::Post
    &&& r.headers@.len() == 2
    &&& is_json_content_type(r.headers@[0])
    &&& r.headers@[1].name@ == "Idempotency-Key"@
    &&& r.headers@[1].value@ == idempotency_key(key_prefix, now)
    &&& r.body matches Some(b) && b@ == encode_utf8(json_body(field, payload))
    &&& r.transform_method matches Some(m) && m@ == "transform"@
    &&& r.cycles == RELAY_CYCLES
}

/// The text a relay endpoint answers with: the decoded body, a fixed placeholder
/// for a body that is not UTF-8, or `failure_lead` followed by the failure's code
/// and message.
pub open spec fn relay_reply_text(failure_lead: Seq<char>, outcome: RelayOutcome) -> Seq<char> {
    match outcome {
        Ok(body) => if valid_utf8(body@) {
            decode_utf8(body@)
        } else {
            "Error decoding response"@
        },
        Err((code, message)) => failure_lead + code_name(code) + ", Message: "@ + message@,
    }
}

/// Relies on serde_json's `Display` for `Value`: a string value is written as
/// its JSON text.
#[verifier::external_body]
fn json_quote(s: &str) -> (r: String)
    ensures
        r@ == json_string(s@),
{
    serde_json::Value::String(s.to_string()).to_string()
}

/// Relies on `String::from_utf8`: it accepts exactly the valid UTF-8 byte
/// sequences and decodes them.
#[verifier::external_body]
fn utf8_text(bytes: Vec<u8>) -> (r: Option<String>)
    ensures
        r is Some <==> valid_utf8(bytes@),
        r matches Some(s) ==> s@ == decode_utf8(bytes@),
{
    String::from_utf8(bytes).ok()
}

fn digit(d: u64) -> (c: char)
    requires
        d < 10,
    ensures
        c == digit_char(d as int),
{
    if d == 0 {
        '0'
    } else if d == 1 {
        '1'
    } else if d == 2 {
        '2'
    } else if d == 3 {
        '3'
    } else if d == 4 {
        '4'
    } else if d == 5 {
        '5'
    } else if d == 6 {
        '6'
    } else if d == 7 {
        '7'
    } else if d == 8 {
        '8'
    } else {
        '9'
    }
}

/// Appends the decimal notation of `n`.
fn push_decimal(s: &mut String, n: u64)
    ensures
        final(s)@ == old(s)@ + decimal(n as nat),
    decreases n,
{
    if n >= 10 {
        push_decimal(s, n / 10);
    }
    push_char(s, digit(n % 10));
    assert(final(s)@ =~= old(s)@ + decimal(n as nat));
}

/// The JSON text of an object with the one string member `key: value`.
pub fn json_object(key: &str, value: &str) -> (r: String)
    ensures
        r@ == json_body(key@, value@),
{
    let mut r = String::from_str("{");
    r.append(json_quote(key).as_str());
    r.append(":");
    r.append(json_quote(value).as_str());
    r.append("}");
    proof {
        reveal_strlit("{");
        reveal_strlit(":");
        reveal_strlit("}");
    }
    assert(r@ =~= json_body(key@, value@));
    r
}

fn json_content_type() -> (h: HttpHeader)
    ensures
        is_json_content_type(h),
{
    HttpHeader { name: String::from_str("Content-Type"), value: String::from_str("application/json") }
}

fn relay_request(endpoint: &str, key_prefix: &str, field: &str, payload: &str, now: u64) -> (r:
    OutboundRequest)
    ensures
        is_relay_request(r, endpoint@, key_prefix@, field@, payload@, now as nat),
{
    let mut key = String::from_str(key_prefix);
    push_decimal(&mut key, now);
    let mut headers: Vec<HttpHeader> = Vec::new();
    headers.push(json_content_type());
    headers.push(HttpHeader { name: String::from_str("Idempotency-Key"), value: key });
    let body = json_object(field, payload);
    OutboundRequest {
        url: String::from_str(endpoint),
        max_response_bytes: None,
        method: HttpMethod::Post,
        headers,
        body: Some(body.as_str().as_bytes_vec()),
        transform_method: Some(String::from_str("transform")),
        cycles: RELAY_CYCLES,
    }
}

/// The request that asks `endpoint` to review `code`, made at time `now`.
pub fn review_request(endpoint: &str, code: &str, now: u64) -> (r: OutboundRequest)
    ensures
        is_relay_request(r, endpoint@, "review-"@, "code"@, code@, now as nat),
{
    relay_request(endpoint, "review-", "code", code, now)
}

/// The request that asks `endpoint` to generate code for `prompt`, made at time `now`.
pub fn generate_request(endpoint: &str, prompt: &str, now: u64) -> (r: OutboundRequest)
    ensures
        is_relay_request(r, endpoint@, "generate-"@, "prompt"@, prompt@, now as nat),
{
    relay_request(endpoint, "generate-", "prompt", prompt, now)
}

fn relay_reply(failure_lead: &str, outcome: RelayOutcome) -> (r: String)
    ensures
        r@ == relay_reply_text(failure_lead@, outcome),
{
    match outcome {
        Ok(body) => match utf8_text(body) {
            Some(text) => text,
            None => String::from_str("Error decoding response"),
        },
        Err((code, message)) => {
            let mut r = String::from_str(failure_lead);
            r.append(code.name().as_str());
            r.append(", Message: ");
            r.append(message.as_str());
            r
        },
    }
}

/// The answer of the review endpoint for what its request came back with.
pub fn review_reply(outcome: RelayOutcome) -> (r: String)
    ensures
        r@ == relay_reply_text("Failed to review code. Error: "@, outcome),
{
    relay_reply("Failed to review code. Error: ", outcome)
}

/// The answer of the generation endpoint for what its request came back with.
pub fn generate_reply(outcome: RelayOutcome) -> (r: String)
    ensures
        r@ == relay_reply_text("Failed to generate code. Error: "@, outcome),
{
    relay_reply("Failed to generate code. Error: ", outcome)
}

/// The response-shaping hook: keeps status and body and replaces every header
/// by a single JSON content type, so that replicas agree on the response.
pub fn transform(args: TransformArgs) -> (r: HttpResponse)
    ensures
        r.status == args.response.status,
        r.body == args.response.body,
        r.headers@.len() == 1,
        is_json_content_type(r.headers@[0]),
{
    let mut headers: Vec<HttpHeader> = Vec::new();
    headers.push(json_content_type());
    HttpResponse { status: args.response.status, headers, body: args.response.body }
}

/// A failed relay is reported with the failure's code and message in the text.
pub proof fn relay_failure_mentions_code_and_message(
    failure_lead: Seq<char>,
    code: RejectionCode,
    message: String,
)
    ensures
        contains(relay_reply_text(failure_lead, Err((code, message))), code_name(code)),
        contains(relay_reply_text(failure_lead, Err((code, message))), message@),
{
    let name = code_name(code);
    let sep = ", Message: "@;
    let text = relay_reply_text(failure_lead, Err((code, message)));
    assert(text == failure_lead + name + sep + message@);
    let at_name = failure_lead.len() as int;
    let at_message = (failure_lead.len() + name.len() + sep.len()) as int;
    assert(text.subrange(at_name, at_name + name.len()) =~= name);
    assert(occurs_at(text, name, at_name));
    assert(text.subrange(at_message, at_message + message@.len()) =~= message@);
    assert(occurs_at(text, message@, at_message));
}

proof fn lemma_digit_injective(a: int, b: int)
    requires
        0 <= a < 10,
        0 <= b < 10,
        digit_char(a) == digit_char(b),
    ensures
        a == b,
{
}

proof fn lemma_decimal_len(n: nat)
    ensures
        n < 10 ==> decimal(n).len() == 1,
        n >= 10 ==> decimal(n).len() >= 2,
    decreases n,
{
    if n >= 10 {
        lemma_decimal_len(n / 10);
    }
}

proof fn lemma_decimal_injective(a: nat, b: nat)
    requires
        decimal(a) == decimal(b),
    ensures
        a == b,
    decreases a,
{
    lemma_decimal_len(a);
    lemma_decimal_len(b);
    if a < 10 && b < 10 {
        assert(decimal(a) == seq![digit_char(a as int)]);
        assert(decimal(b) == seq![digit_char(b as int)]);
        assert(decimal(a)[0] == digit_char(a as int));
        assert(decimal(b)[0] == digit_char(b as int));
        lemma_digit_injective(a as int, b as int);
    } else if a >= 10 && b >= 10 {
        assert(decimal(a) == decimal(a / 10).push(digit_char((a % 10) as int)));
        assert(decimal(b) == decimal(b / 10).push(digit_char((b % 10) as int)));
        assert(decimal(a).last() == digit_char((a % 10) as int));
        assert(decimal(b).last() == digit_char((b % 10) as int));
        lemma_digit_injective((a % 10) as int, (b % 10) as int);
        assert(decimal(a).drop_last() =~= decimal(a / 10));
        assert(decimal(b).drop_last() =~= decimal(b / 10));
        lemma_decimal_injective(a / 10, b / 10);
        assert(a == 10 * (a / 10) + a % 10) by (nonlinear_arith);
        assert(b == 10 * (b / 10) + b % 10) by (nonlinear_arith);
    }
}

/// Requests made at different times carry different idempotency keys, each of
/// them the fixed prefix followed by the time.
pub proof fn idempotency_keys_differ(prefix: Seq<char>, t1: nat, t2: nat)
    requires
        t1 != t2,
    ensures
        idempotency_key(prefix, t1) != idempotency_key(prefix, t2),
        idempotency_key(prefix, t1).subrange(0, prefix.len() as int) == prefix,
        idempotency_key(prefix, t2).subrange(0, prefix.len() as int) == prefix,
{
    let k1 = idempotency_key(prefix, t1);
    let k2 = idempotency_key(prefix, t2);
    assert(k1.subrange(0, prefix.len() as int) =~= prefix);
    assert(k2.subrange(0, prefix.len() as int) =~= prefix);
    assert(k1.subrange(prefix.len() as int, k1.len() as int) =~= decimal(t1));
    assert(k2.subrange(prefix.len() as int, k2.len() as int) =~= decimal(t2));
    if k1 == k2 {
        lemma_decimal_injective(t1, t2);
    }
}

} // verus!
