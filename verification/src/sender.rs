//! Sending a signed transaction to a sender's endpoints: which requests to
//! make, and the JSON-RPC body they carry.
use vstd::prelude::*;
use base64::Engine;
use reqwest::header::{HeaderName, HeaderValue};
use crate::builder::{SignedTransaction, transaction_wire};
use crate::config::SenderConfig;
use crate::encoding::{base64_standard_decode, base64_standard_encode, lemma_decode_encode};

verus! {

/// One request to make: the URL to post to, and the authentication header
/// (name, value) when the sender is reached with one.
#[derive(Debug, Clone)]
pub struct SendTarget {
    pub url: String,
    pub header: Option<(String, String)>,
}

pub struct SendTargetView {
    pub url: Seq<char>,
    pub header: Option<(Seq<char>, Seq<char>)>,
}

impl View for SendTarget {
    type V = SendTargetView;

    open spec fn view(&self) -> SendTargetView {
        SendTargetView {
            url: self.url@,
            header: match self.header {
                Some((n, v)) => Some((n@, v@)),
                None => None,
            },
        }
    }
}

/// Why a transaction could not be sent.
#[derive(Debug, Clone, PartialEq, Eq)]
pub enum SendError {
    /// The configured header name is not a valid HTTP header name.
    InvalidHeaderName { header: String },
    /// The API key is not a valid value for the configured header.
    InvalidApiKey { header: String },
}

/// The characters an HTTP header name may hold (RFC 9110 `tchar`).
pub open spec fn is_token_char(c: char) -> bool {
    ||| ('a' <= c && c <= 'z')
    ||| ('A' <= c && c <= 'Z')
    ||| ('0' <= c && c <= '9')
    ||| c == '!' || c == '#' || c == '$' || c == '%' || c == '&' || c == '\'' || c == '*'
    ||| c == '+' || c == '-' || c == '.' || c == '^' || c == '_' || c == '`' || c == '|' || c == '~'
}

/// A valid header name: one to 65535 token characters.
pub open spec fn valid_header_name(name: Seq<char>) -> bool {
    &&& 0 < name.len() <= 65535
    &&& forall|i: int| 0 <= i < name.len() ==> is_token_char(#[trigger] name[i])
}

/// A valid header value: no control character but the tab.
pub open spec fn valid_header_value(value: Seq<char>) -> bool {
    forall|i: int| 0 <= i < value.len() ==> {
        let c = #[trigger] value[i];
        c == '\t' || (c as u32 >= 32 && c as u32 != 127)
    }
}

/// Calls `<reqwest::header::HeaderName as FromStr>::from_str` and reports
/// whether it accepts the text. Its source accepts one to 65535 bytes that
/// all map to a token character in its `HEADER_CHARS` table; the contract
/// claims that.
#[verifier::external_body]
fn header_name_accepted(name: &str) -> (ok: bool)
    ensures
        ok == valid_header_name(name@),
{
    name.parse::<HeaderName>().is_ok()
}

/// Calls `reqwest::header::HeaderValue::from_str` and reports whether it
/// accepts the text. Its source refuses a text with a byte below 32 other
/// than the tab, or the byte 127; bytes of non-ASCII characters are all
/// accepted. The contract claims that.
#[verifier::external_body]
fn header_value_accepted(value: &str) -> (ok: bool)
    ensures
        ok == valid_header_value(value@),
{
    HeaderValue::from_str(value).is_ok()
}

/// The URL with the API key as a query parameter, joined with `&` when the
/// URL already has a query and with `?` otherwise.
pub open spec fn spec_authenticated_url(url: Seq<char>, api_key: Seq<char>) -> Seq<char> {
    if url.contains('?') {
        url + "&api-key="@ + api_key
    } else {
        url + "?api-key="@ + api_key
    }
}

/// Appends the API key to a URL as its `api-key` query parameter.
pub fn authenticated_url(url: &String, api_key: &String) -> (res: String)
    ensures
        res@ == spec_authenticated_url(url@, api_key@),
{
    let n = url.as_str().unicode_len();
    let mut has_query = false;
    for i in 0..n
        invariant
            n == url@.len(),
            has_query <==> exists|j: int| 0 <= j < i && url@[j] == '?',
    {
        if url.as_str().get_char(i) == '?' {
            has_query = true;
        }
    }
    let mut res = url.clone();
    if has_query {
        res.append("&api-key=");
    } else {
        res.append("?api-key=");
    }
    res.append(api_key.as_str());
    res
}

/// The request for one URL: with a header when both a key and a header name
/// are configured, with the key in the URL when only a key is, and the URL
/// alone otherwise.
pub open spec fn spec_send_target(url: Seq<char>, api_key: Option<Seq<char>>, header: Option<Seq<char>>) -> SendTargetView {
    match api_key {
        None => SendTargetView { url, header: None },
        Some(key) => match header {
            Some(name) => SendTargetView { url, header: Some((name, key)) },
            None => SendTargetView { url: spec_authenticated_url(url, key), header: None },
        },
    }
}

pub open spec fn opt_view(s: Option<String>) -> Option<Seq<char>> {
    match s {
        Some(t) => Some(t@),
        None => None,
    }
}

/// Lists the requests that send a transaction to every URL of a sender, in
/// the order of its URLs. A header that cannot be built is refused before
/// any request, since it is the same for every URL.
pub fn plan_send_targets(config: &SenderConfig) -> (res: Result<Vec<SendTarget>, SendError>)
    ensures
        match res {
            Ok(targets) => {
                &&& targets@.len() == config.urls@.len()
                &&& forall|i: int| 0 <= i < targets@.len() ==> (#[trigger] targets@[i])@ == spec_send_target(
                    config.urls@[i]@,
                    opt_view(config.api_key),
                    opt_view(config.header),
                )
                &&& (config.urls@.len() > 0 && config.api_key is Some && config.header is Some)
                    ==> valid_header_name(config.header->0@) && valid_header_value(config.api_key->0@)
            },
            Err(SendError::InvalidHeaderName { header }) => {
                &&& config.urls@.len() > 0
                &&& config.api_key is Some
                &&& config.header matches Some(h) && h@ == header@
                &&& !valid_header_name(header@)
            },
            Err(SendError::InvalidApiKey { header }) => {
                &&& config.urls@.len() > 0
                &&& config.api_key matches Some(k) && !valid_header_value(k@)
                &&& config.header matches Some(h) && h@ == header@
                &&& valid_header_name(header@)
            },
        },
{
    let mut targets: Vec<SendTarget> = Vec::new();
    let n = config.urls.len();
    for i in 0..n
        invariant
            n == config.urls@.len(),
            targets@.len() == i,
            forall|j: int| 0 <= j < i ==> (#[trigger] targets@[j])@ == spec_send_target(
                config.urls@[j]@,
                opt_view(config.api_key),
                opt_view(config.header),
            ),
            (i > 0 && config.api_key is Some && config.header is Some)
                ==> valid_header_name(config.header->0@) && valid_header_value(config.api_key->0@),
    {
        let url = &config.urls[i];
        let target = match &config.api_key {
            None => SendTarget { url: url.clone(), header: None },
            Some(key) => match &config.header {
                Some(name) => {
                    if !header_name_accepted(name.as_str()) {
                        return Err(SendError::InvalidHeaderName { header: name.clone() });
                    }
                    if !header_value_accepted(key.as_str()) {
                        return Err(SendError::InvalidApiKey { header: name.clone() });
                    }
                    SendTarget { url: url.clone(), header: Some((name.clone(), key.clone())) }
                },
                None => SendTarget { url: authenticated_url(url, key), header: None },
            },
        };
        targets.push(target);
    }
    Ok(targets)
}

/// Calls `STANDARD.encode` of the `base64` crate. The contract claims that
/// the text is the padded standard encoding `base64_standard_encode`.
#[verifier::external_body]
fn encode_base64(bytes: &[u8]) -> (text: String)
    ensures
        text@ == base64_standard_encode(bytes@),
{
    base64::engine::general_purpose::STANDARD.encode(bytes)
}

/// The opening of the `sendTransaction` request, up to the encoded
/// transaction.
pub open spec fn request_body_head() -> Seq<char> {
    "{\"id\":1,\"jsonrpc\":\"2.0\",\"method\":\"sendTransaction\",\"params\":[\""@
}

/// The end of the `sendTransaction` request: base64 encoding, no preflight,
/// no retries by the node.
pub open spec fn request_body_tail() -> Seq<char> {
    "\",{\"encoding\":\"base64\",\"maxRetries\":0,\"skipPreflight\":true}]}"@
}

/// The encoded transaction inside a request body: the text between its
/// head and its tail.
pub open spec fn request_payload(body: Seq<char>) -> Seq<char> {
    body.subrange(request_body_head().len() as int, body.len() - request_body_tail().len())
}

/// The JSON-RPC `sendTransaction` request for a serialized transaction,
/// with its keys in the order that `serde_json` writes them. Its payload
/// decodes back to exactly the bytes it was built from.
pub fn request_body(wire: &[u8]) -> (body: String)
    ensures
        body@ == request_body_head() + base64_standard_encode(wire@) + request_body_tail(),
        base64_standard_decode(request_payload(body@)) == Some(wire@),
{
    let encoded = encode_base64(wire);
    let mut body = String::from_str("{\"id\":1,\"jsonrpc\":\"2.0\",\"method\":\"sendTransaction\",\"params\":[\"");
    body.append(encoded.as_str());
    body.append("\",{\"encoding\":\"base64\",\"maxRetries\":0,\"skipPreflight\":true}]}");
    assert(request_payload(body@) =~= encoded@);
    proof {
        lemma_decode_encode(wire@);
    }
    body
}

/// The request body that sends a signed transaction: its wire bytes in
/// base64, inside a `sendTransaction` request. The payload decodes to the
/// transaction's bytes, and those give back its signature and message
/// (`lemma_wire_round_trip`).
pub fn transaction_request_body(tx: &SignedTransaction) -> (body: String)
    ensures
        body@ == request_body_head() + base64_standard_encode(transaction_wire(tx.signature@, tx.message@))
            + request_body_tail(),
        base64_standard_decode(request_payload(body@)) == Some(transaction_wire(tx.signature@, tx.message@)),
{
    let wire = tx.wire_bytes();
    request_body(wire.as_slice())
}

} // verus!
