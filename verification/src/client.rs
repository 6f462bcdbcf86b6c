//! The webhook client: its configuration, the HMAC signing of payloads, the
//! headers and query parameters a request carries, and the judgement of the
//! response.

use vstd::prelude::*;
use vstd::utf8::*;
use vstd::string::StringSliceAdditionalSpecFns;
use std::sync::Arc;
use std::time::Duration;
use url::Url;
use crate::method::HttpMethod;
use reqwest_middleware::ClientWithMiddleware;
use crate::error::OmnihookError;
use crate::error_body::{status_failure, status_failure_message};
use crate::headers::{
    check_header_value, find_header_problem, header_problem, header_value_valid,
    lemma_printable_header_value,
};
use crate::string_map::{copy_pairs, has_key, insert_pair, insert_pairs, pairs_view, StringMap};
use crate::text::{
    decimal, hex_encode, i64_to_decimal, lemma_decimal_chars, lemma_lower_hex, lower_hex, owned,
};

verus! {

/// The HMAC-SHA256 tag of `message` under `key`.
pub uninterp spec fn hmac_sha256(key: Seq<u8>, message: Seq<u8>) -> Seq<u8>;

/// `Hmac::<Sha256>::new_from_slice(key)`, then `update(first)`,
/// `update(second)` and `finalize()`: the tag of `first` followed by
/// `second`. The hmac crate's source accepts a key of any length
/// (`new_from_slice` always returns `Ok` for `Hmac`), and a SHA-256 tag is 32
/// bytes; the tag's value is left to the name `hmac_sha256`.
#[verifier::external_body]
fn hmac_sha256_tag(key: &[u8], first: &[u8], second: &[u8]) -> (res: Result<Vec<u8>, String>)
    ensures
        res is Ok,
        res matches Ok(tag) ==> tag@ == hmac_sha256(key@, first@ + second@) && tag@.len() == 32,
{
    let mut mac = <hmac::Hmac<sha2::Sha256> as hmac::digest::KeyInit>::new_from_slice(key)
        .map_err(|e| e.to_string())?;
    hmac::Mac::update(&mut mac, first);
    hmac::Mac::update(&mut mac, second);
    Ok(hmac::Mac::finalize(mac).into_bytes().to_vec())
}

/// A default HTTP client: `reqwest::Client::builder().build()` wrapped by
/// `reqwest_middleware::ClientBuilder::new(..).build()`, behind an `Arc`.
/// Whether the TLS backend and resolver can be set up depends on the machine,
/// so neither outcome is stated.
#[verifier::external_body]
fn default_http_client() -> Result<Arc<ClientWithMiddleware>, reqwest_middleware::Error> {
    reqwest::Client::builder()
        .build()
        .map(|client| Arc::new(reqwest_middleware::ClientBuilder::new(client).build()))
        .map_err(reqwest_middleware::Error::from)
}

/// The view of an optional string map.
pub open spec fn opt_map_view(m: Option<StringMap>) -> Option<Seq<(Seq<char>, Seq<char>)>> {
    match m {
        Some(m) => Some(m@),
        None => None,
    }
}

/// The view of an optional string.
pub open spec fn opt_string_view(s: Option<String>) -> Option<Seq<char>> {
    match s {
        Some(s) => Some(s@),
        None => None,
    }
}

/// The entries of an optional map, none when there is no map.
pub open spec fn entries_or_empty(m: Option<Seq<(Seq<char>, Seq<char>)>>) -> Seq<(Seq<char>, Seq<char>)> {
    match m {
        Some(pairs) => pairs,
        None => Seq::empty(),
    }
}

/// What a [`WebhookConfig`] holds.
pub ghost struct WebhookConfigView {
    pub url: Url,
    pub url_params: Option<Seq<(Seq<char>, Seq<char>)>>,
    pub method: HttpMethod,
    pub secret: Option<Seq<char>>,
    pub headers: Option<Seq<(Seq<char>, Seq<char>)>>,
    pub timeout: Option<Duration>,
    pub include_error_body: bool,
}

/// Configuration for a webhook request.
#[derive(Clone, Debug)]
pub struct WebhookConfig {
    /// The webhook URL to send requests to.
    url: Url,
    /// URL query parameters to add to the request.
    url_params: Option<StringMap>,
    /// The HTTP method to use (POST by default).
    method: HttpMethod,
    /// The secret for HMAC signing of the payload.
    secret: Option<String>,
    /// Custom headers to include in the request.
    headers: Option<StringMap>,
    /// The timeout of the request; the HTTP client's own when unset.
    timeout: Option<Duration>,
    /// Whether to include the response body in error messages. Off by
    /// default, so that sensitive data is not logged by accident.
    include_error_body: bool,
}

impl View for WebhookConfig {
    type V = WebhookConfigView;

    closed spec fn view(&self) -> WebhookConfigView {
        WebhookConfigView {
            url: self.url,
            url_params: opt_map_view(self.url_params),
            method: self.method,
            secret: opt_string_view(self.secret),
            headers: opt_map_view(self.headers),
            timeout: self.timeout,
            include_error_body: self.include_error_body,
        }
    }
}

impl WebhookConfig {
    /// A configuration for `url` with default values: POST, no secret, no
    /// custom headers or query parameters, no timeout, no error body.
    pub fn new(url: Url) -> (res: Self)
        ensures
            res@.url == url,
            res@.method == HttpMethod::Post,
            res@.url_params is None,
            res@.secret is None,
            res@.headers is None,
            res@.timeout is None,
            !res@.include_error_body,
    {
        WebhookConfig {
            url,
            url_params: None,
            method: HttpMethod::Post,
            secret: None,
            headers: None,
            timeout: None,
            include_error_body: false,
        }
    }

    /// Sets the HTTP method.
    pub fn with_method(self, method: HttpMethod) -> (res: Self)
        ensures
            res@ == (WebhookConfigView { method, ..self@ }),
    {
        WebhookConfig { method, ..self }
    }

    /// Sets the secret for HMAC signing.
    pub fn with_secret(self, secret: &str) -> (res: Self)
        ensures
            res@ == (WebhookConfigView { secret: Some(secret@), ..self@ }),
    {
        WebhookConfig { secret: Some(owned(secret)), ..self }
    }

    /// Sets the timeout of the request.
    pub fn with_timeout(self, timeout: Duration) -> (res: Self)
        ensures
            res@ == (WebhookConfigView { timeout: Some(timeout), ..self@ }),
    {
        WebhookConfig { timeout: Some(timeout), ..self }
    }

    /// Controls whether the response body is included in error messages.
    /// Only enable this if the endpoint can be trusted not to return
    /// sensitive data in error responses.
    pub fn with_error_body(self, enabled: bool) -> (res: Self)
        ensures
            res@ == (WebhookConfigView { include_error_body: enabled, ..self@ }),
    {
        WebhookConfig { include_error_body: enabled, ..self }
    }

    /// Adds custom headers, merging them into those already set: a header
    /// already set takes the new value.
    pub fn with_headers(self, headers: Vec<(String, String)>) -> (res: Self)
        ensures
            res@ == (WebhookConfigView {
                headers: Some(
                    insert_pairs(entries_or_empty(self@.headers), pairs_view(headers@)),
                ),
                ..self@
            }),
    {
        let WebhookConfig { url, url_params, method, secret, headers: current, timeout, include_error_body } =
            self;
        let mut map = match current {
            Some(map) => map,
            None => StringMap::new(),
        };
        map.extend(&headers);
        WebhookConfig { url, url_params, method, secret, headers: Some(map), timeout, include_error_body }
    }

    /// Adds one custom header.
    pub fn with_header(self, key: &str, value: &str) -> (res: Self)
        ensures
            res@ == (WebhookConfigView {
                headers: Some(insert_pair(entries_or_empty(self@.headers), key@, value@)),
                ..self@
            }),
    {
        let WebhookConfig { url, url_params, method, secret, headers: current, timeout, include_error_body } =
            self;
        let mut map = match current {
            Some(map) => map,
            None => StringMap::new(),
        };
        map.insert(key, value);
        WebhookConfig { url, url_params, method, secret, headers: Some(map), timeout, include_error_body }
    }

    /// Adds URL query parameters, merging them into those already set.
    pub fn with_url_params(self, params: Vec<(String, String)>) -> (res: Self)
        ensures
            res@ == (WebhookConfigView {
                url_params: Some(
                    insert_pairs(entries_or_empty(self@.url_params), pairs_view(params@)),
                ),
                ..self@
            }),
    {
        let WebhookConfig { url, url_params: current, method, secret, headers, timeout, include_error_body } =
            self;
        let mut map = match current {
            Some(map) => map,
            None => StringMap::new(),
        };
        map.extend(&params);
        WebhookConfig { url, url_params: Some(map), method, secret, headers, timeout, include_error_body }
    }

    /// Adds one URL query parameter.
    pub fn with_url_param(self, key: &str, value: &str) -> (res: Self)
        ensures
            res@ == (WebhookConfigView {
                url_params: Some(insert_pair(entries_or_empty(self@.url_params), key@, value@)),
                ..self@
            }),
    {
        let WebhookConfig { url, url_params: current, method, secret, headers, timeout, include_error_body } =
            self;
        let mut map = match current {
            Some(map) => map,
            None => StringMap::new(),
        };
        map.insert(key, value);
        WebhookConfig { url, url_params: Some(map), method, secret, headers, timeout, include_error_body }
    }

    /// The webhook URL.
    pub fn url(&self) -> (res: &Url)
        ensures
            *res == self@.url,
    {
        &self.url
    }

    /// The HTTP method.
    pub fn method(&self) -> (res: HttpMethod)
        ensures
            res == self@.method,
    {
        self.method
    }

    /// The signing secret.
    pub fn secret(&self) -> (res: Option<&String>)
        ensures
            opt_string_view(match res {
                Some(s) => Some(*s),
                None => None,
            }) == self@.secret,
    {
        match &self.secret {
            Some(s) => Some(s),
            None => None,
        }
    }

    /// The timeout.
    pub fn timeout(&self) -> (res: Option<Duration>)
        ensures
            res == self@.timeout,
    {
        self.timeout
    }

    /// The custom headers.
    pub fn headers(&self) -> (res: Option<&StringMap>)
        ensures
            opt_map_view(match res {
                Some(m) => Some(*m),
                None => None,
            }) == self@.headers,
    {
        match &self.headers {
            Some(m) => Some(m),
            None => None,
        }
    }

    /// The URL query parameters.
    pub fn url_params(&self) -> (res: Option<&StringMap>)
        ensures
            opt_map_view(match res {
                Some(m) => Some(*m),
                None => None,
            }) == self@.url_params,
    {
        match &self.url_params {
            Some(m) => Some(m),
            None => None,
        }
    }

    /// Whether the response body is included in error messages.
    pub fn include_error_body(&self) -> (res: bool)
        ensures
            res == self@.include_error_body,
    {
        self.include_error_body
    }
}

/// `headers` with `Content-Type: application/json` added when no header is
/// named exactly `Content-Type`.
pub open spec fn with_default_content_type(headers: Seq<(Seq<char>, Seq<char>)>) -> Seq<
    (Seq<char>, Seq<char>),
> {
    if has_key(headers, "Content-Type"@) {
        headers
    } else {
        insert_pair(headers, "Content-Type"@, "application/json"@)
    }
}

/// Whether `config` asks for URL query parameters but names none.
pub open spec fn has_empty_url_params(config: WebhookConfigView) -> bool {
    config.url_params matches Some(params) && params.len() == 0
}

/// What a [`WebhookClient`] holds.
pub ghost struct WebhookClientView {
    pub url: Url,
    pub url_params: Option<Seq<(Seq<char>, Seq<char>)>>,
    pub http_client: Arc<ClientWithMiddleware>,
    pub method: HttpMethod,
    pub secret: Option<Seq<char>>,
    pub headers: Seq<(Seq<char>, Seq<char>)>,
    pub timeout: Option<Duration>,
    pub include_error_body: bool,
}

/// The client that `config` describes, sending through `http_client`.
pub open spec fn configured_client(config: WebhookConfigView, http_client: Arc<ClientWithMiddleware>) -> WebhookClientView {
    WebhookClientView {
        url: config.url,
        url_params: config.url_params,
        http_client,
        method: config.method,
        secret: config.secret,
        headers: with_default_content_type(entries_or_empty(config.headers)),
        timeout: config.timeout,
        include_error_body: config.include_error_body,
    }
}

/// The signature of `payload` stamped `stamp`: the lowercase hexadecimal
/// HMAC-SHA256 of the payload bytes followed by the bytes of the stamp.
pub open spec fn payload_signature(secret: Seq<char>, payload: Seq<u8>, stamp: Seq<char>) -> Seq<char> {
    lower_hex(hmac_sha256(encode_utf8(secret), payload + encode_utf8(stamp)))
}

/// Why a request could not be prepared.
pub ghost enum RequestFailure {
    /// The payload could not be signed.
    Signing(Seq<char>),
    /// A header of the request is invalid.
    Notify(Seq<char>),
}

/// The signature headers of a request, if the client has a secret.
pub open spec fn signature_headers(secret: Option<Seq<char>>, body: Seq<u8>, now_millis: int) -> Result<
    Seq<(Seq<char>, Seq<char>)>,
    RequestFailure,
> {
    match secret {
        None => Ok(Seq::empty()),
        Some(key) => if now_millis > i64::MAX {
            Err(RequestFailure::Signing("Timestamp overflow"@))
        } else if key.len() == 0 {
            Err(RequestFailure::Signing("Invalid secret: cannot be empty."@))
        } else {
            let stamp = decimal(now_millis);
            Ok(
                seq![
                    ("x-signature"@, payload_signature(key, body, stamp)),
                    ("x-timestamp"@, stamp),
                ],
            )
        },
    }
}

/// The idempotency header of a request, if a key is given.
pub open spec fn idempotency_headers(key: Option<Seq<char>>) -> Result<Seq<(Seq<char>, Seq<char>)>, RequestFailure> {
    match key {
        None => Ok(Seq::empty()),
        Some(k) => if header_value_valid(encode_utf8(k)) {
            Ok(seq![("Idempotency-Key"@, k)])
        } else {
            Err(
                RequestFailure::Notify(
                    "Invalid idempotency key value: "@ + "failed to parse header value"@,
                ),
            )
        },
    }
}

/// The headers of a request, in the order they are set (a later header
/// replaces an earlier one of the same name), or why there are none: the
/// signature headers, then the custom headers, then the idempotency key.
pub open spec fn request_headers(
    secret: Option<Seq<char>>,
    body: Seq<u8>,
    now_millis: int,
    custom: Seq<(Seq<char>, Seq<char>)>,
    idempotency_key: Option<Seq<char>>,
) -> Result<Seq<(Seq<char>, Seq<char>)>, RequestFailure> {
    match signature_headers(secret, body, now_millis) {
        Err(failure) => Err(failure),
        Ok(signed) => match header_problem(custom) {
            Some(message) => Err(RequestFailure::Notify(message)),
            None => match idempotency_headers(idempotency_key) {
                Err(failure) => Err(failure),
                Ok(idempotency) => Ok(signed + custom + idempotency),
            },
        },
    }
}

/// What a request carries besides its method, URL and timeout.
#[derive(Debug)]
pub struct RequestPlan {
    /// The query parameters to append to the URL, if any are configured.
    pub query: Option<Vec<(String, String)>>,
    /// The headers, in the order they are to be set.
    pub headers: Vec<(String, String)>,
    /// The body: the serialized payload.
    pub body: Vec<u8>,
}

/// What to do with a response.
#[derive(Debug)]
pub enum ResponseOutcome {
    /// The webhook accepted the notification.
    Delivered,
    /// The webhook refused it; this is the error to report.
    Refused(OmnihookError),
    /// The webhook refused it; read the body with an
    /// [`ErrorBodyCollector`](crate::error_body::ErrorBodyCollector) to report it.
    ReadErrorBody,
}

/// Whether `status` is a success status (2xx).
pub open spec fn is_success_status(status: u16) -> bool {
    200 <= status < 300
}

/// Appends the pairs `added` to `pairs`.
fn append_pairs(pairs: &mut Vec<(String, String)>, added: &Vec<(String, String)>)
    ensures
        pairs_view(final(pairs)@) == pairs_view(old(pairs)@) + pairs_view(added@),
{
    let ghost start = pairs_view(pairs@);
    let mut i: usize = 0;
    while i < added.len()
        invariant
            i <= added@.len(),
            pairs_view(pairs@) == start + pairs_view(added@).take(i as int),
        decreases added@.len() - i,
    {
        let ghost before = pairs@;
        pairs.push((owned(added[i].0.as_str()), owned(added[i].1.as_str())));
        assert(pairs@ == before.push(pairs@[before.len() as int]));
        assert(pairs_view(pairs@) =~= pairs_view(before).push(pairs_view(added@)[i as int]));
        assert(pairs_view(pairs@) =~= start + pairs_view(added@).take(i + 1));
        i += 1;
    }
    assert(pairs_view(added@).take(added@.len() as int) =~= pairs_view(added@));
}

/// An HTTP client for webhook notifications with optional HMAC signing.
#[derive(Debug)]
pub struct WebhookClient {
    url: Url,
    url_params: Option<StringMap>,
    client: Arc<ClientWithMiddleware>,
    method: HttpMethod,
    secret: Option<String>,
    headers: StringMap,
    timeout: Option<Duration>,
    include_error_body: bool,
}

impl View for WebhookClient {
    type V = WebhookClientView;

    closed spec fn view(&self) -> WebhookClientView {
        WebhookClientView {
            url: self.url,
            url_params: opt_map_view(self.url_params),
            http_client: self.client,
            method: self.method,
            secret: opt_string_view(self.secret),
            headers: self.headers@,
            timeout: self.timeout,
            include_error_body: self.include_error_body,
        }
    }
}

impl WebhookClient {
    /// Every client sends a `Content-Type` header, and names at least one
    /// query parameter when it has any (the type's invariant).
    #[verifier::type_invariant]
    spec fn well_formed(&self) -> bool {
        &&& has_key(self@.headers, "Content-Type"@)
        &&& (self@.url_params matches Some(params) ==> params.len() > 0)
    }

    /// A client for `config` that sends through `http_client`. The headers
    /// get `Content-Type: application/json` unless one named `Content-Type`
    /// is set; query parameters, when given, must not be empty.
    pub fn new(config: WebhookConfig, http_client: Arc<ClientWithMiddleware>) -> (res: Result<
        Self,
        OmnihookError,
    >)
        ensures
            res is Err <==> has_empty_url_params(config@),
            res matches Err(e) ==> (e matches OmnihookError::ConfigError(m) && m@
                == "url_params cannot be empty if provided"@),
            res matches Ok(client) ==> client@ == configured_client(config@, http_client),
    {
        let ghost config_view = config@;
        let WebhookConfig { url, url_params, method, secret, headers, timeout, include_error_body } =
            config;
        let mut headers = match headers {
            Some(map) => map,
            None => StringMap::new(),
        };
        if !headers.contains_key("Content-Type") {
            headers.insert("Content-Type", "application/json");
            assert(headers@[headers@.len() - 1].0 == "Content-Type"@);
        }
        if let Some(params) = &url_params {
            if params.is_empty() {
                return Err(OmnihookError::ConfigError(owned("url_params cannot be empty if provided")));
            }
        }
        Ok(
            WebhookClient {
                url,
                url_params,
                client: http_client,
                method,
                secret,
                headers,
                timeout,
                include_error_body,
            },
        )
    }

    /// Computes the HMAC-SHA256 signature of `payload_bytes` and returns
    /// `(hex_signature, timestamp)`.
    ///
    /// The signed message is the raw `payload_bytes` followed immediately by
    /// the decimal representation of `timestamp`, with no delimiter:
    /// `payload_bytes || timestamp.to_string().as_bytes()`. The returned
    /// timestamp is that decimal string.
    pub fn sign_payload(secret: &str, payload_bytes: &[u8], timestamp: i64) -> (res: Result<
        (String, String),
        OmnihookError,
    >)
        ensures
            secret@.len() == 0 ==> (res matches Err(OmnihookError::SigningError(m)) && m@
                == "Invalid secret: cannot be empty."@),
            secret@.len() > 0 ==> (res matches Ok((signature, stamp)) && stamp@ == decimal(
                timestamp as int,
            ) && signature@ == payload_signature(secret@, payload_bytes@, stamp@)),
            res matches Ok((signature, _)) ==> signature@.len() == 64 && forall|i: int|
                0 <= i < 64 ==> ('0' <= #[trigger] signature@[i] <= '9' || 'a' <= signature@[i]
                    <= 'f'),
    {
        if secret.is_empty() {
            return Err(OmnihookError::SigningError(owned("Invalid secret: cannot be empty.")));
        }
        let stamp = i64_to_decimal(timestamp);
        let tag = match hmac_sha256_tag(secret.as_bytes(), payload_bytes, stamp.as_str().as_bytes()) {
            Ok(tag) => tag,
            Err(text) => {
                let mut m = String::new();
                m.append("Invalid secret: ");
                m.append(text.as_str());
                return Err(OmnihookError::SigningError(m));
            },
        };
        let signature = hex_encode(tag.as_slice());
        proof {
            lemma_lower_hex(tag@);
        }
        Ok((signature, stamp))
    }

    /// The headers, query parameters and body of a request carrying the
    /// serialized payload `body`, or why it cannot be sent. `now_millis` is
    /// the current time in milliseconds since the Unix epoch; it is read only
    /// when the client signs payloads.
    pub fn prepare_request(&self, body: Vec<u8>, now_millis: u128, idempotency_key: Option<&str>) -> (res: Result<
        RequestPlan,
        OmnihookError,
    >)
        ensures
            ({
                let key = match idempotency_key {
                    Some(k) => Some(k@),
                    None => None,
                };
                match (res, request_headers(self@.secret, body@, now_millis as int, self@.headers, key)) {
                    (Ok(plan), Ok(headers)) => {
                        &&& pairs_view(plan.headers@) == headers
                        &&& plan.body@ == body@
                        &&& match plan.query {
                            Some(q) => self@.url_params == Some(pairs_view(q@)),
                            None => self@.url_params is None,
                        }
                    },
                    (Err(OmnihookError::SigningError(m)), Err(RequestFailure::Signing(f))) => m@ == f,
                    (Err(OmnihookError::NotifyFailed(m)), Err(RequestFailure::Notify(f))) => m@ == f,
                    _ => false,
                }
            }),
            res matches Ok(plan) ==> has_key(pairs_view(plan.headers@), "Content-Type"@),
            res matches Ok(plan) ==> (self@.secret matches Some(secret) ==> {
                let headers = pairs_view(plan.headers@);
                &&& headers.len() >= 2
                &&& headers[0].0 == "x-signature"@
                &&& headers[1].0 == "x-timestamp"@
                &&& headers[1].1 == decimal(now_millis as int)
                &&& headers[0].1 == payload_signature(secret, plan.body@, headers[1].1)
            }),
    {
        proof {
            use_type_invariant(self);
        }
        let mut headers: Vec<(String, String)> = Vec::new();
        if let Some(secret) = &self.secret {
            if now_millis > i64::MAX as u128 {
                return Err(OmnihookError::SigningError(owned("Timestamp overflow")));
            }
            let (signature, stamp) = match Self::sign_payload(
                secret.as_str(),
                body.as_slice(),
                now_millis as i64,
            ) {
                Ok(signed) => signed,
                Err(e) => return Err(e),
            };
            proof {
                lemma_printable_header_value(signature@);
                lemma_decimal_chars(now_millis as int);
                lemma_printable_header_value(stamp@);
            }
            if let Err(text) = check_header_value(signature.as_str()) {
                let mut m = String::new();
                m.append("Invalid signature value: ");
                m.append(text.as_str());
                return Err(OmnihookError::NotifyFailed(m));
            }
            if let Err(text) = check_header_value(stamp.as_str()) {
                let mut m = String::new();
                m.append("Invalid timestamp value: ");
                m.append(text.as_str());
                return Err(OmnihookError::NotifyFailed(m));
            }
            let ghost signature_text = signature@;
            let ghost stamp_text = stamp@;
            headers.push((owned("x-signature"), signature));
            headers.push((owned("x-timestamp"), stamp));
            assert(pairs_view(headers@) =~= seq![
                ("x-signature"@, signature_text),
                ("x-timestamp"@, stamp_text),
            ]);
        } else {
            assert(pairs_view(headers@) =~= Seq::<(Seq<char>, Seq<char>)>::empty());
        }
        let ghost signed = pairs_view(headers@);
        if let Some(m) = find_header_problem(self.headers.entries()) {
            return Err(OmnihookError::NotifyFailed(m));
        }
        append_pairs(&mut headers, self.headers.entries());
        let ghost customized = pairs_view(headers@);
        assert(customized == signed + self@.headers);
        if let Some(key) = idempotency_key {
            if let Err(text) = check_header_value(key) {
                let mut m = String::new();
                m.append("Invalid idempotency key value: ");
                m.append(text.as_str());
                return Err(OmnihookError::NotifyFailed(m));
            }
            headers.push((owned("Idempotency-Key"), owned(key)));
            assert(pairs_view(headers@) =~= customized + seq![("Idempotency-Key"@, key@)]);
        } else {
            assert(pairs_view(headers@) =~= customized + Seq::<(Seq<char>, Seq<char>)>::empty());
        }
        let query = match &self.url_params {
            Some(params) => Some(copy_pairs(params.entries())),
            None => None,
        };
        proof {
            assert(pairs_view(headers@) =~= request_headers(
                self@.secret,
                body@,
                now_millis as int,
                self@.headers,
                match idempotency_key {
                    Some(k) => Some(k@),
                    None => None,
                },
            )->Ok_0);
        }
        proof {
            let all = pairs_view(headers@);
            let i = choose|i: int| 0 <= i < self@.headers.len() && (#[trigger] self@.headers[i]).0 == "Content-Type"@;
            assert(all[signed.len() + i] == self@.headers[i]);
        }
        Ok(RequestPlan { query, headers, body })
    }

    /// What to do with a response of status `status_code`, whose text (such
    /// as "400 Bad Request") is `status_text`.
    pub fn response_outcome(&self, status_code: u16, status_text: &str) -> (res: ResponseOutcome)
        ensures
            is_success_status(status_code) ==> res is Delivered,
            !is_success_status(status_code) && !self@.include_error_body ==> (res matches ResponseOutcome::Refused(
                OmnihookError::NotifyFailed(m),
            ) && m@ == status_failure_message(status_text@)),
            !is_success_status(status_code) && self@.include_error_body ==> res is ReadErrorBody,
    {
        if 200 <= status_code && status_code < 300 {
            ResponseOutcome::Delivered
        } else if !self.include_error_body {
            ResponseOutcome::Refused(status_failure(status_text))
        } else {
            ResponseOutcome::ReadErrorBody
        }
    }

    /// The webhook URL.
    pub fn url(&self) -> (res: &Url)
        ensures
            *res == self@.url,
    {
        &self.url
    }

    /// The HTTP method.
    pub fn method(&self) -> (res: HttpMethod)
        ensures
            res == self@.method,
    {
        self.method
    }

    /// The HTTP client that sends the requests.
    pub fn http_client(&self) -> (res: &Arc<ClientWithMiddleware>)
        ensures
            *res == self@.http_client,
    {
        &self.client
    }

    /// The timeout of the requests.
    pub fn timeout(&self) -> (res: Option<Duration>)
        ensures
            res == self@.timeout,
    {
        self.timeout
    }

    /// The headers sent with every request; one is named `Content-Type`.
    pub fn headers(&self) -> (res: &StringMap)
        ensures
            res@ == self@.headers,
            has_key(res@, "Content-Type"@),
    {
        proof {
            use_type_invariant(self);
        }
        &self.headers
    }

    /// The URL query parameters; there is at least one when there are any.
    pub fn url_params(&self) -> (res: Option<&StringMap>)
        ensures
            opt_map_view(match res {
                Some(m) => Some(*m),
                None => None,
            }) == self@.url_params,
            res matches Some(m) ==> m@.len() > 0,
    {
        proof {
            use_type_invariant(self);
        }
        match &self.url_params {
            Some(m) => Some(m),
            None => None,
        }
    }

    /// Whether payloads are signed.
    pub fn signs_payloads(&self) -> (res: bool)
        ensures
            res == (self@.secret is Some),
    {
        self.secret.is_some()
    }

    /// Whether the response body is included in error messages.
    pub fn include_error_body(&self) -> (res: bool)
        ensures
            res == self@.include_error_body,
    {
        self.include_error_body
    }
}

impl WebhookConfig {
    /// Builds a [`WebhookClient`] with a default HTTP client.
    pub fn build(self) -> (res: Result<WebhookClient, OmnihookError>)
        ensures
            res matches Ok(client) ==> client@ == configured_client(self@, client@.http_client),
            res matches Ok(_) ==> !has_empty_url_params(self@),
            res matches Err(e) ==> (e is RequestError || (has_empty_url_params(self@) && (e matches OmnihookError::ConfigError(m) && m@
                == "url_params cannot be empty if provided"@))),
    {
        WebhookClient::try_from(self)
    }
}

impl vstd::std_specs::convert::TryFromSpecImpl<WebhookConfig> for WebhookClient {
    /// The outcome depends on whether a default HTTP client can be built,
    /// which no spec function describes; `try_from`'s own `ensures` says
    /// what holds.
    open spec fn obeys_try_from_spec() -> bool {
        false
    }

    open spec fn try_from_spec(config: WebhookConfig) -> Result<Self, OmnihookError> {
        vstd::pervasive::arbitrary()
    }
}

impl TryFrom<WebhookConfig> for WebhookClient {
    type Error = OmnihookError;

    /// A client for `config` with a default HTTP client.
    fn try_from(config: WebhookConfig) -> (res: Result<Self, Self::Error>)
        ensures
            res matches Ok(client) ==> client@ == configured_client(config@, client@.http_client),
            res matches Ok(_) ==> !has_empty_url_params(config@),
            res matches Err(e) ==> (e is RequestError || (has_empty_url_params(config@) && (e matches OmnihookError::ConfigError(m) && m@
                == "url_params cannot be empty if provided"@))),
    {
        match default_http_client() {
            Ok(http_client) => WebhookClient::new(config, http_client),
            Err(e) => Err(OmnihookError::RequestError(e)),
        }
    }
}


/// Signing: for every non-empty secret, the signature is the lowercase hex
/// HMAC-SHA256 keyed with all the UTF-8 bytes of the secret, over the payload
/// bytes followed by the decimal timestamp, and the stamp is that decimal
/// timestamp.
pub proof fn lemma_sign_payload_full_key(
    secret: &str,
    payload_bytes: &[u8],
    timestamp: i64,
    res: Result<(String, String), OmnihookError>,
)
    requires
        call_ensures(WebhookClient::sign_payload, (secret, payload_bytes, timestamp), res),
        secret@.len() > 0,
    ensures
        res matches Ok((signature, stamp)) && stamp@ == decimal(timestamp as int) && signature@
            == lower_hex(hmac_sha256(encode_utf8(secret@), payload_bytes@ + encode_utf8(decimal(timestamp as int)))),
{
}

/// A signing client puts first the signature of the body it sends, keyed
/// with all the UTF-8 bytes of its secret over the body followed by the
/// decimal time, and then that time.
pub proof fn lemma_prepare_request_signature(
    client: &WebhookClient,
    body: Vec<u8>,
    now_millis: u128,
    idempotency_key: Option<&str>,
    res: Result<RequestPlan, OmnihookError>,
)
    requires
        call_ensures(WebhookClient::prepare_request, (client, body, now_millis, idempotency_key), res),
    ensures
        res matches Ok(plan) ==> plan.body@ == body@,
        res matches Ok(plan) ==> (client@.secret matches Some(secret) ==> {
            let headers = pairs_view(plan.headers@);
            &&& headers.len() >= 2
            &&& headers[0] == ("x-signature"@, lower_hex(
                hmac_sha256(encode_utf8(secret), body@ + encode_utf8(decimal(now_millis as int))),
            ))
            &&& headers[1] == ("x-timestamp"@, decimal(now_millis as int))
        }),
{
}

/// A prepared request carries the body unchanged, the client's query
/// parameters, and its headers in this order: the two signature headers when
/// the client signs, the client's own headers, and the idempotency key when
/// one is given.
pub proof fn lemma_prepare_request_layout(
    client: &WebhookClient,
    body: Vec<u8>,
    now_millis: u128,
    idempotency_key: Option<&str>,
    res: Result<RequestPlan, OmnihookError>,
)
    requires
        call_ensures(WebhookClient::prepare_request, (client, body, now_millis, idempotency_key), res),
    ensures
        res matches Ok(plan) ==> {
            let headers = pairs_view(plan.headers@);
            let signed: int = if client@.secret is Some { 2 } else { 0 };
            let keyed: int = if idempotency_key is Some { 1 } else { 0 };
            &&& plan.body@ == body@
            &&& headers.len() == signed + client@.headers.len() + keyed
            &&& headers.subrange(signed, signed + client@.headers.len()) == client@.headers
            &&& match plan.query {
                Some(q) => client@.url_params == Some(pairs_view(q@)),
                None => client@.url_params is None,
            }
        },
{
    if let Ok(plan) = res {
        let headers = pairs_view(plan.headers@);
        let signed: int = if client@.secret is Some { 2 } else { 0 };
        let custom = client@.headers;
        assert(headers.subrange(signed, signed + custom.len()) =~= custom);
    }
}

/// An idempotency key is sent as the last header whenever a request is
/// prepared, whether or not the client signs; a client without a secret and
/// with valid headers prepares the request for every valid key, sending its
/// own headers and then the key.
pub proof fn lemma_prepare_request_idempotency_key(
    client: &WebhookClient,
    body: Vec<u8>,
    now_millis: u128,
    key: &str,
    res: Result<RequestPlan, OmnihookError>,
)
    requires
        call_ensures(WebhookClient::prepare_request, (client, body, now_millis, Some(key)), res),
    ensures
        res matches Ok(plan) ==> pairs_view(plan.headers@).len() > 0 && pairs_view(
            plan.headers@,
        ).last() == ("Idempotency-Key"@, key@),
        (client@.secret is None && header_problem(client@.headers) is None && header_value_valid(
            encode_utf8(key@),
        )) ==> (res matches Ok(plan) && pairs_view(plan.headers@) == client@.headers.push(
            ("Idempotency-Key"@, key@),
        )),
{
}

/// A client built from a configuration sends to its URL with its method,
/// secret, timeout, query parameters and error-body setting, through the
/// HTTP client given; its headers are the configured ones, with
/// `Content-Type: application/json` appended when none is named
/// `Content-Type`. Only empty query parameters are refused.
pub proof fn lemma_new_keeps_config(
    config: WebhookConfig,
    http_client: Arc<ClientWithMiddleware>,
    res: Result<WebhookClient, OmnihookError>,
)
    requires
        call_ensures(WebhookClient::new, (config, http_client), res),
    ensures
        (config@.url_params is None || config@.url_params->Some_0.len() > 0) ==> res is Ok,
        res matches Ok(client) ==> {
            let configured = entries_or_empty(config@.headers);
            &&& client@.method == config@.method
            &&& client@.url == config@.url
            &&& client@.secret == config@.secret
            &&& client@.timeout == config@.timeout
            &&& client@.url_params == config@.url_params
            &&& client@.include_error_body == config@.include_error_body
            &&& client@.http_client == http_client
            &&& has_key(configured, "Content-Type"@) ==> client@.headers == configured
            &&& !has_key(configured, "Content-Type"@) ==> client@.headers == configured.push(
                ("Content-Type"@, "application/json"@),
            )
        },
{
}

/// Setting a method on a configuration and then building a client from it
/// gives a client with that method.
pub proof fn lemma_client_uses_configured_method(
    config: WebhookConfig,
    method: HttpMethod,
    configured: WebhookConfig,
    http_client: Arc<ClientWithMiddleware>,
    res: Result<WebhookClient, OmnihookError>,
)
    requires
        call_ensures(WebhookConfig::with_method, (config, method), configured),
        call_ensures(WebhookClient::new, (configured, http_client), res),
    ensures
        res matches Ok(client) ==> client@.method == method,
{
}

/// A client built with the default HTTP client keeps the configuration's
/// URL, method, secret, timeout, query parameters and error-body setting.
pub proof fn lemma_build_keeps_config(config: WebhookConfig, res: Result<WebhookClient, OmnihookError>)
    requires
        call_ensures(WebhookConfig::build, (config,), res),
    ensures
        res matches Ok(client) ==> {
            &&& client@.method == config@.method
            &&& client@.url == config@.url
            &&& client@.secret == config@.secret
            &&& client@.timeout == config@.timeout
            &&& client@.url_params == config@.url_params
            &&& client@.include_error_body == config@.include_error_body
        },
{
}

} // verus!
