//! The forwarding gateway: which backend a request goes to, with which
//! headers, and what the caller gets back.

use crate::codec::base64_encode;
use crate::codec::base64_fits;
use crate::codec::base64_standard;
use crate::codec::is_base64_text;
use crate::codec::json_string_member;
use crate::codec::read_json_string_member;
use crate::config::first_backend;
use crate::config::AuthConfig;
use crate::config::AuthView;
use crate::config::BackendView;
use crate::config::Config;
use crate::config::ConfigView;
use crate::headers::authorization_name;
use crate::headers::header_entries;
use crate::headers::header_name_bytes;
use crate::headers::header_names;
use crate::headers::header_value_bytes;
use crate::headers::is_header_name;
use crate::headers::is_header_value;
use crate::headers::lower_bytes;
use crate::headers::new_headers;
use crate::headers::parse_header_name;
use crate::headers::parse_header_value;
use crate::headers::room_limit;
use crate::headers::set_header;
use crate::headers::with_header;
use crate::headers::HeaderEntries;
use crate::model::model_views;
use crate::model::AppState;
use crate::model::ModelInfo;
use http::HeaderMap;
use http::HeaderName;
use http::HeaderValue;
use vstd::prelude::*;
use vstd::string::StrSliceExecFns;
use vstd::string::StringExecFns;
use vstd::string::StringSliceAdditionalSpecFns;
use vstd::utf8::encode_utf8;

verus! {

/// Why a backend's configured authentication could not be put on a request.
#[derive(Debug, Clone, Copy, PartialEq, Eq, Structural)]
pub enum AuthError {
    /// The configured header name is not a valid HTTP header name.
    InvalidHeaderName,
    /// The header value holds a control character.
    InvalidHeaderValue,
    /// The basic credentials are too long for their Base64 text to be built.
    CredentialsTooLong,
    /// The header map reported that it has reached its maximum size.
    TooManyHeaders,
}

/// The name of the header that carries bearer and basic credentials.
pub open spec fn authorization() -> Seq<u8> {
    "authorization".spec_bytes()
}

/// The value of the `Authorization` header for a bearer token.
pub open spec fn bearer_value(token: Seq<char>) -> Seq<char> {
    "Bearer "@ + token
}

/// The text that basic authentication encodes: `username:password`.
pub open spec fn basic_credentials(username: Seq<char>, password: Seq<char>) -> Seq<char> {
    username + ":"@ + password
}

/// The value of the `Authorization` header for basic credentials.
pub open spec fn basic_value(username: Seq<char>, password: Seq<char>) -> Seq<char> {
    "Basic "@ + base64_standard(encode_utf8(basic_credentials(username, password)))
}

/// The header `name: value`, if `value` can be a header value.
pub open spec fn checked_header(name: Seq<u8>, value: Seq<char>) -> Result<(Seq<u8>, Seq<u8>), AuthError> {
    if is_header_value(encode_utf8(value)) {
        Ok((name, encode_utf8(value)))
    } else {
        Err(AuthError::InvalidHeaderValue)
    }
}

/// The header, as a lower-case name and the bytes of its value, that an
/// authentication descriptor puts on an outbound request, or the reason why it
/// cannot be built.
pub open spec fn auth_header(auth: AuthView) -> Result<(Seq<u8>, Seq<u8>), AuthError> {
    match auth {
        AuthView::Bearer { token } => checked_header(authorization(), bearer_value(token)),
        AuthView::Basic { username, password } => {
            if base64_fits(encode_utf8(basic_credentials(username, password)).len()) {
                checked_header(authorization(), basic_value(username, password))
            } else {
                Err(AuthError::CredentialsTooLong)
            }
        },
        AuthView::CustomHeader { name, value } => {
            if is_header_name(encode_utf8(name)) {
                checked_header(lower_bytes(encode_utf8(name)), value)
            } else {
                Err(AuthError::InvalidHeaderName)
            }
        },
    }
}

/// What is known of the Base64 text of basic credentials once it has been
/// built: it holds only characters of the Base64 alphabet.
pub open spec fn basic_encodes(auth: AuthView) -> bool {
    auth matches AuthView::Basic { username, password } ==> {
        let credentials = encode_utf8(basic_credentials(username, password));
        base64_fits(credentials.len()) ==> is_base64_text(base64_standard(credentials))
    }
}

/// What [`apply_auth`] leaves in the header map, and returns, when the map
/// held `before` under `names` names. A descriptor that can be built is applied
/// wherever the map holds fewer than [`room_limit`] names; a map that holds
/// more may refuse the entry.
pub open spec fn auth_applied(
    auth: AuthView,
    before: HeaderEntries,
    names: nat,
    after: HeaderEntries,
    result: Result<(), AuthError>,
) -> bool {
    &&& basic_encodes(auth)
    &&& match auth_header(auth) {
        Err(e) => result matches Err(reason) && reason == e && after == before,
        Ok((name, value)) => match result {
            Ok(_) => after == with_header(before, name, value),
            Err(e) => e == AuthError::TooManyHeaders && after == before && names >= room_limit(),
        },
    }
}

/// Whether the header that was built, or the refusal, is the one that
/// `expected` describes.
pub open spec fn built_as(
    built: Result<(HeaderName, HeaderValue), AuthError>,
    expected: Result<(Seq<u8>, Seq<u8>), AuthError>,
) -> bool {
    match expected {
        Ok((name, value)) => built matches Ok((n, v)) && header_name_bytes(n) == name && header_value_bytes(v)
            == value,
        Err(e) => built matches Err(reason) && reason == e,
    }
}

/// The header `name` with the value that `text` spells.
fn build_header(name: HeaderName, text: &str) -> (r: Result<(HeaderName, HeaderValue), AuthError>)
    ensures
        built_as(r, checked_header(header_name_bytes(name), text@)),
{
    match parse_header_value(text) {
        None => Err(AuthError::InvalidHeaderValue),
        Some(value) => Ok((name, value)),
    }
}

/// Builds the header that an authentication descriptor stands for; see
/// [`auth_header`].
pub fn build_auth_header(auth: &AuthConfig) -> (r: Result<(HeaderName, HeaderValue), AuthError>)
    ensures
        built_as(r, auth_header(auth@)),
        basic_encodes(auth@),
{
    match auth {
        AuthConfig::Bearer { token } => {
            let mut text = String::from_str("Bearer ");
            text.append(token.as_str());
            build_header(authorization_name(), text.as_str())
        },
        AuthConfig::Basic { username, password } => {
            let mut credentials = username.clone();
            credentials.append(":");
            credentials.append(password.as_str());
            let bytes = credentials.as_str().as_bytes();
            if bytes.len() / 3 > (usize::MAX - 4) / 4 {
                return Err(AuthError::CredentialsTooLong);
            }
            let encoded = base64_encode(bytes);
            let mut text = String::from_str("Basic ");
            text.append(encoded.as_str());
            build_header(authorization_name(), text.as_str())
        },
        AuthConfig::CustomHeader { name, value } => {
            match parse_header_name(name.as_str().as_bytes()) {
                None => Err(AuthError::InvalidHeaderName),
                Some(parsed) => build_header(parsed, value.as_str()),
            }
        },
    }
}

/// Puts a backend's authentication on an outbound header set.
///
/// A bearer token and basic credentials set `Authorization`; a custom header
/// sets the configured name. The header replaces every value the name had.
/// When the descriptor cannot be turned into a header the map is left as it
/// was and the reason is returned. A header map that already holds
/// [`room_limit`] names or more may refuse the entry for lack of room, which is
/// reported as [`AuthError::TooManyHeaders`]; a smaller one never does.
pub fn apply_auth(auth: &AuthConfig, headers: &mut HeaderMap<HeaderValue>) -> (r: Result<(), AuthError>)
    ensures
        auth_applied(
            auth@,
            header_entries(*old(headers)),
            header_names(*old(headers)),
            header_entries(*final(headers)),
            r,
        ),
{
    match build_auth_header(auth) {
        Err(e) => Err(e),
        Ok((name, value)) => {
            if set_header(headers, name, value) {
                Ok(())
            } else {
                Err(AuthError::TooManyHeaders)
            }
        },
    }
}

/// Whether an authentication descriptor can be sent, and if not, why: the
/// descriptor is tried on an empty header set.
pub fn check_auth(auth: &AuthConfig) -> (r: Result<(), AuthError>)
    ensures
        basic_encodes(auth@),
        match auth_header(auth@) {
            Ok(_) => r is Ok,
            Err(e) => r matches Err(reason) && reason == e,
        },
{
    let mut scratch = new_headers();
    apply_auth(auth, &mut scratch)
}

/// The backend sub-path of the chat-completions operation.
pub open spec fn chat_completions_path() -> Seq<char> {
    "/v1/chat/completions"@
}

/// The backend sub-path of the plain completions operation.
pub open spec fn completions_path() -> Seq<char> {
    "/v1/completions"@
}

/// The status of the response to a request for a model that has no route.
pub const UNKNOWN_MODEL_STATUS: u16 = 400;

/// The status of the response to a request that could not be sent on.
pub const FORWARDING_ERROR_STATUS: u16 = 500;

/// The request that the gateway posts to a backend.
#[derive(Debug)]
pub struct OutboundRequest {
    /// The backend URL followed by the operation's sub-path.
    pub url: String,
    pub headers: HeaderMap<HeaderValue>,
    pub body: Vec<u8>,
}

/// The mathematical value of an [`OutboundRequest`].
pub struct OutboundView {
    pub url: Seq<char>,
    pub headers: HeaderEntries,
    pub body: Seq<u8>,
}

impl View for OutboundRequest {
    type V = OutboundView;

    open spec fn view(&self) -> OutboundView {
        OutboundView { url: self.url@, headers: header_entries(self.headers), body: self.body@ }
    }
}

/// How an attempt to reach a backend ended.
#[derive(Debug)]
pub enum BackendOutcome {
    /// The backend answered, with whatever status.
    Response { status: u16, headers: HeaderMap<HeaderValue>, body: Vec<u8> },
    /// No answer was received.
    TransportError,
}

/// What the gateway answers to its caller.
#[derive(Debug)]
pub enum GatewayResponse {
    /// The requested model has no route: a client error with a fixed body.
    UnknownModel,
    /// The backend could not be reached: a server error with a fixed body.
    ForwardingError,
    /// The backend's answer, unchanged.
    Relayed { status: u16, headers: HeaderMap<HeaderValue>, body: Vec<u8> },
}

/// The mathematical value of a [`GatewayResponse`].
pub enum GatewayResponseView {
    UnknownModel,
    ForwardingError,
    Relayed { status: u16, headers: HeaderEntries, body: Seq<u8> },
}

impl View for GatewayResponse {
    type V = GatewayResponseView;

    open spec fn view(&self) -> GatewayResponseView {
        match *self {
            GatewayResponse::UnknownModel => GatewayResponseView::UnknownModel,
            GatewayResponse::ForwardingError => GatewayResponseView::ForwardingError,
            GatewayResponse::Relayed { status, headers, body } => GatewayResponseView::Relayed {
                status,
                headers: header_entries(headers),
                body: body@,
            },
        }
    }
}

impl GatewayResponseView {
    /// The status code of the response.
    pub open spec fn status(self) -> u16 {
        match self {
            GatewayResponseView::UnknownModel => UNKNOWN_MODEL_STATUS,
            GatewayResponseView::ForwardingError => FORWARDING_ERROR_STATUS,
            GatewayResponseView::Relayed { status, .. } => status,
        }
    }

    /// The bytes of the response body.
    pub open spec fn body(self) -> Seq<u8> {
        match self {
            GatewayResponseView::UnknownModel => "Unknown model".spec_bytes(),
            GatewayResponseView::ForwardingError => "Internal forwarding error".spec_bytes(),
            GatewayResponseView::Relayed { body, .. } => body,
        }
    }
}

impl GatewayResponse {
    /// The status code of the response.
    pub fn status(&self) -> (r: u16)
        ensures
            r == self@.status(),
    {
        match self {
            GatewayResponse::UnknownModel => UNKNOWN_MODEL_STATUS,
            GatewayResponse::ForwardingError => FORWARDING_ERROR_STATUS,
            GatewayResponse::Relayed { status, .. } => *status,
        }
    }

    /// The bytes of the response body.
    pub fn body(&self) -> (r: Vec<u8>)
        ensures
            r@ == self@.body(),
    {
        match self {
            GatewayResponse::UnknownModel => "Unknown model".as_bytes_vec(),
            GatewayResponse::ForwardingError => "Internal forwarding error".as_bytes_vec(),
            GatewayResponse::Relayed { body, .. } => body.clone(),
        }
    }
}

/// What the gateway does with an inbound request.
#[derive(Debug)]
pub enum ForwardAction {
    /// Answer at once; no outbound call is made.
    Respond(GatewayResponse),
    /// Send this request to the backend with the POST method, then relay what
    /// comes back.
    Post(OutboundRequest),
    /// The backend's configured authentication cannot be put on a request.
    Refuse(AuthError),
}

/// The mathematical value of a [`ForwardAction`].
pub enum ForwardActionView {
    Respond(GatewayResponseView),
    Post(OutboundView),
    Refuse(AuthError),
}

impl View for ForwardAction {
    type V = ForwardActionView;

    open spec fn view(&self) -> ForwardActionView {
        match *self {
            ForwardAction::Respond(response) => ForwardActionView::Respond(response@),
            ForwardAction::Post(request) => ForwardActionView::Post(request@),
            ForwardAction::Refuse(error) => ForwardActionView::Refuse(error),
        }
    }
}

/// The model identifier that a JSON member names: the member, or the empty
/// string where there is none.
pub open spec fn model_of_member(member: Option<Seq<char>>) -> Seq<char> {
    match member {
        Some(model) => model,
        None => Seq::empty(),
    }
}

/// The model identifier that a request body asks for: its string member
/// `model`, or the empty string when the body is not a JSON object with one.
pub open spec fn requested_model(body: Seq<u8>) -> Seq<char> {
    model_of_member(json_string_member(body, "model"@))
}

/// The authentication configured for the backend at `url`: that of the first
/// backend with this base URL.
pub open spec fn backend_auth(backends: Seq<BackendView>, url: Seq<char>) -> Option<AuthView> {
    match first_backend(backends, url) {
        Some(backend) => backend.auth,
        None => None,
    }
}

/// Posting `body` with `headers` to the backend at `url`, at the sub-path
/// `endpoint`.
pub open spec fn post_to(
    url: Seq<char>,
    endpoint: Seq<char>,
    headers: HeaderEntries,
    body: Seq<u8>,
) -> ForwardActionView {
    ForwardActionView::Post(OutboundView { url: url + endpoint, headers, body })
}

/// What the gateway does with a request whose model is served at `url`, when
/// the request came with the headers `headers` under `names` names.
///
/// Without authentication the request is posted as it came. With
/// authentication that cannot be built the request is refused for that reason.
/// Otherwise it is posted with the authentication header set; only a header
/// set of [`room_limit`] names or more may be refused for lack of room instead.
pub open spec fn route_allows(
    config: ConfigView,
    url: Seq<char>,
    headers: HeaderEntries,
    names: nat,
    body: Seq<u8>,
    endpoint: Seq<char>,
    action: ForwardActionView,
) -> bool {
    match backend_auth(config.backends, url) {
        None => action == post_to(url, endpoint, headers, body),
        Some(auth) => basic_encodes(auth) && match auth_header(auth) {
            Err(e) => action == ForwardActionView::Refuse(e),
            Ok((name, value)) => {
                ||| action == post_to(url, endpoint, with_header(headers, name, value), body)
                ||| names >= room_limit() && action == ForwardActionView::Refuse(AuthError::TooManyHeaders)
            },
        },
    }
}

/// What the gateway does with a request, given the registry and the routing
/// table: the unknown-model answer where the table has no route for the
/// requested model, and what [`route_allows`] says where it has one.
pub open spec fn forward_allows(
    config: ConfigView,
    table: Map<Seq<char>, Seq<char>>,
    headers: HeaderEntries,
    names: nat,
    body: Seq<u8>,
    endpoint: Seq<char>,
    action: ForwardActionView,
) -> bool {
    let model = requested_model(body);
    if table.dom().contains(model) {
        route_allows(config, table[model], headers, names, body, endpoint, action)
    } else {
        action == ForwardActionView::Respond(GatewayResponseView::UnknownModel)
    }
}

/// The model identifier for a `model` member that was, or was not, found.
pub fn model_or_empty(member: Option<String>) -> (r: String)
    ensures
        r@ == model_of_member(
            match member {
                Some(m) => Some(m@),
                None => None,
            },
        ),
{
    match member {
        Some(model) => model,
        None => String::new(),
    }
}

/// The model identifier that a request body asks for. A body that is not
/// JSON, is not an object, or has no string member `model` asks for the empty
/// identifier.
pub fn extract_model(body: &[u8]) -> (r: String)
    ensures
        r@ == requested_model(body@),
{
    model_or_empty(read_json_string_member(body, "model"))
}

/// Prepares the outbound request for a model that the routing table resolved
/// to `backend_url`: the target is the backend URL followed by `endpoint`, the
/// body is the inbound body, and the headers are the inbound headers with the
/// authentication of the first registry entry whose base URL is `backend_url`.
/// A URL that no registry entry carries gets no authentication.
pub fn route(
    config: &Config,
    backend_url: String,
    headers: HeaderMap<HeaderValue>,
    body: Vec<u8>,
    endpoint: &str,
) -> (action: ForwardAction)
    ensures
        route_allows(
            config@,
            backend_url@,
            header_entries(headers),
            header_names(headers),
            body@,
            endpoint@,
            action@,
        ),
{
    let mut headers = headers;
    let applied = match config.find_backend(&backend_url) {
        Some(backend) => match &backend.auth {
            Some(auth) => apply_auth(auth, &mut headers),
            None => Ok(()),
        },
        None => Ok(()),
    };
    match applied {
        Ok(_) => {
            let mut url = backend_url;
            url.append(endpoint);
            ForwardAction::Post(OutboundRequest { url, headers, body })
        },
        Err(error) => ForwardAction::Refuse(error),
    }
}

/// Decides what to do with an inbound request: an immediate
/// [`GatewayResponse::UnknownModel`] when the routing table has no entry for
/// the model the body asks for, otherwise the request to send to the backend
/// that serves it.
pub fn forward(
    state: &AppState,
    headers: HeaderMap<HeaderValue>,
    body: Vec<u8>,
    endpoint: &str,
) -> (action: ForwardAction)
    ensures
        forward_allows(
            state@.config,
            state@.routing_table,
            header_entries(headers),
            header_names(headers),
            body@,
            endpoint@,
            action@,
        ),
{
    let model = extract_model(body.as_slice());
    match state.lookup(model.as_str()) {
        Some(backend_url) => route(&state.config, backend_url, headers, body, endpoint),
        None => ForwardAction::Respond(GatewayResponse::UnknownModel),
    }
}

/// [`forward`] for the chat-completions operation.
pub fn forward_request(state: &AppState, headers: HeaderMap<HeaderValue>, body: Vec<u8>) -> (action: ForwardAction)
    ensures
        forward_allows(
            state@.config,
            state@.routing_table,
            header_entries(headers),
            header_names(headers),
            body@,
            chat_completions_path(),
            action@,
        ),
{
    forward(state, headers, body, "/v1/chat/completions")
}

/// [`forward`] for the plain completions operation.
pub fn forward_completion(state: &AppState, headers: HeaderMap<HeaderValue>, body: Vec<u8>) -> (action: ForwardAction)
    ensures
        forward_allows(
            state@.config,
            state@.routing_table,
            header_entries(headers),
            header_names(headers),
            body@,
            completions_path(),
            action@,
        ),
{
    forward(state, headers, body, "/v1/completions")
}

/// What the caller gets for the outcome of the outbound call: the backend's
/// status, headers and body as they came, or the fixed server error when no
/// answer was received.
pub fn relay(outcome: BackendOutcome) -> (response: GatewayResponse)
    ensures
        match outcome {
            BackendOutcome::Response { status, headers, body } => response@ == (GatewayResponseView::Relayed {
                status,
                headers: header_entries(headers),
                body: body@,
            }),
            BackendOutcome::TransportError => response@ == GatewayResponseView::ForwardingError,
        },
{
    match outcome {
        BackendOutcome::Response { status, headers, body } => GatewayResponse::Relayed { status, headers, body },
        BackendOutcome::TransportError => GatewayResponse::ForwardingError,
    }
}

/// The answer to a model-listing query.
#[derive(Debug)]
pub struct ModelList {
    /// The current model list.
    pub data: Vec<ModelInfo>,
}

/// Lists the models of the current model cache, in cache order.
pub fn list_models(state: &AppState) -> (r: ModelList)
    ensures
        model_views(r.data@) == state@.model_cache,
{
    ModelList { data: state.snapshot_models() }
}

/// The body of the health check, which consults no cache.
pub fn healthz() -> (r: &'static str)
    ensures
        r@ == "OK"@,
{
    "OK"
}

} // verus!
