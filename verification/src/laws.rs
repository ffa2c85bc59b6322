//! What holds of the proxy core as a whole, stated over the models that the
//! contracts of the other modules use, and proved.

use crate::codec::base64_fits;
use crate::codec::base64_standard;
use crate::codec::is_base64_char;
use crate::config::AuthView;
use crate::config::BackendView;
use crate::config::ConfigView;
use crate::discovery::lemma_upto_same_prefix;
use crate::discovery::lists;
use crate::discovery::paired;
use crate::discovery::snapshot_of;
use crate::discovery::snapshot_upto;
use crate::discovery::BackendReportView;
use crate::discovery::SnapshotView;
use crate::headers::is_header_name;
use crate::headers::is_header_value;
use crate::headers::is_name_byte;
use crate::headers::is_value_byte;
use crate::headers::lower_bytes;
use crate::headers::max_name_len;
use crate::headers::room_limit;
use crate::headers::with_header;
use crate::headers::HeaderEntries;
use crate::model::install_steps;
use crate::model::AppStateView;
use crate::model::ModelInfoView;
use crate::router::auth_applied;
use crate::router::auth_header;
use crate::router::authorization;
use crate::router::backend_auth;
use crate::router::basic_credentials;
use crate::router::basic_encodes;
use crate::router::forward_allows;
use crate::router::post_to;
use crate::router::requested_model;
use crate::router::route_allows;
use crate::router::AuthError;
use crate::router::ForwardActionView;
use crate::router::GatewayResponseView;
use vstd::prelude::*;
use vstd::string::StringSliceAdditionalSpecFns;
use vstd::utf8::encode_scalar;
use vstd::utf8::encode_utf8;
use vstd::utf8::has_width_1_encoding;

verus! {

/// Whether a backend's report lists the model `id`.
pub open spec fn reported(report: BackendReportView, id: Seq<char>) -> bool {
    match report {
        BackendReportView::Unavailable => false,
        BackendReportView::Listed { models, .. } => lists(models, id),
    }
}

/// The last of the first `n` backends whose report lists the model `id`.
pub open spec fn last_reporter(reports: Seq<BackendReportView>, n: nat, id: Seq<char>) -> Option<int>
    decreases n,
{
    if n == 0 {
        None
    } else if reported(reports[n - 1], id) {
        Some(n - 1)
    } else {
        last_reporter(reports, (n - 1) as nat, id)
    }
}

proof fn lemma_lists_concat(front: Seq<ModelInfoView>, back: Seq<ModelInfoView>, id: Seq<char>)
    ensures
        lists(front + back, id) <==> lists(front, id) || lists(back, id),
{
    let all = front + back;
    if lists(front, id) {
        let i = choose|i: int| 0 <= i < front.len() && (#[trigger] front[i]).id == id;
        assert(all[i].id == id);
    }
    if lists(back, id) {
        let i = choose|i: int| 0 <= i < back.len() && (#[trigger] back[i]).id == id;
        assert(all[front.len() + i].id == id);
    }
    if lists(all, id) {
        let i = choose|i: int| 0 <= i < all.len() && (#[trigger] all[i]).id == id;
        if i < front.len() {
            assert(front[i].id == id);
        } else {
            assert(back[i - front.len()].id == id);
        }
    }
}

proof fn lemma_routes_upto(backends: Seq<BackendView>, reports: Seq<BackendReportView>, n: nat, id: Seq<char>)
    requires
        n <= backends.len(),
        n <= reports.len(),
    ensures
        snapshot_upto(backends, reports, n).routing_table.dom().contains(id) <==> last_reporter(reports, n, id) is Some,
        last_reporter(reports, n, id) matches Some(j) ==> {
            &&& 0 <= j < n
            &&& reported(reports[j], id)
            &&& snapshot_upto(backends, reports, n).routing_table[id] == backends[j].url
        },
        last_reporter(reports, n, id) is Some <==> lists(snapshot_upto(backends, reports, n).models, id),
    decreases n,
{
    if n > 0 {
        let before = snapshot_upto(backends, reports, (n - 1) as nat);
        lemma_routes_upto(backends, reports, (n - 1) as nat, id);
        match reports[n - 1] {
            BackendReportView::Unavailable => {},
            BackendReportView::Listed { models, tags } => {
                lemma_lists_concat(before.models, models, id);
            },
        }
    }
}

/// Every route stems from a report of the cycle. After a discovery cycle the
/// routing table holds a model exactly if some backend's accepted listing
/// holds it, the route leads to the last such backend in registry order, and
/// the table and the model list of the same snapshot hold the same models: the
/// table never routes a model that the list does not show, and the list never
/// shows a model that the table does not route.
pub proof fn law_routes_follow_reports(backends: Seq<BackendView>, reports: Seq<BackendReportView>, id: Seq<char>)
    ensures
        snapshot_of(backends, reports).routing_table.dom().contains(id) <==> last_reporter(
            reports,
            paired(backends, reports),
            id,
        ) is Some,
        last_reporter(reports, paired(backends, reports), id) matches Some(j) ==> {
            &&& 0 <= j < paired(backends, reports)
            &&& reported(reports[j], id)
            &&& snapshot_of(backends, reports).routing_table[id] == backends[j].url
        },
        snapshot_of(backends, reports).routing_table.dom().contains(id) <==> lists(
            snapshot_of(backends, reports).models,
            id,
        ),
{
    lemma_routes_upto(backends, reports, paired(backends, reports), id);
}

proof fn lemma_upto_without(backends: Seq<BackendView>, reports: Seq<BackendReportView>, failed: int, n: nat)
    requires
        backends.len() == reports.len(),
        0 <= failed < n <= reports.len(),
        reports[failed] is Unavailable,
    ensures
        snapshot_upto(backends, reports, n) == snapshot_upto(
            backends.remove(failed),
            reports.remove(failed),
            (n - 1) as nat,
        ),
    decreases n,
{
    let others = backends.remove(failed);
    let other_reports = reports.remove(failed);
    if n == failed + 1 {
        lemma_upto_same_prefix(backends, reports, others, other_reports, failed as nat);
    } else {
        lemma_upto_without(backends, reports, failed, (n - 1) as nat);
        assert(others[n - 2] == backends[n - 1]);
        assert(other_reports[n - 2] == reports[n - 1]);
    }
}

/// A failing backend is isolated. Where a backend's model listing failed, the
/// cycle installs what it would have installed had the backend not been
/// configured at all: no entry of another backend is lost, and none is added.
pub proof fn law_failed_backend_contributes_nothing(
    backends: Seq<BackendView>,
    reports: Seq<BackendReportView>,
    failed: int,
)
    requires
        backends.len() == reports.len(),
        0 <= failed < reports.len(),
        reports[failed] is Unavailable,
    ensures
        snapshot_of(backends, reports) == snapshot_of(backends.remove(failed), reports.remove(failed)),
{
    lemma_upto_without(backends, reports, failed, reports.len());
}

/// A swap shows whole caches only. In every state that the caches pass through
/// while a snapshot is installed, each of the three caches is either what it
/// was before or what the snapshot holds, never a mixture, and a lookup
/// answers from one of the two routing tables. The registry never changes.
pub proof fn law_install_shows_whole_caches(
    before: AppStateView,
    snapshot: SnapshotView,
    step: int,
    model: Seq<char>,
)
    requires
        0 <= step < install_steps(before, snapshot).len(),
    ensures
        ({
            let seen = install_steps(before, snapshot)[step];
            &&& seen.config == before.config
            &&& seen.routing_table == before.routing_table || seen.routing_table == snapshot.routing_table
            &&& seen.model_cache == before.model_cache || seen.model_cache == snapshot.models
            &&& seen.tag_cache == before.tag_cache || seen.tag_cache == snapshot.tags
            &&& seen.routing_table.dom().contains(model) ==> {
                ||| before.routing_table.dom().contains(model) && seen.routing_table[model]
                    == before.routing_table[model]
                ||| snapshot.routing_table.dom().contains(model) && seen.routing_table[model]
                    == snapshot.routing_table[model]
            }
        }),
{
}

/// Before the first discovery cycle, and whenever the routing table is empty,
/// every request is answered at once with the client error for an unknown
/// model, whatever its body asks for; nothing is sent to a backend.
pub proof fn law_empty_table_rejects(
    config: ConfigView,
    headers: HeaderEntries,
    names: nat,
    body: Seq<u8>,
    endpoint: Seq<char>,
    action: ForwardActionView,
)
    requires
        forward_allows(config, Map::empty(), headers, names, body, endpoint, action),
    ensures
        action == ForwardActionView::Respond(GatewayResponseView::UnknownModel),
        GatewayResponseView::UnknownModel.status() == 400,
        GatewayResponseView::UnknownModel.body() == "Unknown model".spec_bytes(),
{
}

/// A character that may stand in a header value: any character but a control
/// character, the horizontal tab excepted.
pub open spec fn is_value_char(c: char) -> bool {
    (c as u32 >= 32 && c as u32 != 127) || c as u32 == 9
}

/// Text made of characters that may stand in a header value.
pub open spec fn is_value_text(text: Seq<char>) -> bool {
    forall|i: int| 0 <= i < text.len() ==> is_value_char(#[trigger] text[i])
}

proof fn lemma_marked_bytes(low: u8)
    by (bit_vector)
    ensures
        (0x80u8 | low) >= 0x80u8,
        (0xC0u8 | low) >= 0x80u8,
        (0xE0u8 | low) >= 0x80u8,
        (0xF0u8 | low) >= 0x80u8,
{
}

proof fn lemma_single_byte(scalar: u32)
    by (bit_vector)
    requires
        scalar <= 0x7F,
    ensures
        scalar & 0x7F == scalar,
{
}

proof fn lemma_scalar_value(c: char)
    ensures
        is_header_value(encode_scalar(c as u32)) <==> is_value_char(c),
{
    let scalar = c as u32;
    let bytes = encode_scalar(scalar);
    if has_width_1_encoding(scalar) {
        lemma_single_byte(scalar);
        assert(bytes[0] == scalar as u8);
        if is_header_value(bytes) {
            assert(is_value_byte(bytes[0]));
        }
    } else {
        lemma_marked_bytes((scalar & 0x3F) as u8);
        lemma_marked_bytes(((scalar >> 6) & 0x3F) as u8);
        lemma_marked_bytes(((scalar >> 12) & 0x3F) as u8);
        lemma_marked_bytes(((scalar >> 6) & 0x1F) as u8);
        lemma_marked_bytes(((scalar >> 12) & 0x0F) as u8);
        lemma_marked_bytes(((scalar >> 18) & 0x7) as u8);
        assert forall|i: int| 0 <= i < bytes.len() implies is_value_byte(#[trigger] bytes[i]) by {
            assert(bytes[i] >= 0x80);
        }
    }
}

proof fn lemma_value_concat(front: Seq<u8>, back: Seq<u8>)
    ensures
        is_header_value(front + back) <==> is_header_value(front) && is_header_value(back),
{
    let all = front + back;
    if is_header_value(all) {
        assert forall|i: int| 0 <= i < front.len() implies is_value_byte(#[trigger] front[i]) by {
            assert(all[i] == front[i]);
        }
        assert forall|i: int| 0 <= i < back.len() implies is_value_byte(#[trigger] back[i]) by {
            assert(all[front.len() + i] == back[i]);
        }
    }
}

/// Header values by their characters. A text can be a header value exactly if
/// none of its characters is a control character other than the horizontal
/// tab; characters beyond ASCII are all accepted.
pub proof fn law_header_value_text(text: Seq<char>)
    ensures
        is_header_value(encode_utf8(text)) <==> is_value_text(text),
    decreases text.len(),
{
    if text.len() > 0 {
        let rest = text.drop_first();
        law_header_value_text(rest);
        lemma_scalar_value(text[0]);
        lemma_value_concat(encode_scalar(text[0] as u32), encode_utf8(rest));
        if is_value_text(text) {
            assert forall|i: int| 0 <= i < rest.len() implies is_value_char(#[trigger] rest[i]) by {
                assert(rest[i] == text[i + 1]);
            }
        }
        if is_value_char(text[0]) && is_value_text(rest) {
            assert forall|i: int| 0 <= i < text.len() implies is_value_char(#[trigger] text[i]) by {
                if i > 0 {
                    assert(text[i] == rest[i - 1]);
                }
            }
        }
    }
}

/// A character that may stand in a header name: an ASCII letter or digit, or
/// one of the marks that RFC 7230 allows in a token.
pub open spec fn is_name_char(c: char) -> bool {
    c as u32 <= 0x7F && is_name_byte(c as u8)
}

/// Text that can be a header name: between 1 and 65535 characters, each of
/// which may stand in a name.
pub open spec fn is_name_text(text: Seq<char>) -> bool {
    &&& 1 <= text.len() <= max_name_len()
    &&& forall|i: int| 0 <= i < text.len() ==> is_name_char(#[trigger] text[i])
}

/// Whether every byte may stand in a header name.
spec fn name_bytes(bytes: Seq<u8>) -> bool {
    forall|i: int| 0 <= i < bytes.len() ==> is_name_byte(#[trigger] bytes[i])
}

/// Whether every character may stand in a header name.
spec fn name_chars(text: Seq<char>) -> bool {
    forall|i: int| 0 <= i < text.len() ==> is_name_char(#[trigger] text[i])
}

proof fn lemma_scalar_name(c: char)
    ensures
        name_bytes(encode_scalar(c as u32)) <==> is_name_char(c),
        is_name_char(c) ==> encode_scalar(c as u32).len() == 1,
        encode_scalar(c as u32).len() >= 1,
{
    let scalar = c as u32;
    let bytes = encode_scalar(scalar);
    if has_width_1_encoding(scalar) {
        lemma_single_byte(scalar);
        assert(bytes[0] == c as u8);
        if name_bytes(bytes) {
            assert(is_name_byte(bytes[0]));
        }
    } else {
        lemma_marked_bytes(((scalar >> 6) & 0x1F) as u8);
        lemma_marked_bytes(((scalar >> 12) & 0x0F) as u8);
        lemma_marked_bytes(((scalar >> 18) & 0x7) as u8);
        assert(bytes[0] >= 0x80);
        if name_bytes(bytes) {
            assert(is_name_byte(bytes[0]));
        }
    }
}

proof fn lemma_name_chars(text: Seq<char>)
    ensures
        name_bytes(encode_utf8(text)) <==> name_chars(text),
        name_chars(text) ==> encode_utf8(text).len() == text.len(),
        encode_utf8(text).len() >= text.len(),
    decreases text.len(),
{
    if text.len() > 0 {
        let rest = text.drop_first();
        let head = encode_scalar(text[0] as u32);
        let tail = encode_utf8(rest);
        let all = head + tail;
        lemma_name_chars(rest);
        lemma_scalar_name(text[0]);
        if name_bytes(all) {
            assert forall|i: int| 0 <= i < head.len() implies is_name_byte(#[trigger] head[i]) by {
                assert(all[i] == head[i]);
            }
            assert forall|i: int| 0 <= i < tail.len() implies is_name_byte(#[trigger] tail[i]) by {
                assert(all[head.len() + i] == tail[i]);
            }
        }
        if name_chars(text) {
            assert(is_name_char(text[0]));
            assert forall|i: int| 0 <= i < rest.len() implies is_name_char(#[trigger] rest[i]) by {
                assert(rest[i] == text[i + 1]);
            }
        }
        if is_name_char(text[0]) && name_chars(rest) {
            assert forall|i: int| 0 <= i < text.len() implies is_name_char(#[trigger] text[i]) by {
                if i > 0 {
                    assert(text[i] == rest[i - 1]);
                }
            }
        }
        if name_bytes(head) && name_bytes(tail) {
            assert forall|i: int| 0 <= i < all.len() implies is_name_byte(#[trigger] all[i]) by {
                if i >= head.len() {
                    assert(all[i] == tail[i - head.len()]);
                } else {
                    assert(all[i] == head[i]);
                }
            }
        }
    }
}

/// Header names by their characters. A text can be a header name exactly if
/// it has between 1 and 65535 characters and each is an ASCII letter, a digit
/// or one of the token marks.
pub proof fn law_header_name_text(text: Seq<char>)
    ensures
        is_header_name(encode_utf8(text)) <==> is_name_text(text),
{
    lemma_name_chars(text);
}

/// A bearer token can be sent exactly if it holds no control character other
/// than the horizontal tab.
pub proof fn law_bearer_token_is_sendable(token: Seq<char>)
    ensures
        auth_header(AuthView::Bearer { token }) is Ok <==> is_value_text(token),
{
    reveal_strlit("Bearer ");
    let text = "Bearer "@ + token;
    law_header_value_text(text);
    if is_value_text(text) {
        assert forall|i: int| 0 <= i < token.len() implies is_value_char(#[trigger] token[i]) by {
            assert(text[7 + i] == token[i]);
        }
    }
    if is_value_text(token) {
        assert forall|i: int| 0 <= i < text.len() implies is_value_char(#[trigger] text[i]) by {
            if i >= 7 {
                assert(text[i] == token[i - 7]);
            }
        }
    }
}

/// A custom header can be sent exactly if its name can be a header name and
/// its value holds no control character other than the horizontal tab. Where
/// the name cannot be one, that is the reason reported, whatever the value.
pub proof fn law_custom_header_is_sendable(name: Seq<char>, value: Seq<char>)
    ensures
        auth_header(AuthView::CustomHeader { name, value }) is Ok <==> is_name_text(name) && is_value_text(value),
        !is_name_text(name) ==> auth_header(AuthView::CustomHeader { name, value }) == Err::<
            (Seq<u8>, Seq<u8>),
            AuthError,
        >(AuthError::InvalidHeaderName),
{
    law_header_value_text(value);
    law_header_name_text(name);
}

/// The UTF-8 encoding of a text has at most four bytes for each character.
proof fn lemma_utf8_len(text: Seq<char>)
    ensures
        encode_utf8(text).len() <= 4 * text.len(),
    decreases text.len(),
{
    if text.len() > 0 {
        lemma_utf8_len(text.drop_first());
        assert(encode_scalar(text[0] as u32).len() <= 4);
    }
}

/// Credentials of fewer than 2^28 characters are never too long.
pub proof fn law_short_credentials_fit(username: Seq<char>, password: Seq<char>)
    requires
        username.len() + password.len() < 0x1000_0000,
    ensures
        base64_fits(encode_utf8(basic_credentials(username, password)).len()),
        !(auth_header(AuthView::Basic { username, password }) matches Err(AuthError::CredentialsTooLong)),
{
    reveal_strlit(":");
    lemma_utf8_len(basic_credentials(username, password));
}

/// Basic credentials can be sent exactly if they are not too long for their
/// Base64 text to be built, whatever characters they hold: the Base64 text
/// itself holds nothing that a header value may not hold.
pub proof fn law_basic_is_sendable(username: Seq<char>, password: Seq<char>)
    requires
        basic_encodes(AuthView::Basic { username, password }),
    ensures
        auth_header(AuthView::Basic { username, password }) is Ok <==> base64_fits(
            encode_utf8(basic_credentials(username, password)).len(),
        ),
{
    reveal_strlit("Basic ");
    let encoded = base64_standard(encode_utf8(basic_credentials(username, password)));
    let text = "Basic "@ + encoded;
    law_header_value_text(text);
    if base64_fits(encode_utf8(basic_credentials(username, password)).len()) {
        assert forall|i: int| 0 <= i < text.len() implies is_value_char(#[trigger] text[i]) by {
            if i >= 6 {
                assert(text[i] == encoded[i - 6]);
                assert(is_base64_char(encoded[i - 6]));
            }
        }
    }
}

/// Authentication is applied wherever it can be. A descriptor that can be
/// built is put on every header set that holds fewer than [`room_limit`] names:
/// the call succeeds and the header holds the descriptor's value alone.
pub proof fn law_auth_is_applied(
    auth: AuthView,
    before: HeaderEntries,
    names: nat,
    after: HeaderEntries,
    result: Result<(), AuthError>,
)
    requires
        auth_applied(auth, before, names, after, result),
        auth_header(auth) is Ok,
        names < room_limit(),
    ensures
        result is Ok,
        after == with_header(before, auth_header(auth)->Ok_0.0, auth_header(auth)->Ok_0.1),
{
}

/// A bearer token that was applied is the only value of `Authorization`, it
/// reads `Bearer <token>`, and no other header changed.
pub proof fn law_bearer_sets_authorization(
    token: Seq<char>,
    before: HeaderEntries,
    names: nat,
    after: HeaderEntries,
)
    requires
        auth_applied(AuthView::Bearer { token }, before, names, after, Ok(())),
    ensures
        after.dom().contains(authorization()),
        after[authorization()] == seq![encode_utf8("Bearer "@ + token)],
        forall|name: Seq<u8>| name != authorization() ==> after.dom().contains(name) == before.dom().contains(name),
        forall|name: Seq<u8>| name != authorization() && before.dom().contains(name) ==> after[name] == before[name],
{
}

/// Basic credentials that were applied are the only value of `Authorization`,
/// it reads `Basic` followed by the Base64 text of `username:password`, and no
/// other header changed.
pub proof fn law_basic_sets_authorization(
    username: Seq<char>,
    password: Seq<char>,
    before: HeaderEntries,
    names: nat,
    after: HeaderEntries,
)
    requires
        auth_applied(AuthView::Basic { username, password }, before, names, after, Ok(())),
    ensures
        after.dom().contains(authorization()),
        after[authorization()] == seq![
            encode_utf8("Basic "@ + base64_standard(encode_utf8(username + ":"@ + password))),
        ],
        forall|name: Seq<u8>| name != authorization() ==> after.dom().contains(name) == before.dom().contains(name),
        forall|name: Seq<u8>| name != authorization() && before.dom().contains(name) ==> after[name] == before[name],
{
}

/// A custom header that was applied holds the configured value alone under
/// the configured name, taken in lower case, and no other header changed.
pub proof fn law_custom_header_is_set(
    name: Seq<char>,
    value: Seq<char>,
    before: HeaderEntries,
    names: nat,
    after: HeaderEntries,
)
    requires
        auth_applied(AuthView::CustomHeader { name, value }, before, names, after, Ok(())),
    ensures
        is_header_name(encode_utf8(name)),
        after.dom().contains(lower_bytes(encode_utf8(name))),
        after[lower_bytes(encode_utf8(name))] == seq![encode_utf8(value)],
        forall|other: Seq<u8>|
            other != lower_bytes(encode_utf8(name)) ==> after.dom().contains(other) == before.dom().contains(other),
        forall|other: Seq<u8>|
            other != lower_bytes(encode_utf8(name)) && before.dom().contains(other) ==> after[other] == before[other],
{
}

/// Authentication that cannot be applied leaves the headers untouched.
pub proof fn law_failed_auth_changes_nothing(
    auth: AuthView,
    before: HeaderEntries,
    names: nat,
    after: HeaderEntries,
    error: AuthError,
)
    requires
        auth_applied(auth, before, names, after, Err(error)),
    ensures
        after == before,
{
}

/// A request to a backend that has no authentication descriptor, or that the
/// registry does not know, is sent with the caller's headers as they came: the
/// gateway adds no `Authorization` header of its own.
pub proof fn law_no_descriptor_adds_no_header(
    config: ConfigView,
    url: Seq<char>,
    headers: HeaderEntries,
    names: nat,
    body: Seq<u8>,
    endpoint: Seq<char>,
    action: ForwardActionView,
)
    requires
        backend_auth(config.backends, url) is None,
        route_allows(config, url, headers, names, body, endpoint, action),
    ensures
        action == post_to(url, endpoint, headers, body),
        action matches ForwardActionView::Post(request) && request.headers == headers && request.body == body
            && request.url == url + endpoint,
{
}

/// A routed request is posted. Where the routing table holds the requested
/// model, the request came with fewer than [`room_limit`] header names, and the
/// backend's authentication, if it has any, can be built, exactly this is
/// done: the caller's body is posted to the backend URL followed by the
/// endpoint, with the caller's headers and the authentication header set.
pub proof fn law_routed_request_is_posted(
    config: ConfigView,
    table: Map<Seq<char>, Seq<char>>,
    headers: HeaderEntries,
    names: nat,
    body: Seq<u8>,
    endpoint: Seq<char>,
    action: ForwardActionView,
)
    requires
        forward_allows(config, table, headers, names, body, endpoint, action),
        table.dom().contains(requested_model(body)),
        names < room_limit(),
        backend_auth(config.backends, table[requested_model(body)]) matches Some(auth) ==> auth_header(auth) is Ok,
    ensures
        action == post_to(
            table[requested_model(body)],
            endpoint,
            match backend_auth(config.backends, table[requested_model(body)]) {
                Some(auth) => with_header(headers, auth_header(auth)->Ok_0.0, auth_header(auth)->Ok_0.1),
                None => headers,
            },
            body,
        ),
{
}

/// A bearer token reaches the backend. A routed request to a backend that is
/// configured with a bearer token free of control characters, on a header set
/// of fewer than [`room_limit`] names, is posted with `Authorization` holding
/// `Bearer <token>` alone, in place of whatever the caller sent under that
/// name.
pub proof fn law_bearer_request_is_posted(
    config: ConfigView,
    url: Seq<char>,
    token: Seq<char>,
    headers: HeaderEntries,
    names: nat,
    body: Seq<u8>,
    endpoint: Seq<char>,
    action: ForwardActionView,
)
    requires
        route_allows(config, url, headers, names, body, endpoint, action),
        backend_auth(config.backends, url) == Some(AuthView::Bearer { token }),
        is_value_text(token),
        names < room_limit(),
    ensures
        action == post_to(
            url,
            endpoint,
            headers.insert(authorization(), seq![encode_utf8("Bearer "@ + token)]),
            body,
        ),
{
    law_bearer_token_is_sendable(token);
}

/// Basic credentials reach the backend. A routed request to a backend that is
/// configured with basic credentials of fewer than 2^28 characters, on a
/// header set of fewer than [`room_limit`] names, is posted with
/// `Authorization` holding `Basic` and the Base64 text of `username:password`
/// alone.
pub proof fn law_basic_request_is_posted(
    config: ConfigView,
    url: Seq<char>,
    username: Seq<char>,
    password: Seq<char>,
    headers: HeaderEntries,
    names: nat,
    body: Seq<u8>,
    endpoint: Seq<char>,
    action: ForwardActionView,
)
    requires
        route_allows(config, url, headers, names, body, endpoint, action),
        backend_auth(config.backends, url) == Some(AuthView::Basic { username, password }),
        username.len() + password.len() < 0x1000_0000,
        names < room_limit(),
    ensures
        action == post_to(
            url,
            endpoint,
            headers.insert(
                authorization(),
                seq![encode_utf8("Basic "@ + base64_standard(encode_utf8(username + ":"@ + password)))],
            ),
            body,
        ),
{
    law_short_credentials_fit(username, password);
    law_basic_is_sendable(username, password);
}

/// A custom header reaches the backend. A routed request to a backend that is
/// configured with a custom header whose name can be a header name and whose
/// value is free of control characters, on a header set of fewer than
/// [`room_limit`] names, is posted with that header holding the value alone,
/// under the name in lower case.
pub proof fn law_custom_request_is_posted(
    config: ConfigView,
    url: Seq<char>,
    name: Seq<char>,
    value: Seq<char>,
    headers: HeaderEntries,
    names: nat,
    body: Seq<u8>,
    endpoint: Seq<char>,
    action: ForwardActionView,
)
    requires
        route_allows(config, url, headers, names, body, endpoint, action),
        backend_auth(config.backends, url) == Some(AuthView::CustomHeader { name, value }),
        is_name_text(name),
        is_value_text(value),
        names < room_limit(),
    ensures
        action == post_to(
            url,
            endpoint,
            headers.insert(lower_bytes(encode_utf8(name)), seq![encode_utf8(value)]),
            body,
        ),
{
    law_custom_header_is_sendable(name, value);
}

/// Whatever a request asks for, the gateway either answers with the unknown
/// model error, posts one request whose body is the caller's body, or refuses
/// because the backend's authentication cannot be put on the request. It posts
/// nothing for a model that the routing table does not hold, and it refuses
/// for lack of room only a header set of [`room_limit`] names or more.
pub proof fn law_forward_outcomes(
    config: ConfigView,
    table: Map<Seq<char>, Seq<char>>,
    headers: HeaderEntries,
    names: nat,
    body: Seq<u8>,
    endpoint: Seq<char>,
    action: ForwardActionView,
)
    requires
        forward_allows(config, table, headers, names, body, endpoint, action),
    ensures
        action is Respond <==> !table.dom().contains(requested_model(body)),
        action matches ForwardActionView::Respond(response) ==> response == GatewayResponseView::UnknownModel,
        action matches ForwardActionView::Post(request) ==> request.body == body && request.url
            == table[requested_model(body)] + endpoint,
        action == ForwardActionView::Refuse(AuthError::TooManyHeaders) ==> names >= room_limit(),
{
}

/// Requests follow discovery. Once the snapshot of a cycle is the routing
/// table, a request for a model that some backend listed is never answered as
/// unknown: it is posted to the URL of the last backend that listed the
/// model, followed by the endpoint, or refused because the authentication
/// configured for that URL cannot be put on the request. A request for a model
/// that no backend listed is answered as unknown.
pub proof fn law_requests_follow_discovery(
    config: ConfigView,
    reports: Seq<BackendReportView>,
    headers: HeaderEntries,
    names: nat,
    body: Seq<u8>,
    endpoint: Seq<char>,
    action: ForwardActionView,
)
    requires
        forward_allows(
            config,
            snapshot_of(config.backends, reports).routing_table,
            headers,
            names,
            body,
            endpoint,
            action,
        ),
    ensures
        match last_reporter(reports, paired(config.backends, reports), requested_model(body)) {
            Some(j) => {
                &&& !(action is Respond)
                &&& action matches ForwardActionView::Post(request) ==> request.url == config.backends[j].url
                    + endpoint && request.body == body
            },
            None => action == ForwardActionView::Respond(GatewayResponseView::UnknownModel),
        },
{
    law_routes_follow_reports(config.backends, reports, requested_model(body));
}

/// The two fixed error responses carry the statuses and the literal bodies
/// that callers rely on.
pub proof fn law_error_responses()
    ensures
        GatewayResponseView::UnknownModel.status() == 400,
        GatewayResponseView::UnknownModel.body() == "Unknown model".spec_bytes(),
        GatewayResponseView::ForwardingError.status() == 500,
        GatewayResponseView::ForwardingError.body() == "Internal forwarding error".spec_bytes(),
{
}

} // verus!
