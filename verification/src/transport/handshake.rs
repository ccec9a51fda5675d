//! The bearer token of the WebSocket handshake, on both sides of it.

use crate::text::{opt_text, same};
use tokio_tungstenite::tungstenite;
use tokio_tungstenite::tungstenite::client::IntoClientRequest;
use tokio_tungstenite::tungstenite::http::Request as HttpRequest;
use vstd::prelude::*;
use vstd::utf8::{encode_utf8, is_ascii_chars, is_ascii_chars_encode_utf8};

verus! {

/// An HTTP request of the `http` crate.
#[verifier::external_type_specification]
#[verifier::external_body]
#[verifier::reject_recursive_types(T)]
pub struct ExRequest<T>(HttpRequest<T>);

/// The error of the `tungstenite` crate.
#[verifier::external_type_specification]
#[verifier::external_body]
pub struct ExWsError(tungstenite::Error);

/// The value of one header of the `http` crate.
#[verifier::external_type_specification]
#[verifier::external_body]
pub struct ExHeaderValue(tungstenite::http::header::HeaderValue);

/// The error of the `http` crate for a text that cannot be a header value.
#[verifier::external_type_specification]
#[verifier::external_body]
pub struct ExInvalidHeaderValue(tungstenite::http::header::InvalidHeaderValue);

/// The header fields of a request: for each name, in lower case, the bytes of
/// its first value.
pub uninterp spec fn request_headers(request: HttpRequest<()>) -> Map<
    Seq<char>,
    Seq<u8>,
>;

/// The bytes of a header value.
pub uninterp spec fn header_bytes(value: tungstenite::http::header::HeaderValue) -> Seq<u8>;

/// The URI that a request is for, as it is printed.
pub uninterp spec fn request_uri(request: HttpRequest<()>) -> Seq<char>;

/// What a text says about where to connect to: the URI that it stands for, as it
/// is printed, and the host in it, as it is sent. `None` stands for a text that is
/// no URI with a host.
pub uninterp spec fn client_target(url: Seq<char>) -> Option<(Seq<char>, Seq<u8>)>;

/// Whether `url` can be connected to.
pub open spec fn is_client_url(url: Seq<char>) -> bool {
    client_target(url) is Some
}

/// The names of the header fields of a plain WebSocket handshake.
pub open spec fn handshake_names() -> Set<Seq<char>> {
    Set::empty().insert("host"@).insert("connection"@).insert("upgrade"@).insert(
        "sec-websocket-version"@,
    ).insert("sec-websocket-key"@)
}

/// Trusted: `tungstenite`'s `IntoClientRequest::into_client_request` on a `&str`.
/// Whether it succeeds, which URI the request is for and which host it names
/// depend on the text alone and are called [`client_target`]. The request has the
/// five header fields of a handshake, of which three always have the same value.
/// The key is random, and nothing is claimed of it.
#[verifier::external_body]
fn client_request(url: &str) -> (r: Result<HttpRequest<()>, tungstenite::Error>)
    ensures
        r is Ok <==> is_client_url(url@),
        r matches Ok(request) ==> {
            &&& client_target(url@) == Some((request_uri(request), request_headers(request)["host"@]))
            &&& request_headers(request).dom() == handshake_names()
            &&& request_headers(request)["connection"@] == encode_utf8("Upgrade"@)
            &&& request_headers(request)["upgrade"@] == encode_utf8("websocket"@)
            &&& request_headers(request)["sec-websocket-version"@] == encode_utf8("13"@)
        },
{
    url.into_client_request()
}

/// Whether a text can be the value of a header field: its bytes are neither
/// control characters, other than a tab, nor `DEL`.
pub open spec fn is_header_text(text: Seq<char>) -> bool {
    let bytes = encode_utf8(text);
    forall|i: int| 0 <= i < bytes.len() ==> #[trigger] bytes[i] == 9 || (bytes[i] >= 32 && bytes[i] != 127)
}

/// Trusted: `http`'s `HeaderValue::from_str`. It accepts exactly the texts of
/// [`is_header_text`], and the value holds the bytes of the text.
#[verifier::external_body]
fn header_value(text: &str) -> (r: Result<
    tungstenite::http::header::HeaderValue,
    tungstenite::http::header::InvalidHeaderValue,
>)
    ensures
        r is Ok <==> is_header_text(text@),
        r matches Ok(value) ==> header_bytes(value) == encode_utf8(text@),
{
    tungstenite::http::header::HeaderValue::from_str(text)
}

/// Trusted: `http`'s `HeaderMap::insert` under `AUTHORIZATION`, on the headers of
/// a request. Whatever was there under the name is replaced, and neither another
/// field nor the URI changes. The map panics when it grows beyond its limit of some ten thousand
/// fields, which a request with few of them stays away from.
#[verifier::external_body]
fn insert_authorization(
    request: &mut HttpRequest<()>,
    value: tungstenite::http::header::HeaderValue,
)
    requires
        request_headers(*old(request)).dom().finite(),
        request_headers(*old(request)).dom().len() < 100,
    ensures
        request_headers(*final(request)) == request_headers(*old(request)).insert(
            "authorization"@,
            header_bytes(value),
        ),
        request_uri(*final(request)) == request_uri(*old(request)),
{
    request.headers_mut().insert(tungstenite::http::header::AUTHORIZATION, value);
}

/// Trusted: `http`'s `HeaderMap::get` under `AUTHORIZATION`, on the headers of a
/// request. It gives the first value of the field, if there is one.
#[verifier::external_body]
fn authorization_of(request: &HttpRequest<()>) -> (r: Option<
    tungstenite::http::header::HeaderValue,
>)
    ensures
        r is Some <==> request_headers(*request).contains_key("authorization"@),
        r matches Some(value) ==> header_bytes(value) == request_headers(
            *request,
        )["authorization"@],
{
    request.headers().get(tungstenite::http::header::AUTHORIZATION).cloned()
}

/// The text of a header value, if it is all visible ASCII, blanks and tabs.
pub open spec fn visible_text(bytes: Seq<u8>) -> Option<Seq<char>> {
    if forall|i: int| 0 <= i < bytes.len() ==> #[trigger] bytes[i] == 9 || 32 <= bytes[i] < 127 {
        Some(bytes.map_values(|b: u8| b as char))
    } else {
        None
    }
}

/// Trusted: `http`'s `HeaderValue::to_str`. It gives the text of values that are
/// all visible ASCII, blanks and tabs, and of no others.
#[verifier::external_body]
fn header_text(value: &tungstenite::http::header::HeaderValue) -> (r: Option<String>)
    ensures
        opt_text(r) == visible_text(header_bytes(*value)),
{
    value.to_str().ok().map(str::to_string)
}

/// Why a connection cannot even be tried.
#[derive(Debug, Clone, Copy, PartialEq, Eq)]
pub enum ConnectRequestError {
    /// The address is no URI with a host.
    Url,
    /// The token cannot be put into a header.
    Token,
}

/// What a token is sent as.
pub open spec fn bearer(token: Seq<char>) -> Seq<char> {
    "Bearer "@ + token
}

/// A token that is empty counts as none.
pub open spec fn effective_token(token: Option<Seq<char>>) -> Option<Seq<char>> {
    match token {
        Some(token) => if token.len() == 0 {
            None
        } else {
            Some(token)
        },
        None => None,
    }
}

/// The contents of a text that may be missing.
pub open spec fn opt_str(s: Option<&str>) -> Option<Seq<char>> {
    match s {
        Some(s) => Some(s@),
        None => None,
    }
}

/// The request that opens a connection to `url`: it is for that URI and names its
/// host. With a token it carries it as a
/// bearer token; without one it carries no authorization.
pub fn build_connect_request(url: &str, ws_token: Option<&str>) -> (r: Result<
    HttpRequest<()>,
    ConnectRequestError,
>)
    ensures
        r == Err::<HttpRequest<()>, ConnectRequestError>(ConnectRequestError::Url)
            <==> !is_client_url(url@),
        r == Err::<HttpRequest<()>, ConnectRequestError>(ConnectRequestError::Token)
            <==> is_client_url(url@) && (effective_token(opt_str(ws_token)) matches Some(token)
            && !is_header_text(bearer(token))),
        r matches Ok(request) ==> {
            let headers = request_headers(request);
            &&& client_target(url@) == Some((request_uri(request), headers["host"@]))
            &&& effective_token(opt_str(ws_token)) matches Some(token) ==> headers.dom()
                == handshake_names().insert("authorization"@) && headers["authorization"@]
                == encode_utf8(bearer(token))
            &&& effective_token(opt_str(ws_token)) is None ==> headers.dom() == handshake_names()
                && !headers.contains_key("authorization"@)
            &&& headers["connection"@] == encode_utf8("Upgrade"@)
            &&& headers["upgrade"@] == encode_utf8("websocket"@)
            &&& headers["sec-websocket-version"@] == encode_utf8("13"@)
        },
{
    proof {
        lemma_authorization_is_extra();
    }
    match client_request(url) {
        Ok(request) => with_token(request, ws_token),
        Err(_) => Err(ConnectRequestError::Url),
    }
}

/// Adds a token to a request; one that is missing or empty leaves it as it is.
pub fn with_token(request: HttpRequest<()>, ws_token: Option<&str>) -> (r: Result<
    HttpRequest<()>,
    ConnectRequestError,
>)
    requires
        request_headers(request).dom().finite(),
        request_headers(request).dom().len() < 100,
    ensures
        match effective_token(opt_str(ws_token)) {
            None => r == Ok::<HttpRequest<()>, ConnectRequestError>(request),
            Some(token) => if is_header_text(bearer(token)) {
                r matches Ok(next) && request_uri(next) == request_uri(request) && request_headers(
                    next,
                ) == request_headers(request).insert(
                    "authorization"@,
                    encode_utf8(bearer(token)),
                )
            } else {
                r == Err::<HttpRequest<()>, ConnectRequestError>(ConnectRequestError::Token)
            },
        },
{
    let mut request = request;
    if let Some(token) = ws_token {
        if !token.is_empty() {
            let mut text = "Bearer ".to_string();
            text.append(token);
            match header_value(text.as_str()) {
                Ok(value) => {
                    insert_authorization(&mut request, value);
                },
                Err(_) => {
                    return Err(ConnectRequestError::Token);
                },
            }
        }
    }
    Ok(request)
}

proof fn lemma_authorization_is_extra()
    ensures
        !handshake_names().contains("authorization"@),
        handshake_names().finite(),
        handshake_names().len() <= 5,
{
    reveal_strlit("authorization");
    reveal_strlit("host");
    reveal_strlit("connection");
    reveal_strlit("upgrade");
    reveal_strlit("sec-websocket-version");
    reveal_strlit("sec-websocket-key");
    assert("authorization"@.len() == 13);
}

/// The answer to a handshake without the right token.
#[derive(Debug, PartialEq, Eq)]
pub struct Unauthorized {
    pub status: u16,
    pub body: String,
}

/// Whether header fields carry the expected bearer token.
pub open spec fn is_authorized(headers: Map<Seq<char>, Seq<u8>>, expected_token: Seq<char>) -> bool {
    headers.contains_key("authorization"@) && visible_text(headers["authorization"@]) == Some(
        bearer(expected_token),
    )
}

/// Lets a handshake through, with the response as it is, if it carries the
/// expected token, and answers 401 otherwise.
pub fn verify_listener_bearer_token<T>(
    req: &HttpRequest<()>,
    response: T,
    expected_token: &str,
) -> (r: Result<T, Unauthorized>)
    ensures
        is_authorized(request_headers(*req), expected_token@) ==> r == Ok::<T, Unauthorized>(response),
        !is_authorized(request_headers(*req), expected_token@) ==> (r matches Err(answer)
            && answer.status == 401 && answer.body@ == "Unauthorized"@),
{
    let actual = match authorization_of(req) {
        Some(value) => header_text(&value),
        None => None,
    };
    match judge_token(actual, expected_token) {
        Ok(()) => Ok(response),
        Err(answer) => Err(answer),
    }
}

/// Judges what a handshake carries as its authorization, if that is a text.
pub fn judge_token(actual: Option<String>, expected_token: &str) -> (r: Result<(), Unauthorized>)
    ensures
        r is Ok <==> opt_text(actual) == Some(bearer(expected_token@)),
        r matches Err(answer) ==> answer.status == 401 && answer.body@ == "Unauthorized"@,
{
    let actual = match actual {
        Some(text) => text,
        None => String::new(),
    };
    let mut expected = "Bearer ".to_string();
    expected.append(expected_token);
    proof {
        reveal_strlit("Bearer ");
        assert(bearer(expected_token@).len() >= 7);
    }
    if same(actual.as_str(), expected.as_str()) {
        return Ok(());
    }
    Err(Unauthorized { status: 401, body: "Unauthorized".to_string() })
}

/// Judges a handshake with this device. Without an expected token, or with an empty
/// one, every handshake is let through; otherwise see
/// [`verify_listener_bearer_token`].
pub fn authorize_listener<T>(
    req: &HttpRequest<()>,
    response: T,
    expected_token: Option<&str>,
) -> (r: Result<T, Unauthorized>)
    ensures
        match effective_token(opt_str(expected_token)) {
            None => r == Ok::<T, Unauthorized>(response),
            Some(token) => {
                &&& is_authorized(request_headers(*req), token) ==> r == Ok::<T, Unauthorized>(
                    response,
                )
                &&& !is_authorized(request_headers(*req), token) ==> (r matches Err(answer)
                    && answer.status == 401 && answer.body@ == "Unauthorized"@)
            },
        },
{
    match expected_token {
        Some(token) => {
            if token.is_empty() {
                Ok(response)
            } else {
                verify_listener_bearer_token(req, response, token)
            }
        },
        None => Ok(response),
    }
}

/// A character that prints in ASCII, a blank or a tab.
pub open spec fn is_plain(c: char) -> bool {
    c == '\t' || ' ' <= c <= '~'
}

/// A text of visible ASCII characters, blanks and tabs.
pub open spec fn is_visible(text: Seq<char>) -> bool {
    forall|i: int| 0 <= i < text.len() ==> is_plain(#[trigger] text[i])
}

/// Two ends that share a token understand each other: the request that one of
/// them builds with it is let through by the other. And only that token is.
pub proof fn law_shared_token_is_accepted(
    headers: Map<Seq<char>, Seq<u8>>,
    token: Seq<char>,
    other: Seq<char>,
)
    requires
        is_visible(token),
        headers.contains_key("authorization"@),
        headers["authorization"@] == encode_utf8(bearer(token)),
    ensures
        is_header_text(bearer(token)),
        is_authorized(headers, token),
        is_authorized(headers, other) ==> other == token,
{
    reveal_strlit("Bearer ");
    let text = bearer(token);
    assert(is_ascii_chars(text)) by {
        assert forall|i: int| 0 <= i < text.len() implies is_plain(#[trigger] text[i]) by {
            if i >= 7 {
                assert(text[i] == token[i - 7]);
            }
        }
    }
    is_ascii_chars_encode_utf8(text);
    let bytes = encode_utf8(text);
    assert forall|i: int| 0 <= i < bytes.len() implies #[trigger] bytes[i] as char == text[i] && (
    bytes[i] == 9 || 32 <= bytes[i] < 127) by {
        if i >= 7 {
            assert(text[i] == token[i - 7]);
        }
    }
    assert(bytes.map_values(|b: u8| b as char) =~= text);
    if is_authorized(headers, other) {
        assert(bearer(other) =~= text);
        assert(other =~= bearer(other).skip(7));
        assert(token =~= text.skip(7));
    }
}

/// A handshake carries the expected token exactly if its authorization is the word `Bearer`, a blank
/// and the token, and nothing else.
pub proof fn law_authorization_is_the_bearer_token(
    headers: Map<Seq<char>, Seq<u8>>,
    token: Seq<char>,
)
    ensures
        bearer(token) == seq!['B', 'e', 'a', 'r', 'e', 'r', ' '] + token,
        is_authorized(headers, token) <==> headers.contains_key("authorization"@) && {
            let bytes = headers["authorization"@];
            &&& bytes.len() == 7 + token.len()
            &&& forall|i: int|
                0 <= i < bytes.len() ==> (#[trigger] bytes[i] == 9 || 32 <= bytes[i] <= 126)
                    && bytes[i] as char == bearer(token)[i]
        },
{
    reveal_strlit("Bearer ");
    assert("Bearer "@ =~= seq!['B', 'e', 'a', 'r', 'e', 'r', ' ']);
    let bytes = headers["authorization"@];
    let text = bytes.map_values(|b: u8| b as char);
    if is_authorized(headers, token) {
        assert(text == bearer(token));
        assert forall|i: int| 0 <= i < bytes.len() implies (#[trigger] bytes[i] == 9 || 32 <= bytes[i]
            <= 126) && bytes[i] as char == bearer(token)[i] by {
            assert(text[i] == bytes[i] as char);
        }
    } else if bytes.len() == 7 + token.len() && (forall|i: int|
        0 <= i < bytes.len() ==> (#[trigger] bytes[i] == 9 || 32 <= bytes[i] <= 126) && bytes[i] as char
            == bearer(token)[i]) {
        assert(text =~= bearer(token));
    }
}

/// Only an empty token counts as none, and every other one as what it is.
pub proof fn law_only_an_empty_token_counts_as_none(token: Seq<char>, s: &str)
    ensures
        effective_token(None) is None,
        token.len() == 0 ==> effective_token(Some(token)) is None,
        token.len() > 0 ==> effective_token(Some(token)) == Some(token),
        opt_str(Some(s)) == Some(s@),
        opt_str(None) is None,
{
}

/// A header can hold every text without control characters, and no other; its bytes are told apart
/// by their numbers.
pub proof fn law_header_texts_by_their_bytes(text: Seq<char>, bytes: Seq<u8>)
    ensures
        is_header_text(text) <==> forall|i: int|
            0 <= i < encode_utf8(text).len() ==> (#[trigger] encode_utf8(text)[i] == 9 || encode_utf8(
                text,
            )[i] >= 32) && encode_utf8(text)[i] != 127,
        visible_text(bytes) matches Some(shown) ==> shown.len() == bytes.len() && forall|i: int|
            0 <= i < bytes.len() ==> #[trigger] shown[i] as u32 == bytes[i] as u32,
        visible_text(bytes) is Some <==> forall|i: int|
            0 <= i < bytes.len() ==> #[trigger] bytes[i] == 9 || 32 <= bytes[i] <= 126,
        forall|name: Seq<char>| #[trigger]
            handshake_names().contains(name) <==> name == "host"@ || name == "connection"@ || name
                == "upgrade"@ || name == "sec-websocket-version"@ || name == "sec-websocket-key"@,
{
}

/// A token that is not empty is put into the request as a bearer token, whole; without one the
/// request stays as it is. A token that no header can hold is refused.
pub proof fn law_token_is_put_into_the_request(
    request: HttpRequest<()>,
    token: Option<&str>,
    r: Result<HttpRequest<()>, ConnectRequestError>,
)
    requires
        call_ensures(with_token, (request, token), r),
    ensures
        token is None || token->0@.len() == 0 ==> r == Ok::<HttpRequest<()>, ConnectRequestError>(
            request,
        ),
        token matches Some(text) ==> (text@.len() > 0 ==> {
            &&& r is Ok <==> is_header_text("Bearer "@ + text@)
            &&& r matches Ok(next) ==> request_uri(next) == request_uri(request) && request_headers(next)
                == request_headers(request).insert(
                "authorization"@,
                encode_utf8("Bearer "@ + text@),
            )
            &&& r is Err ==> r == Err::<HttpRequest<()>, ConnectRequestError>(
                ConnectRequestError::Token,
            )
        }),
{
}

/// A request is built for the address that was given and carries the token that was given, and
/// nothing else.
pub proof fn law_request_is_built_for_its_address(
    url: &str,
    token: Option<&str>,
    r: Result<HttpRequest<()>, ConnectRequestError>,
)
    requires
        call_ensures(build_connect_request, (url, token), r),
    ensures
        r == Err::<HttpRequest<()>, ConnectRequestError>(ConnectRequestError::Url)
            <==> client_target(url@) is None,
        r matches Ok(request) ==> {
            let headers = request_headers(request);
            &&& client_target(url@) == Some((request_uri(request), headers["host"@]))
            &&& token is None || token->0@.len() == 0 ==> !headers.contains_key("authorization"@)
            &&& token is Some && token->0@.len() > 0 ==> headers.contains_key("authorization"@)
                && headers["authorization"@] == encode_utf8("Bearer "@ + token->0@)
        },
        client_target(url@) is Some && (token is None || token->0@.len() == 0 || is_header_text(
            "Bearer "@ + token->0@,
        )) ==> r is Ok,
{
    if let Err(err) = r {
        assert(err == ConnectRequestError::Url || err == ConnectRequestError::Token);
    }
}

/// A handshake is let through exactly if no token is expected, or if it carries the expected one;
/// otherwise it is answered with 401.
pub proof fn law_handshake_needs_the_expected_token<T>(
    req: &HttpRequest<()>,
    response: T,
    expected: Option<&str>,
    actual: Option<String>,
    r: Result<T, Unauthorized>,
    judged: Result<(), Unauthorized>,
)
    ensures
        call_ensures(authorize_listener::<T>, (req, response, expected), r) ==> {
            let open = expected is None || expected->0@.len() == 0;
            &&& r is Ok <==> open || is_authorized(request_headers(*req), expected->0@)
            &&& r matches Ok(given) ==> given == response
            &&& r matches Err(answer) ==> answer.status == 401 && answer.body@ == "Unauthorized"@
        },
        expected is Some && call_ensures(
            verify_listener_bearer_token::<T>,
            (req, response, expected->0),
            r,
        ) ==> {
            &&& r is Ok <==> is_authorized(request_headers(*req), expected->0@)
            &&& r matches Ok(given) ==> given == response
            &&& r matches Err(answer) ==> answer.status == 401 && answer.body@ == "Unauthorized"@
        },
        expected is Some && call_ensures(judge_token, (actual, expected->0), judged) ==> {
            &&& judged is Ok <==> actual is Some && actual->0@ == "Bearer "@ + expected->0@
            &&& judged matches Err(answer) ==> answer.status == 401 && answer.body@
                == "Unauthorized"@
        },
{
}

} // verus!
