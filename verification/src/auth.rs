//! OIDC sign-in: the guard in front of protected routes and the callback behind it.

use vstd::prelude::*;
use vstd::string::StrSliceExecFns;
use vstd::utf8::encode_utf8;

use crate::base64::{base64_text, decode_base64, law_base64_tells_bytes_apart};
use crate::clock::is_clock_reading;
use crate::config::{OidcSettings, Settings};
use crate::http::{
    found, redirect_response, text_reply, text_response, Request, Response, ResponseView,
};
use crate::routing::{
    find_route_for_path, law_only_unmatched_paths_fall_back, law_routes_go_by_their_whole_path,
    route_for,
};
use crate::text::{
    chars_of, appended, find_from, is_white_space, join, joined, lemma_pair_views_push, lemma_split_at,
    lemma_split_concat, lemma_split_none, option_view, pair_views, same_str, split, trim, trim_bounds, views,
};
use crate::tokens::{
    decode_jwt_claims, expires_at, has_not_passed, has_passed, id_token_claims, is_session, is_sound,
    json_is_object, json_members, jwt_claims, law_sessions_are_readable, map_claims,
    mapped_headers, may_be_accepted, may_be_refused, message_of, refused_with, session_claims,
    session_members, sign_session_jwt, tells_id_token_refusal, verify_session_jwt,
};
use crate::urls::{
    all_unreserved, form_pairs, form_text, lemma_unreserved_stands, parse_form, percent_encoded,
    url_encode,
};

verus! {

/// The value that one piece of a `Cookie` header gives to `name`, if it is about `name`.
pub open spec fn cookie_in(piece: Seq<char>, name: Seq<char>) -> Option<Seq<char>> {
    let pair = trim(piece);
    if name.push('=').is_prefix_of(pair) {
        Some(pair.skip(name.len() as int + 1))
    } else {
        None
    }
}

/// The value of the first of `pieces` that is about `name`.
pub open spec fn first_cookie(pieces: Seq<Seq<char>>, name: Seq<char>) -> Option<Seq<char>>
    decreases pieces.len(),
{
    if pieces.len() == 0 {
        None
    } else if cookie_in(pieces[0], name) is Some {
        cookie_in(pieces[0], name)
    } else {
        first_cookie(pieces.drop_first(), name)
    }
}

/// The value of the cookie `name` in a `Cookie` header: pieces stand between semicolons,
/// white space around them does not count, and the first that begins with the name and an
/// equals sign gives the value.
pub open spec fn cookie_value(header: Seq<char>, name: Seq<char>) -> Option<Seq<char>> {
    first_cookie(split(header, ';'), name)
}

/// Extracts the value of a named cookie from the text of a `Cookie` header.
pub fn extract_cookie(header: &str, name: &str) -> (r: Option<String>)
    ensures
        option_view(r) == cookie_value(header@, name@),
{
    let chars: Vec<char> = chars_of(header);
    let wanted: Vec<char> = chars_of(name);
    let mut start: usize = 0;
    assert(chars@.skip(0) == chars@);
    loop
        invariant
            start <= chars@.len(),
            chars@ == header@,
            wanted@ == name@,
            first_cookie(split(chars@.skip(start as int), ';'), name@) == cookie_value(
                header@,
                name@,
            ),
        decreases chars@.len() - start,
    {
        let end: usize = find_from(&chars, start, ';');
        let ghost rest = chars@.skip(start as int);
        let ghost piece = chars@.subrange(start as int, end as int);
        proof {
            if end < chars.len() {
                lemma_split_at(rest, ';', end - start);
                assert(rest.take(end - start) == piece);
                assert(rest.skip(end - start + 1) == chars@.skip(end + 1));
                assert((seq![piece] + split(chars@.skip(end + 1), ';')).drop_first() == split(
                    chars@.skip(end + 1),
                    ';',
                ));
            } else {
                assert forall|j: int| 0 <= j < rest.len() implies rest[j] != ';' by {
                    assert(rest[j] == chars@[start + j]);
                }
                lemma_split_none(rest, ';');
                assert(rest == piece);
            }
            assert(split(rest, ';')[0] == piece);
        }
        let (from, to): (usize, usize) = trim_bounds(&chars, start, end);
        let ghost pair = trim(piece);
        if to - from > wanted.len() {
            let mut i: usize = 0;
            while i < wanted.len() && chars[from + i] == wanted[i]
                invariant
                    i <= wanted@.len(),
                    wanted@.len() < to - from,
                    from <= to <= chars@.len(),
                    forall|j: int| 0 <= j < i ==> chars@[from + j] == wanted@[j],
                decreases wanted@.len() - i,
            {
                i += 1;
            }
            if i == wanted.len() && chars[from + i] == '=' {
                proof {
                    assert(name@.push('=') == pair.subrange(0, name@.len() as int + 1));
                    assert(chars@.subrange(from + i + 1, to as int) == pair.skip(name@.len() as int + 1));
                }
                return Some(header.substring_char(from + i + 1, to).to_owned());
            }
            proof {
                let head = pair.subrange(0, name@.len() as int + 1);
                if i < wanted.len() {
                    assert(head[i as int] != name@.push('=')[i as int]);
                } else {
                    assert(head[i as int] != name@.push('=')[i as int]);
                }
            }
        }
        assert(cookie_in(piece, name@) is None);
        if end == chars.len() {
            assert(split(rest, ';').drop_first() == Seq::<Seq<char>>::empty());
            assert(first_cookie(Seq::<Seq<char>>::empty(), name@) is None);
            return None;
        }
        start = end + 1;
    }
}

/// Where a user is sent to sign in, to come back to `original`.
pub open spec fn auth_redirect_url(oidc: OidcSettings, original: Seq<char>) -> Seq<char> {
    oidc.auth_url@ + "?response_type=code&client_id="@ + percent_encoded(oidc.client_id@)
        + "&redirect_uri="@ + percent_encoded(oidc.redirect_uri@) + "&scope="@ + percent_encoded(
        joined(views(oidc.scopes@), " "@),
    ) + "&state="@ + percent_encoded(original)
}

/// Builds the IdP authorization redirect URL for a given OIDC config.
pub fn build_auth_redirect_url(oidc: &OidcSettings, original_url: &str) -> (r: String)
    ensures
        r@ == auth_redirect_url(*oidc, original_url@),
{
    let scopes: String = join(&oidc.scopes, " ");
    let mut url: String = oidc.auth_url.clone();
    url.append("?response_type=code&client_id=");
    url.append(url_encode(oidc.client_id.as_str()).as_str());
    url.append("&redirect_uri=");
    url.append(url_encode(oidc.redirect_uri.as_str()).as_str());
    url.append("&scope=");
    url.append(url_encode(scopes.as_str()).as_str());
    url.append("&state=");
    url.append(url_encode(original_url).as_str());
    url
}

/// What is sent to the token endpoint, and where the user goes afterwards.
pub struct TokenRequest {
    pub token_url: String,
    /// The fields of the form to post.
    pub form: Vec<(String, String)>,
    /// The path from which the sign-in started.
    pub state: String,
}

/// The form that exchanges an authorization code for an ID token.
pub open spec fn token_form(oidc: OidcSettings, code: Seq<char>) -> Seq<(Seq<char>, Seq<char>)> {
    seq![
        ("grant_type"@, "authorization_code"@),
        ("code"@, code),
        ("redirect_uri"@, oidc.redirect_uri@),
        ("client_id"@, oidc.client_id@),
        ("client_secret"@, oidc.client_secret@),
    ]
}

/// Adds a field to a form.
fn push_field(form: &mut Vec<(String, String)>, name: &str, value: &str)
    ensures
        pair_views(final(form)@) == pair_views(old(form)@).push((name@, value@)),
{
    let field: (String, String) = (name.to_owned(), value.to_owned());
    proof {
        lemma_pair_views_push(form@, field);
    }
    form.push(field);
}

/// Prepares the exchange of an authorization code for an ID token.
pub fn token_request(oidc: &OidcSettings, code: &str, state: String) -> (r: TokenRequest)
    ensures
        r.token_url@ == oidc.token_url@,
        pair_views(r.form@) == token_form(*oidc, code@),
        r.state == state,
{
    let mut form: Vec<(String, String)> = Vec::new();
    push_field(&mut form, "grant_type", "authorization_code");
    push_field(&mut form, "code", code);
    push_field(&mut form, "redirect_uri", oidc.redirect_uri.as_str());
    push_field(&mut form, "client_id", oidc.client_id.as_str());
    push_field(&mut form, "client_secret", oidc.client_secret.as_str());
    assert(pair_views(form@) =~= token_form(*oidc, code@));
    TokenRequest { token_url: oidc.token_url.clone(), form, state }
}

/// What becomes of a request at the OIDC guard.
pub enum OidcStep {
    /// It goes on to its backend.
    Proceed,
    /// It is answered at once.
    Reply(Response),
    /// An authorization code is to be exchanged; `finish_callback` takes the outcome.
    Exchange(TokenRequest),
}

/// The mathematical content of an `OidcStep`.
pub enum OidcStepView {
    Proceed,
    Reply(ResponseView),
    Exchange { token_url: Seq<char>, form: Seq<(Seq<char>, Seq<char>)>, state: Seq<char> },
}

impl View for OidcStep {
    type V = OidcStepView;

    open spec fn view(&self) -> OidcStepView {
        match self {
            OidcStep::Proceed => OidcStepView::Proceed,
            OidcStep::Reply(response) => OidcStepView::Reply(response@),
            OidcStep::Exchange(request) => OidcStepView::Exchange {
                token_url: request.token_url@,
                form: pair_views(request.form@),
                state: request.state@,
            },
        }
    }
}

/// The last value that `pairs` gives to `name`.
pub open spec fn last_value(pairs: Seq<(Seq<char>, Seq<char>)>, name: Seq<char>) -> Option<Seq<char>>
    decreases pairs.len(),
{
    if pairs.len() == 0 {
        None
    } else if pairs.last().0 == name {
        Some(pairs.last().1)
    } else {
        last_value(pairs.drop_last(), name)
    }
}

/// Looks up the last value that `pairs` gives to `name`.
pub fn find_param(pairs: &Vec<(String, String)>, name: &str) -> (r: Option<String>)
    ensures
        option_view(r) == last_value(pair_views(pairs@), name@),
{
    let mut n: usize = pairs.len();
    assert(pair_views(pairs@).take(n as int) == pair_views(pairs@));
    while n > 0
        invariant
            n <= pairs@.len(),
            last_value(pair_views(pairs@).take(n as int), name@) == last_value(
                pair_views(pairs@),
                name@,
            ),
        decreases n,
    {
        let ghost front = pair_views(pairs@).take(n as int);
        assert(front.last() == (pairs@[n - 1].0@, pairs@[n - 1].1@));
        assert(front.drop_last() == pair_views(pairs@).take(n - 1));
        if same_str(pairs[n - 1].0.as_str(), name) {
            return Some(pairs[n - 1].1.clone());
        }
        n -= 1;
    }
    None
}

/// The OIDC settings that protect `path`.
pub open spec fn oidc_for(settings: Settings, path: Seq<char>) -> Option<OidcSettings> {
    match route_for(settings, path) {
        Some(route) => route.oidc,
        None => None,
    }
}

/// Finds the OIDC settings that protect `path`.
pub fn find_oidc_for_path<'a>(settings: &'a Settings, path: &str) -> (r: Option<&'a OidcSettings>)
    ensures
        match r {
            Some(oidc) => oidc_for(*settings, path@) == Some(*oidc),
            None => oidc_for(*settings, path@) is None,
        },
{
    match find_route_for_path(settings, path) {
        Some(route) => route.oidc.as_ref(),
        None => None,
    }
}

/// What a callback with the given parameters leads to. The `state` parameter carries the
/// path of the original request, and the route of that path says with which IdP the code
/// is exchanged.
pub open spec fn callback_step(
    settings: Settings,
    params: Seq<(Seq<char>, Seq<char>)>,
) -> OidcStepView {
    match last_value(params, "code"@) {
        None => OidcStepView::Reply(text_reply(400, "Missing 'code' parameter"@)),
        Some(code) => {
            let state = match last_value(params, "state"@) {
                Some(s) => s,
                None => "/"@,
            };
            match oidc_for(settings, state) {
                None => OidcStepView::Reply(
                    text_reply(400, "No OIDC configuration for the originating route"@),
                ),
                Some(oidc) => OidcStepView::Exchange {
                    token_url: oidc.token_url@,
                    form: token_form(oidc, code),
                    state,
                },
            }
        },
    }
}

/// Decides what a callback with the given parameters leads to.
pub fn begin_callback(settings: &Settings, params: &Vec<(String, String)>) -> (r: OidcStep)
    ensures
        r@ == callback_step(*settings, pair_views(params@)),
{
    let code: String = match find_param(params, "code") {
        Some(c) => c,
        None => {
            return OidcStep::Reply(text_response(400, "Missing 'code' parameter"));
        },
    };
    let state: String = match find_param(params, "state") {
        Some(s) => s,
        None => "/".to_owned(),
    };
    match find_oidc_for_path(settings, state.as_str()) {
        Some(oidc) => OidcStep::Exchange(token_request(oidc, code.as_str(), state)),
        None => OidcStep::Reply(
            text_response(400, "No OIDC configuration for the originating route"),
        ),
    }
}

/// How a sign-in ended.
pub enum SignIn {
    /// The token endpoint gave no ID token, for the stated reason.
    ExchangeFailed(String),
    /// The ID token could not be decoded, for the stated reason.
    DecodeFailed(String),
    /// The session token could not be signed.
    SignFailed,
    /// The session token.
    Session(String),
}

/// The `Set-Cookie` value that keeps a session for an hour.
pub open spec fn session_cookie(token: Seq<char>) -> Seq<char> {
    "gproxy_session="@ + token + "; Path=/; HttpOnly; SameSite=Lax; Max-Age=3600"@
}

/// The answer to the user for each way in which a sign-in can end.
pub open spec fn sign_in_reply(state: Seq<char>, sign_in: SignIn) -> ResponseView {
    match sign_in {
        SignIn::ExchangeFailed(reason) => text_reply(502, "Token exchange failed: "@ + reason@),
        SignIn::DecodeFailed(reason) => text_reply(502, "ID token decode failed: "@ + reason@),
        SignIn::SignFailed => text_reply(500, "Internal error"@),
        SignIn::Session(token) => found(state, Some(session_cookie(token@))),
    }
}

/// Answers the user at the end of a sign-in.
pub fn sign_in_response(state: &str, sign_in: SignIn) -> (r: Response)
    ensures
        r@ == sign_in_reply(state@, sign_in),
{
    match sign_in {
        SignIn::ExchangeFailed(reason) => text_response(
            502,
            appended("Token exchange failed: ", reason.as_str()).as_str(),
        ),
        SignIn::DecodeFailed(reason) => text_response(
            502,
            appended("ID token decode failed: ", reason.as_str()).as_str(),
        ),
        SignIn::SignFailed => text_response(500, "Internal error"),
        SignIn::Session(token) => {
            let mut cookie: String = appended("gproxy_session=", token.as_str());
            cookie.append("; Path=/; HttpOnly; SameSite=Lax; Max-Age=3600");
            redirect_response(state, Some(cookie))
        },
    }
}

/// Whether `token` is the session of the ID token's `claims`, made at time `now` for an hour.
pub open spec fn signs_in(
    id_token: Seq<char>,
    secret: Seq<u8>,
    token: Seq<char>,
    claims: serde_json::Value,
    now: u64,
) -> bool {
    &&& id_token_claims(id_token) == Some(json_members(claims))
    &&& may_be_accepted(json_members(claims))
    &&& is_sound(claims)
    &&& now < 0x1_0000_0000_0000
    &&& is_clock_reading(now as int)
    &&& is_session(token, secret, claims, now, 3600)
}

/// Whether `token` is a session that signs in the user of the ID token.
pub open spec fn is_session_for(id_token: Seq<char>, secret: Seq<u8>, token: Seq<char>) -> bool {
    exists|claims: serde_json::Value, now: u64| #[trigger]
        signs_in(id_token, secret, token, claims, now)
}

/// Whether `end` is how a sign-in can end for the given outcome of the token exchange:
/// a failed exchange fails it; else the ID token is either refused, or its claims are in
/// the session token, signed with `secret` and good for an hour.
pub open spec fn ends_sign_in(
    exchange: Result<String, String>,
    secret: Seq<u8>,
    end: SignIn,
) -> bool {
    match exchange {
        Err(reason) => end == SignIn::ExchangeFailed(reason),
        Ok(id_token) => {
            ||| end matches SignIn::DecodeFailed(reason) && tells_id_token_refusal(
                id_token@,
                reason@,
            ) && may_be_refused(id_token_claims(id_token@))
            ||| end matches SignIn::Session(token) && is_session_for(id_token@, secret, token@)
        },
    }
}

/// Whether `token` is a session of `claims`, signed with `secret` and good for an hour.
pub open spec fn is_session_of(
    claims: serde_json::Value,
    secret: Seq<u8>,
    token: Seq<char>,
) -> bool {
    exists|now: u64|
        now < 0x1_0000_0000_0000 && is_clock_reading(now as int) && #[trigger] is_session(
            token,
            secret,
            claims,
            now,
            3600,
        )
}

/// Turns the decoded ID token into a session, or the refusal of it into the end of the sign-in.
pub fn open_session(decoded: Result<serde_json::Value, String>, cookie_secret: &[u8]) -> (r: SignIn)
    ensures
        match decoded {
            Ok(claims) => r matches SignIn::Session(token) && is_session_of(
                claims,
                cookie_secret@,
                token@,
            ),
            Err(reason) => r == SignIn::DecodeFailed(reason),
        },
{
    match decoded {
        Ok(claims) => match sign_session_jwt(&claims, cookie_secret, 3600) {
            Ok(token) => SignIn::Session(token),
            Err(_) => SignIn::SignFailed,
        },
        Err(reason) => SignIn::DecodeFailed(reason),
    }
}

/// Turns the outcome of the token exchange into a session, where it can.
pub fn sign_in(exchange: Result<String, String>, cookie_secret: &[u8]) -> (r: SignIn)
    ensures
        ends_sign_in(exchange, cookie_secret@, r),
{
    let id_token: String = match exchange {
        Ok(t) => t,
        Err(e) => {
            return SignIn::ExchangeFailed(e);
        },
    };
    let decoded: Result<serde_json::Value, String> = decode_jwt_claims(id_token.as_str());
    let ghost outcome = decoded;
    let end: SignIn = open_session(decoded, cookie_secret);
    proof {
        if let Ok(claims) = outcome {
            let token = (end->Session_0)@;
            let now = choose|now: u64|
                now < 0x1_0000_0000_0000 && is_clock_reading(now as int) && #[trigger] is_session(
                    token,
                    cookie_secret@,
                    claims,
                    now,
                    3600,
                );
            assert(signs_in(id_token@, cookie_secret@, token, claims, now));
        }
    }
    end
}

/// Ends a callback: the outcome of the token exchange becomes the answer to the user.
pub fn finish_callback(
    state: &str,
    exchange: Result<String, String>,
    cookie_secret: &[u8],
) -> (r: Response)
    ensures
        exists|end: SignIn| #[trigger]
            ends_sign_in(exchange, cookie_secret@, end) && r@ == sign_in_reply(state@, end),
{
    let end: SignIn = sign_in(exchange, cookie_secret);
    sign_in_response(state, end)
}

/// What the guard does with a request to a protected path whose session token was verified
/// with the given result: with the claims it goes on and their headers are added; else
/// the user is sent to sign in.
pub fn pass_guard(
    oidc: &OidcSettings,
    path: &str,
    verified: Result<serde_json::Value, String>,
    oidc_headers: &mut Vec<(String, String)>,
) -> (r: OidcStep)
    ensures
        match verified {
            Ok(claims) => r@ == OidcStepView::Proceed && pair_views(final(oidc_headers)@)
                == pair_views(old(oidc_headers)@) + mapped_headers(
                oidc.attributes@,
                json_members(claims),
            ),
            Err(_) => r@ == OidcStepView::Reply(found(auth_redirect_url(*oidc, path@), None))
                && *final(oidc_headers) == *old(oidc_headers),
        },
{
    match verified {
        Ok(claims) => {
            map_claims(&oidc.attributes, &claims, oidc_headers);
            OidcStep::Proceed
        },
        Err(_) => sign_in_redirect(oidc, path),
    }
}

/// Sends the user to sign in.
fn sign_in_redirect(oidc: &OidcSettings, path: &str) -> (r: OidcStep)
    ensures
        r@ == OidcStepView::Reply(found(auth_redirect_url(*oidc, path@), None)),
{
    let url: String = build_auth_redirect_url(oidc, path);
    OidcStep::Reply(redirect_response(url.as_str(), None))
}

/// The session token that a request brings along.
pub open spec fn session_token(request: Request) -> Option<Seq<char>> {
    match request.cookie {
        Some(header) => cookie_value(header@, "gproxy_session"@),
        None => None,
    }
}

/// Whether the guard may let a request pass to a path protected by `oidc`, adding `added`
/// to its headers: the request brings a session token signed with `secret`, whose time was not
/// over, and the headers are those of its claims.
pub open spec fn admitted(
    request: Request,
    oidc: OidcSettings,
    secret: Seq<u8>,
    added: Seq<(Seq<char>, Seq<char>)>,
) -> bool {
    &&& session_token(request) is Some
    &&& session_claims(session_token(request)->0, secret) is Some
    &&& may_be_accepted(session_claims(session_token(request)->0, secret)->0)
    &&& added == mapped_headers(
        oidc.attributes@,
        session_claims(session_token(request)->0, secret)->0,
    )
}

/// Whether the guard may take `step` for a request, turning the collected headers from
/// `before` into `after`. The callback is taken in hand as its query says; an unprotected
/// path proceeds; a protected path proceeds if the request is admitted, and else, that is
/// without a session or with one that brings no claims or whose time is over, the user is sent
/// to sign in.
pub open spec fn guarded(
    request: Request,
    settings: Settings,
    secret: Seq<u8>,
    before: Seq<(Seq<char>, Seq<char>)>,
    after: Seq<(Seq<char>, Seq<char>)>,
    step: OidcStepView,
) -> bool {
    if request.is_get("/_oidc/callback"@) {
        &&& step == callback_step(settings, form_pairs(encode_utf8(request.query_view())))
        &&& after == before
    } else {
        match oidc_for(settings, request.path@) {
            None => step == OidcStepView::Proceed && after == before,
            Some(oidc) => if step == OidcStepView::Proceed {
                exists|added: Seq<(Seq<char>, Seq<char>)>|
                    after == before + added && #[trigger] admitted(request, oidc, secret, added)
            } else {
                &&& step == OidcStepView::Reply(
                    found(auth_redirect_url(oidc, request.path@), None),
                )
                &&& session_token(request) is None || may_be_refused(
                    session_claims(session_token(request)->0, secret),
                )
                &&& after == before
            },
        }
    }
}

/// Processes the OIDC configuration for an incoming request: a `GET` of the callback path is
/// taken in hand; a request to a protected path proceeds with a valid session and is sent
/// to sign in without; all else proceeds. A session is looked for only in the cookie, so
/// that a request to a protected path without one is always sent to sign in.
pub fn handle_oidc(
    request: &Request,
    settings: &Settings,
    cookie_secret: &[u8],
    oidc_headers: &mut Vec<(String, String)>,
) -> (r: OidcStep)
    ensures
        guarded(
            *request,
            *settings,
            cookie_secret@,
            pair_views(old(oidc_headers)@),
            pair_views(final(oidc_headers)@),
            r@,
        ),
        request.is_get("/_oidc/callback"@) ==> forall|params: Seq<(Seq<char>, Seq<char>)>|
            request.query_view() == #[trigger] form_text(params) ==> r@ == callback_step(
                *settings,
                params,
            ),
{
    let path: &str = request.path.as_str();
    if same_str(request.method.as_str(), "GET") && same_str(path, "/_oidc/callback") {
        let query: &str = match &request.query {
            Some(q) => q.as_str(),
            None => "",
        };
        proof {
            reveal_strlit("");
            assert(query@ == request.query_view());
        }
        let params: Vec<(String, String)> = parse_form(query.as_bytes());
        return begin_callback(settings, &params);
    }
    match find_oidc_for_path(settings, path) {
        None => OidcStep::Proceed,
        Some(oidc) => {
            let token: Option<String> = match &request.cookie {
                Some(header) => extract_cookie(header.as_str(), "gproxy_session"),
                None => None,
            };
            match token {
                Some(t) => {
                    let verified: Result<serde_json::Value, String> = verify_session_jwt(
                        t.as_str(),
                        cookie_secret,
                    );
                    let ghost outcome = verified;
                    let step: OidcStep = pass_guard(oidc, path, verified, oidc_headers);
                    proof {
                        if let Ok(claims) = outcome {
                            let added = mapped_headers(oidc.attributes@, json_members(claims));
                            assert(admitted(*request, *oidc, cookie_secret@, added));
                        }
                    }
                    step
                },
                None => sign_in_redirect(oidc, path),
            }
        },
    }
}

/// Whether bytes were drawn from the random numbers of the program.
pub uninterp spec fn is_drawn(bytes: Seq<u8>) -> bool;

/// Fills a buffer with random bytes, by `rand::Rng::fill` on `rand::thread_rng`. The buffer
/// holds what was drawn, in the same number; nothing more is said of the bytes.
#[verifier::external_body]
fn fill_random(buffer: &mut Vec<u8>)
    ensures
        final(buffer)@.len() == old(buffer)@.len(),
        is_drawn(final(buffer)@),
{
    rand::Rng::fill(&mut rand::thread_rng(), buffer.as_mut_slice());
}

/// Whether `secret` is what a configured text stands for: the 32 bytes of which it is the Base64
/// text or, if it is the Base64 text of no 32 bytes, the characters of the text itself.
pub open spec fn is_configured_secret(text: Seq<char>, secret: Seq<u8>) -> bool {
    &&& forall|bytes: Seq<u8>|
        bytes.len() == 32 && text == #[trigger] base64_text(bytes) ==> secret == bytes
    &&& (forall|bytes: Seq<u8>| bytes.len() == 32 ==> text != #[trigger] base64_text(bytes))
        ==> secret == encode_utf8(text)
}

/// Reads a configured secret.
fn configured_secret(text: &str) -> (r: Vec<u8>)
    ensures
        is_configured_secret(text@, r@),
{
    if let Some(bytes) = decode_base64(text) {
        proof {
            assert forall|other: Seq<u8>| text@ == #[trigger] base64_text(other) implies other
                == bytes@ by {
                law_base64_tells_bytes_apart(other, bytes@);
            }
        }
        if bytes.len() == 32 {
            return bytes;
        }
    }
    text.as_bytes_vec()
}

/// The cookie signing secret: the configured one or, where none is configured, the bytes drawn
/// for it.
pub fn secret_of(settings: &Settings, drawn: Vec<u8>) -> (r: Vec<u8>)
    ensures
        match settings.server.cookie_secret {
            Some(text) => is_configured_secret(text@, r@),
            None => r@ == drawn@,
        },
{
    match &settings.server.cookie_secret {
        Some(text) => configured_secret(text.as_str()),
        None => drawn,
    }
}

/// Resolves the cookie signing secret from the configuration, or generates a
/// cryptographically secure random 32-byte secret if not configured.
pub fn resolve_cookie_secret(settings: &Settings) -> (r: Vec<u8>)
    ensures
        match settings.server.cookie_secret {
            Some(text) => is_configured_secret(text@, r@),
            None => r@.len() == 32 && is_drawn(r@),
        },
{
    let mut drawn: Vec<u8> = Vec::new();
    if settings.server.cookie_secret.is_none() {
        drawn = vec![0u8; 32];
        fill_random(&mut drawn);
    }
    secret_of(settings, drawn)
}

/// Without a session no request reaches the backend of a protected path: the user is sent to
/// sign in, and no header is collected.
pub proof fn law_protected_paths_need_a_session(
    request: Request,
    settings: Settings,
    secret: Seq<u8>,
    before: Seq<(Seq<char>, Seq<char>)>,
    after: Seq<(Seq<char>, Seq<char>)>,
    step: OidcStepView,
)
    requires
        guarded(request, settings, secret, before, after, step),
        !request.is_get("/_oidc/callback"@),
        oidc_for(settings, request.path@) is Some,
        session_token(request) is None || session_claims(session_token(request)->0, secret) is None,
    ensures
        step == OidcStepView::Reply(
            found(auth_redirect_url(oidc_for(settings, request.path@)->0, request.path@), None),
        ),
        after == before,
{
}

/// A session that is over does not pass the guard: unless the clock has shown a time at which a
/// session was good, a request that brings it to a protected path is sent to sign in, and no
/// header is collected.
pub proof fn law_sessions_that_are_over_do_not_pass(
    request: Request,
    settings: Settings,
    secret: Seq<u8>,
    before: Seq<(Seq<char>, Seq<char>)>,
    after: Seq<(Seq<char>, Seq<char>)>,
    step: OidcStepView,
    members: Map<Seq<char>, (bool, Seq<char>)>,
    exp: u64,
)
    requires
        guarded(request, settings, secret, before, after, step),
        !request.is_get("/_oidc/callback"@),
        oidc_for(settings, request.path@) is Some,
        session_token(request) is Some,
        session_claims(session_token(request)->0, secret) == Some(members),
        expires_at(members, exp),
    ensures
        has_not_passed(exp) || {
            &&& step == OidcStepView::Reply(
                found(auth_redirect_url(oidc_for(settings, request.path@)->0, request.path@), None),
            )
            &&& after == before
        },
{
}

/// A request that is let pass with the session of a sign-in carries the claims of that sign-in's
/// ID token: the headers added are those that the route makes of the claims, with the times of
/// the session in place of the token's own.
pub proof fn law_sessions_carry_the_claims_of_the_sign_in(
    request: Request,
    oidc: OidcSettings,
    secret: Seq<u8>,
    added: Seq<(Seq<char>, Seq<char>)>,
    id_token: Seq<char>,
    claims: serde_json::Value,
    now: u64,
)
    requires
        admitted(request, oidc, secret, added),
        signs_in(id_token, secret, session_token(request)->0, claims, now),
    ensures
        id_token_claims(id_token) == Some(json_members(claims)),
        added == mapped_headers(
            oidc.attributes@,
            session_members(json_is_object(claims), json_members(claims), now, 3600),
        ),
{
}

/// The sign-in URL is the IdP's authorization endpoint with a form-encoded query, in which
/// the original path is the value of `state`.
pub proof fn law_sign_in_url_is_a_form(oidc: OidcSettings, original: Seq<char>)
    ensures
        auth_redirect_url(oidc, original) == oidc.auth_url@ + "?"@ + form_text(
            seq![
                ("response_type"@, "code"@),
                ("client_id"@, oidc.client_id@),
                ("redirect_uri"@, oidc.redirect_uri@),
                ("scope"@, joined(views(oidc.scopes@), " "@)),
                ("state"@, original),
            ],
        ),
{
    let scope = joined(views(oidc.scopes@), " "@);
    let pairs = seq![
        ("response_type"@, "code"@),
        ("client_id"@, oidc.client_id@),
        ("redirect_uri"@, oidc.redirect_uri@),
        ("scope"@, scope),
        ("state"@, original),
    ];
    let fields = pairs.map_values(
        |p: (Seq<char>, Seq<char>)| percent_encoded(p.0) + "="@ + percent_encoded(p.1),
    );
    lemma_field_names_stand();
    lemma_field_separators();
    lemma_join_five(fields, "&"@);
    lemma_regroup(
        oidc.auth_url@,
        "?"@,
        "="@,
        "&"@,
        "response_type"@ + "="@ + "code"@,
        "client_id"@,
        percent_encoded(oidc.client_id@),
        "redirect_uri"@,
        percent_encoded(oidc.redirect_uri@),
        "scope"@,
        percent_encoded(scope),
        "state"@,
        percent_encoded(original),
    );
}

/// Five parts joined.
proof fn lemma_join_five(parts: Seq<Seq<char>>, separator: Seq<char>)
    requires
        parts.len() == 5,
    ensures
        joined(parts, separator) == parts[0] + separator + parts[1] + separator + parts[2]
            + separator + parts[3] + separator + parts[4],
{
    let p4 = parts.drop_last();
    let p3 = p4.drop_last();
    let p2 = p3.drop_last();
    let p1 = p2.drop_last();
    assert(joined(p1, separator) == parts[0]);
    assert(joined(p2, separator) == parts[0] + separator + parts[1]);
    assert(joined(p3, separator) == parts[0] + separator + parts[1] + separator + parts[2]);
    assert(joined(p4, separator) == parts[0] + separator + parts[1] + separator + parts[2]
        + separator + parts[3]);
}

/// A query written piece by piece is the same written field by field.
proof fn lemma_regroup(
    url: Seq<char>,
    mark: Seq<char>,
    eq: Seq<char>,
    and: Seq<char>,
    first: Seq<char>,
    n1: Seq<char>,
    v1: Seq<char>,
    n2: Seq<char>,
    v2: Seq<char>,
    n3: Seq<char>,
    v3: Seq<char>,
    n4: Seq<char>,
    v4: Seq<char>,
)
    ensures
        url + (mark + first + and + n1 + eq) + v1 + (and + n2 + eq) + v2 + (and + n3 + eq) + v3 + (
        and + n4 + eq) + v4 == url + mark + (first + and + (n1 + eq + v1) + and + (n2 + eq + v2)
            + and + (n3 + eq + v3) + and + (n4 + eq + v4)),
{
    let f1 = first + and + (n1 + eq + v1);
    let f2 = f1 + and + (n2 + eq + v2);
    let f3 = f2 + and + (n3 + eq + v3);
    let left1 = url + (mark + first + and + n1 + eq) + v1;
    assert(left1 =~= url + mark + f1);
    lemma_add_field(url + mark, f1, and, n2, eq, v2);
    lemma_add_field(url + mark, f2, and, n3, eq, v3);
    lemma_add_field(url + mark, f3, and, n4, eq, v4);
}

/// A field added to a query piece by piece is the same added as a whole.
proof fn lemma_add_field(
    front: Seq<char>,
    fields: Seq<char>,
    and: Seq<char>,
    name: Seq<char>,
    eq: Seq<char>,
    value: Seq<char>,
)
    ensures
        front + fields + (and + name + eq) + value == front + (fields + and + (name + eq + value)),
{
    assert(front + fields + (and + name + eq) + value =~= front + (fields + and + (name + eq
        + value)));
}

/// The fixed parts of the sign-in URL, taken apart.
proof fn lemma_field_separators()
    ensures
        "?response_type=code&client_id="@ == "?"@ + ("response_type"@ + "="@ + "code"@) + "&"@
            + "client_id"@ + "="@,
        "&redirect_uri="@ == "&"@ + "redirect_uri"@ + "="@,
        "&scope="@ == "&"@ + "scope"@ + "="@,
        "&state="@ == "&"@ + "state"@ + "="@,
{
    reveal_strlit("?");
    reveal_strlit("=");
    reveal_strlit("&");
    reveal_strlit("code");
    reveal_strlit("response_type");
    reveal_strlit("client_id");
    reveal_strlit("redirect_uri");
    reveal_strlit("scope");
    reveal_strlit("state");
    reveal_strlit("?response_type=code&client_id=");
    reveal_strlit("&redirect_uri=");
    reveal_strlit("&scope=");
    reveal_strlit("&state=");
    assert("?response_type=code&client_id="@ =~= "?"@ + ("response_type"@ + "="@ + "code"@) + "&"@
        + "client_id"@ + "="@);
    assert("&redirect_uri="@ =~= "&"@ + "redirect_uri"@ + "="@);
    assert("&scope="@ =~= "&"@ + "scope"@ + "="@);
    assert("&state="@ =~= "&"@ + "state"@ + "="@);
}

/// The names of the sign-in query's fields are their own percent-encoding.
proof fn lemma_field_names_stand()
    ensures
        percent_encoded("response_type"@) == "response_type"@,
        percent_encoded("code"@) == "code"@,
        percent_encoded("client_id"@) == "client_id"@,
        percent_encoded("redirect_uri"@) == "redirect_uri"@,
        percent_encoded("scope"@) == "scope"@,
        percent_encoded("state"@) == "state"@,
{
    reveal_strlit("response_type");
    reveal_strlit("code");
    reveal_strlit("client_id");
    reveal_strlit("redirect_uri");
    reveal_strlit("scope");
    reveal_strlit("state");
    lemma_unreserved_stands("response_type"@);
    lemma_unreserved_stands("code"@);
    lemma_unreserved_stands("client_id"@);
    lemma_unreserved_stands("redirect_uri"@);
    lemma_unreserved_stands("scope"@);
    lemma_unreserved_stands("state"@);
}

/// A callback that brings back a code and, as `state`, the path from which the sign-in
/// started leads to an exchange with the IdP that protects that path, and remembers the path.
pub proof fn law_state_carries_the_original_path(
    settings: Settings,
    path: Seq<char>,
    code: Seq<char>,
)
    requires
        oidc_for(settings, path) is Some,
    ensures
        callback_step(settings, seq![("code"@, code), ("state"@, path)]) == (
        OidcStepView::Exchange {
            token_url: (oidc_for(settings, path)->0).token_url@,
            form: token_form(oidc_for(settings, path)->0, code),
            state: path,
        }),
{
    let params = seq![("code"@, code), ("state"@, path)];
    reveal_strlit("code");
    reveal_strlit("state");
    assert("code"@.len() != "state"@.len());
    assert(params.last() == ("state"@, path));
    assert(params.drop_last().last() == ("code"@, code));
    assert(last_value(params.drop_last(), "code"@) == Some(code));
    assert(last_value(params, "code"@) == Some(code));
    assert(last_value(params, "state"@) == Some(path));
}

/// Of two parts of a `Cookie` header the first that names a cookie gives its value.
pub proof fn law_cookies_are_read_in_order(first: Seq<char>, second: Seq<char>, name: Seq<char>)
    ensures
        cookie_value(first.push(';') + second, name) == (match cookie_value(first, name) {
            Some(value) => Some(value),
            None => cookie_value(second, name),
        }),
{
    lemma_split_concat(first, second, ';');
    lemma_first_cookie_concat(split(first, ';'), split(second, ';'), name);
}

proof fn lemma_first_cookie_concat(a: Seq<Seq<char>>, b: Seq<Seq<char>>, name: Seq<char>)
    ensures
        first_cookie(a + b, name) == (match first_cookie(a, name) {
            Some(value) => Some(value),
            None => first_cookie(b, name),
        }),
    decreases a.len(),
{
    if a.len() == 0 {
        assert(a + b == b);
    } else {
        lemma_first_cookie_concat(a.drop_first(), b, name);
        assert((a + b).drop_first() == a.drop_first() + b);
        assert((a + b)[0] == a[0]);
    }
}

/// The cookie that ends a sign-in is read back as the session token, for every token without
/// a semicolon that does not end in white space (which no JWT does).
pub proof fn law_session_cookie_is_read_back(token: Seq<char>)
    requires
        !token.contains(';'),
        token.len() > 0 ==> !is_white_space(token.last()),
    ensures
        cookie_value("gproxy_session="@ + token, "gproxy_session"@) == Some(token),
        ("gproxy_session="@ + token).is_prefix_of(session_cookie(token)),
{
    reveal_strlit("gproxy_session=");
    reveal_strlit("gproxy_session");
    let pair = "gproxy_session="@ + token;
    assert forall|i: int| 0 <= i < pair.len() implies pair[i] != ';' by {
        if i >= 15 {
            assert(pair[i] == token[i - 15]);
        }
    }
    lemma_split_none(pair, ';');
    assert(!is_white_space(pair[0]));
    assert(pair.last() == if token.len() > 0 {
        token.last()
    } else {
        '='
    });
    assert(trim(pair) == pair);
    assert("gproxy_session"@.push('=') =~= "gproxy_session="@);
    assert(pair.subrange(0, 15) =~= "gproxy_session="@);
    assert(pair.skip(15) =~= token);
    assert(session_cookie(token).subrange(0, pair.len() as int) =~= pair);
}

/// The cookie of a sign-in passes the guard while its time lasts: a request that sends it back
/// proceeds with the headers of the sign-in's claims, unless the clock has passed the hour for
/// which the session is good.
pub proof fn law_the_cookie_of_a_sign_in_passes(
    request: Request,
    settings: Settings,
    secret: Seq<u8>,
    before: Seq<(Seq<char>, Seq<char>)>,
    after: Seq<(Seq<char>, Seq<char>)>,
    step: OidcStepView,
    id_token: Seq<char>,
    token: Seq<char>,
    claims: serde_json::Value,
    now: u64,
)
    requires
        guarded(request, settings, secret, before, after, step),
        !request.is_get("/_oidc/callback"@),
        oidc_for(settings, request.path@) is Some,
        signs_in(id_token, secret, token, claims, now),
        json_is_object(claims),
        request.cookie is Some,
        (request.cookie->0)@ == "gproxy_session="@ + token,
    ensures
        has_passed(now + 3600) || {
            &&& step == OidcStepView::Proceed
            &&& after == before + mapped_headers(
                (oidc_for(settings, request.path@)->0).attributes@,
                session_members(true, json_members(claims), now, 3600),
            )
        },
{
    lemma_tokens_stand_in_cookies(token);
    law_session_cookie_is_read_back(token);
    law_sessions_are_readable(token, secret, claims, now, 3600);
}

/// A token of unreserved characters can stand in a cookie as it is.
proof fn lemma_tokens_stand_in_cookies(token: Seq<char>)
    requires
        all_unreserved(token),
    ensures
        !token.contains(';'),
        token.len() > 0 ==> !is_white_space(token.last()),
{
    if token.contains(';') {
        let i = choose|i: int| 0 <= i < token.len() && token[i] == ';';
        assert('\0' <= token[i] <= '\u{7f}');
    }
    if token.len() > 0 {
        let i = token.len() - 1;
        assert('\0' <= token[i] <= '\u{7f}');
    }
}

/// A parameter is looked up by its exact name: the last pair of that very name gives the value,
/// whatever pairs of other names stand anywhere.
pub proof fn law_parameters_go_by_their_exact_name(
    pairs: Seq<(Seq<char>, Seq<char>)>,
    name: Seq<char>,
    i: int,
)
    requires
        0 <= i < pairs.len(),
        pairs[i].0 == name,
        forall|j: int| i < j < pairs.len() ==> (#[trigger] pairs[j]).0 != name,
    ensures
        last_value(pairs, name) == Some(pairs[i].1),
    decreases pairs.len(),
{
    if i < pairs.len() - 1 {
        let front = pairs.drop_last();
        assert(pairs[pairs.len() - 1].0 != name);
        assert forall|j: int| i < j < front.len() implies (#[trigger] front[j]).0 != name by {
            assert(front[j] == pairs[j]);
        }
        law_parameters_go_by_their_exact_name(front, name, i);
    }
}

/// Where no pair has exactly the name, there is no value for it.
pub proof fn law_absent_parameters_have_no_value(
    pairs: Seq<(Seq<char>, Seq<char>)>,
    name: Seq<char>,
)
    requires
        forall|j: int| 0 <= j < pairs.len() ==> (#[trigger] pairs[j]).0 != name,
    ensures
        last_value(pairs, name) is None,
    decreases pairs.len(),
{
    if pairs.len() > 0 {
        let front = pairs.drop_last();
        assert(pairs[pairs.len() - 1].0 != name);
        assert forall|j: int| 0 <= j < front.len() implies (#[trigger] front[j]).0 != name by {
            assert(front[j] == pairs[j]);
        }
        law_absent_parameters_have_no_value(front, name);
    }
}

/// The OIDC settings in force for a path are those of the first route whose path is a prefix of
/// it, and no other's: where that route has none, the path is unprotected.
pub proof fn law_a_route_is_protected_by_its_own_settings(
    settings: Settings,
    path: Seq<char>,
    i: int,
)
    requires
        0 <= i < settings.upstream.routes@.len(),
        settings.upstream.routes@[i].path@.is_prefix_of(path),
        forall|j: int|
            0 <= j < i ==> !(#[trigger] settings.upstream.routes@[j]).path@.is_prefix_of(path),
    ensures
        oidc_for(settings, path) == settings.upstream.routes@[i].oidc,
{
    law_routes_go_by_their_whole_path(settings, path, i);
}

/// The OIDC settings of the fallback are in force exactly for the paths of which no route's path
/// is a prefix.
pub proof fn law_the_fallback_protects_only_what_it_serves(settings: Settings, path: Seq<char>)
    requires
        forall|j: int|
            0 <= j < settings.upstream.routes@.len() ==> !(
            #[trigger] settings.upstream.routes@[j]).path@.is_prefix_of(path),
    ensures
        settings.upstream.fallback is None ==> oidc_for(settings, path) is None,
        settings.upstream.fallback is Some ==> oidc_for(settings, path)
            == settings.upstream.fallback->0.oidc,
{
    law_only_unmatched_paths_fall_back(settings, path);
}

/// A request to a path whose route has no OIDC settings goes on to its backend as it is,
/// whatever the other routes and the fallback hold and whatever the request brings.
pub proof fn law_public_routes_are_not_guarded(
    request: Request,
    settings: Settings,
    secret: Seq<u8>,
    before: Seq<(Seq<char>, Seq<char>)>,
    after: Seq<(Seq<char>, Seq<char>)>,
    step: OidcStepView,
    i: int,
)
    requires
        guarded(request, settings, secret, before, after, step),
        request.method@ != "GET"@ || request.path@ != "/_oidc/callback"@,
        0 <= i < settings.upstream.routes@.len(),
        settings.upstream.routes@[i].path@.is_prefix_of(request.path@),
        forall|j: int|
            0 <= j < i ==> !(#[trigger] settings.upstream.routes@[j]).path@.is_prefix_of(
                request.path@,
            ),
        settings.upstream.routes@[i].oidc is None,
    ensures
        step == OidcStepView::Proceed,
        after == before,
{
    law_a_route_is_protected_by_its_own_settings(settings, request.path@, i);
}

/// The same holds of a path that no route serves, where the fallback has no OIDC settings or
/// there is no fallback.
pub proof fn law_public_fallbacks_are_not_guarded(
    request: Request,
    settings: Settings,
    secret: Seq<u8>,
    before: Seq<(Seq<char>, Seq<char>)>,
    after: Seq<(Seq<char>, Seq<char>)>,
    step: OidcStepView,
)
    requires
        guarded(request, settings, secret, before, after, step),
        request.method@ != "GET"@ || request.path@ != "/_oidc/callback"@,
        forall|j: int|
            0 <= j < settings.upstream.routes@.len() ==> !(
            #[trigger] settings.upstream.routes@[j]).path@.is_prefix_of(request.path@),
        settings.upstream.fallback is None || settings.upstream.fallback->0.oidc is None,
    ensures
        step == OidcStepView::Proceed,
        after == before,
{
    law_the_fallback_protects_only_what_it_serves(settings, request.path@);
}

/// A request to a path whose route has OIDC settings either goes on with a session that brings
/// claims under the secret, and has the headers added that the route makes of these claims, or
/// is sent to sign in at the IdP of that route, to come back to its path, and has none added.
pub proof fn law_protected_routes_are_guarded_by_their_own_idp(
    request: Request,
    settings: Settings,
    secret: Seq<u8>,
    before: Seq<(Seq<char>, Seq<char>)>,
    after: Seq<(Seq<char>, Seq<char>)>,
    step: OidcStepView,
    i: int,
    oidc: OidcSettings,
)
    requires
        guarded(request, settings, secret, before, after, step),
        request.method@ != "GET"@ || request.path@ != "/_oidc/callback"@,
        0 <= i < settings.upstream.routes@.len(),
        settings.upstream.routes@[i].path@.is_prefix_of(request.path@),
        forall|j: int|
            0 <= j < i ==> !(#[trigger] settings.upstream.routes@[j]).path@.is_prefix_of(
                request.path@,
            ),
        settings.upstream.routes@[i].oidc == Some(oidc),
    ensures
        step == OidcStepView::Proceed ==> {
            &&& request.cookie is Some
            &&& cookie_value((request.cookie->0)@, "gproxy_session"@) matches Some(token)
            &&& jwt_claims(token, secret, true, false) matches Some(members)
            &&& may_be_accepted(members)
            &&& after == before + mapped_headers(oidc.attributes@, members)
        },
        step != OidcStepView::Proceed ==> {
            &&& step == OidcStepView::Reply(
                found(auth_redirect_url(oidc, request.path@), None),
            )
            &&& after == before
            &&& {
                ||| request.cookie is None
                ||| cookie_value((request.cookie->0)@, "gproxy_session"@) is None
                ||| may_be_refused(
                    jwt_claims(
                        cookie_value((request.cookie->0)@, "gproxy_session"@)->0,
                        secret,
                        true,
                        false,
                    ),
                )
            }
        },
{
    law_a_route_is_protected_by_its_own_settings(settings, request.path@, i);
}

/// The callback is taken in hand by the parameters of its query alone, whatever route it would
/// fall under, and adds no header.
pub proof fn law_the_callback_goes_by_its_query(
    request: Request,
    settings: Settings,
    secret: Seq<u8>,
    before: Seq<(Seq<char>, Seq<char>)>,
    after: Seq<(Seq<char>, Seq<char>)>,
    step: OidcStepView,
)
    requires
        guarded(request, settings, secret, before, after, step),
        request.method@ == "GET"@,
        request.path@ == "/_oidc/callback"@,
    ensures
        request.query is Some ==> step == callback_step(
            settings,
            form_pairs(encode_utf8((request.query->0)@)),
        ),
        request.query is None ==> step == callback_step(
            settings,
            form_pairs(encode_utf8(Seq::<char>::empty())),
        ),
        after == before,
{
    if request.query is Some {
        assert(request.query_view() == (request.query->0)@);
    } else {
        assert(request.query_view() == Seq::<char>::empty());
    }
}

/// A callback with a code, a state and any further parameters of other names, in any order,
/// leads to an exchange of that code with the IdP of the path in the state, and remembers the
/// path.
pub proof fn law_callbacks_go_by_code_and_state(
    settings: Settings,
    params: Seq<(Seq<char>, Seq<char>)>,
    c: int,
    s: int,
)
    requires
        0 <= c < params.len(),
        0 <= s < params.len(),
        params[c].0 == "code"@,
        params[s].0 == "state"@,
        forall|j: int| c < j < params.len() ==> (#[trigger] params[j]).0 != "code"@,
        forall|j: int| s < j < params.len() ==> (#[trigger] params[j]).0 != "state"@,
        oidc_for(settings, params[s].1) is Some,
    ensures
        ({
            let oidc = oidc_for(settings, params[s].1)->0;
            callback_step(settings, params) == (OidcStepView::Exchange {
                token_url: oidc.token_url@,
                form: seq![
                    ("grant_type"@, "authorization_code"@),
                    ("code"@, params[c].1),
                    ("redirect_uri"@, oidc.redirect_uri@),
                    ("client_id"@, oidc.client_id@),
                    ("client_secret"@, oidc.client_secret@),
                ],
                state: params[s].1,
            })
        }),
{
    law_parameters_go_by_their_exact_name(params, "code"@, c);
    law_parameters_go_by_their_exact_name(params, "state"@, s);
}

/// A callback with a code and no state is for the path `/`.
pub proof fn law_callbacks_without_state_are_for_the_root(
    settings: Settings,
    params: Seq<(Seq<char>, Seq<char>)>,
    c: int,
)
    requires
        0 <= c < params.len(),
        params[c].0 == "code"@,
        forall|j: int| c < j < params.len() ==> (#[trigger] params[j]).0 != "code"@,
        forall|j: int| 0 <= j < params.len() ==> (#[trigger] params[j]).0 != "state"@,
    ensures
        oidc_for(settings, "/"@) matches Some(oidc) ==> callback_step(settings, params)
            == (OidcStepView::Exchange {
            token_url: oidc.token_url@,
            form: seq![
                ("grant_type"@, "authorization_code"@),
                ("code"@, params[c].1),
                ("redirect_uri"@, oidc.redirect_uri@),
                ("client_id"@, oidc.client_id@),
                ("client_secret"@, oidc.client_secret@),
            ],
            state: "/"@,
        }),
        oidc_for(settings, "/"@) is None ==> callback_step(settings, params)
            == OidcStepView::Reply(
            text_reply(400, "No OIDC configuration for the originating route"@),
        ),
{
    law_parameters_go_by_their_exact_name(params, "code"@, c);
    law_absent_parameters_have_no_value(params, "state"@);
}

/// A callback without a code is refused, whatever else it brings, and so is one whose state is
/// the path of a route without OIDC settings.
pub proof fn law_callbacks_that_are_refused(
    settings: Settings,
    params: Seq<(Seq<char>, Seq<char>)>,
    c: int,
    s: int,
)
    ensures
        (forall|j: int| 0 <= j < params.len() ==> (#[trigger] params[j]).0 != "code"@)
            ==> callback_step(settings, params) == OidcStepView::Reply(
            text_reply(400, "Missing 'code' parameter"@),
        ),
        ({
            &&& 0 <= c < params.len()
            &&& 0 <= s < params.len()
            &&& params[c].0 == "code"@
            &&& params[s].0 == "state"@
            &&& forall|j: int| c < j < params.len() ==> (#[trigger] params[j]).0 != "code"@
            &&& forall|j: int| s < j < params.len() ==> (#[trigger] params[j]).0 != "state"@
            &&& oidc_for(settings, params[s].1) is None
        }) ==> callback_step(settings, params) == OidcStepView::Reply(
            text_reply(400, "No OIDC configuration for the originating route"@),
        ),
{
    if forall|j: int| 0 <= j < params.len() ==> (#[trigger] params[j]).0 != "code"@ {
        law_absent_parameters_have_no_value(params, "code"@);
    } else if {
        &&& 0 <= c < params.len()
        &&& 0 <= s < params.len()
        &&& params[c].0 == "code"@
        &&& params[s].0 == "state"@
        &&& forall|j: int| c < j < params.len() ==> (#[trigger] params[j]).0 != "code"@
        &&& forall|j: int| s < j < params.len() ==> (#[trigger] params[j]).0 != "state"@
    } {
        law_parameters_go_by_their_exact_name(params, "code"@, c);
        law_parameters_go_by_their_exact_name(params, "state"@, s);
    }
}

/// The form for the token endpoint has these five fields, with the values of the IdP's settings
/// and the code.
pub proof fn law_token_forms(oidc: OidcSettings, code: Seq<char>)
    ensures
        token_form(oidc, code) == seq![
            ("grant_type"@, "authorization_code"@),
            ("code"@, code),
            ("redirect_uri"@, oidc.redirect_uri@),
            ("client_id"@, oidc.client_id@),
            ("client_secret"@, oidc.client_secret@),
        ],
{
}

/// The content of a guard's step is what the step holds.
pub proof fn law_step_content(step: OidcStep)
    ensures
        step is Proceed <==> step@ is Proceed,
        step is Reply <==> step@ is Reply,
        step is Exchange <==> step@ is Exchange,
        step matches OidcStep::Reply(response) ==> step@->Reply_0 == response@,
        step matches OidcStep::Exchange(request) ==> {
            &&& step@->token_url == request.token_url@
            &&& step@->state == request.state@
            &&& step@->form.len() == request.form@.len()
            &&& forall|i: int|
                0 <= i < request.form@.len() ==> (#[trigger] step@->form[i]).0
                    == request.form@[i].0@ && step@->form[i].1 == request.form@[i].1@
        },
{
}

/// A header of one cookie gives the value to the very name before its equals sign, white space
/// around the whole left aside, and to no other name.
pub proof fn law_a_cookie_has_its_own_name(header: Seq<char>, name: Seq<char>)
    requires
        !header.contains(';'),
    ensures
        cookie_value(header, name) matches Some(value) ==> trim(header) == name.push('=') + value,
        cookie_value(header, name) is None ==> !name.push('=').is_prefix_of(trim(header)),
{
    lemma_split_none(header, ';');
    let pieces = split(header, ';');
    assert(pieces.drop_first() == Seq::<Seq<char>>::empty());
    assert(first_cookie(pieces.drop_first(), name) is None);
    assert(pieces[0] == header);
    let pair = trim(header);
    if name.push('=').is_prefix_of(pair) {
        assert(pair == name.push('=') + pair.skip(name.len() as int + 1));
    }
}

/// The sign-in URL is made of the IdP's authorization endpoint and the five parameters, each
/// value percent-encoded, the scopes with a space between each two.
pub proof fn law_sign_in_urls(oidc: OidcSettings, original: Seq<char>)
    ensures
        auth_redirect_url(oidc, original) == oidc.auth_url@ + "?response_type=code&client_id="@
            + percent_encoded(oidc.client_id@) + "&redirect_uri="@ + percent_encoded(
            oidc.redirect_uri@,
        ) + "&scope="@ + percent_encoded(
            joined(oidc.scopes@.map_values(|scope: String| scope@), " "@),
        ) + "&state="@ + percent_encoded(original),
{
    assert(views(oidc.scopes@) =~= oidc.scopes@.map_values(|scope: String| scope@));
}

/// A session is looked for in the cookie `gproxy_session` and nowhere else.
pub proof fn law_sessions_come_in_their_cookie(request: Request)
    ensures
        request.cookie is None ==> session_token(request) is None,
        request.cookie is Some ==> session_token(request) == cookie_value(
            (request.cookie->0)@,
            "gproxy_session"@,
        ),
{
}

/// The cookie of a session holds the token as it is, for an hour, on every path, out of reach of
/// scripts.
pub proof fn law_session_cookies(token: Seq<char>)
    ensures
        session_cookie(token) == "gproxy_session="@ + token
            + "; Path=/; HttpOnly; SameSite=Lax; Max-Age=3600"@,
{
}

/// Each end of a sign-in has its own answer: a session goes back to where the sign-in started
/// with its cookie, and a failure is told its whole reason.
pub proof fn law_sign_in_replies(state: Seq<char>, text: String)
    ensures
        sign_in_reply(state, SignIn::Session(text)) == found(
            state,
            Some(
                "gproxy_session="@ + text@ + "; Path=/; HttpOnly; SameSite=Lax; Max-Age=3600"@,
            ),
        ),
        sign_in_reply(state, SignIn::ExchangeFailed(text)) == text_reply(
            502,
            "Token exchange failed: "@ + text@,
        ),
        sign_in_reply(state, SignIn::DecodeFailed(text)) == text_reply(
            502,
            "ID token decode failed: "@ + text@,
        ),
        sign_in_reply(state, SignIn::SignFailed) == text_reply(500, "Internal error"@),
{
}

/// A sign-in ends as its exchange does: a failed one is told its reason, and of a successful one
/// comes a session, good for an hour from a time that the clock showed, of the claims of that
/// very ID token, or the refusal of that token.
pub proof fn law_sign_ins_end_as_the_exchange_does(
    exchange: Result<String, String>,
    secret: Seq<u8>,
    end: SignIn,
)
    requires
        ends_sign_in(exchange, secret, end),
    ensures
        exchange matches Err(reason) ==> end == SignIn::ExchangeFailed(reason),
        exchange matches Ok(id_token) ==> {
            ||| end matches SignIn::DecodeFailed(reason) && exists|text: Seq<char>| #[trigger]
                refused_with(id_token@, Seq::empty(), false, false, text) && reason@
                    == "JWT decode error: "@ + text && may_be_refused(
                    jwt_claims(message_of(id_token@), Seq::empty(), false, false),
                )
            ||| end matches SignIn::Session(token) && exists|claims: serde_json::Value, now: u64|
                is_clock_reading(now as int) && may_be_accepted(json_members(claims)) && jwt_claims(
                    message_of(id_token@),
                    Seq::empty(),
                    false,
                    false,
                ) == Some(json_members(claims)) && #[trigger] is_session(
                    token@,
                    secret,
                    claims,
                    now,
                    3600,
                )
        },
{
    if let Ok(id_token) = exchange {
        if let SignIn::Session(token) = end {
            let (claims, now) = choose|claims: serde_json::Value, now: u64| #[trigger]
                signs_in(id_token@, secret, token@, claims, now);
            assert(is_session(token@, secret, claims, now, 3600));
        }
    }
}

/// A session of claims was made at a time that the clock showed, for an hour.
pub proof fn law_sessions_last_an_hour(
    claims: serde_json::Value,
    secret: Seq<u8>,
    token: Seq<char>,
)
    requires
        is_session_of(claims, secret, token),
    ensures
        exists|now: u64|
            is_clock_reading(now as int) && #[trigger] is_session(token, secret, claims, now, 3600),
{
}

/// A configured secret is the 32 bytes of which it is the Base64 text, and else the text's own
/// bytes.
pub proof fn law_configured_secrets(text: Seq<char>, secret: Seq<u8>, bytes: Seq<u8>)
    requires
        is_configured_secret(text, secret),
    ensures
        bytes.len() == 32 && text == base64_text(bytes) ==> secret == bytes,
        (forall|other: Seq<u8>| other.len() == 32 ==> text != #[trigger] base64_text(other))
            ==> secret == encode_utf8(text),
{
}

} // verus!
