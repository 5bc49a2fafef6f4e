//! Session tokens: JSON claims and the JWTs that carry them.

use vstd::prelude::*;

use crate::clock::{current_timestamp, is_clock_reading};
use crate::config::OidcAttribute;
use crate::text::{appended, decimal, lemma_pair_views_push, pair_views};
use crate::urls::all_unreserved;

verus! {

/// A JSON value of `serde_json`.
#[verifier::external_type_specification]
#[verifier::external_body]
pub struct ExJsonValue(serde_json::Value);

/// Whether a JSON value is an object.
pub uninterp spec fn json_is_object(value: serde_json::Value) -> bool;

/// The members of a JSON object by name: of a string member `true` and its
/// characters, of any other `false` and its compact JSON text. A value that is no
/// object has no members.
pub uninterp spec fn json_members(value: serde_json::Value) -> Map<Seq<char>, (bool, Seq<char>)>;

/// One member of a JSON object.
pub enum ClaimValue {
    /// A string, without its quotes.
    Text(String),
    /// Any other value, as compact JSON text.
    Json(String),
}

impl View for ClaimValue {
    type V = (bool, Seq<char>);

    open spec fn view(&self) -> (bool, Seq<char>) {
        match self {
            ClaimValue::Text(s) => (true, s@),
            ClaimValue::Json(s) => (false, s@),
        }
    }
}

/// Looks up a member by name, by `serde_json::Value::get`; a member that is no
/// string is given as the text that its `Display` writes. Only an object has members.
#[verifier::external_body]
pub(crate) fn json_member(value: &serde_json::Value, name: &str) -> (r: Option<ClaimValue>)
    ensures
        match r {
            Some(member) => json_is_object(*value) && json_members(*value).contains_key(name@)
                && json_members(*value)[name@] == member@,
            None => !json_members(*value).contains_key(name@),
        },
{
    match value.get(name) {
        Some(serde_json::Value::String(s)) => Some(ClaimValue::Text(s.clone())),
        Some(other) => Some(ClaimValue::Json(other.to_string())),
        None => None,
    }
}

/// Sets a member of an object to a number, by `serde_json::Map::insert` on
/// `serde_json::Value::as_object_mut`; a value that is no object stays as it is.
#[verifier::external_body]
fn json_set_number(value: &mut serde_json::Value, name: &str, number: u64)
    ensures
        json_is_object(*final(value)) == json_is_object(*old(value)),
        json_members(*final(value)) == (if json_is_object(*old(value)) {
            json_members(*old(value)).insert(name@, (false, decimal(number as nat)))
        } else {
            json_members(*old(value))
        }),
{
    if let Some(members) = value.as_object_mut() {
        members.insert(name.to_owned(), serde_json::Value::from(number));
    }
}

/// Copies a JSON value, by its `Clone`.
#[verifier::external_body]
fn json_clone(value: &serde_json::Value) -> (r: serde_json::Value)
    ensures
        r == *value,
{
    value.clone()
}

/// What a token says without its last part, the signature: all before its last dot.
pub open spec fn message_of(token: Seq<char>) -> Seq<char>
    decreases token.len(),
{
    if token.len() == 0 {
        Seq::empty()
    } else if token.last() == '.' {
        token.drop_last()
    } else {
        message_of(token.drop_last())
    }
}

/// The members of the claims that `jsonwebtoken::decode` hands back under HS256 and the given
/// checks, where the clock allows it; `None` where it refuses at every time. With the signature
/// checked it goes by the whole token and the secret; unchecked, by the token's message alone,
/// which then stands here in place of the token, and the secret is empty.
pub uninterp spec fn jwt_claims(
    read: Seq<char>,
    secret: Seq<u8>,
    check_signature: bool,
    check_audience: bool,
) -> Option<Map<Seq<char>, (bool, Seq<char>)>>;

/// The claims that a session token brings under `secret`, before it expires.
pub open spec fn session_claims(token: Seq<char>, secret: Seq<u8>) -> Option<
    Map<Seq<char>, (bool, Seq<char>)>,
> {
    jwt_claims(token, secret, true, false)
}

/// The claims that an ID token brings, whoever signed it, before it expires.
pub open spec fn id_token_claims(token: Seq<char>) -> Option<Map<Seq<char>, (bool, Seq<char>)>> {
    jwt_claims(message_of(token), Seq::empty(), false, false)
}

/// Whether the clock has shown a time at which a token that expires at `exp` is refused: more
/// than a minute later. (In the first minute after the epoch every token is refused.)
pub open spec fn has_passed(exp: int) -> bool {
    exists|now: int| #[trigger] is_clock_reading(now) && (exp + 60 < now || now < 60)
}

/// Whether `exp` is the time at which `members` say that they expire.
pub open spec fn expires_at(members: Map<Seq<char>, (bool, Seq<char>)>, exp: u64) -> bool {
    members.contains_key("exp"@) && members["exp"@] == (false, decimal(exp as nat))
}

/// Whether the clock has shown a time at which a token that expires at `exp` is still accepted:
/// at most a minute later. (In the first minute after the epoch only a token that never expires
/// is accepted.)
pub open spec fn has_not_passed(exp: u64) -> bool {
    exists|now: int| #[trigger]
        is_clock_reading(now) && now <= exp + 60 && (60 <= now || exp > u64::MAX - 60)
}

/// Whether claims may be accepted: the clock has shown a time at which they were not over.
pub open spec fn may_be_accepted(members: Map<Seq<char>, (bool, Seq<char>)>) -> bool {
    forall|exp: u64| #[trigger] expires_at(members, exp) ==> has_not_passed(exp)
}

/// Whether claims may be refused: there are none, or their time is over.
pub open spec fn may_be_refused(claims: Option<Map<Seq<char>, (bool, Seq<char>)>>) -> bool {
    match claims {
        Some(members) => forall|exp: u64| #[trigger]
            expires_at(members, exp) ==> has_passed(exp as int),
        None => true,
    }
}

/// Whether the decoder has refused a token under these checks with an error of the given text.
pub uninterp spec fn refused_with(
    token: Seq<char>,
    secret: Seq<u8>,
    check_signature: bool,
    check_audience: bool,
    text: Seq<char>,
) -> bool;

/// Decodes a token, by `jsonwebtoken::decode` with an HMAC secret and the `Validation`
/// for HS256, with signature and audience checked or not as asked. What it accepts has the
/// members `jwt_claims`, readable and with `exp` among them where they are an object's, and the
/// time in `exp` is not over, going by the clock with a minute's leeway. What it refuses has no such members,
/// or has a time in `exp` that is over. Where `exp` is not a whole number of seconds nothing is
/// said of the time. Of a refusal the error's text is given.
#[verifier::external_body]
fn jwt_decode(token: &str, secret: &[u8], check_signature: bool, check_audience: bool) -> (r: Result<
    serde_json::Value,
    String,
>)
    ensures
        ({
            let found = if check_signature {
                jwt_claims(token@, secret@, true, check_audience)
            } else {
                jwt_claims(message_of(token@), Seq::empty(), false, check_audience)
            };
            match r {
                Ok(claims) => found == Some(json_members(claims)) && may_be_accepted(
                    json_members(claims),
                ),
                Err(text) => may_be_refused(found) && refused_with(
                    token@,
                    secret@,
                    check_signature,
                    check_audience,
                    text@,
                ),
            }
        }),
        r matches Ok(claims) ==> json_is_object(claims) ==> json_members(claims).contains_key(
            "exp"@,
        ) && is_readable(json_members(claims)),
{
    let key = jsonwebtoken::DecodingKey::from_secret(secret);
    let mut validation = jsonwebtoken::Validation::new(jsonwebtoken::Algorithm::HS256);
    validation.validate_aud = check_audience;
    if !check_signature {
        validation.insecure_disable_signature_validation();
    }
    match jsonwebtoken::decode::<serde_json::Value>(token, &key, &validation) {
        Ok(data) => Ok(data.claims),
        Err(e) => Err(e.to_string()),
    }
}

/// How deep arrays and objects nest at most in the rest of a JSON text, of which the part before
/// left `depth` of them open; `quoted` says whether the rest begins within a string, and
/// `escaped` whether right behind a backslash there.
pub open spec fn deepest(text: Seq<char>, depth: int, quoted: bool, escaped: bool) -> int
    decreases text.len(),
{
    if text.len() == 0 {
        depth
    } else {
        let c = text[0];
        let rest = text.drop_first();
        let below = if quoted {
            deepest(rest, depth, escaped || c != '"', !escaped && c == '\\')
        } else if c == '[' || c == '{' {
            deepest(rest, depth + 1, false, false)
        } else if c == ']' || c == '}' {
            deepest(rest, depth - 1, false, false)
        } else {
            deepest(rest, depth, c == '"', false)
        };
        if below > depth {
            below
        } else {
            depth
        }
    }
}

/// How deep arrays and objects nest in a JSON text; of a scalar, not at all.
pub open spec fn nesting(text: Seq<char>) -> int {
    deepest(text, 0, false, false)
}

/// Whether the member `name`, if there is one, is neither an array nor an object.
pub open spec fn is_scalar(members: Map<Seq<char>, (bool, Seq<char>)>, name: Seq<char>) -> bool {
    members.contains_key(name) ==> members[name].0 || nesting(members[name].1) == 0
}

/// Whether the member `name`, if there is one, is an array or an object with nothing in it.
pub open spec fn is_hollow(members: Map<Seq<char>, (bool, Seq<char>)>, name: Seq<char>) -> bool {
    members.contains_key(name) ==> members[name] == (false, "[]"@) || members[name] == (
        false,
        "{}"@,
    )
}

/// Whether members can be read back from a token of which they are the claims: `sub` and `nbf`
/// are scalars, or `nbf` has nothing in it, and no member nests deeper than the JSON parser
/// goes, which takes 127 levels with the object that the members are of.
pub open spec fn is_readable(members: Map<Seq<char>, (bool, Seq<char>)>) -> bool {
    &&& is_scalar(members, "sub"@)
    &&& is_scalar(members, "nbf"@) || is_hollow(members, "nbf"@)
    &&& forall|name: Seq<char>| #[trigger]
        members.contains_key(name) ==> members[name].0 || nesting(members[name].1) <= 126
}

/// Whether `token` carries `members` under `secret`: what a signature-checking decoder
/// reads from it is nothing else, and readable members with a time of expiry it does read. A
/// token is made of letters, digits, `-`, `_` and dots.
pub open spec fn carries(
    token: Seq<char>,
    secret: Seq<u8>,
    object: bool,
    members: Map<Seq<char>, (bool, Seq<char>)>,
) -> bool {
    &&& session_claims(token, secret) matches Some(read) ==> read == members
    &&& object && is_readable(members) && (exists|exp: u64| #[trigger] expires_at(members, exp))
        ==> session_claims(token, secret) == Some(members)
    &&& all_unreserved(token)
}

/// Signs claims, by `jsonwebtoken::encode` with the default header (HS256) and an HMAC
/// secret. That never fails for a JSON value: the key suits the algorithm and the
/// value can always be written. The token carries the value's members.
#[verifier::external_body]
fn jwt_encode(payload: &serde_json::Value, secret: &[u8]) -> (r: Result<String, String>)
    ensures
        r is Ok,
        carries((r->Ok_0)@, secret@, json_is_object(*payload), json_members(*payload)),
{
    let header = jsonwebtoken::Header::default();
    let key = jsonwebtoken::EncodingKey::from_secret(secret);
    match jsonwebtoken::encode(&header, payload, &key) {
        Ok(token) => Ok(token),
        Err(e) => Err(e.to_string()),
    }
}

/// Whether `message` tells why an ID token was refused.
pub open spec fn tells_id_token_refusal(token: Seq<char>, message: Seq<char>) -> bool {
    exists|text: Seq<char>| #[trigger]
        refused_with(token, Seq::empty(), false, false, text) && message == "JWT decode error: "@
            + text
}

/// Whether `message` tells why a session token was refused.
pub open spec fn tells_session_refusal(
    token: Seq<char>,
    secret: Seq<u8>,
    message: Seq<char>,
) -> bool {
    exists|text: Seq<char>| #[trigger]
        refused_with(token, secret, true, false, text) && message
            == "Session JWT validation failed: "@ + text
}

/// Whether accepted claims are as the decoder leaves them: the members of an object are readable
/// and tell when they expire.
pub open spec fn is_sound(claims: serde_json::Value) -> bool {
    json_is_object(claims) ==> json_members(claims).contains_key("exp"@) && is_readable(
        json_members(claims),
    )
}

/// Decodes the claims of an ID token without checking its signature (the token has just
/// come over TLS from the token endpoint). Expired tokens are refused.
pub fn decode_jwt_claims(token: &str) -> (r: Result<serde_json::Value, String>)
    ensures
        match r {
            Ok(claims) => id_token_claims(token@) == Some(json_members(claims)) && may_be_accepted(
                json_members(claims),
            ) && is_sound(claims),
            Err(message) => tells_id_token_refusal(token@, message@) && may_be_refused(
                id_token_claims(token@),
            ),
        },
{
    let secret: Vec<u8> = Vec::new();
    assert(secret@ == Seq::<u8>::empty());
    match jwt_decode(token, secret.as_slice(), false, false) {
        Ok(claims) => Ok(claims),
        Err(e) => Err(appended("JWT decode error: ", e.as_str())),
    }
}

/// The members of a session made of `members` at time `now`: the claims, with the time
/// of expiry and of issue put in their place. Claims that are no object stay as they are.
pub open spec fn session_members(
    object: bool,
    members: Map<Seq<char>, (bool, Seq<char>)>,
    now: u64,
    ttl_secs: u64,
) -> Map<Seq<char>, (bool, Seq<char>)> {
    if object {
        members.insert("exp"@, (false, decimal((now + ttl_secs) as nat))).insert(
            "iat"@,
            (false, decimal(now as nat)),
        )
    } else {
        members
    }
}

/// Whether `token` is a session made at time `now` of `claims`, signed with `secret`.
pub open spec fn is_session(
    token: Seq<char>,
    secret: Seq<u8>,
    claims: serde_json::Value,
    now: u64,
    ttl_secs: u64,
) -> bool {
    carries(
        token,
        secret,
        json_is_object(claims),
        session_members(json_is_object(claims), json_members(claims), now, ttl_secs),
    )
}

/// Creates the session token of `claims` as of `now`, valid for `ttl_secs`.
pub fn sign_session_jwt_at(
    claims: &serde_json::Value,
    secret: &[u8],
    ttl_secs: u64,
    now: u64,
) -> (r: Result<String, String>)
    requires
        now + ttl_secs <= u64::MAX,
    ensures
        r is Ok,
        is_session((r->Ok_0)@, secret@, *claims, now, ttl_secs),
{
    let mut payload: serde_json::Value = json_clone(claims);
    json_set_number(&mut payload, "exp", now + ttl_secs);
    json_set_number(&mut payload, "iat", now);
    match jwt_encode(&payload, secret) {
        Ok(token) => Ok(token),
        Err(e) => Err(appended("JWT sign error: ", e.as_str())),
    }
}

/// Creates a signed local session token that contains the claims we care about, as of
/// the present time.
pub fn sign_session_jwt(claims: &serde_json::Value, secret: &[u8], ttl_secs: u64) -> (r: Result<
    String,
    String,
>)
    requires
        ttl_secs <= u64::MAX - 0x1_0000_0000_0000,
    ensures
        r is Ok,
        exists|now: u64|
            now < 0x1_0000_0000_0000 && is_clock_reading(now as int) && #[trigger] is_session(
                (r->Ok_0)@,
                secret@,
                *claims,
                now,
                ttl_secs,
            ),
{
    let now: u64 = current_timestamp() as u64;
    sign_session_jwt_at(claims, secret, ttl_secs, now)
}

/// Verifies and decodes a local session token: its HS256 signature must be that of
/// `secret`, and it must not have expired.
pub fn verify_session_jwt(token: &str, secret: &[u8]) -> (r: Result<serde_json::Value, String>)
    ensures
        match r {
            Ok(claims) => session_claims(token@, secret@) == Some(json_members(claims))
                && may_be_accepted(json_members(claims)) && is_sound(claims),
            Err(message) => tells_session_refusal(token@, secret@, message@) && may_be_refused(
                session_claims(token@, secret@),
            ),
        },
{
    match jwt_decode(token, secret, true, false) {
        Ok(claims) => Ok(claims),
        Err(e) => Err(appended("Session JWT validation failed: ", e.as_str())),
    }
}

/// The header value of a claim: a string as it is, anything else as JSON text.
pub fn header_value(value: ClaimValue) -> (r: String)
    ensures
        r@ == value@.1,
{
    match value {
        ClaimValue::Text(s) => s,
        ClaimValue::Json(s) => s,
    }
}

/// The headers that `attributes` makes of claims: one for each attribute whose claim is
/// there, in the order of the attributes.
pub open spec fn mapped_headers(
    attributes: Seq<OidcAttribute>,
    members: Map<Seq<char>, (bool, Seq<char>)>,
) -> Seq<(Seq<char>, Seq<char>)>
    decreases attributes.len(),
{
    if attributes.len() == 0 {
        Seq::empty()
    } else {
        let before = mapped_headers(attributes.drop_last(), members);
        let attribute = attributes.last();
        if members.contains_key(attribute.claim@) {
            before.push((attribute.header@, members[attribute.claim@].1))
        } else {
            before
        }
    }
}

/// Adds the headers that `attributes` makes of `claims`.
pub fn map_claims(
    attributes: &Vec<OidcAttribute>,
    claims: &serde_json::Value,
    headers: &mut Vec<(String, String)>,
)
    ensures
        pair_views(final(headers)@) == pair_views(old(headers)@) + mapped_headers(
            attributes@,
            json_members(*claims),
        ),
{
    let ghost members = json_members(*claims);
    let mut i: usize = 0;
    assert(attributes@.take(0) == Seq::<OidcAttribute>::empty());
    while i < attributes.len()
        invariant
            i <= attributes@.len(),
            members == json_members(*claims),
            pair_views(headers@) == pair_views(old(headers)@) + mapped_headers(
                attributes@.take(i as int),
                members,
            ),
        decreases attributes@.len() - i,
    {
        let attribute: &OidcAttribute = &attributes[i];
        assert(attributes@.take(i + 1).drop_last() == attributes@.take(i as int));
        if let Some(value) = json_member(claims, attribute.claim.as_str()) {
            let header: (String, String) = (attribute.header.clone(), header_value(value));
            proof {
                lemma_pair_views_push(headers@, header);
            }
            headers.push(header);
        }
        i += 1;
    }
    assert(attributes@.take(i as int) == attributes@);
}

/// The ID token in the answer of a token endpoint.
pub fn id_token_of(body: &serde_json::Value) -> (r: Result<String, String>)
    ensures
        match r {
            Ok(token) => json_members(*body).contains_key("id_token"@)
                && json_members(*body)["id_token"@] == (true, token@),
            Err(message) => message@ == "No id_token in token response"@ && !(json_members(
                *body,
            ).contains_key("id_token"@) && json_members(*body)["id_token"@].0),
        },
{
    match json_member(body, "id_token") {
        Some(ClaimValue::Text(token)) => Ok(token),
        _ => Err("No id_token in token response".to_owned()),
    }
}

/// How a request to a token endpoint went.
pub enum TokenReply {
    /// It could not be sent or was not answered, for the stated reason.
    RequestFailed(String),
    /// The answer was not JSON, for the stated reason.
    NotJson(String),
    /// The answer.
    Body(serde_json::Value),
}

/// The ID token that a token endpoint gave in exchange for an authorization code, or why
/// there is none.
pub fn exchanged_id_token(reply: TokenReply) -> (r: Result<String, String>)
    ensures
        match reply {
            TokenReply::RequestFailed(reason) => r matches Err(message) && message@
                == "Token request failed: "@ + reason@,
            TokenReply::NotJson(reason) => r matches Err(message) && message@
                == "Failed to parse token response: "@ + reason@,
            TokenReply::Body(body) => match r {
                Ok(token) => json_members(body).contains_key("id_token"@)
                    && json_members(body)["id_token"@] == (true, token@),
                Err(message) => message@ == "No id_token in token response"@ && !(json_members(
                    body,
                ).contains_key("id_token"@) && json_members(body)["id_token"@].0),
            },
        },
{
    match reply {
        TokenReply::RequestFailed(reason) => Err(appended("Token request failed: ", reason.as_str())),
        TokenReply::NotJson(reason) => Err(
            appended("Failed to parse token response: ", reason.as_str()),
        ),
        TokenReply::Body(body) => id_token_of(&body),
    }
}

/// What is read from a session is what was signed into it: a token that `sign_session_jwt`
/// made of claims, when `verify_session_jwt` accepts it under the same secret, gives back
/// every claim unchanged but for the times of expiry and issue.
pub proof fn law_session_round_trip(
    token: Seq<char>,
    secret: Seq<u8>,
    claims: serde_json::Value,
    now: u64,
    ttl_secs: u64,
    read: serde_json::Value,
)
    requires
        json_is_object(claims),
        is_session(token, secret, claims, now, ttl_secs),
        session_claims(token, secret) == Some(json_members(read)),
    ensures
        json_members(read)["exp"@] == (false, decimal((now + ttl_secs) as nat)),
        json_members(read)["iat"@] == (false, decimal(now as nat)),
        forall|name: Seq<char>|
            name != "exp"@ && name != "iat"@ ==> (#[trigger] json_members(read).contains_key(name)
                <==> json_members(claims).contains_key(name)) && (json_members(
                claims,
            ).contains_key(name) ==> json_members(read)[name] == json_members(claims)[name]),
{
    reveal_strlit("exp");
    reveal_strlit("iat");
    assert("exp"@[0] != "iat"@[0]);
}

/// A session of readable claims is read back with all of them, and is refused only once its
/// time is over.
pub proof fn law_sessions_are_readable(
    token: Seq<char>,
    secret: Seq<u8>,
    claims: serde_json::Value,
    now: u64,
    ttl_secs: u64,
)
    requires
        now + ttl_secs <= u64::MAX,
        json_is_object(claims),
        is_readable(json_members(claims)),
        is_session(token, secret, claims, now, ttl_secs),
    ensures
        session_claims(token, secret) == Some(
            session_members(true, json_members(claims), now, ttl_secs),
        ),
        may_be_refused(session_claims(token, secret)) ==> has_passed(now + ttl_secs),
{
    reveal_strlit("exp");
    reveal_strlit("iat");
    reveal_strlit("sub");
    reveal_strlit("nbf");
    assert("exp"@[0] != "iat"@[0]);
    assert("sub"@[0] == 's' && "nbf"@[0] == 'n' && "exp"@[0] == 'e' && "iat"@[0] == 'i');
    let members = session_members(true, json_members(claims), now, ttl_secs);
    let exp = (now + ttl_secs) as u64;
    lemma_decimal_nests_nothing(exp as nat);
    lemma_decimal_nests_nothing(now as nat);
    assert(expires_at(members, exp));
    assert forall|name: Seq<char>| #[trigger] members.contains_key(name) implies members[name].0
        || nesting(members[name].1) <= 126 by {
        if name != "exp"@ && name != "iat"@ {
            assert(json_members(claims).contains_key(name));
        }
    }
    assert(is_scalar(json_members(claims), "sub"@));
    assert(is_scalar(json_members(claims), "nbf"@) || is_hollow(json_members(claims), "nbf"@));
}

/// A decimal number does not nest.
proof fn lemma_decimal_nests_nothing(n: nat)
    ensures
        nesting(decimal(n)) == 0,
{
    lemma_decimal_digits(n);
    lemma_digits_nest_nothing(decimal(n), 0);
}

proof fn lemma_decimal_digits(n: nat)
    ensures
        forall|i: int| 0 <= i < decimal(n).len() ==> '0' <= #[trigger] decimal(n)[i] <= '9',
    decreases n,
{
    if n >= 10 {
        lemma_decimal_digits(n / 10);
        assert forall|i: int| 0 <= i < decimal(n).len() implies '0' <= #[trigger] decimal(n)[i]
            <= '9' by {
            if i < decimal(n / 10).len() {
                assert(decimal(n)[i] == decimal(n / 10)[i]);
            }
        }
    }
}

proof fn lemma_digits_nest_nothing(text: Seq<char>, depth: int)
    requires
        forall|i: int| 0 <= i < text.len() ==> '0' <= #[trigger] text[i] <= '9',
    ensures
        deepest(text, depth, false, false) == depth,
    decreases text.len(),
{
    if text.len() > 0 {
        let rest = text.drop_first();
        assert('0' <= text[0] <= '9');
        assert forall|i: int| 0 <= i < rest.len() implies '0' <= #[trigger] rest[i] <= '9' by {
            assert(rest[i] == text[i + 1]);
        }
        lemma_digits_nest_nothing(rest, depth);
    }
}

/// What an ID token claims does not depend on its signature: two tokens that differ only after
/// their last dot bring the same claims.
pub proof fn law_the_signature_has_no_influence(
    message: Seq<char>,
    signature: Seq<char>,
    other: Seq<char>,
)
    requires
        !signature.contains('.'),
        !other.contains('.'),
    ensures
        id_token_claims(message.push('.') + signature) == id_token_claims(
            message.push('.') + other,
        ),
{
    lemma_message_of(message, signature);
    lemma_message_of(message, other);
}

proof fn lemma_message_of(message: Seq<char>, signature: Seq<char>)
    requires
        !signature.contains('.'),
    ensures
        message_of(message.push('.') + signature) == message,
    decreases signature.len(),
{
    let token = message.push('.') + signature;
    if signature.len() == 0 {
        assert(token == message.push('.'));
        assert(token.drop_last() == message);
    } else {
        let front = signature.drop_last();
        assert(token.last() == signature.last());
        assert(signature.contains(signature.last()));
        assert(token.drop_last() == message.push('.') + front);
        assert forall|i: int| 0 <= i < front.len() implies front[i] != '.' by {
            assert(signature.contains(signature[i]));
        }
        lemma_message_of(message, front);
    }
}

/// The content of a claim is whether it is a string, and its text.
pub proof fn law_claim_content(text: String)
    ensures
        ClaimValue::Text(text)@ == (true, text@),
        ClaimValue::Json(text)@ == (false, text@),
{
}

/// Claims become headers attribute by attribute, in order: one whose very claim is there adds a
/// header of its name with the claim's text, and one whose claim is not there adds none.
pub proof fn law_claims_become_headers_in_order(
    attributes: Seq<OidcAttribute>,
    attribute: OidcAttribute,
    members: Map<Seq<char>, (bool, Seq<char>)>,
)
    ensures
        mapped_headers(Seq::empty(), members) == Seq::<(Seq<char>, Seq<char>)>::empty(),
        members.contains_key(attribute.claim@) ==> mapped_headers(
            attributes.push(attribute),
            members,
        ) == mapped_headers(attributes, members).push(
            (attribute.header@, members[attribute.claim@].1),
        ),
        !members.contains_key(attribute.claim@) ==> mapped_headers(
            attributes.push(attribute),
            members,
        ) == mapped_headers(attributes, members),
{
    assert(attributes.push(attribute).drop_last() == attributes);
}

/// A session has the claims it is made of, each unchanged, but for the time of issue, which is
/// the given one, and the time of expiry, which is as much later as the session lasts. Claims
/// that are no object have no such times put in.
pub proof fn law_session_content(
    members: Map<Seq<char>, (bool, Seq<char>)>,
    now: u64,
    ttl_secs: u64,
    name: Seq<char>,
)
    ensures
        session_members(false, members, now, ttl_secs) == members,
        ({
            let made = session_members(true, members, now, ttl_secs);
            &&& made.contains_key("exp"@)
            &&& made["exp"@] == (false, decimal((now + ttl_secs) as nat))
            &&& made.contains_key("iat"@)
            &&& made["iat"@] == (false, decimal(now as nat))
            &&& name != "exp"@ && name != "iat"@ ==> (made.contains_key(name)
                <==> members.contains_key(name))
            &&& name != "exp"@ && name != "iat"@ && members.contains_key(name) ==> made[name]
                == members[name]
        }),
{
    reveal_strlit("exp");
    reveal_strlit("iat");
    assert("exp"@[0] != "iat"@[0]);
}

/// A session token is read with its signature checked under the secret, an ID token without, and
/// neither for its audience.
pub proof fn law_what_is_checked_of_tokens(token: Seq<char>, secret: Seq<u8>)
    ensures
        session_claims(token, secret) == jwt_claims(token, secret, true, false),
        id_token_claims(token) == jwt_claims(message_of(token), Seq::empty(), false, false),
{
}

/// A token's message is all that stands before its last dot.
pub proof fn law_the_message_ends_at_the_last_dot(message: Seq<char>, signature: Seq<char>)
    requires
        !signature.contains('.'),
    ensures
        message_of(message.push('.') + signature) == message,
{
    lemma_message_of(message, signature);
}

/// The refusal of a token is told with its label and the decoder's whole text.
pub proof fn law_refusals_are_told_whole(token: Seq<char>, secret: Seq<u8>, message: Seq<char>)
    ensures
        tells_id_token_refusal(token, message) ==> exists|text: Seq<char>| #[trigger]
            refused_with(token, Seq::empty(), false, false, text) && message
                == "JWT decode error: "@ + text,
        tells_session_refusal(token, secret, message) ==> exists|text: Seq<char>| #[trigger]
            refused_with(token, secret, true, false, text) && message
                == "Session JWT validation failed: "@ + text,
{
}

/// What is accepted was not over: the clock has shown a time no more than a minute after the
/// expiry. What has readable claims and is refused was over: the clock has shown a later one.
pub proof fn law_acceptance_goes_by_the_clock(
    members: Map<Seq<char>, (bool, Seq<char>)>,
    exp: u64,
)
    requires
        members.contains_key("exp"@),
        members["exp"@] == (false, decimal(exp as nat)),
    ensures
        may_be_accepted(members) ==> exists|now: int| #[trigger]
            is_clock_reading(now) && now <= exp + 60 && (60 <= now || exp > u64::MAX - 60),
        may_be_refused(Some(members)) ==> exists|now: int| #[trigger]
            is_clock_reading(now) && (exp + 60 < now || now < 60),
{
    assert(expires_at(members, exp));
    let claims = Some(members);
    if may_be_refused(claims) {
        assert(expires_at(claims->0, exp));
        assert(has_passed(exp as int));
    }
}

/// What is read from a session is what went into it, whatever the claims, and it is written in
/// letters that stand for themselves in a cookie.
pub proof fn law_sessions_hold_their_claims(
    token: Seq<char>,
    secret: Seq<u8>,
    claims: serde_json::Value,
    now: u64,
    ttl_secs: u64,
)
    requires
        is_session(token, secret, claims, now, ttl_secs),
    ensures
        jwt_claims(token, secret, true, false) matches Some(read) ==> read == session_members(
            json_is_object(claims),
            json_members(claims),
            now,
            ttl_secs,
        ),
        all_unreserved(token),
{
}

} // verus!
