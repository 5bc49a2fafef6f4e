//! The plain-HTTP listener: ACME challenges are answered, all else goes to HTTPS.

use vstd::hash_map::StringHashMap;
use vstd::prelude::*;

use crate::http::{moved, moved_response, text_reply, text_response, Request, Response, ResponseView};
use crate::proxy::{Alpn, Peer};
use crate::text::{appended, starts_with, strip_repeated, trim_start_matches};

verus! {

/// The key authorizations to answer HTTP-01 challenges with, by token.
pub struct ChallengeTable {
    entries: StringHashMap<String>,
}

impl View for ChallengeTable {
    type V = Map<Seq<char>, Seq<char>>;

    closed spec fn view(&self) -> Map<Seq<char>, Seq<char>> {
        self.entries@.map_values(|s: String| s@)
    }
}

impl ChallengeTable {
    /// A table without challenges.
    pub fn new() -> (r: Self)
        ensures
            r@ == Map::<Seq<char>, Seq<char>>::empty(),
    {
        let r: ChallengeTable = ChallengeTable { entries: StringHashMap::new() };
        assert(r@ =~= Map::<Seq<char>, Seq<char>>::empty());
        r
    }

    /// Publishes the key authorization of one token.
    pub fn insert(&mut self, token: String, key_authorization: String)
        ensures
            final(self)@ == old(self)@.insert(token@, key_authorization@),
    {
        self.entries.insert(token, key_authorization);
        assert(self@ =~= old(self)@.insert(token@, key_authorization@));
    }

    /// The key authorization of one token.
    pub fn get(&self, token: &str) -> (r: Option<String>)
        ensures
            match r {
                Some(k) => self@.contains_key(token@) && self@[token@] == k@,
                None => !self@.contains_key(token@),
            },
    {
        match self.entries.get(token) {
            Some(key_authorization) => Some(key_authorization.clone()),
            None => None,
        }
    }

    /// Withdraws all challenges.
    pub fn clear(&mut self)
        ensures
            final(self)@ == Map::<Seq<char>, Seq<char>>::empty(),
    {
        self.entries.clear();
        assert(self@ =~= Map::<Seq<char>, Seq<char>>::empty());
    }
}

/// What the plain-HTTP listener answers to a request for `path`: the key
/// authorization of a published token, else a redirect to the same path over HTTPS.
pub open spec fn plain_http_reply(
    challenges: Map<Seq<char>, Seq<char>>,
    path: Seq<char>,
    host: Option<String>,
) -> ResponseView {
    let prefix = "/.well-known/acme-challenge/"@;
    let token = strip_repeated(path, prefix);
    if prefix.is_prefix_of(path) && challenges.contains_key(token) {
        text_reply(200, challenges[token])
    } else {
        let name = match host {
            Some(h) => h@,
            None => "localhost"@,
        };
        moved("https://"@ + name + path)
    }
}

/// The proxy behind the plain-HTTP listener.
pub struct RedirectProxy {
    pub challenges: ChallengeTable,
}

impl RedirectProxy {
    /// Answers a request; none is passed on.
    pub fn request_filter(&self, request: &Request) -> (r: Response)
        ensures
            r@ == plain_http_reply(self.challenges@, request.path@, request.host),
    {
        let path: &str = request.path.as_str();
        let prefix: &str = "/.well-known/acme-challenge/";
        if starts_with(path, prefix) {
            let token: String = trim_start_matches(path, prefix);
            if let Some(key_authorization) = self.challenges.get(token.as_str()) {
                return text_response(200, key_authorization.as_str());
            }
        }
        let location: String = match &request.host {
            Some(host) => appended(appended("https://", host.as_str()).as_str(), path),
            None => appended(appended("https://", "localhost").as_str(), path),
        };
        moved_response(location.as_str())
    }

    /// The peer to name where one must be named; no request is ever passed to it.
    pub fn upstream_peer(&self) -> (r: Peer)
        ensures
            r.address@ == "127.0.0.1:80"@,
            !r.tls,
            r.host_header@ == ""@,
            r.alpn == Alpn::Http1,
    {
        Peer {
            address: "127.0.0.1:80".to_owned(),
            tls: false,
            host_header: "".to_owned(),
            alpn: Alpn::Http1,
        }
    }
}

/// A published challenge is answered with its key authorization, for every token
/// that does not itself begin with the challenge path.
pub proof fn law_published_challenges_are_answered(
    challenges: Map<Seq<char>, Seq<char>>,
    token: Seq<char>,
    host: Option<String>,
)
    requires
        challenges.contains_key(token),
        !"/.well-known/acme-challenge/"@.is_prefix_of(token),
    ensures
        plain_http_reply(challenges, "/.well-known/acme-challenge/"@ + token, host) == text_reply(
            200,
            challenges[token],
        ),
{
    let prefix = "/.well-known/acme-challenge/"@;
    let path = prefix + token;
    assert(path.subrange(0, prefix.len() as int) == prefix);
    assert(path.skip(prefix.len() as int) == token);
    assert(prefix.len() > 0) by {
        reveal_strlit("/.well-known/acme-challenge/");
    }
    assert(strip_repeated(token, prefix) == token);
    assert(strip_repeated(path, prefix) == strip_repeated(token, prefix));
}

/// With no challenge published every request is redirected to the same path over HTTPS, on the
/// host that it names or else on `localhost`.
pub proof fn law_without_challenges_all_is_redirected(path: Seq<char>, host: Option<String>)
    ensures
        plain_http_reply(Map::empty(), path, host) == moved(
            "https://"@ + (match host {
                Some(name) => name@,
                None => "localhost"@,
            }) + path,
        ),
{
}

/// A path under the challenge prefix whose token is not published, and any path elsewhere, is
/// redirected to itself over HTTPS, whatever other tokens are published.
pub proof fn law_all_but_published_challenges_is_redirected(
    challenges: Map<Seq<char>, Seq<char>>,
    path: Seq<char>,
    host: Option<String>,
)
    requires
        !"/.well-known/acme-challenge/"@.is_prefix_of(path) || !challenges.contains_key(
            strip_repeated(path, "/.well-known/acme-challenge/"@),
        ),
    ensures
        ({
            let reply = plain_http_reply(challenges, path, host);
            let name = match host {
                Some(name) => name@,
                None => "localhost"@,
            };
            &&& reply.status == 301
            &&& reply.headers == seq![("Location"@, "https://"@ + name + path)]
            &&& reply.body is None
        }),
{
}

/// However often the challenge prefix stands before a published token, the answer is the key
/// authorization of that very token.
pub proof fn law_challenges_are_answered_by_token(
    challenges: Map<Seq<char>, Seq<char>>,
    path: Seq<char>,
    host: Option<String>,
)
    requires
        "/.well-known/acme-challenge/"@.is_prefix_of(path),
        challenges.contains_key(strip_repeated(path, "/.well-known/acme-challenge/"@)),
    ensures
        ({
            let token = strip_repeated(path, "/.well-known/acme-challenge/"@);
            let reply = plain_http_reply(challenges, path, host);
            &&& reply.status == 200
            &&& reply.headers == seq![("Content-Type"@, "text/plain"@)]
            &&& reply.body == Some(vstd::utf8::encode_utf8(challenges[token]))
        }),
{
}

} // verus!
