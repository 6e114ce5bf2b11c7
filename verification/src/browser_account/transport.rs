//! Which account a credential belongs to, asked of Roblox in two requests.
//!
//! The credential is redeemed once for a session, and the session is asked
//! whose it is. This file decides what each request holds and what each reply
//! means; sending them is the caller's part. Redirects are never followed: a
//! reply may not choose where a credential is sent.

pub mod laws;

use vstd::prelude::*;
use vstd::string::*;
use vstd::utf8::*;

use super::ticket::LaunchTicket;
use crate::choice;
use crate::text::{self, chars_of, find_from, has_prefix, text_between, trim_between};

verus! {

broadcast use vstd::string::group_string_axioms;

pub const REDEEM_ENDPOINT: &'static str = "https://auth.roblox.com/v1/authentication-ticket/redeem";

pub const AUTHENTICATED_ENDPOINT: &'static str = "https://users.roblox.com/v1/users/authenticated";

/// The name of the session cookie and the sign after it.
pub const SESSION_PREFIX: &'static str = ".ROBLOSECURITY=";

/// How long a request may take, in seconds.
pub const TIMEOUT_SECONDS: u64 = 10;

/// How many redirects are followed.
pub const MAX_REDIRECTS: u32 = 0;

/// How much of an identity reply is read, in bytes.
pub const MAX_REPLY_BYTES: u64 = 16384;

/// A Roblox account, which is never zero.
#[derive(Debug, Clone, Copy, PartialEq, Eq, Structural)]
pub struct AccountId {
    id: u64,
}

impl AccountId {
    #[verifier::type_invariant]
    spec fn not_zero(self) -> bool {
        self.id != 0
    }

    /// The number of the account.
    pub closed spec fn number(self) -> u64 {
        self.id
    }

    /// The account of that number, where it can be one.
    pub fn new(id: u64) -> (account: Option<AccountId>)
        ensures
            match account {
                Some(account) => id != 0 && account.number() == id,
                None => id == 0,
            },
    {
        if id == 0 {
            None
        } else {
            Some(AccountId { id })
        }
    }

    /// The number of the account.
    pub fn get(self) -> (id: u64)
        ensures
            id == self.number(),
            id != 0,
    {
        proof {
            use_type_invariant(self);
        }
        self.id
    }

    /// Whether two accounts are one.
    pub fn is(self, other: AccountId) -> (same: bool)
        ensures
            same == (self == other),
            same == (self.number() == other.number()),
    {
        self.id == other.id
    }
}

/// A character a session value may hold.
pub open spec fn is_session_char(c: char) -> bool {
    text::is_graphic(c) && c != '"' && c != ',' && c != ';' && c != '\\'
}

/// A value a session can have.
pub open spec fn is_session_value(value: Seq<char>) -> bool {
    value.len() > 0 && forall|i: int|
        0 <= i < value.len() ==> is_session_char(#[trigger] value[i])
}

/// A session, held as the name and value a `Cookie` header sends.
pub struct SessionCookie {
    pair: String,
}

impl View for SessionCookie {
    type V = Seq<char>;

    closed spec fn view(&self) -> Seq<char> {
        self.pair@
    }
}

impl SessionCookie {
    /// The session of that value, where it can be one.
    pub fn from_value(value: &str) -> (cookie: Option<SessionCookie>)
        ensures
            match cookie {
                Some(cookie) => is_session_value(value@) && cookie@ == SESSION_PREFIX@ + value@,
                None => !is_session_value(value@),
            },
            cookie is Some <==> value@.len() > 0 && forall|i: int|
                #![trigger value@[i]]
                0 <= i < value@.len() ==> 0x21 <= value@[i] as int <= 0x7e && value@[i] as int
                    != 0x22 && value@[i] as int != 0x2c && value@[i] as int != 0x3b
                    && value@[i] as int != 0x5c,
            cookie is Some ==> cookie->0@ == ".ROBLOSECURITY="@ + value@,
    {
        proof {
            laws::law_a_session_value_by_its_codes(value@);
        }
        if value.is_empty() {
            return None;
        }
        let chars = chars_of(value);
        let mut i: usize = 0;
        while i < chars.len()
            invariant
                0 <= i <= chars@.len(),
                chars@ == value@,
                forall|j: int| 0 <= j < i ==> is_session_char(#[trigger] value@[j]),
            decreases chars@.len() - i,
        {
            let c = chars[i];
            if !('!' <= c && c <= '~') || c == '"' || c == ',' || c == ';' || c == '\\' {
                assert(!is_session_char(value@[i as int]));
                return None;
            }
            i = i + 1;
        }
        let mut pair = SESSION_PREFIX.to_owned();
        pair.append(value);
        Some(SessionCookie { pair })
    }

    /// The session a name and value stand for, where the name is the session
    /// cookie's.
    pub fn from_pair(pair: &str) -> (cookie: Option<SessionCookie>)
        ensures
            match cookie {
                Some(cookie) => session_in_pair(pair@) == Some(cookie@),
                None => session_in_pair(pair@) is None,
            },
    {
        let chars = chars_of(pair);
        let prefix = chars_of(SESSION_PREFIX);
        if !has_prefix(&chars, &prefix) {
            return None;
        }
        let value = text_between(&chars, prefix.len(), chars.len());
        assert(value@ =~= pair@.skip(prefix@.len() as int));
        assert(SESSION_PREFIX@ + value@ =~= pair@);
        SessionCookie::from_value(value.as_str())
    }

    /// What the `Cookie` header holds.
    pub fn header(&self) -> (pair: &str)
        ensures
            pair@ == self@,
    {
        self.pair.as_str()
    }

    /// Whether two sessions are one.
    pub fn is(&self, other: &SessionCookie) -> (same: bool)
        ensures
            same == (self@ == other@),
    {
        text::same_text(self.pair.as_str(), other.pair.as_str())
    }
}

/// The session a name and value stand for. A pair that is one is the session as
/// it stands.
pub open spec fn session_in_pair(pair: Seq<char>) -> Option<Seq<char>> {
    if text::begins_with(pair, SESSION_PREFIX@) && is_session_value(
        pair.skip(SESSION_PREFIX@.len() as int),
    ) {
        Some(pair)
    } else {
        None
    }
}

/// The name and value a `Set-Cookie` header begins with.
pub open spec fn leading_pair(header: Seq<char>) -> Seq<char> {
    text::trimmed(
        match text::first(header, ';') {
            Some(i) => header.take(i),
            None => header,
        },
    )
}

/// The session a `Set-Cookie` header sets, where it is text and sets one.
pub open spec fn session_in_header(header: Option<Seq<char>>) -> Option<Seq<char>> {
    match header {
        Some(header) => session_in_pair(leading_pair(header)),
        None => None,
    }
}

/// The sessions a list of headers sets, each at its header's place.
pub open spec fn sessions_in(headers: Seq<Option<Seq<char>>>) -> Seq<Option<Seq<char>>> {
    headers.map_values(|header: Option<Seq<char>>| session_in_header(header))
}

/// The headers of a reply as texts. One that is not text is `None`.
pub open spec fn header_texts(headers: Seq<Option<String>>) -> Seq<Option<Seq<char>>> {
    headers.map_values(
        |header: Option<String>|
            match header {
                Some(text) => Some(text@),
                None => None,
            },
    )
}

/// A status that reports success.
pub open spec fn is_success(status: u16) -> bool {
    200 <= status <= 299
}

/// A character as a JSON string holds it.
pub open spec fn json_escaped(c: char) -> Seq<char> {
    if c == '"' {
        seq!['\\', '"']
    } else if c == '\\' {
        seq!['\\', '\\']
    } else if c == '\u{8}' {
        seq!['\\', 'b']
    } else if c == '\t' {
        seq!['\\', 't']
    } else if c == '\n' {
        seq!['\\', 'n']
    } else if c == '\u{c}' {
        seq!['\\', 'f']
    } else if c == '\r' {
        seq!['\\', 'r']
    } else if (c as int) < 32 {
        seq!['\\', 'u', '0', '0', text::hex_char((c as int) / 16), text::hex_char((c as int) % 16)]
    } else {
        seq![c]
    }
}

/// A text as a JSON string.
pub open spec fn json_string(s: Seq<char>) -> Seq<char> {
    seq!['"'] + s.map_values(|c: char| json_escaped(c)).flatten() + seq!['"']
}

/// A JSON object of one field whose value is a string.
pub open spec fn json_object(key: Seq<char>, value: Seq<char>) -> Seq<char> {
    seq!['{'] + json_string(key) + seq![':'] + json_string(value) + seq!['}']
}

/// `serde_json::to_vec` on an object of one field whose value is a string.
/// Writing such an object to memory does not fail.
#[verifier::external_body]
fn object_bytes(key: &str, value: &str) -> (bytes: Option<Vec<u8>>)
    ensures
        bytes is Some,
        (bytes->0)@ == encode_utf8(json_object(key@, value@)),
{
    let mut object = serde_json::Map::new();
    object.insert(key.to_string(), serde_json::Value::String(value.to_string()));
    serde_json::to_vec(&serde_json::Value::Object(object)).ok()
}

/// What the redeeming request posts, in JSON.
pub fn redeem_body(ticket: &LaunchTicket) -> (body: Option<Vec<u8>>)
    ensures
        body is Some,
        (body->0)@ == encode_utf8(json_object("authenticationTicket"@, ticket.secret@)),
{
    object_bytes("authenticationTicket", ticket.secret.as_str())
}

/// A request as its parts.
pub struct Request {
    pub endpoint: String,
    pub headers: Vec<(String, String)>,
    /// What is posted; a request without it is a `GET`.
    pub body: Option<Vec<u8>>,
}

/// What an exchange does next.
pub enum LookupStep {
    /// Post this and read the status and the `Set-Cookie` headers.
    Redeem(Request),
    /// Get this and read the status and the account it names.
    Identify(Request),
    /// Nothing more is sent.
    Done(Option<AccountId>),
}

/// A header that holds those two texts.
pub open spec fn is_header(header: (String, String), name: Seq<char>, value: Seq<char>) -> bool {
    header.0@ == name && header.1@ == value
}

/// The request that redeems a credential.
pub open spec fn redeems(request: Request, endpoint: Seq<char>, secret: Seq<char>) -> bool {
    &&& request.endpoint@ == endpoint
    &&& request.headers@.len() == 2
    &&& is_header(request.headers@[0], "RBXAuthenticationNegotiation"@, "1"@)
    &&& is_header(request.headers@[1], "Content-Type"@, "application/json"@)
    &&& request.body is Some
    &&& (request.body->0)@ == encode_utf8(json_object("authenticationTicket"@, secret))
}

/// The request that asks whose a session is: it holds the session and nothing
/// else.
pub open spec fn identifies(request: Request, endpoint: Seq<char>, session: Seq<char>) -> bool {
    &&& request.endpoint@ == endpoint
    &&& request.headers@.len() == 1
    &&& is_header(request.headers@[0], "Cookie"@, session)
    &&& request.body is None
}

/// The first request of a lookup, at Roblox's own endpoint.
pub fn lookup(ticket: &LaunchTicket) -> (step: LookupStep)
    ensures
        step is Redeem,
        redeems(step->Redeem_0, REDEEM_ENDPOINT@, ticket.secret@),
{
    lookup_at(ticket, REDEEM_ENDPOINT)
}

/// The first request of a lookup: redeem the credential.
pub fn lookup_at(ticket: &LaunchTicket, endpoint: &str) -> (step: LookupStep)
    ensures
        step is Redeem,
        redeems(step->Redeem_0, endpoint@, ticket.secret@),
{
    match redeem_body(ticket) {
        None => LookupStep::Done(None),
        Some(body) => {
            let mut headers: Vec<(String, String)> = Vec::new();
            headers.push(("RBXAuthenticationNegotiation".to_owned(), "1".to_owned()));
            headers.push(("Content-Type".to_owned(), "application/json".to_owned()));
            LookupStep::Redeem(
                Request { endpoint: endpoint.to_owned(), headers, body: Some(body) },
            )
        },
    }
}

/// What came back from redeeming: a status and every `Set-Cookie` header, in
/// order, one that is not text being `None`.
pub struct RedeemReply {
    pub status: u16,
    pub set_cookie: Vec<Option<String>>,
}

/// The session a reply to redeeming sets: exactly one header sets one, and the
/// status reports success.
pub open spec fn redeemed_session(reply: Option<RedeemReply>) -> Option<Seq<char>> {
    match reply {
        Some(reply) => if is_success(reply.status) {
            choice::only_some(sessions_in(header_texts(reply.set_cookie@)))
        } else {
            None
        },
        None => None,
    }
}

/// The session a `Set-Cookie` header sets.
fn header_session(header: &str) -> (cookie: Option<SessionCookie>)
    ensures
        match cookie {
            Some(cookie) => session_in_header(Some(header@)) == Some(cookie@),
            None => session_in_header(Some(header@)) is None,
        },
{
    let chars = chars_of(header);
    let end: usize = match find_from(&chars, ';', 0) {
        Some(at) => at,
        None => chars.len(),
    };
    proof {
        assert(chars@.subrange(0, end as int) =~= header@.take(end as int));
        assert(header@.take(header@.len() as int) =~= header@);
    }
    let pair = trim_between(&chars, 0, end);
    let pair_text = text_between(&pair, 0, pair.len());
    assert(pair_text@ =~= pair@);
    SessionCookie::from_pair(pair_text.as_str())
}

/// The session a reply to redeeming sets. A reply that did not come, reports
/// anything but success, or sets no session or two, sets none.
pub fn session_from_reply(reply: Option<RedeemReply>) -> (cookie: Option<SessionCookie>)
    ensures
        match cookie {
            Some(cookie) => redeemed_session(reply) == Some(cookie@),
            None => redeemed_session(reply) is None,
        },
{
    let taken = match reply {
        Some(taken) => taken,
        None => return None,
    };
    if !(200 <= taken.status && taken.status <= 299) {
        return None;
    }
    let ghost sessions = sessions_in(header_texts(taken.set_cookie@));
    let mut found: Option<SessionCookie> = None;
    let ghost mut at: int = 0;
    let mut i: usize = 0;
    while i < taken.set_cookie.len()
        invariant
            0 <= i <= taken.set_cookie@.len(),
            reply == Some(taken),
            is_success(taken.status),
            sessions == sessions_in(header_texts(taken.set_cookie@)),
            match found {
                Some(cookie) => 0 <= at < i && sessions[at] == Some(cookie@) && forall|j: int|
                    0 <= j < i && #[trigger] sessions[j] is Some ==> j == at,
                None => forall|j: int| 0 <= j < i ==> #[trigger] sessions[j] is None,
            },
        decreases taken.set_cookie@.len() - i,
    {
        let session = match &taken.set_cookie[i] {
            Some(header) => header_session(header.as_str()),
            None => None,
        };
        assert(sessions[i as int] == (match session {
            Some(cookie) => Some(cookie@),
            None => None::<Seq<char>>,
        }));
        if let Some(cookie) = session {
            if found.is_some() {
                assert forall|k: int| !choice::is_only_some(sessions, k) by {
                    assert(sessions[at] is Some);
                    assert(sessions[i as int] is Some);
                }
                return None;
            }
            found = Some(cookie);
            proof {
                at = i as int;
            }
        }
        i = i + 1;
    }
    proof {
        if found is Some {
            assert(choice::is_only_some(sessions, at));
            choice::lemma_only_some(sessions, at);
        } else {
            assert forall|k: int| !choice::is_only_some(sessions, k) by {
            }
        }
    }
    found
}

/// The request that asks whose a session is, at Roblox's own endpoint.
pub fn authenticated(cookie: &SessionCookie) -> (request: Request)
    ensures
        identifies(request, AUTHENTICATED_ENDPOINT@, cookie@),
{
    authenticated_at(cookie, AUTHENTICATED_ENDPOINT)
}

/// The request that asks whose a session is.
pub fn authenticated_at(cookie: &SessionCookie, endpoint: &str) -> (request: Request)
    ensures
        identifies(request, endpoint@, cookie@),
{
    let mut headers: Vec<(String, String)> = Vec::new();
    headers.push(("Cookie".to_owned(), cookie.header().to_owned()));
    Request { endpoint: endpoint.to_owned(), headers, body: None }
}

/// What follows redeeming: where the reply sets a session, ask whose it is;
/// where it does not, nothing more is sent.
pub fn redeemed(reply: Option<RedeemReply>, endpoint: &str) -> (step: LookupStep)
    ensures
        match redeemed_session(reply) {
            Some(session) => step is Identify && identifies(
                step->Identify_0,
                endpoint@,
                session,
            ),
            None => step == LookupStep::Done(None),
        },
{
    match session_from_reply(reply) {
        Some(cookie) => LookupStep::Identify(authenticated_at(&cookie, endpoint)),
        None => LookupStep::Done(None),
    }
}

/// What came back from asking whose a session is: a status and the number the
/// body names, where it names one.
pub struct IdentityReply {
    pub status: u16,
    pub id: Option<u64>,
}

/// The account a reply names: the status reports success and the number is not
/// zero.
pub open spec fn identified_number(reply: Option<IdentityReply>) -> Option<u64> {
    match reply {
        Some(reply) => match reply.id {
            Some(id) => if is_success(reply.status) && id != 0 {
                Some(id)
            } else {
                None
            },
            None => None,
        },
        None => None,
    }
}

/// The account a reply names.
pub fn identified(reply: Option<IdentityReply>) -> (account: Option<AccountId>)
    ensures
        match account {
            Some(account) => identified_number(reply) == Some(account.number()),
            None => identified_number(reply) is None,
        },
{
    match reply {
        Some(reply) => if 200 <= reply.status && reply.status <= 299 {
            match reply.id {
                Some(id) => AccountId::new(id),
                None => None,
            }
        } else {
            None
        },
        None => None,
    }
}

/// A refused redemption ends the lookup: no request is made again and none
/// asks for an identity.
pub proof fn law_a_refused_redemption_ends_the_lookup(reply: RedeemReply)
    requires
        !is_success(reply.status),
    ensures
        redeemed_session(Some(reply)) is None,
{
}

/// The order of the headers does not decide which session is taken, and two
/// sessions are never narrowed to one.
pub proof fn law_header_order_never_decides(a: Seq<Option<Seq<char>>>, b: Seq<Option<Seq<char>>>)
    requires
        sessions_in(a).to_multiset() == sessions_in(b).to_multiset(),
    ensures
        choice::only_some(sessions_in(a)) == choice::only_some(sessions_in(b)),
{
    choice::law_order_never_decides(sessions_in(a), sessions_in(b));
}

} // verus!
