//! The headers that the engine knows by name, and how they are read and written.
use crate::ascii::{atoi, digits, unsigned_of, AsciiInt, COLON, CR, LF, SP};
use crate::text::{eq_ignore_ascii_case, eq_ignore_case, lower, put};
use vstd::prelude::*;
use vstd::std_specs::convert::TryFromSpecImpl;
use vstd::string::StringSliceAdditionalSpecFns;
use vstd::utf8::encode_utf8;

verus! {

/// Host
pub const REQ_HEAD_HOST: &'static str = "Host";

/// User-Agent
pub const REQ_HEAD_USER_AGENT: &'static str = "User-Agent";

/// Upgrade
pub const REQ_HEAD_UPGRADE: &'static str = "Upgrade";

/// Sec-WebSocket-Key
pub const REQ_HEAD_SEC_WEBSOCKET_KEY: &'static str = "Sec-WebSocket-Key";

/// Accept
pub const REQ_HEAD_ACCEPT: &'static str = "Accept";

/// Accept-Language
pub const REQ_HEAD_ACCEPT_LANGUAGE: &'static str = "Accept-Language";

/// Accept-Encoding
pub const REQ_HEAD_ACCEPT_ENCODING: &'static str = "Accept-Encoding";

/// Referer
pub const REQ_HEAD_REFERER: &'static str = "Referer";

/// Connection
pub const REQ_HEAD_CONNECTION: &'static str = "Connection";

/// Upgrade-Insecure-Requests
pub const REQ_HEAD_UPGRADE_INSECURE_REQUESTS: &'static str = "Upgrade-Insecure-Requests";

/// If-Modified-Since
pub const REQ_HEAD_IF_MODIFIED_SINCE: &'static str = "If-Modified-Since";

/// If-None-Match
pub const REQ_HEAD_IF_NONE_MATCH: &'static str = "If-None-Match";

/// Cache-Control
pub const REQ_HEAD_CACHE_CONTROL: &'static str = "Cache-Control";

/// Content-Length
pub const REQ_HEAD_CONTENT_LENGTH: &'static str = "Content-Length";

/// Content-Range
pub const REQ_HEAD_CONTENT_RANGE: &'static str = "Content-Range";

/// Content-Type
pub const REQ_HEAD_CONTENT_TYPE: &'static str = "Content-Type";

/// Content-Encoding
pub const REQ_HEAD_CONTENT_ENCODING: &'static str = "Content-Encoding";

/// Content-Location
pub const REQ_HEAD_CONTENT_LOCATION: &'static str = "Content-Location";

/// Content-Language
pub const REQ_HEAD_CONTENT_LANGUAGE: &'static str = "Content-Language";

/// ETag
pub const REQ_HEAD_ETAG: &'static str = "ETag";

/// A request header: one of the known names with its value, or any other
/// name and value as they were received.
#[allow(missing_docs)]
#[non_exhaustive]
#[derive(Clone, Copy, Debug, PartialEq)]
pub enum RequestHeader<'a> {
    Host(&'a str),
    UserAgent(&'a str),
    Upgrade(&'a str),
    SecWebSocketKey(&'a str),
    Accept(&'a str),
    AcceptLanguage(&'a str),
    AcceptEncoding(&'a str),
    Referer(&'a str),
    Connection(&'a str),
    UpgradeInsecureRequests(&'a str),
    IfModifiedSince(&'a str),
    IfNoneMatch(&'a str),
    CacheControl(&'a str),
    ContentLength(usize),
    ContentRange(&'a str),
    ContentType(&'a str),
    ContentEncoding(&'a str),
    ContentLocation(&'a str),
    ContentLanguage(&'a str),
    ETag(&'a str),
    Other(&'a str, &'a str),
}

/// Which header a `RequestHeader` is, whatever its value.
#[allow(missing_docs)]
#[derive(Clone, Copy, Debug, PartialEq, Eq, Structural)]
pub enum RequestHeaderKind {
    Host,
    UserAgent,
    Upgrade,
    SecWebSocketKey,
    Accept,
    AcceptLanguage,
    AcceptEncoding,
    Referer,
    Connection,
    UpgradeInsecureRequests,
    IfModifiedSince,
    IfNoneMatch,
    CacheControl,
    ContentLength,
    ContentRange,
    ContentType,
    ContentEncoding,
    ContentLocation,
    ContentLanguage,
    ETag,
    Other,
}

/// A request header as plain values. `name` is filled for `Other` alone,
/// `length` for `ContentLength` alone, `value` for every other kind.
pub struct HeaderView {
    pub kind: RequestHeaderKind,
    pub name: Seq<char>,
    pub value: Seq<char>,
    pub length: usize,
}

impl HeaderView {
    /// A header that is known by name and carries text.
    pub open spec fn text(kind: RequestHeaderKind, value: Seq<char>) -> HeaderView {
        HeaderView { kind, name: Seq::empty(), value, length: 0 }
    }

    /// A `Content-Length` header.
    pub open spec fn length(n: usize) -> HeaderView {
        HeaderView {
            kind: RequestHeaderKind::ContentLength,
            name: Seq::empty(),
            value: Seq::empty(),
            length: n,
        }
    }

    /// A header that is not known by name.
    pub open spec fn other(name: Seq<char>, value: Seq<char>) -> HeaderView {
        HeaderView { kind: RequestHeaderKind::Other, name, value, length: 0 }
    }

    /// True when a header `found` in a request answers the query `self`: the
    /// kinds are the same, and for headers not known by name the names are
    /// equal up to case.
    pub open spec fn answered_by(self, found: HeaderView) -> bool {
        &&& self.kind == found.kind
        &&& self.kind == RequestHeaderKind::Other ==> eq_ignore_case(
            encode_utf8(self.name),
            encode_utf8(found.name),
        )
    }
}

/// The kind of header that a name stands for; case is ignored.
#[verifier::opaque]
pub open spec fn kind_of(name: Seq<u8>) -> RequestHeaderKind {
    if eq_ignore_case(name, REQ_HEAD_HOST.spec_bytes()) {
        RequestHeaderKind::Host
    } else if eq_ignore_case(name, REQ_HEAD_USER_AGENT.spec_bytes()) {
        RequestHeaderKind::UserAgent
    } else if eq_ignore_case(name, REQ_HEAD_UPGRADE.spec_bytes()) {
        RequestHeaderKind::Upgrade
    } else if eq_ignore_case(name, REQ_HEAD_SEC_WEBSOCKET_KEY.spec_bytes()) {
        RequestHeaderKind::SecWebSocketKey
    } else if eq_ignore_case(name, REQ_HEAD_ACCEPT.spec_bytes()) {
        RequestHeaderKind::Accept
    } else if eq_ignore_case(name, REQ_HEAD_ACCEPT_LANGUAGE.spec_bytes()) {
        RequestHeaderKind::AcceptLanguage
    } else if eq_ignore_case(name, REQ_HEAD_ACCEPT_ENCODING.spec_bytes()) {
        RequestHeaderKind::AcceptEncoding
    } else if eq_ignore_case(name, REQ_HEAD_REFERER.spec_bytes()) {
        RequestHeaderKind::Referer
    } else if eq_ignore_case(name, REQ_HEAD_CONNECTION.spec_bytes()) {
        RequestHeaderKind::Connection
    } else if eq_ignore_case(name, REQ_HEAD_UPGRADE_INSECURE_REQUESTS.spec_bytes()) {
        RequestHeaderKind::UpgradeInsecureRequests
    } else if eq_ignore_case(name, REQ_HEAD_IF_MODIFIED_SINCE.spec_bytes()) {
        RequestHeaderKind::IfModifiedSince
    } else if eq_ignore_case(name, REQ_HEAD_IF_NONE_MATCH.spec_bytes()) {
        RequestHeaderKind::IfNoneMatch
    } else if eq_ignore_case(name, REQ_HEAD_CACHE_CONTROL.spec_bytes()) {
        RequestHeaderKind::CacheControl
    } else if eq_ignore_case(name, REQ_HEAD_CONTENT_RANGE.spec_bytes()) {
        RequestHeaderKind::ContentRange
    } else if eq_ignore_case(name, REQ_HEAD_CONTENT_TYPE.spec_bytes()) {
        RequestHeaderKind::ContentType
    } else if eq_ignore_case(name, REQ_HEAD_CONTENT_ENCODING.spec_bytes()) {
        RequestHeaderKind::ContentEncoding
    } else if eq_ignore_case(name, REQ_HEAD_CONTENT_LOCATION.spec_bytes()) {
        RequestHeaderKind::ContentLocation
    } else if eq_ignore_case(name, REQ_HEAD_CONTENT_LANGUAGE.spec_bytes()) {
        RequestHeaderKind::ContentLanguage
    } else if eq_ignore_case(name, REQ_HEAD_ETAG.spec_bytes()) {
        RequestHeaderKind::ETag
    } else if eq_ignore_case(name, REQ_HEAD_CONTENT_LENGTH.spec_bytes()) {
        RequestHeaderKind::ContentLength
    } else {
        RequestHeaderKind::Other
    }
}

/// Every known name stands for its own kind of header.
pub proof fn lemma_known_names()
    ensures
        kind_of(REQ_HEAD_HOST.spec_bytes()) == RequestHeaderKind::Host,
        kind_of(REQ_HEAD_USER_AGENT.spec_bytes()) == RequestHeaderKind::UserAgent,
        kind_of(REQ_HEAD_UPGRADE.spec_bytes()) == RequestHeaderKind::Upgrade,
        kind_of(REQ_HEAD_SEC_WEBSOCKET_KEY.spec_bytes()) == RequestHeaderKind::SecWebSocketKey,
        kind_of(REQ_HEAD_ACCEPT.spec_bytes()) == RequestHeaderKind::Accept,
        kind_of(REQ_HEAD_ACCEPT_LANGUAGE.spec_bytes()) == RequestHeaderKind::AcceptLanguage,
        kind_of(REQ_HEAD_ACCEPT_ENCODING.spec_bytes()) == RequestHeaderKind::AcceptEncoding,
        kind_of(REQ_HEAD_REFERER.spec_bytes()) == RequestHeaderKind::Referer,
        kind_of(REQ_HEAD_CONNECTION.spec_bytes()) == RequestHeaderKind::Connection,
        kind_of(REQ_HEAD_UPGRADE_INSECURE_REQUESTS.spec_bytes())
            == RequestHeaderKind::UpgradeInsecureRequests,
        kind_of(REQ_HEAD_IF_MODIFIED_SINCE.spec_bytes()) == RequestHeaderKind::IfModifiedSince,
        kind_of(REQ_HEAD_IF_NONE_MATCH.spec_bytes()) == RequestHeaderKind::IfNoneMatch,
        kind_of(REQ_HEAD_CACHE_CONTROL.spec_bytes()) == RequestHeaderKind::CacheControl,
        kind_of(REQ_HEAD_CONTENT_RANGE.spec_bytes()) == RequestHeaderKind::ContentRange,
        kind_of(REQ_HEAD_CONTENT_TYPE.spec_bytes()) == RequestHeaderKind::ContentType,
        kind_of(REQ_HEAD_CONTENT_ENCODING.spec_bytes()) == RequestHeaderKind::ContentEncoding,
        kind_of(REQ_HEAD_CONTENT_LOCATION.spec_bytes()) == RequestHeaderKind::ContentLocation,
        kind_of(REQ_HEAD_CONTENT_LANGUAGE.spec_bytes()) == RequestHeaderKind::ContentLanguage,
        kind_of(REQ_HEAD_ETAG.spec_bytes()) == RequestHeaderKind::ETag,
        kind_of(REQ_HEAD_CONTENT_LENGTH.spec_bytes()) == RequestHeaderKind::ContentLength,
{
    reveal(kind_of);
    reveal_strlit("Host");
    vstd::string::is_ascii_spec_bytes(REQ_HEAD_HOST);
    reveal_strlit("User-Agent");
    vstd::string::is_ascii_spec_bytes(REQ_HEAD_USER_AGENT);
    reveal_strlit("Upgrade");
    vstd::string::is_ascii_spec_bytes(REQ_HEAD_UPGRADE);
    reveal_strlit("Sec-WebSocket-Key");
    vstd::string::is_ascii_spec_bytes(REQ_HEAD_SEC_WEBSOCKET_KEY);
    reveal_strlit("Accept");
    vstd::string::is_ascii_spec_bytes(REQ_HEAD_ACCEPT);
    reveal_strlit("Accept-Language");
    vstd::string::is_ascii_spec_bytes(REQ_HEAD_ACCEPT_LANGUAGE);
    reveal_strlit("Accept-Encoding");
    vstd::string::is_ascii_spec_bytes(REQ_HEAD_ACCEPT_ENCODING);
    reveal_strlit("Referer");
    vstd::string::is_ascii_spec_bytes(REQ_HEAD_REFERER);
    reveal_strlit("Connection");
    vstd::string::is_ascii_spec_bytes(REQ_HEAD_CONNECTION);
    reveal_strlit("Upgrade-Insecure-Requests");
    vstd::string::is_ascii_spec_bytes(REQ_HEAD_UPGRADE_INSECURE_REQUESTS);
    reveal_strlit("If-Modified-Since");
    vstd::string::is_ascii_spec_bytes(REQ_HEAD_IF_MODIFIED_SINCE);
    reveal_strlit("If-None-Match");
    vstd::string::is_ascii_spec_bytes(REQ_HEAD_IF_NONE_MATCH);
    reveal_strlit("Cache-Control");
    vstd::string::is_ascii_spec_bytes(REQ_HEAD_CACHE_CONTROL);
    reveal_strlit("Content-Range");
    vstd::string::is_ascii_spec_bytes(REQ_HEAD_CONTENT_RANGE);
    reveal_strlit("Content-Type");
    vstd::string::is_ascii_spec_bytes(REQ_HEAD_CONTENT_TYPE);
    reveal_strlit("Content-Encoding");
    vstd::string::is_ascii_spec_bytes(REQ_HEAD_CONTENT_ENCODING);
    reveal_strlit("Content-Location");
    vstd::string::is_ascii_spec_bytes(REQ_HEAD_CONTENT_LOCATION);
    reveal_strlit("Content-Language");
    vstd::string::is_ascii_spec_bytes(REQ_HEAD_CONTENT_LANGUAGE);
    reveal_strlit("ETag");
    vstd::string::is_ascii_spec_bytes(REQ_HEAD_ETAG);
    reveal_strlit("Content-Length");
    vstd::string::is_ascii_spec_bytes(REQ_HEAD_CONTENT_LENGTH);
    assert(lower(REQ_HEAD_ACCEPT_ENCODING.spec_bytes()[7]) != lower(
        REQ_HEAD_ACCEPT_LANGUAGE.spec_bytes()[7],
    ));
    assert(lower(REQ_HEAD_REFERER.spec_bytes()[0]) != lower(REQ_HEAD_UPGRADE.spec_bytes()[0]));
    assert(lower(REQ_HEAD_CONNECTION.spec_bytes()[0]) != lower(
        REQ_HEAD_USER_AGENT.spec_bytes()[0],
    ));
    assert(lower(REQ_HEAD_IF_MODIFIED_SINCE.spec_bytes()[0]) != lower(
        REQ_HEAD_SEC_WEBSOCKET_KEY.spec_bytes()[0],
    ));
    assert(lower(REQ_HEAD_CACHE_CONTROL.spec_bytes()[0]) != lower(
        REQ_HEAD_IF_NONE_MATCH.spec_bytes()[0],
    ));
    assert(lower(REQ_HEAD_CONTENT_RANGE.spec_bytes()[0]) != lower(
        REQ_HEAD_IF_NONE_MATCH.spec_bytes()[0],
    ));
    assert(lower(REQ_HEAD_CONTENT_RANGE.spec_bytes()[1]) != lower(
        REQ_HEAD_CACHE_CONTROL.spec_bytes()[1],
    ));
    assert(lower(REQ_HEAD_CONTENT_LOCATION.spec_bytes()[8]) != lower(
        REQ_HEAD_CONTENT_ENCODING.spec_bytes()[8],
    ));
    assert(lower(REQ_HEAD_CONTENT_LANGUAGE.spec_bytes()[8]) != lower(
        REQ_HEAD_CONTENT_ENCODING.spec_bytes()[8],
    ));
    assert(lower(REQ_HEAD_CONTENT_LANGUAGE.spec_bytes()[9]) != lower(
        REQ_HEAD_CONTENT_LOCATION.spec_bytes()[9],
    ));
    assert(lower(REQ_HEAD_ETAG.spec_bytes()[0]) != lower(REQ_HEAD_HOST.spec_bytes()[0]));
}

/// The header that a name and a value make, or nothing where the name is
/// `Content-Length` and the value is not a number.
pub open spec fn resolve(name: Seq<char>, value: Seq<char>) -> Option<HeaderView> {
    let kind = kind_of(encode_utf8(name));
    if kind == RequestHeaderKind::ContentLength {
        match unsigned_of(encode_utf8(value)) {
            Some(n) => Some(HeaderView::length(n as usize)),
            None => None,
        }
    } else if kind == RequestHeaderKind::Other {
        Some(HeaderView::other(name, value))
    } else {
        Some(HeaderView::text(kind, value))
    }
}

/// The kind of header that `name` stands for.
pub fn kind_of_name(name: &str) -> (kind: RequestHeaderKind)
    ensures
        kind == kind_of(name.spec_bytes()),
{
    reveal(kind_of);
    if eq_ignore_ascii_case(name, REQ_HEAD_HOST) {
        RequestHeaderKind::Host
    } else if eq_ignore_ascii_case(name, REQ_HEAD_USER_AGENT) {
        RequestHeaderKind::UserAgent
    } else if eq_ignore_ascii_case(name, REQ_HEAD_UPGRADE) {
        RequestHeaderKind::Upgrade
    } else if eq_ignore_ascii_case(name, REQ_HEAD_SEC_WEBSOCKET_KEY) {
        RequestHeaderKind::SecWebSocketKey
    } else if eq_ignore_ascii_case(name, REQ_HEAD_ACCEPT) {
        RequestHeaderKind::Accept
    } else if eq_ignore_ascii_case(name, REQ_HEAD_ACCEPT_LANGUAGE) {
        RequestHeaderKind::AcceptLanguage
    } else if eq_ignore_ascii_case(name, REQ_HEAD_ACCEPT_ENCODING) {
        RequestHeaderKind::AcceptEncoding
    } else if eq_ignore_ascii_case(name, REQ_HEAD_REFERER) {
        RequestHeaderKind::Referer
    } else if eq_ignore_ascii_case(name, REQ_HEAD_CONNECTION) {
        RequestHeaderKind::Connection
    } else if eq_ignore_ascii_case(name, REQ_HEAD_UPGRADE_INSECURE_REQUESTS) {
        RequestHeaderKind::UpgradeInsecureRequests
    } else if eq_ignore_ascii_case(name, REQ_HEAD_IF_MODIFIED_SINCE) {
        RequestHeaderKind::IfModifiedSince
    } else if eq_ignore_ascii_case(name, REQ_HEAD_IF_NONE_MATCH) {
        RequestHeaderKind::IfNoneMatch
    } else if eq_ignore_ascii_case(name, REQ_HEAD_CACHE_CONTROL) {
        RequestHeaderKind::CacheControl
    } else if eq_ignore_ascii_case(name, REQ_HEAD_CONTENT_RANGE) {
        RequestHeaderKind::ContentRange
    } else if eq_ignore_ascii_case(name, REQ_HEAD_CONTENT_TYPE) {
        RequestHeaderKind::ContentType
    } else if eq_ignore_ascii_case(name, REQ_HEAD_CONTENT_ENCODING) {
        RequestHeaderKind::ContentEncoding
    } else if eq_ignore_ascii_case(name, REQ_HEAD_CONTENT_LOCATION) {
        RequestHeaderKind::ContentLocation
    } else if eq_ignore_ascii_case(name, REQ_HEAD_CONTENT_LANGUAGE) {
        RequestHeaderKind::ContentLanguage
    } else if eq_ignore_ascii_case(name, REQ_HEAD_ETAG) {
        RequestHeaderKind::ETag
    } else if eq_ignore_ascii_case(name, REQ_HEAD_CONTENT_LENGTH) {
        RequestHeaderKind::ContentLength
    } else {
        RequestHeaderKind::Other
    }
}

impl<'a> View for RequestHeader<'a> {
    type V = HeaderView;

    open spec fn view(&self) -> HeaderView {
        match *self {
            RequestHeader::Host(s) => HeaderView::text(RequestHeaderKind::Host, s@),
            RequestHeader::UserAgent(s) => HeaderView::text(RequestHeaderKind::UserAgent, s@),
            RequestHeader::Upgrade(s) => HeaderView::text(RequestHeaderKind::Upgrade, s@),
            RequestHeader::SecWebSocketKey(s) => HeaderView::text(
                RequestHeaderKind::SecWebSocketKey,
                s@,
            ),
            RequestHeader::Accept(s) => HeaderView::text(RequestHeaderKind::Accept, s@),
            RequestHeader::AcceptLanguage(s) => HeaderView::text(
                RequestHeaderKind::AcceptLanguage,
                s@,
            ),
            RequestHeader::AcceptEncoding(s) => HeaderView::text(
                RequestHeaderKind::AcceptEncoding,
                s@,
            ),
            RequestHeader::Referer(s) => HeaderView::text(RequestHeaderKind::Referer, s@),
            RequestHeader::Connection(s) => HeaderView::text(RequestHeaderKind::Connection, s@),
            RequestHeader::UpgradeInsecureRequests(s) => HeaderView::text(
                RequestHeaderKind::UpgradeInsecureRequests,
                s@,
            ),
            RequestHeader::IfModifiedSince(s) => HeaderView::text(
                RequestHeaderKind::IfModifiedSince,
                s@,
            ),
            RequestHeader::IfNoneMatch(s) => HeaderView::text(RequestHeaderKind::IfNoneMatch, s@),
            RequestHeader::CacheControl(s) => HeaderView::text(RequestHeaderKind::CacheControl, s@),
            RequestHeader::ContentLength(n) => HeaderView::length(n),
            RequestHeader::ContentRange(s) => HeaderView::text(RequestHeaderKind::ContentRange, s@),
            RequestHeader::ContentType(s) => HeaderView::text(RequestHeaderKind::ContentType, s@),
            RequestHeader::ContentEncoding(s) => HeaderView::text(
                RequestHeaderKind::ContentEncoding,
                s@,
            ),
            RequestHeader::ContentLocation(s) => HeaderView::text(
                RequestHeaderKind::ContentLocation,
                s@,
            ),
            RequestHeader::ContentLanguage(s) => HeaderView::text(
                RequestHeaderKind::ContentLanguage,
                s@,
            ),
            RequestHeader::ETag(s) => HeaderView::text(RequestHeaderKind::ETag, s@),
            RequestHeader::Other(k, v) => HeaderView::other(k@, v@),
        }
    }
}

impl<'a> RequestHeader<'a> {
    /// Which header this is.
    pub fn kind(&self) -> (kind: RequestHeaderKind)
        ensures
            kind == self@.kind,
    {
        match self {
            RequestHeader::Host(_) => RequestHeaderKind::Host,
            RequestHeader::UserAgent(_) => RequestHeaderKind::UserAgent,
            RequestHeader::Upgrade(_) => RequestHeaderKind::Upgrade,
            RequestHeader::SecWebSocketKey(_) => RequestHeaderKind::SecWebSocketKey,
            RequestHeader::Accept(_) => RequestHeaderKind::Accept,
            RequestHeader::AcceptLanguage(_) => RequestHeaderKind::AcceptLanguage,
            RequestHeader::AcceptEncoding(_) => RequestHeaderKind::AcceptEncoding,
            RequestHeader::Referer(_) => RequestHeaderKind::Referer,
            RequestHeader::Connection(_) => RequestHeaderKind::Connection,
            RequestHeader::UpgradeInsecureRequests(_) => RequestHeaderKind::UpgradeInsecureRequests,
            RequestHeader::IfModifiedSince(_) => RequestHeaderKind::IfModifiedSince,
            RequestHeader::IfNoneMatch(_) => RequestHeaderKind::IfNoneMatch,
            RequestHeader::CacheControl(_) => RequestHeaderKind::CacheControl,
            RequestHeader::ContentLength(_) => RequestHeaderKind::ContentLength,
            RequestHeader::ContentRange(_) => RequestHeaderKind::ContentRange,
            RequestHeader::ContentType(_) => RequestHeaderKind::ContentType,
            RequestHeader::ContentEncoding(_) => RequestHeaderKind::ContentEncoding,
            RequestHeader::ContentLocation(_) => RequestHeaderKind::ContentLocation,
            RequestHeader::ContentLanguage(_) => RequestHeaderKind::ContentLanguage,
            RequestHeader::ETag(_) => RequestHeaderKind::ETag,
            RequestHeader::Other(_, _) => RequestHeaderKind::Other,
        }
    }

    /// True when `found` answers the query `self`.
    pub fn answered_by(&self, found: &RequestHeader<'_>) -> (r: bool)
        ensures
            r == self@.answered_by(found@),
    {
        match (self, found) {
            (RequestHeader::Other(key1, _), RequestHeader::Other(key2, _)) => eq_ignore_ascii_case(
                key1,
                key2,
            ),
            _ => self.kind() == found.kind(),
        }
    }

}

impl<'a> TryFrom<(&'a str, &'a str)> for RequestHeader<'a> {
    type Error = Option<&'static str>;

    /// Makes a header of a name and a value. The name is matched without
    /// regard to case. The value of `Content-Length` must be a number; every
    /// other value is taken as it is.
    fn try_from(value: (&'a str, &'a str)) -> (r: Result<Self, Option<&'static str>>)
        ensures
            match resolve(value.0@, value.1@) {
                Some(h) => r is Ok && r->Ok_0@ == h,
                None => r == Err::<Self, Option<&'static str>>(Some("invalid content-length")),
            },
    {
        match kind_of_name(value.0) {
            RequestHeaderKind::Host => Ok(RequestHeader::Host(value.1)),
            RequestHeaderKind::UserAgent => Ok(RequestHeader::UserAgent(value.1)),
            RequestHeaderKind::Upgrade => Ok(RequestHeader::Upgrade(value.1)),
            RequestHeaderKind::SecWebSocketKey => Ok(RequestHeader::SecWebSocketKey(value.1)),
            RequestHeaderKind::Accept => Ok(RequestHeader::Accept(value.1)),
            RequestHeaderKind::AcceptLanguage => Ok(RequestHeader::AcceptLanguage(value.1)),
            RequestHeaderKind::AcceptEncoding => Ok(RequestHeader::AcceptEncoding(value.1)),
            RequestHeaderKind::Referer => Ok(RequestHeader::Referer(value.1)),
            RequestHeaderKind::Connection => Ok(RequestHeader::Connection(value.1)),
            RequestHeaderKind::UpgradeInsecureRequests => Ok(
                RequestHeader::UpgradeInsecureRequests(value.1),
            ),
            RequestHeaderKind::IfModifiedSince => Ok(RequestHeader::IfModifiedSince(value.1)),
            RequestHeaderKind::IfNoneMatch => Ok(RequestHeader::IfNoneMatch(value.1)),
            RequestHeaderKind::CacheControl => Ok(RequestHeader::CacheControl(value.1)),
            RequestHeaderKind::ContentLength => match atoi(value.1.as_bytes()) {
                Some(n) => Ok(RequestHeader::ContentLength(n as usize)),
                None => Err(Some("invalid content-length")),
            },
            RequestHeaderKind::ContentRange => Ok(RequestHeader::ContentRange(value.1)),
            RequestHeaderKind::ContentType => Ok(RequestHeader::ContentType(value.1)),
            RequestHeaderKind::ContentEncoding => Ok(RequestHeader::ContentEncoding(value.1)),
            RequestHeaderKind::ContentLocation => Ok(RequestHeader::ContentLocation(value.1)),
            RequestHeaderKind::ContentLanguage => Ok(RequestHeader::ContentLanguage(value.1)),
            RequestHeaderKind::ETag => Ok(RequestHeader::ETag(value.1)),
            RequestHeaderKind::Other => Ok(RequestHeader::Other(value.0, value.1)),
        }
    }
}

impl<'a> TryFromSpecImpl<(&'a str, &'a str)> for RequestHeader<'a> {
    open spec fn obeys_try_from_spec() -> bool {
        false
    }

    open spec fn try_from_spec(value: (&'a str, &'a str)) -> Result<Self, Option<&'static str>> {
        arbitrary()
    }
}

/// Access-Control-Allow-Origin
pub const RESP_HEAD_ACCESS_CONTROL_ALLOW_ORIGIN: &'static str = "Access-Control-Allow-Origin";

/// Connection
pub const RESP_HEAD_CONNECTION: &'static str = "Connection";

/// Date
pub const RESP_HEAD_DATE: &'static str = "Date";

/// Keep-Alive
pub const RESP_HEAD_KEEP_ALIVE: &'static str = "Keep-Alive";

/// Last-Modified
pub const RESP_HEAD_LAST_MODIFIED: &'static str = "Last-Modified";

/// Server
pub const RESP_HEAD_SERVER: &'static str = "Server";

/// Set-Cookie
pub const RESP_HEAD_SET_COOKIE: &'static str = "Set-Cookie";

/// Transfer-Encoding
pub const RESP_HEAD_TRANSFER_ENCODING: &'static str = "Transfer-Encoding";

/// Vary
pub const RESP_HEAD_VARY: &'static str = "Vary";

/// Content-Length
pub const RESP_HEAD_CONTENT_LENGTH: &'static str = "Content-Length";

/// Content-Range
pub const RESP_HEAD_CONTENT_RANGE: &'static str = "Content-Range";

/// Content-Type
pub const RESP_HEAD_CONTENT_TYPE: &'static str = "Content-Type";

/// Content-Encoding
pub const RESP_HEAD_CONTENT_ENCODING: &'static str = "Content-Encoding";

/// Content-Location
pub const RESP_HEAD_CONTENT_LOCATION: &'static str = "Content-Location";

/// Content-Language
pub const RESP_HEAD_CONTENT_LANGUAGE: &'static str = "Content-Language";

/// ETag
pub const RESP_HEAD_ETAG: &'static str = "ETag";

/// Sec-WebSocket-Accept
pub const RESP_HEAD_SEC_WEBSOCKET_ACCEPT: &'static str = "Sec-WebSocket-Accept";

/// A response header: one of the known names with its value, or any other
/// name and value.
#[allow(missing_docs)]
#[non_exhaustive]
#[derive(Clone, Copy, Debug, PartialEq)]
pub enum ResponseHeader<'a> {
    AccessControlAllowOrigin(&'a str),
    Connection(&'a str),
    Date(&'a str),
    KeepAlive(&'a str),
    LastModified(&'a str),
    Server(&'a str),
    SetCookie(&'a str),
    TransferEncoding(&'a str),
    Vary(&'a str),
    ContentLength(usize),
    ContentRange(&'a str),
    ContentType(&'a str),
    ContentEncoding(&'a str),
    ContentLocation(&'a str),
    ContentLanguage(&'a str),
    ETag(&'a str),
    SecWebSocketAccept([u8; 28]),
    Other(&'a str, &'a str),
}

/// A header line as it is sent: name, colon, space, value, CR LF.
pub open spec fn wire_line(name: Seq<u8>, value: Seq<u8>) -> Seq<u8> {
    name + seq![COLON, SP] + value + seq![CR, LF]
}

impl<'a> ResponseHeader<'a> {
    /// The name under which the header is sent.
    pub open spec fn name(self) -> Seq<u8> {
        match self {
            ResponseHeader::AccessControlAllowOrigin(_) =>
                RESP_HEAD_ACCESS_CONTROL_ALLOW_ORIGIN.spec_bytes(),
            ResponseHeader::Connection(_) => RESP_HEAD_CONNECTION.spec_bytes(),
            ResponseHeader::Date(_) => RESP_HEAD_DATE.spec_bytes(),
            ResponseHeader::KeepAlive(_) => RESP_HEAD_KEEP_ALIVE.spec_bytes(),
            ResponseHeader::LastModified(_) => RESP_HEAD_LAST_MODIFIED.spec_bytes(),
            ResponseHeader::Server(_) => RESP_HEAD_SERVER.spec_bytes(),
            ResponseHeader::SetCookie(_) => RESP_HEAD_SET_COOKIE.spec_bytes(),
            ResponseHeader::TransferEncoding(_) => RESP_HEAD_TRANSFER_ENCODING.spec_bytes(),
            ResponseHeader::Vary(_) => RESP_HEAD_VARY.spec_bytes(),
            ResponseHeader::ContentLength(_) => RESP_HEAD_CONTENT_LENGTH.spec_bytes(),
            ResponseHeader::ContentRange(_) => RESP_HEAD_CONTENT_RANGE.spec_bytes(),
            ResponseHeader::ContentType(_) => RESP_HEAD_CONTENT_TYPE.spec_bytes(),
            ResponseHeader::ContentEncoding(_) => RESP_HEAD_CONTENT_ENCODING.spec_bytes(),
            ResponseHeader::ContentLocation(_) => RESP_HEAD_CONTENT_LOCATION.spec_bytes(),
            ResponseHeader::ContentLanguage(_) => RESP_HEAD_CONTENT_LANGUAGE.spec_bytes(),
            ResponseHeader::ETag(_) => RESP_HEAD_ETAG.spec_bytes(),
            ResponseHeader::SecWebSocketAccept(_) => RESP_HEAD_SEC_WEBSOCKET_ACCEPT.spec_bytes(),
            ResponseHeader::Other(k, _) => k.spec_bytes(),
        }
    }

    /// The value as it is sent.
    pub open spec fn value(self) -> Seq<u8> {
        match self {
            ResponseHeader::AccessControlAllowOrigin(s) => s.spec_bytes(),
            ResponseHeader::Connection(s) => s.spec_bytes(),
            ResponseHeader::Date(s) => s.spec_bytes(),
            ResponseHeader::KeepAlive(s) => s.spec_bytes(),
            ResponseHeader::LastModified(s) => s.spec_bytes(),
            ResponseHeader::Server(s) => s.spec_bytes(),
            ResponseHeader::SetCookie(s) => s.spec_bytes(),
            ResponseHeader::TransferEncoding(s) => s.spec_bytes(),
            ResponseHeader::Vary(s) => s.spec_bytes(),
            ResponseHeader::ContentLength(n) => digits(n as nat),
            ResponseHeader::ContentRange(s) => s.spec_bytes(),
            ResponseHeader::ContentType(s) => s.spec_bytes(),
            ResponseHeader::ContentEncoding(s) => s.spec_bytes(),
            ResponseHeader::ContentLocation(s) => s.spec_bytes(),
            ResponseHeader::ContentLanguage(s) => s.spec_bytes(),
            ResponseHeader::ETag(s) => s.spec_bytes(),
            ResponseHeader::SecWebSocketAccept(token) => token@,
            ResponseHeader::Other(_, v) => v.spec_bytes(),
        }
    }

    /// The bytes that the header adds to a response: the line `name: value`,
    /// and nothing at all for a `Content-Length` of zero.
    pub open spec fn line(self) -> Seq<u8> {
        if self == ResponseHeader::ContentLength(0) {
            Seq::empty()
        } else {
            wire_line(self.name(), self.value())
        }
    }

    /// Appends the header's line to `out`.
    pub fn write(self, out: &mut Vec<u8>)
        ensures
            final(out)@ == old(out)@ + self.line(),
    {
        let number: AsciiInt;
        let token: [u8; 28];
        let (name, value): (&[u8], &[u8]) = match self {
            ResponseHeader::AccessControlAllowOrigin(s) => (
                RESP_HEAD_ACCESS_CONTROL_ALLOW_ORIGIN.as_bytes(),
                s.as_bytes(),
            ),
            ResponseHeader::Connection(s) => (RESP_HEAD_CONNECTION.as_bytes(), s.as_bytes()),
            ResponseHeader::Date(s) => (RESP_HEAD_DATE.as_bytes(), s.as_bytes()),
            ResponseHeader::KeepAlive(s) => (RESP_HEAD_KEEP_ALIVE.as_bytes(), s.as_bytes()),
            ResponseHeader::LastModified(s) => (RESP_HEAD_LAST_MODIFIED.as_bytes(), s.as_bytes()),
            ResponseHeader::Server(s) => (RESP_HEAD_SERVER.as_bytes(), s.as_bytes()),
            ResponseHeader::SetCookie(s) => (RESP_HEAD_SET_COOKIE.as_bytes(), s.as_bytes()),
            ResponseHeader::TransferEncoding(s) => (
                RESP_HEAD_TRANSFER_ENCODING.as_bytes(),
                s.as_bytes(),
            ),
            ResponseHeader::Vary(s) => (RESP_HEAD_VARY.as_bytes(), s.as_bytes()),
            ResponseHeader::ContentLength(n) => {
                if n == 0 {
                    assert(old(out)@ + self.line() =~= old(out)@);
                    return ;
                }
                number = AsciiInt::from(n as u64);
                (RESP_HEAD_CONTENT_LENGTH.as_bytes(), number.as_str().as_bytes())
            },
            ResponseHeader::ContentRange(s) => (RESP_HEAD_CONTENT_RANGE.as_bytes(), s.as_bytes()),
            ResponseHeader::ContentType(s) => (RESP_HEAD_CONTENT_TYPE.as_bytes(), s.as_bytes()),
            ResponseHeader::ContentEncoding(s) => (
                RESP_HEAD_CONTENT_ENCODING.as_bytes(),
                s.as_bytes(),
            ),
            ResponseHeader::ContentLocation(s) => (
                RESP_HEAD_CONTENT_LOCATION.as_bytes(),
                s.as_bytes(),
            ),
            ResponseHeader::ContentLanguage(s) => (
                RESP_HEAD_CONTENT_LANGUAGE.as_bytes(),
                s.as_bytes(),
            ),
            ResponseHeader::ETag(s) => (RESP_HEAD_ETAG.as_bytes(), s.as_bytes()),
            ResponseHeader::SecWebSocketAccept(s) => {
                token = s;
                (RESP_HEAD_SEC_WEBSOCKET_ACCEPT.as_bytes(), token.as_slice())
            },
            ResponseHeader::Other(k, v) => (k.as_bytes(), v.as_bytes()),
        };
        assert(name@ == self.name() && value@ == self.value());
        put(out, name);
        out.push(COLON);
        out.push(SP);
        put(out, value);
        out.push(CR);
        out.push(LF);
        assert(out@ =~= old(out)@ + self.line());
    }
}

} // verus!
