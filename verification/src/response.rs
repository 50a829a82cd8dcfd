//! Responses: the status line, and the responder that lets a response be
//! written in one order only: status, headers, blank line, body.
use crate::ascii::{digits, AsciiInt, CR, LF, SP};
use crate::header::{wire_line, HeaderView, RequestHeader, RequestHeaderKind, ResponseHeader};
use crate::header::{RESP_HEAD_CONNECTION, RESP_HEAD_CONTENT_LENGTH, RESP_HEAD_SEC_WEBSOCKET_ACCEPT};
use crate::header::RESP_HEAD_SERVER;
use crate::request::{lookup, Request, RequestView};
use crate::text::put;
use crate::websocket::{accept_token, sec_websocket_accept_val, Websocket};
use vstd::prelude::*;
use vstd::string::StringSliceAdditionalSpecFns;
use vstd::utf8::encode_utf8;

verus! {

/// The protocol version that every status line starts with.
pub const HTTP_PROTO: &'static str = "HTTP/1.1";

/// Responder error is returned as the error when responding to clients.
#[derive(Debug, PartialEq)]
pub enum ResponderError {
    /// Network error writing data to the client
    NetworkError,
    /// Protocol error parsing supplied data
    ProtocolError(&'static str),
}

/// HTTP status code returned in a response
#[non_exhaustive]
#[derive(Clone, Copy)]
pub enum StatusCode {
    /// 101 Switching Protocols - eg from HTTP to Websocket
    SwitchingProtocols,
    /// 200 Ok
    OK,
    /// 400 Bad Request
    BadRequest,
    /// 404 Not Found
    NotFound,
    /// 500 Server Error
    InternalServerError,
    /// Any other code
    Other(u16),
}

impl StatusCode {
    /// The code as it stands in the status line: the number with its
    /// phrase for the codes that have a name, the bare number for the rest.
    pub open spec fn text(self) -> Seq<u8> {
        match self {
            StatusCode::SwitchingProtocols => "101 Switching Protocols".spec_bytes(),
            StatusCode::OK => "200 OK".spec_bytes(),
            StatusCode::BadRequest => "400 Bad Request".spec_bytes(),
            StatusCode::NotFound => "404 Not Found".spec_bytes(),
            StatusCode::InternalServerError => "500 Internal Server Error".spec_bytes(),
            StatusCode::Other(n) => digits(n as nat),
        }
    }

    /// The status line.
    pub open spec fn line(self) -> Seq<u8> {
        HTTP_PROTO.spec_bytes() + seq![SP] + self.text() + seq![CR, LF]
    }

    /// Appends the status line to `out`.
    pub fn write(self, out: &mut Vec<u8>)
        ensures
            final(out)@ == old(out)@ + self.line(),
    {
        let other: AsciiInt;
        let data = match self {
            Self::SwitchingProtocols => "101 Switching Protocols",
            Self::OK => "200 OK",
            Self::BadRequest => "400 Bad Request",
            Self::NotFound => "404 Not Found",
            Self::InternalServerError => "500 Internal Server Error",
            Self::Other(n) => {
                other = AsciiInt::from(n as u64);
                other.as_str()
            },
        };
        put(out, HTTP_PROTO.as_bytes());
        out.push(SP);
        put(out, data.as_bytes());
        out.push(CR);
        out.push(LF);
        assert(out@ =~= old(out)@ + self.line());
    }
}

/// The `Server` line that follows the status line: none for an empty value.
pub open spec fn server_line(server: Seq<u8>) -> Seq<u8> {
    if server.len() == 0 {
        Seq::empty()
    } else {
        wire_line(RESP_HEAD_SERVER.spec_bytes(), server)
    }
}

/// The start of a response: the status line, then the `Server` line.
pub open spec fn head(status: StatusCode, server: Seq<u8>) -> Seq<u8> {
    status.line() + server_line(server)
}

/// The three header lines that accept an upgrade to WebSocket, for a
/// client's key.
pub open spec fn upgrade_lines(key: Seq<u8>) -> Seq<u8> {
    wire_line(RESP_HEAD_SEC_WEBSOCKET_ACCEPT.spec_bytes(), accept_token(key)) + wire_line(
        "Upgrade".spec_bytes(),
        "websocket".spec_bytes(),
    ) + wire_line(RESP_HEAD_CONNECTION.spec_bytes(), "Upgrade".spec_bytes())
}

/// The value of the first `Sec-WebSocket-Key` header of a request.
pub open spec fn key_of(request: RequestView) -> Option<Seq<char>> {
    match request.header_slice {
        None => None,
        Some(block) => match lookup(
            block,
            0,
            HeaderView::text(RequestHeaderKind::SecWebSocketKey, Seq::empty()),
        ) {
            Some(h) => Some(h.value),
            None => None,
        },
    }
}

struct ResponderInner<'a> {
    status: StatusCode,
    server: ResponseHeader<'a>,
    client: Vec<u8>,
}

impl<'a> ResponderInner<'a> {
    spec fn server_text(self) -> Seq<u8> {
        match self.server {
            ResponseHeader::Server(s) => s.spec_bytes(),
            _ => Seq::empty(),
        }
    }

    spec fn well_formed(self) -> bool {
        self.server is Server
    }

    fn with_status(&mut self, status: StatusCode)
        requires
            old(self).well_formed(),
        ensures
            final(self).client@ == old(self).client@ + head(status, old(self).server_text()),
            final(self).server == old(self).server,
            final(self).status == old(self).status,
    {
        status.write(&mut self.client);
        let named = match self.server {
            ResponseHeader::Server(s) => s.as_bytes().len() > 0,
            _ => true,
        };
        if named {
            self.server.write(&mut self.client);
        }
        assert(self.client@ =~= old(self).client@ + head(status, old(self).server_text()));
    }

    fn with_header(&mut self, header: ResponseHeader<'a>)
        ensures
            final(self).client@ == old(self).client@ + header.line(),
            final(self).server == old(self).server,
            final(self).status == old(self).status,
    {
        header.write(&mut self.client);
    }

    fn no_body(self) -> (r: Vec<u8>)
        ensures
            r@ == self.client@ + seq![CR, LF],
    {
        let mut client = self.client;
        client.push(CR);
        client.push(LF);
        assert(client@ =~= self.client@ + seq![CR, LF]);
        client
    }

    fn with_body(self, body: &[u8]) -> (r: Vec<u8>)
        ensures
            r@ == self.client@ + ResponseHeader::ContentLength(body@.len() as usize).line() + seq![
                CR,
                LF,
            ] + body@,
    {
        let mut client = self.client;
        ResponseHeader::ContentLength(body.len()).write(&mut client);
        client.push(CR);
        client.push(LF);
        put(&mut client, body);
        assert(client@ =~= self.client@ + ResponseHeader::ContentLength(
            body@.len() as usize,
        ).line() + seq![CR, LF] + body@);
        client
    }

    fn websocket(self) -> (r: (Vec<u8>, Websocket))
        ensures
            r.0@ == self.client@ + seq![CR, LF],
            r.1@ == Seq::<u8>::empty(),
    {
        let mut client = self.client;
        client.push(CR);
        client.push(LF);
        assert(client@ =~= self.client@ + seq![CR, LF]);
        (client, Websocket::new())
    }
}

/// Responder is the API provided to formulate HTTP responses to the client.
/// A `Responder` has written nothing yet; it turns into a `ResponderSending`
/// when the status is written.
pub struct Responder<'a> {
    inner: ResponderInner<'a>,
}

/// ResponderSending is a responder for which a status has already been sent.
pub struct ResponderSending<'a> {
    inner: ResponderInner<'a>,
}

impl<'a> Responder<'a> {
    #[verifier::type_invariant]
    spec fn well_formed(self) -> bool {
        self.inner.well_formed() && self.inner.status is OK
    }

    /// The bytes written and not yet taken.
    pub closed spec fn wire(self) -> Seq<u8> {
        self.inner.client@
    }

    /// The value of the `Server` header that goes out with the status.
    pub closed spec fn server(self) -> Seq<u8> {
        self.inner.server_text()
    }

    /// Create a new responder. The `Server` header is set to the value of
    /// the `Host` header in the request.
    pub fn new(request: &Request<'a>) -> (r: Self)
        ensures
            r.wire() == Seq::<u8>::empty(),
            r.server() == request.host.spec_bytes(),
    {
        Self {
            inner: ResponderInner {
                client: Vec::new(),
                status: StatusCode::OK,
                server: ResponseHeader::Server(request.host),
            },
        }
    }

    /// Writes the status line for `status`, and the `Server` header unless
    /// its value is empty.
    #[must_use]
    pub fn with_status(self, status: StatusCode) -> (r: ResponderSending<'a>)
        ensures
            r.wire() == self.wire() + head(status, self.server()),
    {
        proof {
            use_type_invariant(&self);
        }
        let mut inner = self.inner;
        inner.with_status(status);
        ResponderSending { inner }
    }

    /// Writes the status line for 200 OK, the `Server` header and then the
    /// supplied header.
    #[must_use]
    pub fn with_header(self, header: ResponseHeader<'a>) -> (r: ResponderSending<'a>)
        ensures
            r.wire() == self.wire() + head(StatusCode::OK, self.server()) + header.line(),
    {
        proof {
            use_type_invariant(&self);
        }
        let mut inner = self.inner;
        let status = inner.status;
        inner.with_status(status);
        inner.with_header(header);
        ResponderSending { inner }
    }

    /// Upgrade the client to a Websocket: the answer to a request that
    /// carries a `Sec-WebSocket-Key` header is 101 with the accept token,
    /// and a session comes back with it. Any other request is answered with
    /// 400 and an empty body, and the upgrade fails.
    pub fn upgrade(self, req: Request<'a>) -> (r: (Vec<u8>, Result<Websocket, ResponderError>))
        ensures
            match key_of(req@) {
                Some(key) => {
                    &&& r.0@ == self.wire() + head(StatusCode::SwitchingProtocols, self.server())
                        + upgrade_lines(encode_utf8(key)) + seq![CR, LF]
                    &&& r.1 matches Ok(session) && session@ == Seq::<u8>::empty()
                },
                None => {
                    &&& r.0@ == self.wire() + head(StatusCode::BadRequest, self.server()) + seq![
                        CR,
                        LF,
                    ]
                    &&& r.1 == Err::<Websocket, ResponderError>(
                        ResponderError::ProtocolError(
                            "websocket upgrade did not include a Sec-Websocket-Key header",
                        ),
                    )
                },
            },
    {
        proof {
            use_type_invariant(&self);
            reveal_strlit("");
        }
        let mut inner = self.inner;
        let query = RequestHeader::SecWebSocketKey("");
        assert(query@ == HeaderView::text(RequestHeaderKind::SecWebSocketKey, Seq::empty())) by {
            assert(""@ =~= Seq::<char>::empty());
        }
        let websocket_key = match req.get_header(query) {
            Some(RequestHeader::SecWebSocketKey(k)) => k,
            _ => {
                inner.with_status(StatusCode::BadRequest);
                return (
                    inner.no_body(),
                    Err(
                        ResponderError::ProtocolError(
                            "websocket upgrade did not include a Sec-Websocket-Key header",
                        ),
                    ),
                );
            },
        };
        assert(key_of(req@) == Some(websocket_key@));

        let accept_key = match sec_websocket_accept_val(websocket_key) {
            Ok(k) => k,
            Err(e) => {
                inner.with_status(StatusCode::BadRequest);
                return (inner.no_body(), Err(ResponderError::ProtocolError(e)));
            },
        };

        inner.with_status(StatusCode::SwitchingProtocols);
        let ghost lead = inner.client@;
        inner.with_header(ResponseHeader::SecWebSocketAccept(accept_key));
        inner.with_header(ResponseHeader::Other("Upgrade", "websocket"));
        inner.with_header(ResponseHeader::Connection("Upgrade"));
        assert(inner.client@ =~= lead + upgrade_lines(encode_utf8(websocket_key@)));
        let (wire, session) = inner.websocket();
        (wire, Ok(session))
    }
}

impl<'a> ResponderSending<'a> {
    /// The bytes written and not yet taken.
    pub closed spec fn wire(self) -> Seq<u8> {
        self.inner.client@
    }

    /// Writes the supplied header.
    #[must_use]
    pub fn with_header(self, header: ResponseHeader<'a>) -> (r: ResponderSending<'a>)
        ensures
            r.wire() == self.wire() + header.line(),
    {
        let mut inner = self.inner;
        inner.with_header(header);
        ResponderSending { inner }
    }

    /// Hands out what has been written since the last call, for the caller
    /// to send.
    pub fn take_output(&mut self) -> (r: Vec<u8>)
        ensures
            r@ == old(self).wire(),
            final(self).wire() == Seq::<u8>::empty(),
    {
        let mut out: Vec<u8> = Vec::new();
        core::mem::swap(&mut out, &mut self.inner.client);
        out
    }

    /// Completes the response with no body: the blank line alone. Gives the
    /// bytes written and not yet taken.
    pub fn no_body(self) -> (r: Vec<u8>)
        ensures
            r@ == self.wire() + seq![CR, LF],
    {
        self.inner.no_body()
    }

    /// Completes the response with the supplied body: a `Content-Length`
    /// header with the length of the body, unless that is zero, then the
    /// blank line, then the body as it is. Gives the bytes written and not
    /// yet taken.
    pub fn with_body(self, body: &[u8]) -> (r: Vec<u8>)
        ensures
            r@ == self.wire() + ResponseHeader::ContentLength(body@.len() as usize).line() + seq![
                CR,
                LF,
            ] + body@,
    {
        self.inner.with_body(body)
    }
}

/// The `Content-Length` line of a body: none for an empty body, and else the
/// length in decimal.
pub proof fn lemma_content_length_line(n: usize)
    ensures
        n == 0 ==> ResponseHeader::ContentLength(n).line() == Seq::<u8>::empty(),
        n != 0 ==> ResponseHeader::ContentLength(n).line() == wire_line(
            RESP_HEAD_CONTENT_LENGTH.spec_bytes(),
            digits(n as nat),
        ),
{
}

} // verus!
