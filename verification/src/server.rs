//! The connection driver's decisions: what to do after each read and after
//! each call of the handler. The reads and the handler itself are the
//! caller's.
use crate::request::{parsed_request, Request, RequestError, RequestView};
use crate::response::ResponderError;
use crate::websocket::WebsocketError;
use vstd::prelude::*;
use vstd::std_specs::convert::FromSpecImpl;

verus! {

/// HandlerError is returned by request handlers. Errors returned by
/// `Responder` methods should be passed up in the `ResponderError` variant,
/// other errors are a `CustomError`.
#[derive(Debug, PartialEq)]
pub enum HandlerError {
    /// Errors returned by `Responder` methods
    ResponderError(ResponderError),
    /// Errors returned from websocket operations
    WebsocketError(WebsocketError),
    /// Custom errors as specified by the handler's author
    CustomError(&'static str),
}

impl From<ResponderError> for HandlerError {
    fn from(value: ResponderError) -> (r: Self) {
        Self::ResponderError(value)
    }
}

impl FromSpecImpl<ResponderError> for HandlerError {
    open spec fn obeys_from_spec() -> bool {
        true
    }

    open spec fn from_spec(value: ResponderError) -> Self {
        Self::ResponderError(value)
    }
}

impl From<WebsocketError> for HandlerError {
    fn from(value: WebsocketError) -> (r: Self) {
        Self::WebsocketError(value)
    }
}

impl FromSpecImpl<WebsocketError> for HandlerError {
    open spec fn obeys_from_spec() -> bool {
        true
    }

    open spec fn from_spec(value: WebsocketError) -> Self {
        Self::WebsocketError(value)
    }
}

impl From<&'static str> for HandlerError {
    fn from(value: &'static str) -> (r: Self) {
        Self::CustomError(value)
    }
}

impl FromSpecImpl<&'static str> for HandlerError {
    open spec fn obeys_from_spec() -> bool {
        true
    }

    open spec fn from_spec(value: &'static str) -> Self {
        Self::CustomError(value)
    }
}

/// ServerError is how a connection ends when it does not end well.
#[derive(Debug, PartialEq)]
pub enum ServerError {
    /// Error parsing HTTP or Websocket protocol data
    ProtocolError(&'static str),
    /// The client stopped sending while part of a request was in the
    /// buffer: the request did not fit, or never came to its end.
    BufferExceeded(u64),
    /// Error returned by handler
    HandlerError(HandlerError),
}

/// What the driver of a connection does next.
#[derive(Debug)]
pub enum Serve<'a> {
    /// Read into the buffer from this offset on, then call `serve`.
    Read(usize),
    /// Hand this request to the handler, then call `handled`.
    Handle(Request<'a>),
    /// Run the handler of the WebSocket session, then call `finished`.
    Websocket,
    /// The connection is over, with this outcome.
    Close(Result<(), ServerError>),
}

/// `Serve` as plain values.
pub enum ServeView {
    Read(usize),
    Handle(RequestView),
    Websocket,
    Close(Result<(), ServerError>),
}

impl<'a> View for Serve<'a> {
    type V = ServeView;

    open spec fn view(&self) -> ServeView {
        match *self {
            Serve::Read(at) => ServeView::Read(at),
            Serve::Handle(request) => ServeView::Handle(request@),
            Serve::Websocket => ServeView::Websocket,
            Serve::Close(outcome) => ServeView::Close(outcome),
        }
    }
}

/// What follows a read. `read` is what the read returned: how many bytes
/// it added at `offset`, or nothing if it failed.
///
/// A failed read ends the connection quietly, and so does the end of the
/// stream between two requests. The end of the stream inside a request is an
/// error. After any other read the buffer is parsed from its start up to
/// where the new bytes end: an incomplete request asks for another read
/// behind them, a request goes to the handler, anything else is an error.
pub open spec fn after_read(buffer: Seq<u8>, offset: usize, read: Option<usize>) -> ServeView {
    match read {
        None => ServeView::Close(Ok(())),
        Some(n) => if n == 0 {
            if offset > 0 {
                ServeView::Close(Err(ServerError::BufferExceeded(0)))
            } else {
                ServeView::Close(Ok(()))
            }
        } else {
            match parsed_request(buffer.subrange(0, offset + n)) {
                Ok(request) => ServeView::Handle(request),
                Err(RequestError::Incomplete(_)) => ServeView::Read((offset + n) as usize),
                Err(RequestError::ProtocolError(e)) => ServeView::Close(
                    Err(ServerError::ProtocolError(e)),
                ),
            }
        },
    }
}

/// A request that fills the buffer in two reads is met with the same step as
/// one that fills it in a single read: the buffer is parsed from its start
/// either way.
pub proof fn lemma_two_fills(buffer: Seq<u8>, first: usize, second: usize)
    requires
        second > 0,
        first + second <= usize::MAX,
    ensures
        after_read(buffer, first, Some(second)) == after_read(
            buffer,
            0,
            Some((first + second) as usize),
        ),
{
}

/// How a handler's error ends the connection: a network error ends it
/// quietly, a protocol error is passed on as one, any other error is
/// passed on as the handler's.
pub open spec fn ended_by(e: HandlerError) -> Result<(), ServerError> {
    match e {
        HandlerError::ResponderError(ResponderError::NetworkError) => Ok(()),
        HandlerError::WebsocketError(WebsocketError::NetworkError) => Ok(()),
        HandlerError::ResponderError(ResponderError::ProtocolError(s)) => Err(
            ServerError::ProtocolError(s),
        ),
        _ => Err(ServerError::HandlerError(e)),
    }
}

/// Server is the main struct to be used by users of the crate. It is
/// constructed with a request handler and decides, step by step, how a
/// connection goes on.
pub struct Server<H> {
    handler: H,
}

impl<H> Server<H> {
    /// The handler that the server was made with.
    pub closed spec fn spec_handler(&self) -> H {
        self.handler
    }

    /// Construct a Server using the provided request handler
    pub fn new(handler: H) -> (r: Self)
        ensures
            r.spec_handler() == handler,
    {
        Self { handler }
    }

    /// The handler.
    pub fn handler(&self) -> (r: &H)
        ensures
            *r == self.spec_handler(),
    {
        &self.handler
    }

    /// Decides what follows a read into `http_buff` at `offset`.
    pub fn serve<'a>(&self, http_buff: &'a [u8], offset: usize, read: Option<usize>) -> (r: Serve<
        'a,
    >)
        requires
            read matches Some(n) ==> offset + n <= http_buff@.len(),
        ensures
            r@ == after_read(http_buff@, offset, read),
            r matches Serve::Handle(request) ==> request@.well_formed(),
    {
        match read {
            Some(0) => {
                if offset > 0 {
                    // the client went away while request data was outstanding
                    return Serve::Close(Err(ServerError::BufferExceeded(0)));
                }
                Serve::Close(Ok(()))
            },
            Some(n) => {
                assert(http_buff@.len() == http_buff.len());
                let http_buff_offset = offset + n;
                match Request::parse(vstd::slice::slice_subrange(http_buff, 0, http_buff_offset)) {
                    Ok(request) => Serve::Handle(request),
                    Err(RequestError::ProtocolError(e)) => Serve::Close(
                        Err(ServerError::ProtocolError(e)),
                    ),
                    Err(RequestError::Incomplete(_)) => Serve::Read(http_buff_offset),
                }
            },
            None => Serve::Close(Ok(())),
        }
    }

    /// Decides what follows the handling of a request. `outcome` says
    /// whether the handler upgraded the connection to a WebSocket session,
    /// or how it failed. Without an upgrade the next request is read from
    /// offset 0.
    pub fn handled<'a>(&self, outcome: Result<bool, HandlerError>) -> (r: Serve<'a>)
        ensures
            r@ == match outcome {
                Ok(false) => ServeView::Read(0),
                Ok(true) => ServeView::Websocket,
                Err(e) => ServeView::Close(ended_by(e)),
            },
    {
        match outcome {
            Ok(false) => Serve::Read(0),
            Ok(true) => Serve::Websocket,
            Err(e) => Serve::Close(Self::end(e)),
        }
    }

    /// Decides what follows a WebSocket session: when its handler returns
    /// without an error, reading goes on at `offset`.
    pub fn finished<'a>(&self, offset: usize, outcome: Result<(), HandlerError>) -> (r: Serve<'a>)
        ensures
            r@ == match outcome {
                Ok(()) => ServeView::Read(offset),
                Err(e) => ServeView::Close(ended_by(e)),
            },
    {
        match outcome {
            Ok(()) => Serve::Read(offset),
            Err(e) => Serve::Close(Self::end(e)),
        }
    }

    fn end(e: HandlerError) -> (r: Result<(), ServerError>)
        ensures
            r == ended_by(e),
    {
        match e {
            HandlerError::ResponderError(ResponderError::NetworkError) => Ok(()),
            HandlerError::WebsocketError(WebsocketError::NetworkError) => Ok(()),
            HandlerError::ResponderError(ResponderError::ProtocolError(s)) => Err(
                ServerError::ProtocolError(s),
            ),
            _ => Err(ServerError::HandlerError(e)),
        }
    }
}

} // verus!
