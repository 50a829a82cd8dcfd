//! Requests: the parser that reads one from a buffer, and the look-up of
//! headers in what it has read.
use crate::ascii::{COLON, CR, LF, SP};
use crate::header::{HeaderView, RequestHeader, RequestHeaderKind, resolve};
use crate::text::{decode, lemma_text_piece, text_of, trim, trimmed};
use vstd::prelude::*;
use vstd::std_specs::convert::TryFromSpecImpl;
use vstd::string::StringSliceAdditionalSpecFns;
use vstd::utf8::{decode_utf8, valid_utf8};

verus! {

/// The name of the method GET on the request line.
pub const GET: &'static str = "GET";

/// The name of the method POST.
pub const POST: &'static str = "POST";

/// The name of the method PUT.
pub const PUT: &'static str = "PUT";

/// The name of the method PATCH.
pub const PATCH: &'static str = "PATCH";

/// The name of the method DELETE.
pub const DELETE: &'static str = "DELETE";

/// The name of the method OPTIONS.
pub const OPTIONS: &'static str = "OPTIONS";

/// The name of the method HEAD.
pub const HEAD: &'static str = "HEAD";

/// Why a buffer does not give a request.
#[derive(PartialEq, Debug)]
pub enum RequestError {
    /// The request is not all there yet. The number, where there is one, is
    /// the length of the body that the headers announce.
    Incomplete(Option<usize>),
    /// The bytes are no request.
    ProtocolError(&'static str),
}

/// Method such as GET, POST, DELETE etc.
#[non_exhaustive]
#[derive(Clone, Copy, PartialEq, Eq, Structural, Debug)]
pub enum Method {
    #[allow(missing_docs)]
    GET,
    #[allow(missing_docs)]
    POST,
    #[allow(missing_docs)]
    PUT,
    #[allow(missing_docs)]
    PATCH,
    #[allow(missing_docs)]
    DELETE,
    #[allow(missing_docs)]
    OPTIONS,
    #[allow(missing_docs)]
    HEAD,
}

/// The method that a token of the request line names.
pub open spec fn method_of(token: Seq<u8>) -> Option<Method> {
    if token == GET.spec_bytes() {
        Some(Method::GET)
    } else if token == POST.spec_bytes() {
        Some(Method::POST)
    } else if token == PUT.spec_bytes() {
        Some(Method::PUT)
    } else if token == PATCH.spec_bytes() {
        Some(Method::PATCH)
    } else if token == DELETE.spec_bytes() {
        Some(Method::DELETE)
    } else if token == OPTIONS.spec_bytes() {
        Some(Method::OPTIONS)
    } else if token == HEAD.spec_bytes() {
        Some(Method::HEAD)
    } else {
        None
    }
}

/// True when two slices hold the same bytes.
fn same_bytes(a: &[u8], b: &[u8]) -> (r: bool)
    ensures
        r == (a@ == b@),
{
    if a.len() != b.len() {
        return false;
    }
    let mut i: usize = 0;
    while i < a.len()
        invariant
            i <= a@.len(),
            a@.len() == b@.len(),
            forall|j: int| 0 <= j < i ==> a@[j] == b@[j],
        decreases a@.len() - i,
    {
        if a[i] != b[i] {
            return false;
        }
        i += 1;
    }
    assert(a@ =~= b@);
    true
}

impl TryFrom<&[u8]> for Method {
    type Error = &'static str;

    /// Reads a method from its name in upper case.
    fn try_from(value: &[u8]) -> (r: Result<Method, &'static str>)
        ensures
            r == match method_of(value@) {
                Some(m) => Ok::<Method, &'static str>(m),
                None => Err::<Method, &'static str>("unknown http method"),
            },
    {
        if same_bytes(value, GET.as_bytes()) {
            Ok(Self::GET)
        } else if same_bytes(value, POST.as_bytes()) {
            Ok(Self::POST)
        } else if same_bytes(value, PUT.as_bytes()) {
            Ok(Self::PUT)
        } else if same_bytes(value, PATCH.as_bytes()) {
            Ok(Self::PATCH)
        } else if same_bytes(value, DELETE.as_bytes()) {
            Ok(Self::DELETE)
        } else if same_bytes(value, OPTIONS.as_bytes()) {
            Ok(Self::OPTIONS)
        } else if same_bytes(value, HEAD.as_bytes()) {
            Ok(Self::HEAD)
        } else {
            Err("unknown http method")
        }
    }
}

impl TryFromSpecImpl<&[u8]> for Method {
    open spec fn obeys_try_from_spec() -> bool {
        false
    }

    open spec fn try_from_spec(value: &[u8]) -> Result<Self, &'static str> {
        arbitrary()
    }
}

/// The place of the first `b` in `s`, or the length of `s` if there is none.
pub open spec fn find(s: Seq<u8>, b: u8) -> int
    decreases s.len(),
{
    if s.len() == 0 || s[0] == b {
        0
    } else {
        1 + find(s.drop_first(), b)
    }
}

/// True when CR LF stands at `at`.
pub open spec fn crlf_at(data: Seq<u8>, at: int) -> bool {
    0 <= at && at + 2 <= data.len() && data[at] == CR && data[at + 1] == LF
}

/// The place of the first CR LF at or after `from`, if there is one: where
/// the line that starts at `from` ends.
pub open spec fn line_end(data: Seq<u8>, from: int) -> Option<int>
    decreases data.len() - from,
{
    if from < 0 || from + 2 > data.len() {
        None
    } else if crlf_at(data, from) {
        Some(from)
    } else {
        line_end(data, from + 1)
    }
}

/// `find` is where the first `b` stands.
pub proof fn lemma_find(s: Seq<u8>, b: u8)
    ensures
        0 <= find(s, b) <= s.len(),
        forall|j: int| 0 <= j < find(s, b) ==> s[j] != b,
        find(s, b) < s.len() ==> s[find(s, b)] == b,
    decreases s.len(),
{
    if s.len() == 0 || s[0] == b {
    } else {
        let t = s.drop_first();
        lemma_find(t, b);
        assert forall|j: int| 0 <= j < find(s, b) implies s[j] != b by {
            if j > 0 {
                assert(s[j] == t[j - 1]);
            }
        }
    }
}

/// `line_end` is where the first CR LF at or after `from` stands.
pub proof fn lemma_line_end(data: Seq<u8>, from: int)
    requires
        0 <= from,
    ensures
        match line_end(data, from) {
            Some(end) => {
                &&& from <= end
                &&& crlf_at(data, end)
                &&& forall|j: int| from <= j < end ==> !crlf_at(data, j)
            },
            None => forall|j: int| from <= j ==> !crlf_at(data, j),
        },
    decreases data.len() - from,
{
    if from + 2 > data.len() {
    } else if crlf_at(data, from) {
    } else {
        lemma_line_end(data, from + 1);
    }
}

/// Finds the first `b` in `s`.
fn find_byte(s: &[u8], b: u8) -> (i: usize)
    ensures
        i == find(s@, b),
        i <= s@.len(),
{
    let mut i: usize = 0;
    assert(s@.subrange(0, s@.len() as int) =~= s@);
    while i < s.len() && s[i] != b
        invariant
            i <= s@.len(),
            find(s@, b) == i + find(s@.subrange(i as int, s@.len() as int), b),
        decreases s@.len() - i,
    {
        assert(s@.subrange(i as int, s@.len() as int).drop_first() =~= s@.subrange(
            i + 1,
            s@.len() as int,
        ));
        i += 1;
    }
    i
}

/// Finds the end of the line that starts at `from`.
fn find_line_end(data: &[u8], from: usize) -> (r: Option<usize>)
    requires
        from <= data@.len(),
    ensures
        match r {
            Some(end) => line_end(data@, from as int) == Some(end as int) && from <= end && end + 2
                <= data@.len(),
            None => line_end(data@, from as int) is None,
        },
{
    let mut i: usize = from;
    while i < data.len() && i + 1 < data.len()
        invariant
            from <= i <= data@.len(),
            line_end(data@, from as int) == line_end(data@, i as int),
        decreases data@.len() - i,
    {
        if data[i] == CR && data[i + 1] == LF {
            return Some(i);
        }
        i += 1;
    }
    None
}

/// Request contains the details of the request parsed from bytes read from
/// the client. Its texts and its body are views into those bytes.
#[non_exhaustive]
#[derive(Debug)]
pub struct Request<'a> {
    /// Method (GET, POST etc) parsed from the request
    pub method: Method,
    /// URL path e.g. `/index.html?foo=bar`
    pub path: &'a str,
    /// Host extracted from the host header
    pub host: &'a str,
    /// Content-Type extracted from the Content-Type header where present
    pub content_type: Option<&'a str>,
    /// User agent extracted from the User-Agent header where present
    pub user_agent: Option<&'a str>,
    /// Content length extracted from the Content-Length header if present else 0
    pub content_length: usize,
    /// The body, where the headers announce one
    pub body: Option<&'a [u8]>,
    /// The header lines as they were received, each with its line ending
    pub header_slice: Option<&'a [u8]>,
}

/// A request as plain values.
pub struct RequestView {
    pub method: Method,
    pub path: Seq<char>,
    pub host: Seq<char>,
    pub content_type: Option<Seq<char>>,
    pub user_agent: Option<Seq<char>>,
    pub content_length: usize,
    pub body: Option<Seq<u8>>,
    pub header_slice: Option<Seq<u8>>,
}

impl<'a> View for Request<'a> {
    type V = RequestView;

    open spec fn view(&self) -> RequestView {
        RequestView {
            method: self.method,
            path: self.path@,
            host: self.host@,
            content_type: match self.content_type {
                Some(s) => Some(s@),
                None => None,
            },
            user_agent: match self.user_agent {
                Some(s) => Some(s@),
                None => None,
            },
            content_length: self.content_length,
            body: match self.body {
                Some(b) => Some(b@),
                None => None,
            },
            header_slice: match self.header_slice {
                Some(b) => Some(b@),
                None => None,
            },
        }
    }
}

/// The error for bytes that are no text.
pub open spec fn not_text() -> RequestError {
    RequestError::ProtocolError("http request is not valid utf8")
}

/// The error for a request line that has no path.
pub open spec fn no_path() -> RequestError {
    RequestError::ProtocolError("malformed HTTP request")
}

/// The error for a request line that has no version.
pub open spec fn no_version() -> RequestError {
    RequestError::ProtocolError("malformed http request")
}

/// What a request line says: the method and the path. The line is the
/// method, a space, the path, a space and the version. The method must be
/// known, the path and the version must be there; beyond that the version,
/// which is all that follows the second space, is not looked at.
pub open spec fn request_line(line: Seq<u8>) -> Result<(Method, Seq<char>), RequestError> {
    let i = find(line, SP);
    match method_of(line.subrange(0, i)) {
        None => Err(RequestError::ProtocolError("unknown http method")),
        Some(method) => if i == line.len() {
            Err(no_path())
        } else {
            let rest = line.subrange(i + 1, line.len() as int);
            let j = find(rest, SP);
            if j == 0 {
                Err(no_path())
            } else {
                match text_of(rest.subrange(0, j)) {
                    None => Err(not_text()),
                    Some(path) => if j + 1 >= rest.len() {
                        Err(no_version())
                    } else {
                        Ok((method, path))
                    },
                }
            }
        },
    }
}

/// What a header line says: the header that its name and value make, both
/// trimmed, where the line has a colon; nothing where it has none.
pub open spec fn header_line(line: Seq<u8>) -> Result<Option<HeaderView>, RequestError> {
    let i = find(line, COLON);
    match text_of(line.subrange(0, i)) {
        None => Err(not_text()),
        Some(name) => if i == line.len() {
            Ok(None)
        } else {
            match text_of(line.subrange(i + 1, line.len() as int)) {
                None => Err(not_text()),
                Some(value) => match resolve(trimmed(name), trimmed(value)) {
                    Some(h) => Ok(Some(h)),
                    None => Err(RequestError::ProtocolError("invalid content-length")),
                },
            }
        },
    }
}

impl RequestView {
    /// The request before any line is read.
    pub open spec fn empty() -> RequestView {
        RequestView {
            method: Method::GET,
            path: Seq::empty(),
            host: Seq::empty(),
            content_type: None,
            user_agent: None,
            content_length: 0,
            body: None,
            header_slice: None,
        }
    }

    /// The request after one more header line: the four headers that a
    /// request keeps at hand are noted, any other changes nothing.
    pub open spec fn with_header(self, header: Option<HeaderView>) -> RequestView {
        match header {
            None => self,
            Some(h) => match h.kind {
                RequestHeaderKind::ContentLength => RequestView {
                    content_length: h.length,
                    ..self
                },
                RequestHeaderKind::Host => RequestView { host: h.value, ..self },
                RequestHeaderKind::ContentType => RequestView {
                    content_type: Some(h.value),
                    ..self
                },
                RequestHeaderKind::UserAgent => RequestView { user_agent: Some(h.value), ..self },
                _ => self,
            },
        }
    }

    /// The request when the blank line that ends the headers has been
    /// found, with the body starting at `at`: a body is owed where the
    /// content length is not zero, and it is exactly that long.
    pub open spec fn with_body(self, data: Seq<u8>, at: int) -> Result<RequestView, RequestError> {
        if self.content_length == 0 {
            Ok(self)
        } else if at + self.content_length > data.len() {
            Err(RequestError::Incomplete(Some(self.content_length)))
        } else {
            Ok(RequestView { body: Some(data.subrange(at, at + self.content_length)), ..self })
        }
    }
}

/// The request that the header lines from `from` on complete. `first` is
/// where the first header line started, or 0 before any.
pub open spec fn headers(data: Seq<u8>, from: int, so_far: RequestView, first: int) -> Result<
    RequestView,
    RequestError,
>
    decreases data.len() - from,
    via headers_decreases
{
    match line_end(data, from) {
        None => Err(RequestError::Incomplete(None)),
        Some(end) => if end == from {
            RequestView {
                header_slice: if first != 0 {
                    Some(data.subrange(first, from))
                } else {
                    None
                },
                ..so_far
            }.with_body(data, from + 2)
        } else {
            match header_line(data.subrange(from, end)) {
                Err(e) => Err(e),
                Ok(h) => headers(
                    data,
                    end + 2,
                    so_far.with_header(h),
                    if first == 0 {
                        from
                    } else {
                        first
                    },
                ),
            }
        },
    }
}

#[via_fn]
proof fn headers_decreases(data: Seq<u8>, from: int, so_far: RequestView, first: int) {
    if from >= 0 {
        lemma_line_end(data, from);
    }
}

/// The request that a buffer holds, or why it holds none.
///
/// The whole buffer must be text. Lines end in CR LF. The first line is the
/// request line, with the method, the path and the version; a blank line in
/// its place, or a line that lacks one of the three, is refused at once. The
/// lines that follow are headers, up to the first blank line; then comes the
/// body. A buffer that ends before the blank line, or before the end of the
/// body, is incomplete.
pub open spec fn parsed_request(data: Seq<u8>) -> Result<RequestView, RequestError> {
    if !valid_utf8(data) {
        Err(not_text())
    } else {
        match line_end(data, 0) {
            None => Err(RequestError::Incomplete(None)),
            Some(end) => if end == 0 {
                Err(no_path())
            } else {
                match request_line(data.subrange(0, end)) {
                    Err(e) => Err(e),
                    Ok((method, path)) => headers(
                        data,
                        end + 2,
                        RequestView { method, path, ..RequestView::empty() },
                        0,
                    ),
                }
            },
        }
    }
}

/// Where CR LF stands at `end` and nowhere from `from` up to it, the line
/// that starts at `from` ends at `end`.
pub proof fn lemma_line_end_at(data: Seq<u8>, from: int, end: int)
    requires
        0 <= from <= end,
        crlf_at(data, end),
        forall|j: int| from <= j < end ==> !crlf_at(data, j),
    ensures
        line_end(data, from) == Some(end),
    decreases end - from,
{
    if from < end {
        assert(!crlf_at(data, from));
        lemma_line_end_at(data, from + 1, end);
    }
}

/// A line that has its end keeps it when bytes are added behind the data.
pub proof fn lemma_line_end_extends(data: Seq<u8>, more: Seq<u8>, from: int)
    requires
        0 <= from,
        line_end(data, from) is Some,
    ensures
        line_end(data + more, from) == line_end(data, from),
{
    lemma_line_end(data, from);
    let end = line_end(data, from)->0;
    let longer = data + more;
    assert(crlf_at(longer, end));
    assert forall|j: int| from <= j < end implies !crlf_at(longer, j) by {
        assert(!crlf_at(data, j));
    }
    lemma_line_end_at(longer, from, end);
}

proof fn lemma_headers_extend(
    data: Seq<u8>,
    more: Seq<u8>,
    from: int,
    so_far: RequestView,
    first: int,
)
    requires
        0 <= first <= from,
        headers(data, from, so_far, first) is Ok,
    ensures
        headers(data + more, from, so_far, first) == headers(data, from, so_far, first),
    decreases data.len() - from,
{
    let longer = data + more;
    lemma_line_end(data, from);
    lemma_line_end_extends(data, more, from);
    let end = line_end(data, from)->0;
    if end == from {
        assert(longer.subrange(first, from) =~= data.subrange(first, from));
        let last = RequestView {
            header_slice: if first != 0 {
                Some(data.subrange(first, from))
            } else {
                None
            },
            ..so_far
        };
        if last.content_length != 0 {
            assert(longer.subrange(from + 2, from + 2 + last.content_length) =~= data.subrange(
                from + 2,
                from + 2 + last.content_length,
            ));
        }
    } else {
        assert(longer.subrange(from, end) =~= data.subrange(from, end));
        let h = header_line(data.subrange(from, end))->Ok_0;
        lemma_headers_extend(
            data,
            more,
            end + 2,
            so_far.with_header(h),
            if first == 0 {
                from
            } else {
                first
            },
        );
    }
}

/// Bytes behind a complete request change nothing: where a buffer holds a
/// request, the buffer with more text behind it holds the same request.
pub proof fn lemma_trailing_bytes(data: Seq<u8>, more: Seq<u8>)
    requires
        parsed_request(data) is Ok,
        valid_utf8(data + more),
    ensures
        parsed_request(data + more) == parsed_request(data),
{
    let longer = data + more;
    lemma_line_end(data, 0);
    lemma_line_end_extends(data, more, 0);
    let end = line_end(data, 0)->0;
    assert(longer.subrange(0, end) =~= data.subrange(0, end));
    assert(end != 0);
    let (method, path) = request_line(data.subrange(0, end))->Ok_0;
    lemma_headers_extend(
        data,
        more,
        end + 2,
        RequestView { method, path, ..RequestView::empty() },
        0,
    );
}

/// A request that arrives in two parts and is parsed when both are in the
/// buffer is the request that arrives in one piece.
pub proof fn lemma_parts(whole: Seq<u8>, cut: int)
    requires
        0 <= cut <= whole.len(),
    ensures
        parsed_request(whole.subrange(0, cut) + whole.subrange(cut, whole.len() as int))
            == parsed_request(whole),
{
    assert(whole.subrange(0, cut) + whole.subrange(cut, whole.len() as int) =~= whole);
}

impl RequestView {
    /// What holds of every request that a buffer gives: the path is not
    /// empty, and a body is there exactly when the content length is not
    /// zero, and is then exactly that long.
    pub open spec fn well_formed(self) -> bool {
        &&& self.path.len() > 0
        &&& self.content_length == 0 ==> self.body is None
        &&& self.content_length != 0 ==> self.body is Some && self.body->0.len()
            == self.content_length
    }
}

proof fn lemma_headers_well_formed(data: Seq<u8>, from: int, so_far: RequestView, first: int)
    requires
        0 <= from,
        so_far.path.len() > 0,
        so_far.body is None,
    ensures
        headers(data, from, so_far, first) matches Ok(r) ==> r.well_formed(),
    decreases data.len() - from,
{
    lemma_line_end(data, from);
    match line_end(data, from) {
        None => {},
        Some(end) => {
            if end != from {
                match header_line(data.subrange(from, end)) {
                    Err(_) => {},
                    Ok(h) => {
                        lemma_headers_well_formed(
                            data,
                            end + 2,
                            so_far.with_header(h),
                            if first == 0 {
                                from
                            } else {
                                first
                            },
                        );
                    },
                }
            }
        },
    }
}

/// The path that a request line gives is not empty.
pub proof fn lemma_request_line_path(line: Seq<u8>)
    ensures
        request_line(line) matches Ok((_, path)) ==> path.len() > 0,
{
    if request_line(line) is Ok {
        let i = find(line, SP);
        let rest = line.subrange(i + 1, line.len() as int);
        let word = rest.subrange(0, find(rest, SP));
        lemma_find(rest, SP);
        assert(word.len() > 0);
        assert(decode_utf8(word).len() > 0);
    }
}

/// Every request that a buffer gives is well formed.
pub proof fn lemma_parsed_request_well_formed(data: Seq<u8>)
    ensures
        parsed_request(data) matches Ok(r) ==> r.well_formed(),
{
    lemma_line_end(data, 0);
    match line_end(data, 0) {
        None => {},
        Some(end) => {
            match request_line(data.subrange(0, end)) {
                Err(_) => {},
                Ok((method, path)) => {
                    lemma_request_line_path(data.subrange(0, end));
                    lemma_headers_well_formed(
                        data,
                        end + 2,
                        RequestView { method, path, ..RequestView::empty() },
                        0,
                    );
                },
            }
        },
    }
}

proof fn lemma_messages_differ()
    ensures
        RequestError::ProtocolError("unknown http method") != not_text(),
        RequestError::ProtocolError("invalid content-length") != not_text(),
        no_path() != not_text(),
        no_version() != not_text(),
{
    reveal_strlit("unknown http method");
    reveal_strlit("invalid content-length");
    reveal_strlit("malformed HTTP request");
    reveal_strlit("malformed http request");
    reveal_strlit("http request is not valid utf8");
    assert("unknown http method"@.len() != "http request is not valid utf8"@.len());
    assert("invalid content-length"@.len() != "http request is not valid utf8"@.len());
    assert("malformed HTTP request"@.len() != "http request is not valid utf8"@.len());
    assert("malformed http request"@.len() != "http request is not valid utf8"@.len());
}

/// The words of a request line that is text are text.
pub proof fn lemma_request_line_text(line: Seq<u8>)
    requires
        valid_utf8(line),
    ensures
        request_line(line) != Err::<(Method, Seq<char>), RequestError>(not_text()),
{
    lemma_messages_differ();
    lemma_find(line, SP);
    let i = find(line, SP);
    if i < line.len() {
        lemma_text_piece(line, i + 1, line.len() as int);
        let rest = line.subrange(i + 1, line.len() as int);
        lemma_find(rest, SP);
        lemma_text_piece(rest, 0, find(rest, SP));
    }
}

/// The name and the value of a header line that is text are text.
pub proof fn lemma_header_line_text(line: Seq<u8>)
    requires
        valid_utf8(line),
    ensures
        header_line(line) != Err::<Option<HeaderView>, RequestError>(not_text()),
{
    lemma_messages_differ();
    lemma_find(line, COLON);
    let i = find(line, COLON);
    lemma_text_piece(line, 0, i);
    if i < line.len() {
        lemma_text_piece(line, i + 1, line.len() as int);
    }
}

proof fn lemma_headers_text(data: Seq<u8>, from: int, so_far: RequestView, first: int)
    requires
        valid_utf8(data),
        0 <= from,
        from == 0 || (from <= data.len() && data[from - 1] < 128),
    ensures
        headers(data, from, so_far, first) != Err::<RequestView, RequestError>(not_text()),
    decreases data.len() - from,
{
    lemma_line_end(data, from);
    match line_end(data, from) {
        None => {},
        Some(end) => {
            if end != from {
                lemma_text_piece(data, from, end);
                lemma_header_line_text(data.subrange(from, end));
                match header_line(data.subrange(from, end)) {
                    Err(_) => {},
                    Ok(h) => {
                        lemma_headers_text(
                            data,
                            end + 2,
                            so_far.with_header(h),
                            if first == 0 {
                                from
                            } else {
                                first
                            },
                        );
                    },
                }
            }
        },
    }
}

/// A buffer is refused as no text exactly when it is not UTF-8 as a whole:
/// the parts that the parser takes out of a text are text.
pub proof fn lemma_not_text(data: Seq<u8>)
    ensures
        parsed_request(data) == Err::<RequestView, RequestError>(not_text()) <==> !valid_utf8(data),
{
    if valid_utf8(data) {
        lemma_messages_differ();
        lemma_line_end(data, 0);
        match line_end(data, 0) {
            None => {},
            Some(end) => {
                lemma_text_piece(data, 0, end);
                lemma_request_line_text(data.subrange(0, end));
                match request_line(data.subrange(0, end)) {
                    Err(_) => {},
                    Ok((method, path)) => {
                        lemma_headers_text(
                            data,
                            end + 2,
                            RequestView { method, path, ..RequestView::empty() },
                            0,
                        );
                    },
                }
            },
        }
    }
}

/// The first header from `from` on in a block of header lines that answers
/// `query`. Lines that make no header are passed over.
pub open spec fn lookup(block: Seq<u8>, from: int, query: HeaderView) -> Option<HeaderView>
    decreases block.len() - from,
    via lookup_decreases
{
    match line_end(block, from) {
        None => None,
        Some(end) => match header_line(block.subrange(from, end)) {
            Ok(Some(h)) => if query.answered_by(h) {
                Some(h)
            } else {
                lookup(block, end + 2, query)
            },
            _ => lookup(block, end + 2, query),
        },
    }
}

#[via_fn]
proof fn lookup_decreases(block: Seq<u8>, from: int, query: HeaderView) {
    if from >= 0 {
        lemma_line_end(block, from);
    }
}

/// What `lookup` finds answers the query.
pub proof fn lemma_lookup_answers(block: Seq<u8>, from: int, query: HeaderView)
    ensures
        lookup(block, from, query) matches Some(h) ==> query.answered_by(h),
    decreases block.len() - from,
{
    if from >= 0 {
        lemma_line_end(block, from);
    }
    match line_end(block, from) {
        None => {},
        Some(end) => {
            lemma_lookup_answers(block, end + 2, query);
        },
    }
}

/// Decodes and trims one side of a header line.
fn field<'a>(bytes: &'a [u8]) -> (r: Option<&'a str>)
    ensures
        match text_of(bytes@) {
            Some(t) => r is Some && r->0@ == trimmed(t),
            None => r is None,
        },
{
    match decode(bytes) {
        Some(s) => Some(trim(s)),
        None => None,
    }
}

impl<'a> Request<'a> {
    /// Parse the provided byte slice returning a Request or an error.
    pub fn parse(data: &'a [u8]) -> (r: Result<Self, RequestError>)
        ensures
            match parsed_request(data@) {
                Ok(v) => r is Ok && r->Ok_0@ == v,
                Err(e) => r == Err::<Self, RequestError>(e),
            },
            r matches Ok(request) ==> request@.well_formed(),
    {
        proof {
            lemma_parsed_request_well_formed(data@);
        }
        // ensure upfront that the whole buffer is text
        if decode(data).is_none() {
            return Err(RequestError::ProtocolError("http request is not valid utf8"));
        }
        proof {
            reveal_strlit("");
        }
        let mut req = Request {
            method: Method::GET,
            path: "",
            host: "",
            content_type: None,
            user_agent: None,
            content_length: 0,
            header_slice: None,
            body: None,
        };
        assert(req@.path =~= Seq::<char>::empty());

        assert(data@.len() == data.len());
        let end = match find_line_end(data, 0) {
            Some(end) => end,
            None => {
                return Err(RequestError::Incomplete(None));
            },
        };
        if end == 0 {
            // a blank line where the request line should be
            return Err(RequestError::ProtocolError("malformed HTTP request"));
        }
        match req.parse_request_line(vstd::slice::slice_subrange(data, 0, end)) {
            Ok(()) => {},
            Err(e) => {
                return Err(e);
            },
        }
        let mut header_start_offset = 0usize;
        let mut line_start = end + 2;
        loop
            invariant
                line_start <= data@.len() <= usize::MAX,
                header_start_offset <= line_start,
                req@.body is None,
                req@.header_slice is None,
                parsed_request(data@) matches Ok(v) ==> v.well_formed(),
                parsed_request(data@) == headers(
                    data@,
                    line_start as int,
                    req@,
                    header_start_offset as int,
                ),
            decreases data@.len() - line_start,
        {
            let end = match find_line_end(data, line_start) {
                Some(end) => end,
                None => {
                    return Err(RequestError::Incomplete(None));
                },
            };
            if end == line_start {
                // a \r\n immediately after a line\r\n indicates the end of the headers
                if header_start_offset != 0 {
                    req.header_slice = Some(
                        vstd::slice::slice_subrange(data, header_start_offset, line_start),
                    );
                }
                let body_start = end + 2;
                if req.content_length > 0 {
                    if req.content_length > data.len() - body_start {
                        return Err(RequestError::Incomplete(Some(req.content_length)));
                    }
                    req.body = Some(
                        vstd::slice::slice_subrange(
                            data,
                            body_start,
                            body_start + req.content_length,
                        ),
                    );
                }
                return Ok(req);
            }
            match req.parse_header_line(vstd::slice::slice_subrange(data, line_start, end)) {
                Ok(()) => {},
                Err(e) => {
                    return Err(e);
                },
            }
            if header_start_offset == 0 {
                header_start_offset = line_start;
            }
            line_start = end + 2;
        }
    }

    /// Reads the method and the path from the request line, which must hold
    /// a known method, a path and a version, each parted from the next by
    /// one space. A line that is refused leaves the request as it was.
    pub fn parse_request_line(&mut self, data: &'a [u8]) -> (r: Result<(), RequestError>)
        ensures
            match request_line(data@) {
                Ok((method, path)) => {
                    &&& r == Ok::<(), RequestError>(())
                    &&& final(self)@ == (RequestView { method, path, ..old(self)@ })
                },
                Err(e) => r == Err::<(), RequestError>(e) && final(self)@ == old(self)@,
            },
    {
        let i = find_byte(data, SP);
        let method = match Method::try_from(vstd::slice::slice_subrange(data, 0, i)) {
            Ok(m) => m,
            Err(_) => {
                return Err(RequestError::ProtocolError("unknown http method"));
            },
        };
        if i == data.len() {
            return Err(RequestError::ProtocolError("malformed HTTP request"));
        }
        let rest = vstd::slice::slice_subrange(data, i + 1, data.len());
        let j = find_byte(rest, SP);
        if j == 0 {
            return Err(RequestError::ProtocolError("malformed HTTP request"));
        }
        let path = match decode(vstd::slice::slice_subrange(rest, 0, j)) {
            Some(path) => path,
            None => {
                return Err(RequestError::ProtocolError("http request is not valid utf8"));
            },
        };
        if j == rest.len() || j + 1 == rest.len() {
            // nothing stands where the version should
            return Err(RequestError::ProtocolError("malformed http request"));
        }
        self.method = method;
        self.path = path;
        Ok(())
    }

    /// Reads one header line and notes what a request keeps at hand: the
    /// content length, the host, the content type and the user agent.
    pub fn parse_header_line(&mut self, data: &'a [u8]) -> (r: Result<(), RequestError>)
        ensures
            match header_line(data@) {
                Ok(h) => {
                    &&& r == Ok::<(), RequestError>(())
                    &&& final(self)@ == old(self)@.with_header(h)
                },
                Err(e) => r == Err::<(), RequestError>(e) && final(self)@ == old(self)@,
            },
    {
        match self.resolve_header(data) {
            Ok(Some(h)) => {
                if let RequestHeader::ContentLength(l) = h {
                    self.content_length = l;
                    return Ok(());
                }
                if let RequestHeader::Host(s) = h {
                    self.host = s;
                    return Ok(());
                }
                if let RequestHeader::ContentType(s) = h {
                    self.content_type = Some(s);
                    return Ok(());
                }
                if let RequestHeader::UserAgent(s) = h {
                    self.user_agent = Some(s);
                    return Ok(());
                }
                Ok(())
            },
            Ok(None) => Ok(()),
            Err(e) => Err(e),
        }
    }

    /// Reads the header that one line holds, if it holds one.
    pub fn resolve_header(&self, data: &'a [u8]) -> (r: Result<
        Option<RequestHeader<'a>>,
        RequestError,
    >)
        ensures
            match header_line(data@) {
                Ok(Some(h)) => r matches Ok(Some(x)) && x@ == h,
                Ok(None) => r == Ok::<Option<RequestHeader<'a>>, RequestError>(None),
                Err(e) => r == Err::<Option<RequestHeader<'a>>, RequestError>(e),
            },
    {
        let i = find_byte(data, COLON);
        let header = match field(vstd::slice::slice_subrange(data, 0, i)) {
            Some(s) => s,
            None => {
                return Err(RequestError::ProtocolError("http request is not valid utf8"));
            },
        };
        if i == data.len() {
            return Ok(None);
        }
        let value = match field(vstd::slice::slice_subrange(data, i + 1, data.len())) {
            Some(s) => s,
            None => {
                return Err(RequestError::ProtocolError("http request is not valid utf8"));
            },
        };
        match RequestHeader::try_from((header, value)) {
            Ok(h) => Ok(Some(h)),
            Err(None) => Ok(None),
            Err(Some(e)) => Err(RequestError::ProtocolError(e)),
        }
    }

    /// Search the header lines of the request for the first header that
    /// answers the provided one: a header of the same variant, and for
    /// `Other` of the same name up to case.
    /// Note: A number of header values are extracted during the initial
    /// parse which should be used in favor of this method which requires a
    /// scan of the header lines each call.
    pub fn get_header(&self, header: RequestHeader<'_>) -> (r: Option<RequestHeader<'a>>)
        ensures
            match self@.header_slice {
                Some(block) => match lookup(block, 0, header@) {
                    Some(h) => r is Some && r->0@ == h,
                    None => r is None,
                },
                None => r is None,
            },
            r matches Some(h) ==> header@.answered_by(h@),
    {
        if let Some(data) = self.header_slice {
            let mut line_start: usize = 0;
            assert(data@.len() == data.len());
            loop
                invariant
                    line_start <= data@.len() <= usize::MAX,
                    self@.header_slice == Some(data@),
                    lookup(data@, 0, header@) == lookup(data@, line_start as int, header@),
                decreases data@.len() - line_start,
            {
                let end = match find_line_end(data, line_start) {
                    Some(end) => end,
                    None => {
                        return None;
                    },
                };
                if let Ok(Some(h)) = self.resolve_header(
                    vstd::slice::slice_subrange(data, line_start, end),
                ) {
                    if header.answered_by(&h) {
                        return Some(h);
                    }
                }
                line_start = end + 2;
            }
        }
        None
    }

    /// Returns a reference to the request body bytes if any.
    pub fn get_body(&self) -> (r: Option<&'a [u8]>)
        ensures
            r == self.body,
    {
        self.body
    }
}

} // verus!
