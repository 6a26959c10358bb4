//! Responses: the status and header vocabularies, and rendering to wire bytes.
use vstd::prelude::*;
use vstd::utf8::encode_utf8;

verus! {

/// The supported response statuses.
#[derive(Debug, Clone, Copy, PartialEq, Eq, Structural)]
pub enum Status {
    /// Standard response for successful HTTP requests.
    OK,
    /// The requested resource could not be found.
    NotFound,
    /// A request method is not supported for the requested resource.
    MethodNotAllowed,
}

/// Code and reason phrase of a status.
pub open spec fn status_text(s: Status) -> Seq<char> {
    match s {
        Status::OK => "200 OK"@,
        Status::NotFound => "404 NOT FOUND"@,
        Status::MethodNotAllowed => "405 METHOD NOT ALLOWED"@,
    }
}

impl Status {
    /// Code and reason phrase, as written on the status line.
    pub fn text(&self) -> (r: &'static str)
        ensures
            r@ == status_text(*self),
    {
        match self {
            Status::OK => "200 OK",
            Status::NotFound => "404 NOT FOUND",
            Status::MethodNotAllowed => "405 METHOD NOT ALLOWED",
        }
    }
}

/// The supported response headers.
#[derive(Debug, Clone)]
pub enum ResponseHeader {
    /// Allowed methods, as in `Allow: GET, POST, HEAD`.
    Allow(String),
    Server(String),
    AcceptRanges(String),
    ContentType(String),
    ContentLength(usize),
    Date(String),
}

/// The decimal digits of `n`, most significant first.
pub open spec fn decimal(n: nat) -> Seq<char>
    decreases n,
{
    if n < 10 {
        "0123456789"@.subrange(n as int, n as int + 1)
    } else {
        decimal(n / 10) + "0123456789"@.subrange((n % 10) as int, (n % 10) as int + 1)
    }
}

/// A header as `Name: value`.
pub open spec fn header_text(h: ResponseHeader) -> Seq<char> {
    match h {
        ResponseHeader::Allow(v) => "Allow: "@ + v@,
        ResponseHeader::Server(v) => "Server: "@ + v@,
        ResponseHeader::AcceptRanges(v) => "Accept-Ranges: "@ + v@,
        ResponseHeader::ContentType(v) => "Content-Type: "@ + v@,
        ResponseHeader::ContentLength(n) => "Content-Length: "@ + decimal(n as nat),
        ResponseHeader::Date(v) => "Date: "@ + v@,
    }
}

/// Appends the decimal digits of `n` to `out`.
fn push_decimal(out: &mut String, n: usize)
    ensures
        final(out)@ == old(out)@ + decimal(n as nat),
    decreases n,
{
    proof {
        reveal_strlit("0123456789");
    }
    let ghost start = out@;
    if n >= 10 {
        push_decimal(out, n / 10);
    }
    let d = n % 10;
    out.append("0123456789".substring_char(d, d + 1));
    if n >= 10 {
        assert(out@ =~= start + decimal(n as nat));
    } else {
        assert(out@ =~= start + decimal(n as nat));
    }
}

impl ResponseHeader {
    /// The header as `Name: value`, without the line break.
    pub fn text(&self) -> (r: String)
        ensures
            r@ == header_text(*self),
    {
        match self {
            ResponseHeader::Allow(v) => {
                let mut r = "Allow: ".to_owned();
                r.append(v.as_str());
                r
            },
            ResponseHeader::Server(v) => {
                let mut r = "Server: ".to_owned();
                r.append(v.as_str());
                r
            },
            ResponseHeader::AcceptRanges(v) => {
                let mut r = "Accept-Ranges: ".to_owned();
                r.append(v.as_str());
                r
            },
            ResponseHeader::ContentType(v) => {
                let mut r = "Content-Type: ".to_owned();
                r.append(v.as_str());
                r
            },
            ResponseHeader::ContentLength(n) => {
                let mut r = "Content-Length: ".to_owned();
                push_decimal(&mut r, *n);
                r
            },
            ResponseHeader::Date(v) => {
                let mut r = "Date: ".to_owned();
                r.append(v.as_str());
                r
            },
        }
    }
}

/// A response as values.
pub struct ResponseModel {
    pub version: Seq<char>,
    pub status: Status,
    pub headers: Seq<ResponseHeader>,
    pub body: Seq<u8>,
}

/// The header lines, each followed by `"\r\n"`, in order.
pub open spec fn headers_text(hs: Seq<ResponseHeader>) -> Seq<char>
    decreases hs.len(),
{
    if hs.len() == 0 {
        Seq::empty()
    } else {
        headers_text(hs.drop_last()) + header_text(hs.last()) + "\r\n"@
    }
}

/// Status line, header lines and the blank line that ends them.
pub open spec fn head_text(r: ResponseModel) -> Seq<char> {
    "HTTP/"@ + r.version + " "@ + status_text(r.status) + "\r\n"@ + headers_text(r.headers)
        + "\r\n"@
}

/// The wire bytes of a response: its head in UTF-8, then the body as it is.
pub open spec fn render_spec(r: ResponseModel) -> Seq<u8> {
    encode_utf8(head_text(r)) + r.body
}

/// An HTTP response: version, status, headers in the order they were added, and body.
#[derive(Debug)]
pub struct Response {
    version: String,
    status: Status,
    headers: Vec<ResponseHeader>,
    body: Vec<u8>,
}

impl View for Response {
    type V = ResponseModel;

    closed spec fn view(&self) -> ResponseModel {
        ResponseModel {
            version: self.version@,
            status: self.status,
            headers: self.headers@,
            body: self.body@,
        }
    }
}

impl Response {
    /// A response with no headers.
    pub fn new(version: String, status: Status, body: Vec<u8>) -> (r: Response)
        ensures
            r@ == (ResponseModel {
                version: version@,
                status: status,
                headers: Seq::empty(),
                body: body@,
            }),
    {
        let r = Response { version, status, headers: Vec::new(), body };
        assert(r@.headers =~= Seq::<ResponseHeader>::empty());
        r
    }

    /// Renders the response into the bytes to be written to a stream.
    pub fn render(&self) -> (r: Vec<u8>)
        ensures
            r@ == render_spec(self@),
    {
        let mut text = "HTTP/".to_owned();
        text.append(self.version.as_str());
        text.append(" ");
        text.append(self.status.text());
        text.append("\r\n");
        let ghost status_line = text@;
        let hs = &self.headers;
        let mut i: usize = 0;
        assert(hs@.subrange(0, 0) =~= Seq::<ResponseHeader>::empty());
        assert(text@ =~= status_line + headers_text(hs@.subrange(0, 0)));
        while i < hs.len()
            invariant
                hs@ == self.headers@,
                i <= hs@.len(),
                text@ == status_line + headers_text(hs@.subrange(0, i as int)),
            decreases hs@.len() - i,
        {
            let line = hs[i].text();
            text.append(line.as_str());
            text.append("\r\n");
            let ghost next = hs@.subrange(0, i + 1);
            assert(next.drop_last() =~= hs@.subrange(0, i as int));
            assert(text@ =~= status_line + headers_text(next));
            i += 1;
        }
        text.append("\r\n");
        assert(hs@.subrange(0, i as int) =~= hs@);
        assert(text@ =~= head_text(self@));
        let mut out = text.as_str().as_bytes_vec();
        let ghost head = out@;
        let mut j: usize = 0;
        while j < self.body.len()
            invariant
                j <= self.body@.len(),
                out@ == head + self.body@.subrange(0, j as int),
            decreases self.body@.len() - j,
        {
            out.push(self.body[j]);
            assert(out@ =~= head + self.body@.subrange(0, j + 1));
            j += 1;
        }
        assert(self.body@.subrange(0, j as int) =~= self.body@);
        out
    }

    /// Appends a header; headers are rendered in the order they were added.
    pub fn add_header(&mut self, header: ResponseHeader)
        ensures
            final(self)@ == (ResponseModel {
                headers: old(self)@.headers.push(header),
                ..old(self)@
            }),
    {
        self.headers.push(header);
    }
}

/// Rendering reads nothing but the response: the same response renders to the same bytes
/// every time.
pub proof fn lemma_render_repeatable(a: ResponseModel, b: ResponseModel)
    requires
        a == b,
    ensures
        render_spec(a) == render_spec(b),
{
}

} // verus!
