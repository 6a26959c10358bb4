//! The parsed request value, the builder that fills it, and the parse errors.
use vstd::prelude::*;

verus! {

/// Why a request text could not be turned into a [`Request`].
#[derive(Debug, Clone)]
pub enum ParseError {
    /// The text is empty once surrounding whitespace is removed.
    EmptyRequest,
    /// The first line does not hold three non-empty fields separated by single spaces.
    MalformedRequestLine,
    /// The third field of the first line does not start with `HTTP/` followed by a version.
    MalformedVersion,
    /// A non-empty line after the first holds no `:`.
    MalformedHeaderLine,
    /// A header name token that is not followed by its value token.
    DanglingHeaderName(String),
    /// The token stream broke the tokenizer's own contract; a defect, not bad client input.
    InternalConsistencyViolation,
}

/// [`ParseError`] with its text as a character sequence.
pub enum ParseErrorModel {
    EmptyRequest,
    MalformedRequestLine,
    MalformedVersion,
    MalformedHeaderLine,
    DanglingHeaderName(Seq<char>),
    InternalConsistencyViolation,
}

impl View for ParseError {
    type V = ParseErrorModel;

    open spec fn view(&self) -> ParseErrorModel {
        match self {
            ParseError::EmptyRequest => ParseErrorModel::EmptyRequest,
            ParseError::MalformedRequestLine => ParseErrorModel::MalformedRequestLine,
            ParseError::MalformedVersion => ParseErrorModel::MalformedVersion,
            ParseError::MalformedHeaderLine => ParseErrorModel::MalformedHeaderLine,
            ParseError::DanglingHeaderName(n) => ParseErrorModel::DanglingHeaderName(n@),
            ParseError::InternalConsistencyViolation =>
                ParseErrorModel::InternalConsistencyViolation,
        }
    }
}

impl ParseError {
    /// Whether this error reports a defect of the parser rather than malformed client input.
    pub fn is_internal(&self) -> (r: bool)
        ensures
            r == (self@ is InternalConsistencyViolation),
    {
        match self {
            ParseError::InternalConsistencyViolation => true,
            _ => false,
        }
    }
}

/// The number of request headers that are recognised and stored.
pub const HEADER_COUNT: usize = 10;

/// The slot of a recognised header name, matched case-sensitively, or -1 for any other name.
pub open spec fn header_slot(name: Seq<char>) -> int {
    if name == "Host"@ {
        0
    } else if name == "User-Agent"@ {
        1
    } else if name == "Accept"@ {
        2
    } else if name == "Accept-Language"@ {
        3
    } else if name == "Accept-Encoding"@ {
        4
    } else if name == "Cookie"@ {
        5
    } else if name == "Connection"@ {
        6
    } else if name == "Upgrade-Insecure-Requests"@ {
        7
    } else if name == "Referer"@ {
        8
    } else if name == "Cache-Control"@ {
        9
    } else {
        -1
    }
}

/// The slots of the ten recognised names.
pub proof fn lemma_header_slots()
    ensures
        header_slot("Host"@) == 0,
        header_slot("User-Agent"@) == 1,
        header_slot("Accept"@) == 2,
        header_slot("Accept-Language"@) == 3,
        header_slot("Accept-Encoding"@) == 4,
        header_slot("Cookie"@) == 5,
        header_slot("Connection"@) == 6,
        header_slot("Upgrade-Insecure-Requests"@) == 7,
        header_slot("Referer"@) == 8,
        header_slot("Cache-Control"@) == 9,
{
    reveal_strlit("Host");
    reveal_strlit("User-Agent");
    reveal_strlit("Accept");
    reveal_strlit("Accept-Language");
    reveal_strlit("Accept-Encoding");
    reveal_strlit("Cookie");
    reveal_strlit("Connection");
    reveal_strlit("Upgrade-Insecure-Requests");
    reveal_strlit("Referer");
    reveal_strlit("Cache-Control");
    assert("Host"@.len() == 4);
    assert("User-Agent"@.len() == 10);
    assert("Accept"@.len() == 6);
    assert("Accept-Language"@.len() == 15);
    assert("Accept-Encoding"@.len() == 15);
    assert("Cookie"@.len() == 6);
    assert("Connection"@.len() == 10);
    assert("Upgrade-Insecure-Requests"@.len() == 25);
    assert("Referer"@.len() == 7);
    assert("Cache-Control"@.len() == 13);
    assert("User-Agent"@[0] != "Connection"@[0]);
    assert("Accept"@[0] != "Cookie"@[0]);
    assert("Accept-Language"@[7] != "Accept-Encoding"@[7]);
}

/// A request as values: the three fields of the first line, and the recognised header
/// values indexed by [`header_slot`].
pub struct RequestModel {
    pub method: Seq<char>,
    pub url: Seq<char>,
    pub version: Seq<char>,
    pub headers: Seq<Seq<char>>,
}

impl RequestModel {
    /// No field set yet: every field empty.
    pub open spec fn empty() -> RequestModel {
        RequestModel {
            method: Seq::empty(),
            url: Seq::empty(),
            version: Seq::empty(),
            headers: Seq::new(HEADER_COUNT as nat, |i: int| Seq::<char>::empty()),
        }
    }

    /// The header `name` set to `value` when the name is recognised; unchanged otherwise.
    pub open spec fn with_header(self, name: Seq<char>, value: Seq<char>) -> RequestModel {
        let k = header_slot(name);
        if 0 <= k {
            RequestModel { headers: self.headers.update(k, value), ..self }
        } else {
            self
        }
    }

    /// A successfully parsed request: the first-line fields are all set.
    pub open spec fn wf(self) -> bool {
        &&& self.method.len() > 0
        &&& self.url.len() > 0
        &&& self.version.len() > 0
        &&& self.headers.len() == HEADER_COUNT
    }
}

/// A parsed HTTP request. It is built once by the parser and not changed afterwards.
#[derive(Debug, Clone, PartialEq, Eq)]
pub struct Request {
    method: String,
    url: String,
    version: String,
    host: String,
    user_agent: String,
    accept: String,
    accept_language: String,
    accept_encoding: String,
    cookie: String,
    connection: String,
    upgrade_insecure_requests: String,
    referer: String,
    cache_control: String,
}

impl View for Request {
    type V = RequestModel;

    closed spec fn view(&self) -> RequestModel {
        RequestModel {
            method: self.method@,
            url: self.url@,
            version: self.version@,
            headers: seq![
                self.host@,
                self.user_agent@,
                self.accept@,
                self.accept_language@,
                self.accept_encoding@,
                self.cookie@,
                self.connection@,
                self.upgrade_insecure_requests@,
                self.referer@,
                self.cache_control@,
            ],
        }
    }
}

impl Request {
    /// The requested method.
    pub fn method(&self) -> (r: &String)
        ensures
            r@ == self@.method,
    {
        &self.method
    }

    /// The requested URL.
    pub fn url(&self) -> (r: &String)
        ensures
            r@ == self@.url,
    {
        &self.url
    }

    /// The HTTP version the client speaks, without the `HTTP/` prefix.
    pub fn version(&self) -> (r: &String)
        ensures
            r@ == self@.version,
    {
        &self.version
    }

    /// The value of the `Host` header, or empty.
    pub fn host(&self) -> (r: &String)
        ensures
            r@ == self@.headers[0],
    {
        &self.host
    }

    /// The value of the `User-Agent` header, or empty.
    pub fn user_agent(&self) -> (r: &String)
        ensures
            r@ == self@.headers[1],
    {
        &self.user_agent
    }

    /// The value of the `Accept` header, or empty.
    pub fn accept(&self) -> (r: &String)
        ensures
            r@ == self@.headers[2],
    {
        &self.accept
    }

    /// The value of the `Accept-Language` header, or empty.
    pub fn accept_language(&self) -> (r: &String)
        ensures
            r@ == self@.headers[3],
    {
        &self.accept_language
    }

    /// The value of the `Accept-Encoding` header, or empty.
    pub fn accept_encoding(&self) -> (r: &String)
        ensures
            r@ == self@.headers[4],
    {
        &self.accept_encoding
    }

    /// The value of the `Cookie` header, or empty.
    pub fn cookie(&self) -> (r: &String)
        ensures
            r@ == self@.headers[5],
    {
        &self.cookie
    }

    /// The value of the `Connection` header, or empty.
    pub fn connection(&self) -> (r: &String)
        ensures
            r@ == self@.headers[6],
    {
        &self.connection
    }

    /// The value of the `Upgrade-Insecure-Requests` header, or empty.
    pub fn upgrade_insecure_requests(&self) -> (r: &String)
        ensures
            r@ == self@.headers[7],
    {
        &self.upgrade_insecure_requests
    }

    /// The value of the `Referer` header, or empty.
    pub fn referer(&self) -> (r: &String)
        ensures
            r@ == self@.headers[8],
    {
        &self.referer
    }

    /// The value of the `Cache-Control` header, or empty.
    pub fn cache_control(&self) -> (r: &String)
        ensures
            r@ == self@.headers[9],
    {
        &self.cache_control
    }
}

/// Collects the fields of a [`Request`] while the tokens are read.
pub struct RequestBuilder {
    method: String,
    url: String,
    version: String,
    host: String,
    user_agent: String,
    accept: String,
    accept_language: String,
    accept_encoding: String,
    cookie: String,
    connection: String,
    upgrade_insecure_requests: String,
    referer: String,
    cache_control: String,
}

impl View for RequestBuilder {
    type V = RequestModel;

    closed spec fn view(&self) -> RequestModel {
        RequestModel {
            method: self.method@,
            url: self.url@,
            version: self.version@,
            headers: seq![
                self.host@,
                self.user_agent@,
                self.accept@,
                self.accept_language@,
                self.accept_encoding@,
                self.cookie@,
                self.connection@,
                self.upgrade_insecure_requests@,
                self.referer@,
                self.cache_control@,
            ],
        }
    }
}

impl RequestBuilder {
    /// A builder with every field empty.
    pub fn new() -> (r: RequestBuilder)
        ensures
            r@ == RequestModel::empty(),
    {
        let r = RequestBuilder {
            method: String::new(),
            url: String::new(),
            version: String::new(),
            host: String::new(),
            user_agent: String::new(),
            accept: String::new(),
            accept_language: String::new(),
            accept_encoding: String::new(),
            cookie: String::new(),
            connection: String::new(),
            upgrade_insecure_requests: String::new(),
            referer: String::new(),
            cache_control: String::new(),
        };
        assert(r@.headers =~= RequestModel::empty().headers);
        r
    }

    /// The request holding the fields collected so far.
    pub fn create(&self) -> (r: Request)
        ensures
            r@ == self@,
    {
        Request {
            method: self.method.clone(),
            url: self.url.clone(),
            version: self.version.clone(),
            host: self.host.clone(),
            user_agent: self.user_agent.clone(),
            accept: self.accept.clone(),
            accept_language: self.accept_language.clone(),
            accept_encoding: self.accept_encoding.clone(),
            cookie: self.cookie.clone(),
            connection: self.connection.clone(),
            upgrade_insecure_requests: self.upgrade_insecure_requests.clone(),
            referer: self.referer.clone(),
            cache_control: self.cache_control.clone(),
        }
    }

    /// Sets the method.
    pub fn with_method(&mut self, new_method: &String)
        ensures
            final(self)@ == (RequestModel { method: new_method@, ..old(self)@ }),
    {
        self.method = new_method.clone();
    }

    /// Sets the URL.
    pub fn with_url(&mut self, new_url: &String)
        ensures
            final(self)@ == (RequestModel { url: new_url@, ..old(self)@ }),
    {
        self.url = new_url.clone();
    }

    /// Sets the version.
    pub fn with_version(&mut self, new_version: &String)
        ensures
            final(self)@ == (RequestModel { version: new_version@, ..old(self)@ }),
    {
        self.version = new_version.clone();
    }

    /// Sets the value of the `Host` header.
    pub fn with_host(&mut self, new_host: &String)
        ensures
            final(self)@ == old(self)@.with_header("Host"@, new_host@),
    {
        self.host = new_host.clone();
        proof {
            lemma_header_slots();
        }
        assert(self@.headers =~= old(self)@.headers.update(0, new_host@));
    }

    /// Sets the value of the `User-Agent` header.
    pub fn with_user_agent(&mut self, new_user_agent: &String)
        ensures
            final(self)@ == old(self)@.with_header("User-Agent"@, new_user_agent@),
    {
        self.user_agent = new_user_agent.clone();
        proof {
            lemma_header_slots();
        }
        assert(self@.headers =~= old(self)@.headers.update(1, new_user_agent@));
    }

    /// Sets the value of the `Accept` header.
    pub fn with_accept(&mut self, new_accept: &String)
        ensures
            final(self)@ == old(self)@.with_header("Accept"@, new_accept@),
    {
        self.accept = new_accept.clone();
        proof {
            lemma_header_slots();
        }
        assert(self@.headers =~= old(self)@.headers.update(2, new_accept@));
    }

    /// Sets the value of the `Accept-Language` header.
    pub fn with_accept_language(&mut self, new_accept_language: &String)
        ensures
            final(self)@ == old(self)@.with_header("Accept-Language"@, new_accept_language@),
    {
        self.accept_language = new_accept_language.clone();
        proof {
            lemma_header_slots();
        }
        assert(self@.headers =~= old(self)@.headers.update(3, new_accept_language@));
    }

    /// Sets the value of the `Accept-Encoding` header.
    pub fn with_accept_encoding(&mut self, new_accept_encoding: &String)
        ensures
            final(self)@ == old(self)@.with_header("Accept-Encoding"@, new_accept_encoding@),
    {
        self.accept_encoding = new_accept_encoding.clone();
        proof {
            lemma_header_slots();
        }
        assert(self@.headers =~= old(self)@.headers.update(4, new_accept_encoding@));
    }

    /// Sets the value of the `Cookie` header.
    pub fn with_cookie(&mut self, new_cookie: &String)
        ensures
            final(self)@ == old(self)@.with_header("Cookie"@, new_cookie@),
    {
        self.cookie = new_cookie.clone();
        proof {
            lemma_header_slots();
        }
        assert(self@.headers =~= old(self)@.headers.update(5, new_cookie@));
    }

    /// Sets the value of the `Connection` header.
    pub fn with_connection(&mut self, new_connection: &String)
        ensures
            final(self)@ == old(self)@.with_header("Connection"@, new_connection@),
    {
        self.connection = new_connection.clone();
        proof {
            lemma_header_slots();
        }
        assert(self@.headers =~= old(self)@.headers.update(6, new_connection@));
    }

    /// Sets the value of the `Upgrade-Insecure-Requests` header.
    pub fn with_upgrade_insecure_requests(&mut self, new_upgrade_insecure_requests: &String)
        ensures
            final(self)@ == old(self)@.with_header(
                "Upgrade-Insecure-Requests"@,
                new_upgrade_insecure_requests@,
            ),
    {
        self.upgrade_insecure_requests = new_upgrade_insecure_requests.clone();
        proof {
            lemma_header_slots();
        }
        assert(self@.headers =~= old(self)@.headers.update(7, new_upgrade_insecure_requests@));
    }

    /// Sets the value of the `Referer` header.
    pub fn with_referer(&mut self, new_referer: &String)
        ensures
            final(self)@ == old(self)@.with_header("Referer"@, new_referer@),
    {
        self.referer = new_referer.clone();
        proof {
            lemma_header_slots();
        }
        assert(self@.headers =~= old(self)@.headers.update(8, new_referer@));
    }

    /// Sets the value of the `Cache-Control` header.
    pub fn with_cache_control(&mut self, new_cache_control: &String)
        ensures
            final(self)@ == old(self)@.with_header("Cache-Control"@, new_cache_control@),
    {
        self.cache_control = new_cache_control.clone();
        proof {
            lemma_header_slots();
        }
        assert(self@.headers =~= old(self)@.headers.update(9, new_cache_control@));
    }
}

} // verus!
