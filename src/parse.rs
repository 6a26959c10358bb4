//! Request parsing: the tokenizer turns request text into tokens, and the assembler turns
//! tokens into a [`Request`].
use vstd::prelude::*;
use crate::request::{
    ParseError, ParseErrorModel, Request, RequestBuilder, RequestModel, HEADER_COUNT,
};
use crate::laws::lemma_tokenized_text_parses;
use crate::text::{
    find_char, lines_of, next_char, pieces_of, split_char, split_crlf, trim, trim_str, views_of,
};

verus! {

/// One structural unit of a request text.
#[derive(Debug, Clone, PartialEq, Eq)]
pub enum RequestToken {
    Method(String),
    Url(String),
    Version(String),
    HeaderName(String),
    HeaderValue(String),
    EndOfText,
}

/// [`RequestToken`] with its text as a character sequence.
pub enum TokenModel {
    Method(Seq<char>),
    Url(Seq<char>),
    Version(Seq<char>),
    HeaderName(Seq<char>),
    HeaderValue(Seq<char>),
    EndOfText,
}

impl View for RequestToken {
    type V = TokenModel;

    open spec fn view(&self) -> TokenModel {
        match self {
            RequestToken::Method(s) => TokenModel::Method(s@),
            RequestToken::Url(s) => TokenModel::Url(s@),
            RequestToken::Version(s) => TokenModel::Version(s@),
            RequestToken::HeaderName(s) => TokenModel::HeaderName(s@),
            RequestToken::HeaderValue(s) => TokenModel::HeaderValue(s@),
            RequestToken::EndOfText => TokenModel::EndOfText,
        }
    }
}

pub open spec fn token_models(ts: Seq<RequestToken>) -> Seq<TokenModel> {
    ts.map_values(|t: RequestToken| t@)
}

/// `v` is a version field: `HTTP/` followed by at least one character.
pub open spec fn is_version_field(v: Seq<char>) -> bool {
    v.len() > 5 && v.subrange(0, 5) == "HTTP/"@
}

/// Method, URL and version (without `HTTP/`) of a first line, or why it is malformed.
pub open spec fn first_line_spec(line: Seq<char>) -> Result<
    (Seq<char>, Seq<char>, Seq<char>),
    ParseErrorModel,
> {
    let f = pieces_of(line, ' ');
    if f.len() != 3 || trim(f[0]).len() == 0 || trim(f[1]).len() == 0 {
        Err(ParseErrorModel::MalformedRequestLine)
    } else if !is_version_field(trim(f[2])) {
        Err(ParseErrorModel::MalformedVersion)
    } else {
        let v = trim(f[2]);
        Ok((trim(f[0]), trim(f[1]), v.subrange(5, v.len() as int)))
    }
}

/// Name and value of a header line, split at its first `:` and trimmed.
pub open spec fn header_line_spec(line: Seq<char>) -> Result<
    (Seq<char>, Seq<char>),
    ParseErrorModel,
> {
    let c = next_char(line, ':', 0);
    if c < line.len() {
        Ok((trim(line.subrange(0, c)), trim(line.subrange(c + 1, line.len() as int))))
    } else {
        Err(ParseErrorModel::MalformedHeaderLine)
    }
}

/// The tokens of one line after the first: none for an empty line, else a name and a value.
pub open spec fn line_tokens(line: Seq<char>) -> Result<Seq<TokenModel>, ParseErrorModel> {
    if line.len() == 0 {
        Ok(Seq::empty())
    } else {
        match header_line_spec(line) {
            Ok((n, v)) => Ok(seq![TokenModel::HeaderName(n), TokenModel::HeaderValue(v)]),
            Err(e) => Err(e),
        }
    }
}

/// The tokens of the lines after the first, in order, or the first line's error.
pub open spec fn header_tokens(hs: Seq<Seq<char>>) -> Result<Seq<TokenModel>, ParseErrorModel>
    decreases hs.len(),
{
    if hs.len() == 0 {
        Ok(Seq::empty())
    } else {
        match line_tokens(hs[0]) {
            Err(e) => Err(e),
            Ok(t) => match header_tokens(hs.drop_first()) {
                Err(e) => Err(e),
                Ok(r) => Ok(t + r),
            },
        }
    }
}

/// The tokens of a request given as its lines (at least one).
pub open spec fn scan_lines(lines: Seq<Seq<char>>) -> Result<Seq<TokenModel>, ParseErrorModel> {
    match first_line_spec(lines[0]) {
        Err(e) => Err(e),
        Ok((m, u, v)) => match header_tokens(lines.drop_first()) {
            Err(e) => Err(e),
            Ok(h) => Ok(
                seq![TokenModel::Method(m), TokenModel::Url(u), TokenModel::Version(v)] + h
                    + seq![TokenModel::EndOfText],
            ),
        },
    }
}

/// The tokens of a request text.
pub open spec fn scan_spec(text: Seq<char>) -> Result<Seq<TokenModel>, ParseErrorModel> {
    let t = trim(text);
    if t.len() == 0 {
        Err(ParseErrorModel::EmptyRequest)
    } else {
        scan_lines(lines_of(t))
    }
}

/// The request that the tokens after the first line give, starting from `b`.
pub open spec fn assemble_rest(ts: Seq<TokenModel>, b: RequestModel) -> Result<
    RequestModel,
    ParseErrorModel,
>
    decreases ts.len(),
{
    if ts.len() == 0 {
        Err(ParseErrorModel::InternalConsistencyViolation)
    } else {
        match ts[0] {
            TokenModel::EndOfText => Ok(b),
            TokenModel::HeaderName(n) => {
                if ts.len() >= 2 && ts[1] is HeaderValue {
                    assemble_rest(
                        ts.subrange(2, ts.len() as int),
                        b.with_header(n, ts[1]->HeaderValue_0),
                    )
                } else {
                    Err(ParseErrorModel::DanglingHeaderName(n))
                }
            },
            _ => Err(ParseErrorModel::InternalConsistencyViolation),
        }
    }
}

/// The request that a token stream gives: method, URL and version first, then header
/// pairs up to the end marker.
pub open spec fn assemble(ts: Seq<TokenModel>) -> Result<RequestModel, ParseErrorModel> {
    if ts.len() >= 3 && ts[0] is Method && ts[1] is Url && ts[2] is Version {
        assemble_rest(
            ts.subrange(3, ts.len() as int),
            RequestModel {
                method: ts[0]->Method_0,
                url: ts[1]->Url_0,
                version: ts[2]->Version_0,
                ..RequestModel::empty()
            },
        )
    } else {
        Err(ParseErrorModel::InternalConsistencyViolation)
    }
}

/// The request that a request text gives.
pub open spec fn parse_spec(text: Seq<char>) -> Result<RequestModel, ParseErrorModel> {
    match scan_spec(text) {
        Err(e) => Err(e),
        Ok(ts) => assemble(ts),
    }
}

/// `r` is `m` seen through the views.
pub open spec fn result_is<T: View>(
    r: Result<T, ParseError>,
    m: Result<T::V, ParseErrorModel>,
) -> bool {
    match r {
        Ok(x) => m is Ok && x@ == m->Ok_0,
        Err(e) => m is Err && e@ == m->Err_0,
    }
}

/// `r` with `acc` put in front of its tokens.
pub open spec fn with_prefix(acc: Seq<TokenModel>, r: Result<Seq<TokenModel>, ParseErrorModel>) -> Result<
    Seq<TokenModel>,
    ParseErrorModel,
> {
    match r {
        Ok(x) => Ok(acc + x),
        Err(e) => Err(e),
    }
}

fn string_of(s: &str) -> (r: String)
    ensures
        r@ == s@,
{
    s.to_owned()
}

/// Splits the first line of a request into method, URL and version tokens.
pub fn parse_first_line(line: &str) -> (r: Result<
    (RequestToken, RequestToken, RequestToken),
    ParseError,
>)
    ensures
        match r {
            Ok((a, b, c)) => {
                &&& first_line_spec(line@) is Ok
                &&& a@ == TokenModel::Method(first_line_spec(line@)->Ok_0.0)
                &&& b@ == TokenModel::Url(first_line_spec(line@)->Ok_0.1)
                &&& c@ == TokenModel::Version(first_line_spec(line@)->Ok_0.2)
            },
            Err(e) => first_line_spec(line@) is Err && e@ == first_line_spec(line@)->Err_0,
        },
{
    let parts = split_char(line, ' ');
    if parts.len() != 3 {
        return Err(ParseError::MalformedRequestLine);
    }
    let method = trim_str(parts[0]);
    let url = trim_str(parts[1]);
    let full = trim_str(parts[2]);
    if method.unicode_len() == 0 || url.unicode_len() == 0 {
        return Err(ParseError::MalformedRequestLine);
    }
    let n = full.unicode_len();
    proof {
        reveal_strlit("HTTP/");
    }
    if n <= 5 || full.get_char(0) != 'H' || full.get_char(1) != 'T' || full.get_char(2) != 'T'
        || full.get_char(3) != 'P' || full.get_char(4) != '/' {
        proof {
            if is_version_field(full@) {
                assert(full@[0] == full@.subrange(0, 5)[0]);
                assert(full@[1] == full@.subrange(0, 5)[1]);
                assert(full@[2] == full@.subrange(0, 5)[2]);
                assert(full@[3] == full@.subrange(0, 5)[3]);
                assert(full@[4] == full@.subrange(0, 5)[4]);
            }
        }
        return Err(ParseError::MalformedVersion);
    }
    assert(full@.subrange(0, 5) =~= "HTTP/"@);
    let version = full.substring_char(5, n);
    Ok(
        (
            RequestToken::Method(string_of(method)),
            RequestToken::Url(string_of(url)),
            RequestToken::Version(string_of(version)),
        ),
    )
}

/// Splits a header line at its first `:` into name and value tokens, both trimmed.
pub fn parse_non_first_line(line: &str) -> (r: Result<(RequestToken, RequestToken), ParseError>)
    ensures
        match r {
            Ok((a, b)) => {
                &&& header_line_spec(line@) is Ok
                &&& a@ == TokenModel::HeaderName(header_line_spec(line@)->Ok_0.0)
                &&& b@ == TokenModel::HeaderValue(header_line_spec(line@)->Ok_0.1)
            },
            Err(e) => header_line_spec(line@) is Err && e@ == header_line_spec(line@)->Err_0,
        },
{
    let n = line.unicode_len();
    let c = find_char(line, ':');
    if c >= n {
        return Err(ParseError::MalformedHeaderLine);
    }
    let name = trim_str(line.substring_char(0, c));
    let value = trim_str(line.substring_char(c + 1, n));
    Ok((RequestToken::HeaderName(string_of(name)), RequestToken::HeaderValue(string_of(value))))
}

/// Splits a request text, trimmed, at every `"\r\n"`.
pub fn split_lines(input: &str) -> (r: Vec<&str>)
    ensures
        views_of(r@) == lines_of(trim(input@)),
{
    split_crlf(trim_str(input))
}

/// Turns a request text into its tokens: method, URL and version, then a name and a value
/// for each non-empty line after the first, then the end marker.
pub fn scan_request(request: &str) -> (r: Result<Vec<RequestToken>, ParseError>)
    ensures
        match r {
            Ok(v) => scan_spec(request@) is Ok && token_models(v@) == scan_spec(request@)->Ok_0,
            Err(e) => scan_spec(request@) is Err && e@ == scan_spec(request@)->Err_0,
        },
{
    let text = trim_str(request);
    if text.unicode_len() == 0 {
        return Err(ParseError::EmptyRequest);
    }
    let lines = split_lines(request);
    let ghost all = views_of(lines@);
    let ghost hs = all.drop_first();
    assert(all.len() >= 1);
    let first = parse_first_line(lines[0]);
    let mut tokens: Vec<RequestToken> = Vec::new();
    match first {
        Err(e) => {
            return Err(e);
        },
        Ok((m, u, v)) => {
            tokens.push(m);
            tokens.push(u);
            tokens.push(v);
        },
    }
    let ghost head = token_models(tokens@);
    let ghost mut acc: Seq<TokenModel> = Seq::empty();
    assert(hs.subrange(0, hs.len() as int) =~= hs);
    assert(token_models(tokens@) =~= head + acc);
    let mut k: usize = 1;
    while k < lines.len()
        invariant
            all == views_of(lines@),
            all == lines_of(trim(request@)),
            hs == all.drop_first(),
            first_line_spec(all[0]) is Ok,
            head == seq![
                TokenModel::Method(first_line_spec(all[0])->Ok_0.0),
                TokenModel::Url(first_line_spec(all[0])->Ok_0.1),
                TokenModel::Version(first_line_spec(all[0])->Ok_0.2),
            ],
            1 <= k <= lines.len(),
            token_models(tokens@) == head + acc,
            header_tokens(hs) == with_prefix(acc, header_tokens(hs.subrange(k - 1, hs.len() as int))),
        decreases lines.len() - k,
    {
        let ghost rest = hs.subrange(k - 1, hs.len() as int);
        assert(rest.drop_first() =~= hs.subrange(k as int, hs.len() as int));
        assert(rest[0] == lines@[k as int]@);
        if lines[k].unicode_len() == 0 {
            assert(acc + Seq::<TokenModel>::empty() =~= acc);
        } else {
            match parse_non_first_line(lines[k]) {
                Err(e) => {
                    return Err(e);
                },
                Ok((name, value)) => {
                    let ghost pair = seq![name@, value@];
                    let ghost before = tokens@;
                    tokens.push(name);
                    tokens.push(value);
                    proof {
                        assert(token_models(tokens@) =~= token_models(before) + pair);
                        assert(token_models(tokens@) =~= head + (acc + pair));
                        match header_tokens(hs.subrange(k as int, hs.len() as int)) {
                            Ok(x) => {
                                assert(acc + (pair + x) =~= (acc + pair) + x);
                            },
                            Err(_) => {},
                        }
                        acc = acc + pair;
                    }
                },
            }
        }
        k += 1;
    }
    assert(hs.subrange(k - 1, hs.len() as int) =~= Seq::<Seq<char>>::empty());
    assert(acc + Seq::<TokenModel>::empty() =~= acc);
    tokens.push(RequestToken::EndOfText);
    assert(token_models(tokens@) =~= head + acc + seq![TokenModel::EndOfText]);
    Ok(tokens)
}

fn is_name(name: &String, lit: &str) -> (r: bool)
    ensures
        r == (name@ == lit@),
{
    let l = lit.to_owned();
    *name == l
}

/// Stores `value` under `name` when the name is one of the recognised headers; any other
/// header is dropped.
fn store_header(b: &mut RequestBuilder, name: &String, value: &String)
    ensures
        final(b)@ == old(b)@.with_header(name@, value@),
{
    if is_name(name, "Host") {
        b.with_host(value);
    } else if is_name(name, "User-Agent") {
        b.with_user_agent(value);
    } else if is_name(name, "Accept") {
        b.with_accept(value);
    } else if is_name(name, "Accept-Language") {
        b.with_accept_language(value);
    } else if is_name(name, "Accept-Encoding") {
        b.with_accept_encoding(value);
    } else if is_name(name, "Cookie") {
        b.with_cookie(value);
    } else if is_name(name, "Connection") {
        b.with_connection(value);
    } else if is_name(name, "Upgrade-Insecure-Requests") {
        b.with_upgrade_insecure_requests(value);
    } else if is_name(name, "Referer") {
        b.with_referer(value);
    } else if is_name(name, "Cache-Control") {
        b.with_cache_control(value);
    }
}

/// Builds a request from a token stream: the method, URL and version tokens first, then
/// header name and value pairs, up to the end marker.
pub fn assemble_request(tokens: &Vec<RequestToken>) -> (r: Result<Request, ParseError>)
    ensures
        result_is(r, assemble(token_models(tokens@))),
{
    let ghost ts = token_models(tokens@);
    let n = tokens.len();
    if n < 3 {
        return Err(ParseError::InternalConsistencyViolation);
    }
    let mut b = RequestBuilder::new();
    match &tokens[0] {
        RequestToken::Method(m) => b.with_method(m),
        _ => {
            return Err(ParseError::InternalConsistencyViolation);
        },
    }
    match &tokens[1] {
        RequestToken::Url(u) => b.with_url(u),
        _ => {
            return Err(ParseError::InternalConsistencyViolation);
        },
    }
    match &tokens[2] {
        RequestToken::Version(v) => b.with_version(v),
        _ => {
            return Err(ParseError::InternalConsistencyViolation);
        },
    }
    let mut i: usize = 3;
    while i < n
        invariant
            ts == token_models(tokens@),
            n == tokens@.len(),
            3 <= i <= n,
            assemble(ts) == assemble_rest(ts.subrange(i as int, n as int), b@),
        decreases n - i,
    {
        let ghost rest = ts.subrange(i as int, n as int);
        assert(rest[0] == tokens@[i as int]@);
        match &tokens[i] {
            RequestToken::EndOfText => {
                return Ok(b.create());
            },
            RequestToken::HeaderName(name) => {
                if i + 1 < n {
                    assert(rest[1] == tokens@[i + 1]@);
                    match &tokens[i + 1] {
                        RequestToken::HeaderValue(value) => {
                            store_header(&mut b, name, value);
                            assert(rest.subrange(2, rest.len() as int) =~= ts.subrange(
                                i + 2,
                                n as int,
                            ));
                            i = i + 2;
                        },
                        _ => {
                            return Err(ParseError::DanglingHeaderName(name.clone()));
                        },
                    }
                } else {
                    return Err(ParseError::DanglingHeaderName(name.clone()));
                }
            },
            _ => {
                return Err(ParseError::InternalConsistencyViolation);
            },
        }
    }
    Err(ParseError::InternalConsistencyViolation)
}

/// Assembling never changes the first-line fields nor the number of header slots.
pub proof fn lemma_assemble_rest_keeps(ts: Seq<TokenModel>, b: RequestModel)
    requires
        b.headers.len() == HEADER_COUNT,
    ensures
        assemble_rest(ts, b) is Ok ==> {
            let r = assemble_rest(ts, b)->Ok_0;
            &&& r.method == b.method
            &&& r.url == b.url
            &&& r.version == b.version
            &&& r.headers.len() == b.headers.len()
        },
    decreases ts.len(),
{
    if ts.len() >= 2 && ts[0] is HeaderName && ts[1] is HeaderValue {
        lemma_assemble_rest_keeps(
            ts.subrange(2, ts.len() as int),
            b.with_header(ts[0]->HeaderName_0, ts[1]->HeaderValue_0),
        );
    }
}

/// A request text parsed without error has a method, a URL, a version and all header slots.
pub proof fn lemma_parsed_request_wf(text: Seq<char>)
    ensures
        parse_spec(text) is Ok ==> parse_spec(text)->Ok_0.wf(),
{
    if parse_spec(text) is Ok {
        let ts = scan_spec(text)->Ok_0;
        let f = first_line_spec(lines_of(trim(text))[0])->Ok_0;
        let h = header_tokens(lines_of(trim(text)).drop_first())->Ok_0;
        assert(ts.subrange(3, ts.len() as int) =~= h + seq![TokenModel::EndOfText]);
        lemma_assemble_rest_keeps(
            ts.subrange(3, ts.len() as int),
            RequestModel { method: f.0, url: f.1, version: f.2, ..RequestModel::empty() },
        );
    }
}

/// Parses a request text into a [`Request`], or reports why it is malformed.
pub fn parse_request(request: &str) -> (r: Result<Request, ParseError>)
    ensures
        result_is(r, parse_spec(request@)),
        r is Ok <==> scan_spec(request@) is Ok,
        r is Ok ==> r->Ok_0@.wf(),
        r is Err ==> r->Err_0@ == scan_spec(request@)->Err_0,
{
    proof {
        lemma_parsed_request_wf(request@);
        lemma_tokenized_text_parses(request@);
    }
    match scan_request(request) {
        Err(e) => Err(e),
        Ok(tokens) => assemble_request(&tokens),
    }
}

} // verus!
