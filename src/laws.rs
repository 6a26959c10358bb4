//! What parsing guarantees about header lines, stated over the lines of a request text.
use vstd::prelude::*;
use crate::parse::{
    assemble, assemble_rest, first_line_spec, header_line_spec, header_tokens, line_tokens,
    parse_spec, scan_lines, scan_spec, TokenModel,
};
use crate::request::{header_slot, ParseErrorModel, RequestModel, HEADER_COUNT};
use crate::text::{lines_of, trim};

verus! {

/// The request that a request text gives, the text given as its lines (at least one).
pub open spec fn parse_lines(lines: Seq<Seq<char>>) -> Result<RequestModel, ParseErrorModel> {
    match scan_lines(lines) {
        Err(e) => Err(e),
        Ok(ts) => assemble(ts),
    }
}

/// The request before any header is read: only the first-line fields set.
pub open spec fn first_model(f: (Seq<char>, Seq<char>, Seq<char>)) -> RequestModel {
    RequestModel { method: f.0, url: f.1, version: f.2, ..RequestModel::empty() }
}

/// The request that the header lines `hs` give, starting from `b`.
pub open spec fn assemble_headers(hs: Seq<Seq<char>>, b: RequestModel) -> Result<
    RequestModel,
    ParseErrorModel,
> {
    match header_tokens(hs) {
        Err(e) => Err(e),
        Ok(h) => assemble_rest(h + seq![TokenModel::EndOfText], b),
    }
}

/// What one header line does to the request being built.
pub open spec fn line_effect(line: Seq<char>, b: RequestModel) -> RequestModel {
    if line.len() == 0 {
        b
    } else {
        b.with_header(header_line_spec(line)->Ok_0.0, header_line_spec(line)->Ok_0.1)
    }
}

/// A request text that is not blank parses as its trimmed lines do.
pub proof fn lemma_parse_by_lines(text: Seq<char>)
    requires
        trim(text).len() > 0,
    ensures
        parse_spec(text) == parse_lines(lines_of(trim(text))),
{
}

proof fn lemma_parse_lines_unfold(lines: Seq<Seq<char>>)
    requires
        lines.len() >= 1,
    ensures
        parse_lines(lines) == match first_line_spec(lines[0]) {
            Err(e) => Err(e),
            Ok(f) => assemble_headers(lines.drop_first(), first_model(f)),
        },
{
    if first_line_spec(lines[0]) is Ok {
        let f = first_line_spec(lines[0])->Ok_0;
        if header_tokens(lines.drop_first()) is Ok {
            let h = header_tokens(lines.drop_first())->Ok_0;
            let ts = scan_lines(lines)->Ok_0;
            assert(ts.subrange(3, ts.len() as int) =~= h + seq![TokenModel::EndOfText]);
        }
    }
}

proof fn lemma_assemble_headers_step(hs: Seq<Seq<char>>, b: RequestModel)
    requires
        hs.len() > 0,
        line_tokens(hs[0]) is Ok,
    ensures
        assemble_headers(hs, b) == assemble_headers(hs.drop_first(), line_effect(hs[0], b)),
{
    let t = line_tokens(hs[0])->Ok_0;
    if header_tokens(hs.drop_first()) is Ok {
        let r = header_tokens(hs.drop_first())->Ok_0;
        let x = (t + r) + seq![TokenModel::EndOfText];
        if hs[0].len() == 0 {
            assert(x =~= r + seq![TokenModel::EndOfText]);
        } else {
            assert(x[0] == t[0]);
            assert(x[1] == t[1]);
            assert(x.subrange(2, x.len() as int) =~= r + seq![TokenModel::EndOfText]);
        }
    }
}

proof fn lemma_headers_skip(
    before: Seq<Seq<char>>,
    line: Seq<char>,
    after: Seq<Seq<char>>,
    b: RequestModel,
)
    requires
        header_line_spec(line) is Ok,
        header_slot(header_line_spec(line)->Ok_0.0) < 0,
    ensures
        assemble_headers(before + seq![line] + after, b) == assemble_headers(before + after, b),
    decreases before.len(),
{
    let hs1 = before + seq![line] + after;
    let hs2 = before + after;
    if before.len() == 0 {
        assert(hs1 =~= seq![line] + after);
        assert(hs2 =~= after);
        assert(hs1.drop_first() =~= after);
        lemma_assemble_headers_step(hs1, b);
    } else {
        assert(hs1[0] == before[0]);
        assert(hs2[0] == before[0]);
        if line_tokens(before[0]) is Ok {
            lemma_assemble_headers_step(hs1, b);
            lemma_assemble_headers_step(hs2, b);
            let b1 = line_effect(before[0], b);
            assert(hs1.drop_first() =~= before.drop_first() + seq![line] + after);
            assert(hs2.drop_first() =~= before.drop_first() + after);
            lemma_headers_skip(before.drop_first(), line, after, b1);
        }
    }
}

/// A header line whose name is not one of the recognised ones changes nothing: the
/// request parses exactly as it does with that line removed.
pub proof fn lemma_unknown_header_ignored(
    first: Seq<char>,
    before: Seq<Seq<char>>,
    line: Seq<char>,
    after: Seq<Seq<char>>,
)
    requires
        header_line_spec(line) is Ok,
        header_slot(header_line_spec(line)->Ok_0.0) < 0,
    ensures
        parse_lines(seq![first] + before + seq![line] + after) == parse_lines(
            seq![first] + before + after,
        ),
{
    let l1 = seq![first] + before + seq![line] + after;
    let l2 = seq![first] + before + after;
    lemma_parse_lines_unfold(l1);
    lemma_parse_lines_unfold(l2);
    assert(l1[0] == first);
    assert(l2[0] == first);
    assert(l1.drop_first() =~= before + seq![line] + after);
    assert(l2.drop_first() =~= before + after);
    if first_line_spec(first) is Ok {
        lemma_headers_skip(before, line, after, first_model(first_line_spec(first)->Ok_0));
    }
}

proof fn lemma_headers_keep(hs: Seq<Seq<char>>, b: RequestModel, name: Seq<char>)
    requires
        b.headers.len() == HEADER_COUNT,
        0 <= header_slot(name),
        forall|j: int|
            0 <= j < hs.len() && hs[j].len() > 0 && (#[trigger] header_line_spec(hs[j])) is Ok
                ==> header_line_spec(hs[j])->Ok_0.0 != name,
    ensures
        assemble_headers(hs, b) is Ok ==> assemble_headers(hs, b)->Ok_0.headers[header_slot(name)]
            == b.headers[header_slot(name)],
    decreases hs.len(),
{
    if hs.len() == 0 {
        assert(Seq::<TokenModel>::empty() + seq![TokenModel::EndOfText] =~= seq![
            TokenModel::EndOfText,
        ]);
    } else if line_tokens(hs[0]) is Ok {
        lemma_assemble_headers_step(hs, b);
        let rest = hs.drop_first();
        assert forall|j: int|
            0 <= j < rest.len() && rest[j].len() > 0 && (#[trigger] header_line_spec(rest[j])) is Ok
                implies header_line_spec(rest[j])->Ok_0.0 != name by {
            assert(rest[j] == hs[j + 1]);
        }
        if hs[0].len() > 0 {
            assert(header_line_spec(hs[0]) is Ok);
        }
        lemma_headers_keep(rest, line_effect(hs[0], b), name);
    }
}

proof fn lemma_headers_last(
    before: Seq<Seq<char>>,
    line: Seq<char>,
    after: Seq<Seq<char>>,
    b: RequestModel,
)
    requires
        b.headers.len() == HEADER_COUNT,
        header_line_spec(line) is Ok,
        0 <= header_slot(header_line_spec(line)->Ok_0.0),
        forall|j: int|
            0 <= j < after.len() && after[j].len() > 0 && (#[trigger] header_line_spec(after[j])) is Ok
                ==> header_line_spec(after[j])->Ok_0.0 != header_line_spec(line)->Ok_0.0,
    ensures
        ({
            let (n, v) = header_line_spec(line)->Ok_0;
            let r = assemble_headers(before + seq![line] + after, b);
            r is Ok ==> r->Ok_0.headers[header_slot(n)] == v
        }),
    decreases before.len(),
{
    let hs = before + seq![line] + after;
    let (n, v) = header_line_spec(line)->Ok_0;
    if before.len() == 0 {
        assert(hs =~= seq![line] + after);
        assert(hs.drop_first() =~= after);
        lemma_assemble_headers_step(hs, b);
        lemma_headers_keep(after, line_effect(line, b), n);
    } else {
        assert(hs[0] == before[0]);
        if line_tokens(before[0]) is Ok {
            lemma_assemble_headers_step(hs, b);
            assert(hs.drop_first() =~= before.drop_first() + seq![line] + after);
            lemma_headers_last(before.drop_first(), line, after, line_effect(before[0], b));
        }
    }
}

/// A recognised header keeps the value of its last line: whatever lines came before, when
/// no later line names the same header, a successful parse holds this line's value.
pub proof fn lemma_last_header_wins(
    first: Seq<char>,
    before: Seq<Seq<char>>,
    line: Seq<char>,
    after: Seq<Seq<char>>,
)
    requires
        header_line_spec(line) is Ok,
        0 <= header_slot(header_line_spec(line)->Ok_0.0),
        forall|j: int|
            0 <= j < after.len() && after[j].len() > 0 && (#[trigger] header_line_spec(after[j])) is Ok
                ==> header_line_spec(after[j])->Ok_0.0 != header_line_spec(line)->Ok_0.0,
    ensures
        ({
            let (n, v) = header_line_spec(line)->Ok_0;
            let r = parse_lines(seq![first] + before + seq![line] + after);
            r is Ok ==> r->Ok_0.headers[header_slot(n)] == v
        }),
{
    let l = seq![first] + before + seq![line] + after;
    lemma_parse_lines_unfold(l);
    assert(l[0] == first);
    assert(l.drop_first() =~= before + seq![line] + after);
    if first_line_spec(first) is Ok {
        lemma_headers_last(before, line, after, first_model(first_line_spec(first)->Ok_0));
    }
}

proof fn lemma_headers_assemble(hs: Seq<Seq<char>>, b: RequestModel)
    requires
        header_tokens(hs) is Ok,
    ensures
        assemble_headers(hs, b) is Ok,
    decreases hs.len(),
{
    if hs.len() == 0 {
        assert(Seq::<TokenModel>::empty() + seq![TokenModel::EndOfText] =~= seq![
            TokenModel::EndOfText,
        ]);
    } else {
        lemma_assemble_headers_step(hs, b);
        lemma_headers_assemble(hs.drop_first(), line_effect(hs[0], b));
    }
}

/// Every text that the tokenizer accepts parses: the token stream it makes is always well
/// formed, so parsing a text never reports a dangling header name or an internal
/// consistency violation.
pub proof fn lemma_tokenized_text_parses(text: Seq<char>)
    ensures
        parse_spec(text) is Ok <==> scan_spec(text) is Ok,
        parse_spec(text) is Err ==> parse_spec(text)->Err_0 == scan_spec(text)->Err_0,
{
    let t = trim(text);
    if t.len() > 0 {
        let lines = lines_of(t);
        lemma_parse_by_lines(text);
        lemma_parse_lines_unfold(lines);
        if scan_spec(text) is Ok {
            let f = first_line_spec(lines[0])->Ok_0;
            lemma_headers_assemble(lines.drop_first(), first_model(f));
        }
    }
}

} // verus!
