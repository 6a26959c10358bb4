//! Character-level helpers: whitespace, trimming and splitting of text.
use vstd::prelude::*;

verus! {

/// The characters that count as whitespace: the Unicode `White_Space` set.
pub open spec fn is_ws(c: char) -> bool {
    let u = c as u32;
    (0x09 <= u && u <= 0x0d) || u == 0x20 || u == 0x85 || u == 0xa0 || u == 0x1680 || (0x2000
        <= u && u <= 0x200a) || u == 0x2028 || u == 0x2029 || u == 0x202f || u == 0x205f || u
        == 0x3000
}

/// The first index at or after `i` that holds no whitespace, or `s.len()`.
pub open spec fn lead(s: Seq<char>, i: int) -> int
    decreases s.len() - i,
{
    if 0 <= i < s.len() && is_ws(s[i]) {
        lead(s, i + 1)
    } else {
        i
    }
}

/// The end of `s.subrange(lo, j)` once trailing whitespace is cut off.
pub open spec fn trail(s: Seq<char>, lo: int, j: int) -> int
    decreases j - lo,
{
    if lo < j && j <= s.len() && is_ws(s[j - 1]) {
        trail(s, lo, j - 1)
    } else {
        j
    }
}

/// `s` without leading and trailing whitespace.
pub open spec fn trim(s: Seq<char>) -> Seq<char> {
    let a = lead(s, 0);
    s.subrange(a, trail(s, a, s.len() as int))
}

/// The first index at or after `p` where `"\r\n"` starts, or `s.len()` if there is none.
pub open spec fn next_crlf(s: Seq<char>, p: int) -> int
    decreases s.len() - p,
{
    if p < 0 || p + 1 >= s.len() {
        s.len() as int
    } else if s[p] == '\r' && s[p + 1] == '\n' {
        p
    } else {
        next_crlf(s, p + 1)
    }
}

/// The pieces of `s.subrange(p, s.len())` between occurrences of `"\r\n"`.
pub open spec fn lines_from(s: Seq<char>, p: int) -> Seq<Seq<char>>
    decreases s.len() - p,
{
    let q = next_crlf(s, p);
    if 0 <= p && p <= q && q + 1 < s.len() {
        seq![s.subrange(p, q)] + lines_from(s, q + 2)
    } else {
        seq![s.subrange(p, s.len() as int)]
    }
}

/// `s` split at every `"\r\n"`, scanning from the left.
pub open spec fn lines_of(s: Seq<char>) -> Seq<Seq<char>> {
    lines_from(s, 0)
}

/// The first index at or after `p` that holds `c`, or `s.len()`.
pub open spec fn next_char(s: Seq<char>, c: char, p: int) -> int
    decreases s.len() - p,
{
    if p < 0 || p >= s.len() {
        s.len() as int
    } else if s[p] == c {
        p
    } else {
        next_char(s, c, p + 1)
    }
}

/// The pieces of `s.subrange(p, s.len())` between occurrences of `c`.
pub open spec fn pieces_from(s: Seq<char>, c: char, p: int) -> Seq<Seq<char>>
    decreases s.len() - p,
{
    let q = next_char(s, c, p);
    if 0 <= p && p <= q && q < s.len() {
        seq![s.subrange(p, q)] + pieces_from(s, c, q + 1)
    } else {
        seq![s.subrange(p, s.len() as int)]
    }
}

/// `s` split at every `c`.
pub open spec fn pieces_of(s: Seq<char>, c: char) -> Seq<Seq<char>> {
    pieces_from(s, c, 0)
}

/// The characters of each piece.
pub open spec fn views_of(v: Seq<&str>) -> Seq<Seq<char>> {
    v.map_values(|x: &str| x@)
}

/// Copies the characters of `s` into a vector.
pub fn chars_of(s: &str) -> (v: Vec<char>)
    ensures
        v@ == s@,
{
    let n = s.unicode_len();
    let mut v: Vec<char> = Vec::new();
    let mut i: usize = 0;
    while i < n
        invariant
            n == s@.len(),
            i <= n,
            v@ == s@.subrange(0, i as int),
        decreases n - i,
    {
        v.push(s.get_char(i));
        i += 1;
    }
    v
}

/// Whether `c` is whitespace.
pub fn is_whitespace_char(c: char) -> (r: bool)
    ensures
        r == is_ws(c),
{
    let u = c as u32;
    (0x09 <= u && u <= 0x0d) || u == 0x20 || u == 0x85 || u == 0xa0 || u == 0x1680 || (0x2000
        <= u && u <= 0x200a) || u == 0x2028 || u == 0x2029 || u == 0x202f || u == 0x205f || u
        == 0x3000
}

/// `s` without leading and trailing whitespace.
pub fn trim_str(s: &str) -> (r: &str)
    ensures
        r@ == trim(s@),
{
    let v = chars_of(s);
    let n = v.len();
    let mut a: usize = 0;
    while a < n && is_whitespace_char(v[a])
        invariant
            v@ == s@,
            n == v@.len(),
            a <= n,
            lead(s@, 0) == lead(s@, a as int),
        decreases n - a,
    {
        a += 1;
    }
    let mut b: usize = n;
    while a < b && is_whitespace_char(v[b - 1])
        invariant
            v@ == s@,
            n == v@.len(),
            a <= b <= n,
            a == lead(s@, 0),
            trail(s@, a as int, n as int) == trail(s@, a as int, b as int),
        decreases b - a,
    {
        b -= 1;
    }
    s.substring_char(a, b)
}

/// Splits `s` at every `"\r\n"`.
pub fn split_crlf<'a>(s: &'a str) -> (r: Vec<&'a str>)
    ensures
        views_of(r@) == lines_of(s@),
{
    let v = chars_of(s);
    let n = v.len();
    let mut r: Vec<&'a str> = Vec::new();
    let mut p: usize = 0;
    let mut i: usize = 0;
    while n > 0 && i < n - 1
        invariant
            v@ == s@,
            n == v@.len(),
            p <= i <= n,
            next_crlf(s@, p as int) == next_crlf(s@, i as int),
            lines_of(s@) == views_of(r@) + lines_from(s@, p as int),
        decreases n - i,
    {
        if v[i] == '\r' && v[i + 1] == '\n' {
            let piece = s.substring_char(p, i);
            proof {
                assert(views_of(r@.push(piece)) =~= views_of(r@).push(piece@));
                assert(lines_from(s@, p as int) == seq![piece@] + lines_from(s@, i + 2));
                assert(views_of(r@) + lines_from(s@, p as int) =~= views_of(r@).push(piece@)
                    + lines_from(s@, i + 2));
            }
            r.push(piece);
            i = i + 2;
            p = i;
        } else {
            i = i + 1;
        }
    }
    let last = s.substring_char(p, n);
    proof {
        assert(next_crlf(s@, i as int) == n);
        assert(lines_from(s@, p as int) == seq![last@]);
        assert(views_of(r@.push(last)) =~= views_of(r@) + seq![last@]);
    }
    r.push(last);
    r
}

/// Splits `s` at every occurrence of `c`.
pub fn split_char<'a>(s: &'a str, c: char) -> (r: Vec<&'a str>)
    ensures
        views_of(r@) == pieces_of(s@, c),
{
    let v = chars_of(s);
    let n = v.len();
    let mut r: Vec<&'a str> = Vec::new();
    let mut p: usize = 0;
    let mut i: usize = 0;
    while i < n
        invariant
            v@ == s@,
            n == v@.len(),
            p <= i <= n,
            next_char(s@, c, p as int) == next_char(s@, c, i as int),
            pieces_of(s@, c) == views_of(r@) + pieces_from(s@, c, p as int),
        decreases n - i,
    {
        if v[i] == c {
            let piece = s.substring_char(p, i);
            proof {
                assert(views_of(r@.push(piece)) =~= views_of(r@).push(piece@));
                assert(pieces_from(s@, c, p as int) == seq![piece@] + pieces_from(s@, c, i + 1));
                assert(views_of(r@) + pieces_from(s@, c, p as int) =~= views_of(r@).push(
                    piece@,
                ) + pieces_from(s@, c, i + 1));
            }
            r.push(piece);
            i = i + 1;
            p = i;
        } else {
            i = i + 1;
        }
    }
    let last = s.substring_char(p, n);
    proof {
        assert(next_char(s@, c, i as int) == n);
        assert(pieces_from(s@, c, p as int) == seq![last@]);
        assert(views_of(r@.push(last)) =~= views_of(r@) + seq![last@]);
    }
    r.push(last);
    r
}

/// The index of the first `c` in `s`, or `s@.len()` if there is none.
pub fn find_char(s: &str, c: char) -> (r: usize)
    ensures
        r == next_char(s@, c, 0),
{
    let v = chars_of(s);
    let n = v.len();
    let mut i: usize = 0;
    while i < n && v[i] != c
        invariant
            v@ == s@,
            n == v@.len(),
            i <= n,
            next_char(s@, c, 0) == next_char(s@, c, i as int),
        decreases n - i,
    {
        i += 1;
    }
    i
}

} // verus!
