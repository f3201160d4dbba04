//! Request parsing.
//!
//! A raw request is text: a request line, header lines, a blank line, a body,
//! all separated by CRLF. [`spec_parse`] states what each part is, and
//! [`parse_request`] is proved to extract exactly those parts. Parsing never
//! fails: malformed input yields a request without a path, which no route
//! matches.

use vstd::prelude::*;
use vstd::string::StrSliceExecFns;

verus! {

/// ASCII whitespace: the characters the request line's tokens are split on
/// and upload lines are trimmed of.
pub open spec fn is_ws(c: char) -> bool {
    c == ' ' || c == '\t' || c == '\n' || c == '\r' || c == '\u{0b}' || c == '\u{0c}'
}

/// The CRLF line separator.
pub open spec fn crlf() -> Seq<char> {
    seq!['\r', '\n']
}

/// The blank line that separates headers from the body.
pub open spec fn crlf_crlf() -> Seq<char> {
    seq!['\r', '\n', '\r', '\n']
}

/// The separator between a header's name and its value.
pub open spec fn colon_space() -> Seq<char> {
    seq![':', ' ']
}

/// The first index at or after `i`, but not past `lim`, holding a
/// non-whitespace character.
pub open spec fn scan_ws(s: Seq<char>, i: int, lim: int) -> int
    decreases lim - i,
{
    if 0 <= i && i < lim && lim <= s.len() && is_ws(s[i]) {
        scan_ws(s, i + 1, lim)
    } else {
        i
    }
}

/// The first index at or after `i`, but not past `lim`, holding a
/// whitespace character: the end of the token that starts at `i`.
pub open spec fn scan_tok(s: Seq<char>, i: int, lim: int) -> int
    decreases lim - i,
{
    if 0 <= i && i < lim && lim <= s.len() && !is_ws(s[i]) {
        scan_tok(s, i + 1, lim)
    } else {
        i
    }
}

/// The last index at or before `j`, but not before `i`, with no whitespace
/// character just left of it.
pub open spec fn rscan_ws(s: Seq<char>, i: int, j: int) -> int
    decreases j - i,
{
    if 0 <= i && i < j && j <= s.len() && is_ws(s[j - 1]) {
        rscan_ws(s, i, j - 1)
    } else {
        j
    }
}

/// Whether `pat` occurs in `s` starting at index `i`.
pub open spec fn match_at(s: Seq<char>, pat: Seq<char>, i: int) -> bool {
    0 <= i && i + pat.len() <= s.len() && s.subrange(i, i + pat.len()) == pat
}

/// The first index at or after `i` where the non-empty `pat` occurs in `s`,
/// or -1 when it does not occur.
pub open spec fn find_at(s: Seq<char>, pat: Seq<char>, i: int) -> int
    decreases s.len() - i,
{
    if !(0 <= i && i + pat.len() <= s.len() && pat.len() > 0) {
        -1
    } else if match_at(s, pat, i) {
        i
    } else {
        find_at(s, pat, i + 1)
    }
}

/// Start of the request line's first token, the method.
pub open spec fn method_start(s: Seq<char>) -> int {
    scan_ws(s, 0, s.len() as int)
}

/// End of the method token.
pub open spec fn method_end(s: Seq<char>) -> int {
    scan_tok(s, method_start(s), s.len() as int)
}

/// The method token's text.
pub open spec fn method_text(s: Seq<char>) -> Seq<char> {
    s.subrange(method_start(s), method_end(s))
}

/// Start of the request line's second token, the path.
pub open spec fn path_start(s: Seq<char>) -> int {
    scan_ws(s, method_end(s), s.len() as int)
}

/// End of the path token.
pub open spec fn path_end(s: Seq<char>) -> int {
    scan_tok(s, path_start(s), s.len() as int)
}

/// The path token's text.
pub open spec fn path_text(s: Seq<char>) -> Seq<char> {
    s.subrange(path_start(s), path_end(s))
}

/// Whether the request has a path at all: a non-empty second token.
pub open spec fn has_path(s: Seq<char>) -> bool {
    path_start(s) < path_end(s)
}

/// The request method, recognized by its token.
#[derive(Clone, Copy, PartialEq, Eq, Structural, Debug)]
pub enum Method {
    Get,
    Post,
    Other,
}

/// The method named by the request line's first token.
pub open spec fn method_of(s: Seq<char>) -> Method {
    if method_text(s) == "GET"@ {
        Method::Get
    } else if method_text(s) == "POST"@ {
        Method::Post
    } else {
        Method::Other
    }
}

/// The name/value pair a single header line holds: the text left and right
/// of the first `": "`, or nothing when the line has no such separator.
pub open spec fn line_pairs(l: Seq<char>) -> Seq<(Seq<char>, Seq<char>)> {
    let k = find_at(l, colon_space(), 0);
    if 0 <= k && k + 2 <= l.len() {
        seq![(l.subrange(0, k), l.subrange(k + 2, l.len() as int))]
    } else {
        Seq::empty()
    }
}

/// The header pairs of the lines from index `i` on, up to the first blank
/// line or the end of the text.
pub open spec fn header_pairs_from(s: Seq<char>, i: int) -> Seq<(Seq<char>, Seq<char>)>
    decreases s.len() - i,
{
    if !(0 <= i <= s.len()) {
        Seq::empty()
    } else {
        let e = find_at(s, crlf(), i);
        if e == i {
            Seq::empty()
        } else if i < e && e + 2 <= s.len() {
            line_pairs(s.subrange(i, e)) + header_pairs_from(s, e + 2)
        } else {
            line_pairs(s.subrange(i, s.len() as int))
        }
    }
}

/// The header pairs of a whole request: the lines after the request line,
/// up to the first blank line.
pub open spec fn headers_of(s: Seq<char>) -> Seq<(Seq<char>, Seq<char>)> {
    let h = find_at(s, crlf(), 0);
    if 0 <= h && h + 2 <= s.len() {
        header_pairs_from(s, h + 2)
    } else {
        Seq::empty()
    }
}

/// Where the body begins: right after the first blank line, or at the end
/// when there is none.
pub open spec fn body_start(s: Seq<char>) -> int {
    let b = find_at(s, crlf_crlf(), 0);
    if 0 <= b && b + 4 <= s.len() {
        b + 4
    } else {
        s.len() as int
    }
}

/// The request body: everything after the first blank line.
pub open spec fn request_body(s: Seq<char>) -> Seq<char> {
    s.subrange(body_start(s), s.len() as int)
}

/// The text between `i` and `j` with surrounding whitespace removed.
pub open spec fn trimmed(s: Seq<char>, i: int, j: int) -> Seq<char> {
    let a = scan_ws(s, i, j);
    let b = rscan_ws(s, a, j);
    s.subrange(a, b)
}

/// The upload body's lines from index `i` on, each trimmed, rejoined with a
/// single line feed.
pub open spec fn normalized_from(s: Seq<char>, i: int) -> Seq<char>
    decreases s.len() - i,
{
    if !(0 <= i <= s.len()) {
        Seq::empty()
    } else {
        let e = find_at(s, crlf(), i);
        if i <= e && e + 2 <= s.len() {
            trimmed(s, i, e) + seq!['\n'] + normalized_from(s, e + 2)
        } else {
            trimmed(s, i, s.len() as int)
        }
    }
}

/// An upload body with each CRLF-separated line trimmed and the lines
/// rejoined with a single line feed.
pub open spec fn normalized(s: Seq<char>) -> Seq<char> {
    normalized_from(s, 0)
}

/// One parsed header: name and value as received.
#[derive(Debug)]
pub struct Header {
    pub name: String,
    pub value: String,
}

impl View for Header {
    type V = (Seq<char>, Seq<char>);

    open spec fn view(&self) -> (Seq<char>, Seq<char>) {
        (self.name@, self.value@)
    }
}

/// The name/value pairs a sequence of headers holds.
pub open spec fn headers_view(hs: Seq<Header>) -> Seq<(Seq<char>, Seq<char>)> {
    hs.map_values(|h: Header| h@)
}

/// A parsed request. `path` is absent when the request line has no second
/// token; the router then matches no route.
#[derive(Debug)]
pub struct Request {
    pub method: Method,
    pub path: Option<String>,
    pub headers: Vec<Header>,
    pub body: String,
}

/// Spec-level mirror of [`Request`].
pub ghost struct SpecRequest {
    pub method: Method,
    pub path: Option<Seq<char>>,
    pub headers: Seq<(Seq<char>, Seq<char>)>,
    pub body: Seq<char>,
}

impl View for Request {
    type V = SpecRequest;

    open spec fn view(&self) -> SpecRequest {
        SpecRequest {
            method: self.method,
            path: match self.path {
                Option::Some(p) => Option::Some(p@),
                Option::None => Option::None,
            },
            headers: headers_view(self.headers@),
            body: self.body@,
        }
    }
}

/// What parsing a request text yields.
pub open spec fn spec_parse(s: Seq<char>) -> SpecRequest {
    SpecRequest {
        method: method_of(s),
        path: if has_path(s) {
            Option::Some(path_text(s))
        } else {
            Option::None
        },
        headers: headers_of(s),
        body: request_body(s),
    }
}

/// The first value paired with the name `User-Agent` at or after index `i`,
/// or `Unknown` when no pair has that name.
pub open spec fn ua_from(hs: Seq<(Seq<char>, Seq<char>)>, i: int) -> Seq<char>
    decreases hs.len() - i,
{
    if 0 <= i && i < hs.len() {
        if hs[i].0 == "User-Agent"@ {
            hs[i].1
        } else {
            ua_from(hs, i + 1)
        }
    } else {
        "Unknown"@
    }
}

/// The value of the first `User-Agent` header, or `Unknown` without one.
pub open spec fn user_agent_of(hs: Seq<(Seq<char>, Seq<char>)>) -> Seq<char> {
    ua_from(hs, 0)
}

/// Whether `c` is whitespace.
fn is_ws_char(c: char) -> (r: bool)
    ensures
        r == is_ws(c),
{
    c == ' ' || c == '\t' || c == '\n' || c == '\r' || c == '\u{0b}' || c == '\u{0c}'
}

/// Whether two string slices hold the same text.
pub(crate) fn str_eq(a: &str, b: &str) -> (r: bool)
    ensures
        r == (a@ == b@),
{
    let x = a.to_owned();
    let y = b.to_owned();
    x == y
}

/// Skips whitespace forward from `i`, staying at or before `lim`.
fn scan_ws_exec(s: &str, n: usize, i: usize, lim: usize) -> (r: usize)
    requires
        n == s@.len(),
        i <= lim,
        lim <= n,
    ensures
        r == scan_ws(s@, i as int, lim as int),
        i <= r <= lim,
    decreases lim - i,
{
    if i < lim {
        let c = s.get_char(i);
        if is_ws_char(c) {
            return scan_ws_exec(s, n, i + 1, lim);
        }
    }
    i
}

/// Skips non-whitespace forward from `i`, staying at or before `lim`.
fn scan_tok_exec(s: &str, n: usize, i: usize, lim: usize) -> (r: usize)
    requires
        n == s@.len(),
        i <= lim,
        lim <= n,
    ensures
        r == scan_tok(s@, i as int, lim as int),
        i <= r <= lim,
    decreases lim - i,
{
    if i < lim {
        let c = s.get_char(i);
        if !is_ws_char(c) {
            return scan_tok_exec(s, n, i + 1, lim);
        }
    }
    i
}

/// Skips whitespace backward from `j`, staying at or after `i`.
fn rscan_ws_exec(s: &str, n: usize, i: usize, j: usize) -> (r: usize)
    requires
        n == s@.len(),
        i <= j,
        j <= n,
    ensures
        r == rscan_ws(s@, i as int, j as int),
        i <= r <= j,
    decreases j,
{
    if i < j {
        let c = s.get_char(j - 1);
        if is_ws_char(c) {
            return rscan_ws_exec(s, n, i, j - 1);
        }
    }
    j
}

/// Whether `pat` occurs in `s` at index `i`.
pub(crate) fn match_at_exec(s: &str, n: usize, pat: &str, m: usize, i: usize) -> (r: bool)
    requires
        n == s@.len(),
        m == pat@.len(),
        i <= n,
    ensures
        r == match_at(s@, pat@, i as int),
{
    if m > n - i {
        return false;
    }
    let mut k: usize = 0;
    while k < m
        invariant
            n == s@.len(),
            m == pat@.len(),
            i + m <= n,
            k <= m,
            forall|t: int| 0 <= t < k ==> s@[i + t] == pat@[t],
        decreases m - k,
    {
        let a = s.get_char(i + k);
        let b = pat.get_char(k);
        if a != b {
            proof {
                assert(s@.subrange(i as int, i + m) =~= pat@ ==> s@[i + k] == pat@[k as int]);
            }
            return false;
        }
        k += 1;
    }
    proof {
        assert(s@.subrange(i as int, i + m) =~= pat@);
    }
    true
}

/// Finds the first occurrence of the non-empty `pat` at or after index `i`.
pub(crate) fn find_at_exec(s: &str, n: usize, pat: &str, m: usize, i: usize) -> (r: Option<usize>)
    requires
        n == s@.len(),
        m == pat@.len(),
        1 <= m,
        i <= n,
    ensures
        (match r {
            Option::Some(j) => i <= j && j + m <= n && find_at(s@, pat@, i as int) == j as int,
            Option::None => find_at(s@, pat@, i as int) == -1,
        }),
    decreases n - i,
{
    if m > n - i {
        return None;
    }
    if match_at_exec(s, n, pat, m, i) {
        Some(i)
    } else {
        find_at_exec(s, n, pat, m, i + 1)
    }
}

/// Appending a header to a sequence appends its pair to the view.
proof fn lemma_headers_view_push(hs: Seq<Header>, h: Header)
    ensures
        headers_view(hs.push(h)) =~= headers_view(hs).push(h@),
{
}

/// Parses the header line between `i` and `j` and appends its pair, if any.
fn push_header_line(s: &str, n: usize, i: usize, j: usize, out: &mut Vec<Header>)
    requires
        n == s@.len(),
        i <= j,
        j <= n,
    ensures
        headers_view(final(out)@) == headers_view(old(out)@) + line_pairs(
            s@.subrange(i as int, j as int),
        ),
{
    let line = s.substring_char(i, j);
    let nl = j - i;
    proof {
        reveal_strlit(": ");
        assert(": "@ =~= colon_space());
        assert(line@.len() == nl);
    }
    let c = find_at_exec(line, nl, ": ", 2, 0);
    match c {
        Option::Some(k) => {
            let name = line.substring_char(0, k).to_owned();
            let value = line.substring_char(k + 2, nl).to_owned();
            out.push(Header { name, value });
            proof {
                lemma_headers_view_push(old(out)@, Header { name, value });
                assert(line_pairs(s@.subrange(i as int, j as int)) =~= seq![
                    (line@.subrange(0, k as int), line@.subrange(k + 2, nl as int)),
                ]);
                assert(headers_view(out@) =~= headers_view(old(out)@) + line_pairs(
                    s@.subrange(i as int, j as int),
                ));
            }
        },
        Option::None => {
            proof {
                assert(line_pairs(s@.subrange(i as int, j as int)) =~= Seq::empty());
                assert(headers_view(out@) =~= headers_view(old(out)@) + line_pairs(
                    s@.subrange(i as int, j as int),
                ));
            }
        },
    }
}

/// Parses header lines from `i` on, stopping at a blank line or the end.
fn parse_headers_into(s: &str, n: usize, i: usize, out: &mut Vec<Header>)
    requires
        n == s@.len(),
        i <= n,
    ensures
        headers_view(final(out)@) == headers_view(old(out)@) + header_pairs_from(s@, i as int),
    decreases n - i,
{
    proof {
        reveal_strlit("\r\n");
        assert("\r\n"@ =~= crlf());
    }
    let e = find_at_exec(s, n, "\r\n", 2, i);
    match e {
        Option::Some(j) => {
            if j == i {
                // blank line: the header section ends here
                proof {
                    assert(headers_view(out@) =~= headers_view(old(out)@) + header_pairs_from(
                        s@,
                        i as int,
                    ));
                }
            } else {
                push_header_line(s, n, i, j, out);
                parse_headers_into(s, n, j + 2, out);
                proof {
                    assert(headers_view(out@) =~= headers_view(old(out)@) + header_pairs_from(
                        s@,
                        i as int,
                    ));
                }
            }
        },
        Option::None => {
            push_header_line(s, n, i, n, out);
            proof {
                assert(headers_view(out@) =~= headers_view(old(out)@) + header_pairs_from(
                    s@,
                    i as int,
                ));
            }
        },
    }
}

/// Turns a request text into a structured request: method and path from the
/// request line's first two tokens, the header pairs, the body after the
/// first blank line.
pub fn parse_request(s: &str) -> (r: Request)
    ensures
        r@ == spec_parse(s@),
{
    let n = s.unicode_len();
    let ms = scan_ws_exec(s, n, 0, n);
    let me = scan_tok_exec(s, n, ms, n);
    let mtok = s.substring_char(ms, me);
    let method = if str_eq(mtok, "GET") {
        Method::Get
    } else if str_eq(mtok, "POST") {
        Method::Post
    } else {
        Method::Other
    };
    let ps = scan_ws_exec(s, n, me, n);
    let pe = scan_tok_exec(s, n, ps, n);
    let path = if ps < pe {
        Some(s.substring_char(ps, pe).to_owned())
    } else {
        None
    };
    let mut headers: Vec<Header> = Vec::new();
    proof {
        reveal_strlit("\r\n");
        assert("\r\n"@ =~= crlf());
    }
    let h = find_at_exec(s, n, "\r\n", 2, 0);
    match h {
        Option::Some(j) => {
            parse_headers_into(s, n, j + 2, &mut headers);
        },
        Option::None => {},
    }
    proof {
        assert(headers_view(headers@) =~= headers_of(s@));
    }
    proof {
        reveal_strlit("\r\n\r\n");
        assert("\r\n\r\n"@ =~= crlf_crlf());
    }
    let b = find_at_exec(s, n, "\r\n\r\n", 4, 0);
    let body = match b {
        Option::Some(j) => s.substring_char(j + 4, n).to_owned(),
        Option::None => String::new(),
    };
    proof {
        assert(body@ =~= request_body(s@));
    }
    let r = Request { method, path, headers, body };
    proof {
        assert(r@ == spec_parse(s@));
    }
    r
}

/// The value of the first `User-Agent` header at or after index `i`.
fn user_agent_from(headers: &Vec<Header>, i: usize) -> (r: String)
    requires
        i <= headers@.len(),
    ensures
        r@ == ua_from(headers_view(headers@), i as int),
    decreases headers@.len() - i,
{
    if i < headers.len() {
        proof {
            assert(headers_view(headers@)[i as int] == headers@[i as int]@);
        }
        let h = &headers[i];
        if str_eq(h.name.as_str(), "User-Agent") {
            return h.value.clone();
        }
        return user_agent_from(headers, i + 1);
    }
    "Unknown".to_owned()
}

/// The value of the request's first `User-Agent` header, or `Unknown`.
pub fn user_agent(r: &Request) -> (v: String)
    ensures
        v@ == user_agent_of(r@.headers),
{
    user_agent_from(&r.headers, 0)
}

/// Each CRLF-separated line trimmed of surrounding whitespace, the lines
/// rejoined with a single line feed: the form an upload body is stored in.
pub fn normalize_body(s: &str) -> (r: String)
    ensures
        r@ == normalized(s@),
{
    let n = s.unicode_len();
    let mut out = String::new();
    normalize_into(s, n, 0, &mut out);
    proof {
        assert(out@ =~= normalized(s@));
    }
    out
}

/// Appends the trimmed text between `i` and `j` to `out`.
fn push_trimmed(s: &str, n: usize, i: usize, j: usize, out: &mut String)
    requires
        n == s@.len(),
        i <= j,
        j <= n,
    ensures
        final(out)@ == old(out)@ + trimmed(s@, i as int, j as int),
{
    let a = scan_ws_exec(s, n, i, j);
    let b = rscan_ws_exec(s, n, a, j);
    let piece = s.substring_char(a, b);
    out.append(piece);
}

/// Appends the normalized lines from `i` on to `out`.
fn normalize_into(s: &str, n: usize, i: usize, out: &mut String)
    requires
        n == s@.len(),
        i <= n,
    ensures
        final(out)@ == old(out)@ + normalized_from(s@, i as int),
    decreases n - i,
{
    proof {
        reveal_strlit("\r\n");
        assert("\r\n"@ =~= crlf());
        reveal_strlit("\n");
    }
    let e = find_at_exec(s, n, "\r\n", 2, i);
    match e {
        Option::Some(j) => {
            push_trimmed(s, n, i, j, out);
            out.append("\n");
            proof {
                assert("\n"@ =~= seq!['\n']);
            }
            normalize_into(s, n, j + 2, out);
            proof {
                assert(out@ =~= old(out)@ + normalized_from(s@, i as int));
            }
        },
        Option::None => {
            push_trimmed(s, n, i, n, out);
            proof {
                assert(out@ =~= old(out)@ + normalized_from(s@, i as int));
            }
        },
    }
}

} // verus!
