//! Response statuses and their exact wire encoding.
//!
//! A response is a status line, a `Content-Type` header, a `Content-Length`
//! header whose value is the byte length of the body, a blank line, and the
//! body. [`encoded_response`] states that format exactly, and
//! [`HTTPStatus::to_string`] is proved to produce it.

use vstd::prelude::*;
use vstd::string::StringExecFns;

verus! {

/// Everything a response carries: a successful body with its content type,
/// a bare created notice, or a not-found notice.
#[derive(Debug)]
pub enum HTTPStatus {
    Okay(String, String),
    NotFound,
    Created,
}

/// Spec-level mirror of [`HTTPStatus`]: body and content type as character
/// sequences.
pub ghost enum SpecStatus {
    Okay(Seq<char>, Seq<char>),
    NotFound,
    Created,
}

impl View for HTTPStatus {
    type V = SpecStatus;

    open spec fn view(&self) -> SpecStatus {
        match self {
            HTTPStatus::Okay(body, content_type) => SpecStatus::Okay(body@, content_type@),
            HTTPStatus::NotFound => SpecStatus::NotFound,
            HTTPStatus::Created => SpecStatus::Created,
        }
    }
}

/// The fixed status line for each status.
pub open spec fn status_line(st: SpecStatus) -> Seq<char> {
    match st {
        SpecStatus::Okay(_, _) => "HTTP/1.1 200 OK"@,
        SpecStatus::Created => "HTTP/1.1 201 CREATED"@,
        SpecStatus::NotFound => "HTTP/1.1 404 NOT FOUND"@,
    }
}

/// The content type a response advertises; `text/plain` unless a successful
/// body chose otherwise.
pub open spec fn content_type_of(st: SpecStatus) -> Seq<char> {
    match st {
        SpecStatus::Okay(_, content_type) => content_type,
        SpecStatus::NotFound => "text/plain"@,
        SpecStatus::Created => "text/plain"@,
    }
}

/// The response body; empty for `Created` and `NotFound`.
pub open spec fn body_text(st: SpecStatus) -> Seq<char> {
    match st {
        SpecStatus::Okay(body, _) => body,
        SpecStatus::NotFound => Seq::empty(),
        SpecStatus::Created => Seq::empty(),
    }
}

/// The response body as the bytes that go on the wire (UTF-8).
pub open spec fn body_bytes(st: SpecStatus) -> Seq<u8> {
    vstd::utf8::encode_utf8(body_text(st))
}

/// The decimal digit character for a value below ten.
pub open spec fn digit_char(d: nat) -> char
    recommends
        d < 10,
{
    if d == 0 {
        '0'
    } else if d == 1 {
        '1'
    } else if d == 2 {
        '2'
    } else if d == 3 {
        '3'
    } else if d == 4 {
        '4'
    } else if d == 5 {
        '5'
    } else if d == 6 {
        '6'
    } else if d == 7 {
        '7'
    } else if d == 8 {
        '8'
    } else {
        '9'
    }
}

/// The decimal digits of `n`, most significant first, no leading zeros
/// (a lone `0` for zero).
pub open spec fn dec_digits(n: nat) -> Seq<char>
    decreases n,
{
    if n < 10 {
        seq![digit_char(n)]
    } else {
        dec_digits(n / 10) + seq![digit_char(n % 10)]
    }
}

/// The value a decimal digit character denotes.
pub open spec fn digit_val(c: char) -> nat {
    if c == '0' {
        0
    } else if c == '1' {
        1
    } else if c == '2' {
        2
    } else if c == '3' {
        3
    } else if c == '4' {
        4
    } else if c == '5' {
        5
    } else if c == '6' {
        6
    } else if c == '7' {
        7
    } else if c == '8' {
        8
    } else {
        9
    }
}

/// The value a sequence of decimal digit characters denotes.
pub open spec fn dec_val(s: Seq<char>) -> nat
    decreases s.len(),
{
    if s.len() == 0 {
        0
    } else {
        dec_val(s.drop_last()) * 10 + digit_val(s.last())
    }
}

/// The decimal digits of `n` denote `n` and nothing else.
pub proof fn lemma_dec_digits_value(n: nat)
    ensures
        dec_val(dec_digits(n)) == n,
    decreases n,
{
    if n < 10 {
        let s = seq![digit_char(n)];
        assert(dec_digits(n) == s);
        assert(s.len() == 1);
        assert(s.drop_last() =~= Seq::<char>::empty());
        assert(dec_val(s.drop_last()) == 0);
        assert(s.last() == digit_char(n));
        assert(dec_val(s) == digit_val(digit_char(n)));
        assert(digit_val(digit_char(n)) == n);
    } else {
        lemma_dec_digits_value(n / 10);
        let prefix = dec_digits(n / 10);
        let d = digit_char(n % 10);
        let whole = prefix + seq![d];
        assert(dec_digits(n) == whole);
        assert(whole.len() == prefix.len() + 1);
        assert(whole.drop_last() =~= prefix);
        assert(whole.last() == d);
        assert(dec_val(whole) == dec_val(prefix) * 10 + digit_val(d));
        assert(n % 10 < 10);
        assert(digit_val(d) == n % 10);
        vstd::arithmetic::div_mod::lemma_fundamental_div_mod(n as int, 10);
        assert(n == (n / 10) * 10 + n % 10);
    }
}

/// The exact text of an encoded response: status line, `Content-Type`,
/// `Content-Length` (the byte length of the body), a blank line, the body.
pub open spec fn encoded_response(st: SpecStatus) -> Seq<char> {
    status_line(st) + "\r\nContent-Type: "@ + content_type_of(st) + "\r\nContent-Length: "@
        + dec_digits(body_bytes(st).len()) + "\r\n\r\n"@ + body_text(st)
}

/// LAW: every encoded response carries a `Content-Length` header whose
/// decimal digits denote exactly the byte length of the response body.
pub proof fn lemma_content_length_exact(st: SpecStatus)
    ensures
        encoded_response(st) == status_line(st) + "\r\nContent-Type: "@ + content_type_of(st)
            + "\r\nContent-Length: "@ + dec_digits(body_bytes(st).len()) + "\r\n\r\n"@
            + body_text(st),
        dec_val(dec_digits(body_bytes(st).len())) == body_bytes(st).len(),
{
    lemma_dec_digits_value(body_bytes(st).len());
}

/// Relies on `str::len` from std: the length of a string slice is the length
/// of its UTF-8 byte encoding, and it fits in `usize` because the slice is an
/// allocation no larger than `isize::MAX` bytes.
#[verifier::external_body]
fn byte_len(s: &str) -> (n: usize)
    ensures
        n as nat == vstd::utf8::encode_utf8(s@).len(),
{
    s.len()
}

/// The decimal digit below ten as a string slice.
fn digit_str(d: usize) -> (r: &'static str)
    requires
        d < 10,
    ensures
        r@ == seq![digit_char(d as nat)],
{
    proof {
        reveal_strlit("0");
        reveal_strlit("1");
        reveal_strlit("2");
        reveal_strlit("3");
        reveal_strlit("4");
        reveal_strlit("5");
        reveal_strlit("6");
        reveal_strlit("7");
        reveal_strlit("8");
        reveal_strlit("9");
    }
    if d == 0 {
        proof { assert("0"@ =~= seq![digit_char(d as nat)]); }
        "0"
    } else if d == 1 {
        proof { assert("1"@ =~= seq![digit_char(d as nat)]); }
        "1"
    } else if d == 2 {
        proof { assert("2"@ =~= seq![digit_char(d as nat)]); }
        "2"
    } else if d == 3 {
        proof { assert("3"@ =~= seq![digit_char(d as nat)]); }
        "3"
    } else if d == 4 {
        proof { assert("4"@ =~= seq![digit_char(d as nat)]); }
        "4"
    } else if d == 5 {
        proof { assert("5"@ =~= seq![digit_char(d as nat)]); }
        "5"
    } else if d == 6 {
        proof { assert("6"@ =~= seq![digit_char(d as nat)]); }
        "6"
    } else if d == 7 {
        proof { assert("7"@ =~= seq![digit_char(d as nat)]); }
        "7"
    } else if d == 8 {
        proof { assert("8"@ =~= seq![digit_char(d as nat)]); }
        "8"
    } else {
        proof { assert("9"@ =~= seq![digit_char(d as nat)]); }
        "9"
    }
}

/// Appends the decimal digits of `n` to `out`.
fn push_dec(n: usize, out: &mut String)
    ensures
        final(out)@ == old(out)@ + dec_digits(n as nat),
    decreases n,
{
    if n >= 10 {
        push_dec(n / 10, out);
        let d = digit_str(n % 10);
        out.append(d);
        proof {
            assert(out@ =~= old(out)@ + dec_digits(n as nat));
        }
    } else {
        let d = digit_str(n);
        out.append(d);
        proof {
            assert(out@ =~= old(out)@ + dec_digits(n as nat));
        }
    }
}

impl HTTPStatus {
    /// The content type this response advertises.
    pub fn content_type(&self) -> (r: String)
        ensures
            r@ == content_type_of(self@),
    {
        match self {
            HTTPStatus::Okay(_, content_type) => content_type.clone(),
            HTTPStatus::NotFound => "text/plain".to_owned(),
            HTTPStatus::Created => "text/plain".to_owned(),
        }
    }

    /// Encodes this response as its exact wire text.
    pub fn to_string(&self) -> (r: String)
        ensures
            r@ == encoded_response(self@),
    {
        let mut out = String::new();
        match self {
            HTTPStatus::Okay(_, _) => out.append("HTTP/1.1 200 OK"),
            HTTPStatus::Created => out.append("HTTP/1.1 201 CREATED"),
            HTTPStatus::NotFound => out.append("HTTP/1.1 404 NOT FOUND"),
        }
        out.append("\r\nContent-Type: ");
        let content_type = self.content_type();
        out.append(content_type.as_str());
        out.append("\r\nContent-Length: ");
        let body: &str = match self {
            HTTPStatus::Okay(body, _) => body.as_str(),
            HTTPStatus::NotFound => "",
            HTTPStatus::Created => "",
        };
        proof {
            reveal_strlit("");
            assert(body@ =~= body_text(self@));
        }
        let n = byte_len(body);
        push_dec(n, &mut out);
        out.append("\r\n\r\n");
        out.append(body);
        proof {
            assert(out@ =~= encoded_response(self@));
        }
        out
    }
}

} // verus!
