//! A static-page HTTP responder.

use vstd::prelude::*;

verus! {

/// The page served for every GET request.
pub const HTML_BODY: &'static str = "<html>\n\
<head><title>Isla Stack</title></head>\n\
<body style=\"font-family: sans-serif; background: #121212; color: #00ffcc; text-align: center; padding-top: 50px;\">\n\
<h1>Project Isla</h1>\n\
<p>This page was served by a custom, stackless Rust TCP/IP implementation.</p>\n\
<hr style=\"border: 1px solid #333; width: 50%;\">\n\
<p style=\"color: #888;\">Bypassing the Linux Kernel :P</p>\n\
</body>\n\
</html>";

/// The response up to the Content-Length value.
pub const RESPONSE_HEAD: &'static str = "HTTP/1.1 200 OK\r\n\
Content-Type: text/html\r\n\
Content-Length: ";

/// The response from the end of the Content-Length value to the body.
pub const RESPONSE_MID: &'static str = "\r\n\
Connection: close\r\n\
Server: Isla-User-Stack/1.0\r\n\
\r\n\
";

/// The bytes of `GET /`, the pattern that marks a request as a GET.
pub open spec fn get_pattern() -> Seq<u8> {
    seq![71u8, 69u8, 84u8, 32u8, 47u8]
}

/// `GET /` occurs in `b` starting at index `i`.
pub open spec fn get_pattern_at(b: Seq<u8>, i: int) -> bool {
    0 <= i && i + 5 <= b.len() && b.subrange(i, i + 5) == get_pattern()
}

/// `GET /` occurs somewhere in `b`.
pub open spec fn contains_get(b: Seq<u8>) -> bool {
    exists|i: int| get_pattern_at(b, i)
}

/// A request is answered exactly when the five bytes `G`, `E`, `T`, space, `/`
/// stand one after another somewhere in it.
pub proof fn lemma_contains_get_bytes(b: Seq<u8>)
    ensures
        contains_get(b) <==> exists|i: int|
            0 <= i && i + 5 <= b.len() && #[trigger] b[i] == 71 && b[i + 1] == 69 && b[i + 2] == 84
                && b[i + 3] == 32 && b[i + 4] == 47,
{
    if contains_get(b) {
        let i = choose|i: int| get_pattern_at(b, i);
        assert(b.subrange(i, i + 5)[0] == b[i]);
        assert(b.subrange(i, i + 5)[1] == b[i + 1]);
        assert(b.subrange(i, i + 5)[2] == b[i + 2]);
        assert(b.subrange(i, i + 5)[3] == b[i + 3]);
        assert(b.subrange(i, i + 5)[4] == b[i + 4]);
    }
    if exists|i: int|
        0 <= i && i + 5 <= b.len() && #[trigger] b[i] == 71 && b[i + 1] == 69 && b[i + 2] == 84
            && b[i + 3] == 32 && b[i + 4] == 47 {
        let i = choose|i: int|
            0 <= i && i + 5 <= b.len() && #[trigger] b[i] == 71 && b[i + 1] == 69 && b[i + 2] == 84
                && b[i + 3] == 32 && b[i + 4] == 47;
        assert(b.subrange(i, i + 5) =~= get_pattern());
        assert(get_pattern_at(b, i));
    }
}

/// The decimal digit character for `d` (`0 <= d < 10`).
pub open spec fn digit_char(d: nat) -> char {
    (48 + d) as char
}

/// The decimal notation of `n`, without leading zeros.
pub open spec fn decimal_text(n: nat) -> Seq<char>
    decreases n,
{
    if n < 10 {
        seq![digit_char(n)]
    } else {
        decimal_text(n / 10) + seq![digit_char(n % 10)]
    }
}

/// The number that a string of decimal digits denotes, most significant first.
pub open spec fn digits_value(s: Seq<char>) -> int
    decreases s.len(),
{
    if s.len() == 0 {
        0
    } else {
        digits_value(s.drop_last()) * 10 + (s.last() as int - 48)
    }
}

/// The decimal text of `n` is made of the characters `0` ..= `9`, has no
/// leading zero, and denotes `n`.
pub proof fn lemma_decimal_text_denotes(n: nat)
    ensures
        decimal_text(n).len() >= 1,
        forall|i: int|
            0 <= i < decimal_text(n).len() ==> '0' <= #[trigger] decimal_text(n)[i] <= '9',
        decimal_text(n)[0] == '0' ==> n == 0,
        digits_value(decimal_text(n)) == n,
    decreases n,
{
    if n >= 10 {
        lemma_decimal_text_denotes(n / 10);
        let t = decimal_text(n);
        assert(t.drop_last() =~= decimal_text(n / 10));
        assert(t[0] == decimal_text(n / 10)[0]);
        assert(t.last() == digit_char(n % 10));
        assert(digit_char(n % 10) as int == 48 + n % 10);
        assert(n == (n / 10) * 10 + n % 10);
        assert(digits_value(t) == digits_value(t.drop_last()) * 10 + (t.last() as int - 48));
    } else {
        let t = decimal_text(n);
        assert(t.drop_last() =~= Seq::<char>::empty());
        assert(digit_char(n) as int == 48 + n);
        assert(digits_value(t) == digits_value(t.drop_last()) * 10 + (t.last() as int - 48));
    }
}

/// The response sent for a GET request: status line and headers, whose
/// Content-Length is the number of bytes of the body, then the body.
pub open spec fn http_ok_response() -> Seq<char> {
    RESPONSE_HEAD@ + decimal_text(HTML_BODY.len() as nat) + RESPONSE_MID@ + HTML_BODY@
}

fn digit_str(d: usize) -> (s: &'static str)
    requires
        d < 10,
    ensures
        s@ == seq![digit_char(d as nat)],
{
    match d {
        0 => {
            proof { reveal_strlit("0"); }
            "0"
        },
        1 => {
            proof { reveal_strlit("1"); }
            "1"
        },
        2 => {
            proof { reveal_strlit("2"); }
            "2"
        },
        3 => {
            proof { reveal_strlit("3"); }
            "3"
        },
        4 => {
            proof { reveal_strlit("4"); }
            "4"
        },
        5 => {
            proof { reveal_strlit("5"); }
            "5"
        },
        6 => {
            proof { reveal_strlit("6"); }
            "6"
        },
        7 => {
            proof { reveal_strlit("7"); }
            "7"
        },
        8 => {
            proof { reveal_strlit("8"); }
            "8"
        },
        _ => {
            proof { reveal_strlit("9"); }
            "9"
        },
    }
}

/// `n` in decimal notation.
fn decimal_string(n: usize) -> (s: String)
    ensures
        s@ == decimal_text(n as nat),
    decreases n,
{
    if n < 10 {
        String::from_str(digit_str(n))
    } else {
        let mut s = decimal_string(n / 10);
        s.append(digit_str(n % 10));
        s
    }
}

/// Whether `GET /` occurs in `payload`.
fn has_get_pattern(payload: &[u8]) -> (found: bool)
    ensures
        found == contains_get(payload@),
{
    let n = payload.len();
    if n < 5 {
        assert(!contains_get(payload@));
        return false;
    }
    let mut i: usize = 0;
    while i <= n - 5
        invariant
            n == payload@.len(),
            n >= 5,
            i <= n - 4,
            forall|j: int| 0 <= j < i ==> !get_pattern_at(payload@, j),
        decreases n - i,
    {
        if payload[i] == 71 && payload[i + 1] == 69 && payload[i + 2] == 84 && payload[i + 3] == 32
            && payload[i + 4] == 47 {
            assert(payload@.subrange(i as int, i + 5) =~= get_pattern());
            assert(get_pattern_at(payload@, i as int));
            return true;
        }
        assert(!get_pattern_at(payload@, i as int)) by {
            if payload@.subrange(i as int, i + 5) == get_pattern() {
                assert(payload@.subrange(i as int, i + 5)[0] == payload@[i as int]);
                assert(payload@.subrange(i as int, i + 5)[1] == payload@[i + 1]);
                assert(payload@.subrange(i as int, i + 5)[2] == payload@[i + 2]);
                assert(payload@.subrange(i as int, i + 5)[3] == payload@[i + 3]);
                assert(payload@.subrange(i as int, i + 5)[4] == payload@[i + 4]);
            }
        }
        i = i + 1;
    }
    assert(!contains_get(payload@));
    false
}

/// Answers an HTTP request: when `GET /` occurs in the request, the response
/// carrying the static page; otherwise `None`.
///
/// The pattern is searched in the raw bytes. It is plain ASCII, so it occurs in
/// the bytes exactly when it occurs in their lossy UTF-8 decoding: that
/// decoding keeps every ASCII byte as it is and replaces only bytes that are
/// not ASCII.
pub fn handle_request(payload: &[u8]) -> (res: Option<String>)
    ensures
        res is Some <==> contains_get(payload@),
        res matches Some(s) ==> s@ == http_ok_response(),
{
    // Check for standard HTTP GET pattern
    if has_get_pattern(payload) {
        let body = HTML_BODY;
        let mut response = String::from_str(RESPONSE_HEAD);
        let len_text = decimal_string(body.len());
        response.append(len_text.as_str());
        response.append(RESPONSE_MID);
        response.append(body);
        Some(response)
    } else {
        None
    }
}

} // verus!
