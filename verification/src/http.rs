//! The job a connection submits: which page a request asks for, and the
//! bytes of the response that carries it.

use vstd::prelude::*;
use vstd::string::*;

verus! {

/// The number of bytes read from a connection before it is answered.
pub const BUFFER_SIZE: usize = 512;

/// The start of a request for the front page.
pub const FRONT_REQUEST: &'static str = "GET / HTTP/1.1\r\n";

/// The start of a request for the page that is served after a delay.
pub const SLOW_REQUEST: &'static str = "GET /sleep HTTP/1.1\r\n";

/// What stands between the status line and the length of the body.
pub const LENGTH_HEADER: &'static str = "\r\ncontent-length:";

/// What stands between the length of the body and the body.
pub const BLANK_LINE: &'static str = "\r\n\r\n";

/// The page a request is answered with.
#[derive(Clone, Copy, Debug, PartialEq, Eq, Structural)]
pub enum Page {
    /// The front page.
    Front,
    /// The front page, served after a delay.
    Slow,
    /// The page for every other request.
    NotFound,
}

/// The page that `request` asks for: the front page when the request starts
/// with the front request line, the slow page when it starts with the slow
/// request line, and the not-found page otherwise.
pub open spec fn page_of(request: Seq<u8>) -> Page {
    if FRONT_REQUEST.spec_bytes().is_prefix_of(request) {
        Page::Front
    } else if SLOW_REQUEST.spec_bytes().is_prefix_of(request) {
        Page::Slow
    } else {
        Page::NotFound
    }
}

/// The decimal digits of `n` in ASCII, most significant first.
pub open spec fn decimal_digits(n: nat) -> Seq<u8>
    decreases n,
{
    if n < 10 {
        seq![(48 + n) as u8]
    } else {
        decimal_digits(n / 10).push((48 + n % 10) as u8)
    }
}

/// The number that a sequence of ASCII digits denotes.
pub open spec fn denoted(digits: Seq<u8>) -> nat
    decreases digits.len(),
{
    if digits.len() == 0 {
        0
    } else {
        denoted(digits.drop_last()) * 10 + (digits.last() - 48) as nat
    }
}

/// What is written for `n` is a numeral for `n`: at least one digit, only
/// digits, no leading zero but for zero itself, and the number it denotes
/// is `n`.
pub proof fn lemma_decimal_digits_denote(n: nat)
    ensures
        decimal_digits(n).len() >= 1,
        forall|i: int|
            0 <= i < decimal_digits(n).len() ==> 48 <= #[trigger] decimal_digits(n)[i] <= 57,
        n > 0 ==> decimal_digits(n)[0] != 48,
        denoted(decimal_digits(n)) == n,
    decreases n,
{
    let digits = decimal_digits(n);
    if n < 10 {
        assert(digits.drop_last() =~= Seq::<u8>::empty());
        assert(denoted(digits.drop_last()) == 0);
        assert(digits.last() == 48 + n);
    } else {
        lemma_decimal_digits_denote(n / 10);
        assert(digits.drop_last() =~= decimal_digits(n / 10));
        assert(digits.last() == 48 + n % 10);
    }
}

/// The response with the given status line and body: the status line, the
/// length of the body in a header of its own, an empty line, and the body.
pub open spec fn response_bytes(status_line: Seq<u8>, body: Seq<u8>) -> Seq<u8> {
    status_line + LENGTH_HEADER.spec_bytes() + decimal_digits(body.len()) + BLANK_LINE.spec_bytes()
        + body
}

impl Page {
    /// The status line of the response, as a mathematical value.
    pub open spec fn spec_status_line(self) -> Seq<char> {
        match self {
            Page::Front | Page::Slow => "HTTP/1.1 200 OK"@,
            Page::NotFound => "HTTP/1.1 404 NOT FOUND"@,
        }
    }

    /// The name of the file that holds the body, as a mathematical value.
    pub open spec fn spec_file_name(self) -> Seq<char> {
        match self {
            Page::Front | Page::Slow => "hello.html"@,
            Page::NotFound => "404.html"@,
        }
    }

    /// The status line of the response.
    pub fn status_line(&self) -> (line: &'static str)
        ensures
            line@ == self.spec_status_line(),
    {
        match self {
            Page::Front | Page::Slow => "HTTP/1.1 200 OK",
            Page::NotFound => "HTTP/1.1 404 NOT FOUND",
        }
    }

    /// The name of the file that holds the body of the response.
    pub fn file_name(&self) -> (name: &'static str)
        ensures
            name@ == self.spec_file_name(),
    {
        match self {
            Page::Front | Page::Slow => "hello.html",
            Page::NotFound => "404.html",
        }
    }

    /// The number of seconds to let pass before the response is sent: five
    /// for the slow page, none for the others.
    pub fn delay_seconds(&self) -> (seconds: u64)
        ensures
            seconds == (if *self == Page::Slow {
                5u64
            } else {
                0u64
            }),
    {
        match self {
            Page::Slow => 5,
            _ => 0,
        }
    }
}

/// Whether `bytes` begins with `prefix`.
pub fn starts_with(bytes: &[u8], prefix: &[u8]) -> (result: bool)
    ensures
        result == prefix@.is_prefix_of(bytes@),
{
    if prefix.len() > bytes.len() {
        return false;
    }
    let mut place: usize = 0;
    while place < prefix.len()
        invariant
            place <= prefix.len() <= bytes.len(),
            forall|i: int| 0 <= i < place ==> prefix@[i] == bytes@[i],
        decreases prefix.len() - place,
    {
        if prefix[place] != bytes[place] {
            return false;
        }
        place += 1;
    }
    true
}

/// Decides which page the bytes read from a connection ask for.
pub fn route(request: &[u8]) -> (page: Page)
    ensures
        page == page_of(request@),
{
    if starts_with(request, FRONT_REQUEST.as_bytes()) {
        Page::Front
    } else if starts_with(request, SLOW_REQUEST.as_bytes()) {
        Page::Slow
    } else {
        Page::NotFound
    }
}

/// Writes `n` in decimal.
pub fn decimal(n: usize) -> (digits: Vec<u8>)
    ensures
        digits@ == decimal_digits(n as nat),
{
    let mut reversed: Vec<u8> = Vec::new();
    let mut rest: usize = n;
    while rest >= 10
        invariant
            decimal_digits(n as nat) == decimal_digits(rest as nat) + reversed@.reverse(),
        decreases rest,
    {
        reversed.push(48 + (rest % 10) as u8);
        rest = rest / 10;
    }
    reversed.push(48 + rest as u8);
    let mut digits: Vec<u8> = Vec::new();
    let mut left: usize = reversed.len();
    while left > 0
        invariant
            left <= reversed@.len(),
            digits@.len() == reversed@.len() - left,
            forall|i: int| 0 <= i < digits@.len() ==> digits@[i] == reversed@[reversed@.len() - 1 - i],
        decreases left,
    {
        left -= 1;
        digits.push(reversed[left]);
    }
    digits
}

/// Builds the response that carries `body` under `status_line`.
pub fn response(status_line: &str, body: &[u8]) -> (bytes: Vec<u8>)
    ensures
        bytes@ == response_bytes(status_line.spec_bytes(), body@),
{
    let mut bytes: Vec<u8> = Vec::new();
    bytes.extend_from_slice(status_line.as_bytes());
    bytes.extend_from_slice(LENGTH_HEADER.as_bytes());
    let digits = decimal(body.len());
    bytes.extend_from_slice(digits.as_slice());
    bytes.extend_from_slice(BLANK_LINE.as_bytes());
    bytes.extend_from_slice(body);
    bytes
}

} // verus!
