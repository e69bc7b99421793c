//! The verified compute half of serving a request: classify the request line
//! and build the response bytes. Reading the stream, reading files and
//! writing the reply are left to the surrounding program, which hands the
//! request's first line in and takes the finished response bytes out.

use vstd::prelude::*;

verus! {

/// What a request's first line asks for, and so which answer it gets.
#[derive(Clone, Copy, PartialEq, Eq, Structural, Debug)]
pub enum RequestKind {
    /// A GET of the sleep path: answered with the success page after a delay.
    SlowGet,
    /// Any other GET: answered with the success page at once.
    Get,
    /// Anything else: answered with the not-found page.
    NotFound,
}

/// The bytes of `"GET"`.
pub open spec fn spec_get_prefix() -> Seq<u8> {
    seq![71u8, 69u8, 84u8]
}

/// The bytes of `"GET /sleep"`.
pub open spec fn spec_sleep_prefix() -> Seq<u8> {
    seq![71u8, 69u8, 84u8, 32u8, 47u8, 115u8, 108u8, 101u8, 101u8, 112u8]
}

/// How a request line is classified: the sleep path wins over a plain GET,
/// and everything that is not a GET is not found.
pub open spec fn spec_classify(line: Seq<u8>) -> RequestKind {
    if spec_sleep_prefix().is_prefix_of(line) {
        RequestKind::SlowGet
    } else if spec_get_prefix().is_prefix_of(line) {
        RequestKind::Get
    } else {
        RequestKind::NotFound
    }
}

/// True exactly when `prefix` is a prefix of `line`.
pub fn starts_with(line: &[u8], prefix: &[u8]) -> (r: bool)
    ensures
        r == prefix@.is_prefix_of(line@),
{
    if prefix.len() > line.len() {
        return false;
    }
    let mut i: usize = 0;
    while i < prefix.len()
        invariant
            i <= prefix@.len() <= line@.len(),
            forall|j: int| 0 <= j < i ==> line@[j] == prefix@[j],
        decreases prefix@.len() - i,
    {
        if line[i] != prefix[i] {
            return false;
        }
        i += 1;
    }
    proof {
        assert(prefix@ =~= line@.subrange(0, prefix@.len() as int));
    }
    true
}

/// Classifies a request's first line, as the server does before answering.
pub fn classify_request(line: &[u8]) -> (r: RequestKind)
    ensures
        r == spec_classify(line@),
{
    let sleep_prefix = sleep_prefix_bytes();
    if starts_with(line, sleep_prefix.as_slice()) {
        return RequestKind::SlowGet;
    }
    let get_prefix = get_prefix_bytes();
    if starts_with(line, get_prefix.as_slice()) {
        return RequestKind::Get;
    }
    RequestKind::NotFound
}

/// The bytes of `"GET"`, for the prefix test.
fn get_prefix_bytes() -> (r: Vec<u8>)
    ensures
        r@ == spec_get_prefix(),
{
    let mut v: Vec<u8> = Vec::new();
    v.push(71u8);
    v.push(69u8);
    v.push(84u8);
    proof {
        assert(v@ =~= spec_get_prefix());
    }
    v
}

/// The bytes of `"GET /sleep"`, for the prefix test.
fn sleep_prefix_bytes() -> (r: Vec<u8>)
    ensures
        r@ == spec_sleep_prefix(),
{
    let mut v = get_prefix_bytes();
    v.push(32u8);
    v.push(47u8);
    v.push(115u8);
    v.push(108u8);
    v.push(101u8);
    v.push(101u8);
    v.push(112u8);
    proof {
        assert(v@ =~= spec_sleep_prefix());
    }
    v
}

/// The status line a request of this kind is answered with.
pub open spec fn spec_status_line(kind: RequestKind) -> Seq<u8> {
    if kind is NotFound {
        seq![
            72u8, 84u8, 84u8, 80u8, 47u8, 49u8, 46u8, 49u8, 32u8, 52u8, 48u8, 52u8, 32u8, 78u8,
            79u8, 84u8, 32u8, 70u8, 79u8, 85u8, 78u8, 68u8,
        ]
    } else {
        seq![
            72u8, 84u8, 84u8, 80u8, 47u8, 49u8, 46u8, 49u8, 32u8, 50u8, 48u8, 48u8, 32u8, 79u8,
            75u8,
        ]
    }
}

/// The status line for a request of this kind: `HTTP/1.1 200 OK` for a GET,
/// `HTTP/1.1 404 NOT FOUND` for everything else.
pub fn status_line(kind: RequestKind) -> (r: Vec<u8>)
    ensures
        r@ == spec_status_line(kind),
{
    let mut v: Vec<u8> = Vec::new();
    v.push(72u8);
    v.push(84u8);
    v.push(84u8);
    v.push(80u8);
    v.push(47u8);
    v.push(49u8);
    v.push(46u8);
    v.push(49u8);
    v.push(32u8);
    match kind {
        RequestKind::NotFound => {
            v.push(52u8);
            v.push(48u8);
            v.push(52u8);
            v.push(32u8);
            v.push(78u8);
            v.push(79u8);
            v.push(84u8);
            v.push(32u8);
            v.push(70u8);
            v.push(79u8);
            v.push(85u8);
            v.push(78u8);
            v.push(68u8);
        },
        _ => {
            v.push(50u8);
            v.push(48u8);
            v.push(48u8);
            v.push(32u8);
            v.push(79u8);
            v.push(75u8);
        },
    }
    proof {
        assert(v@ =~= spec_status_line(kind));
    }
    v
}

/// The decimal digits of `n`, most significant first, as ASCII bytes.
pub open spec fn decimal_digits(n: nat) -> Seq<u8>
    decreases n,
{
    if n < 10 {
        seq![(48 + n) as u8]
    } else {
        decimal_digits(n / 10).push((48 + n % 10) as u8)
    }
}

/// The decimal rendering of `n`, as the ASCII bytes of its digits.
pub fn render_decimal(n: u64) -> (r: Vec<u8>)
    ensures
        r@ == decimal_digits(n as nat),
    decreases n,
{
    if n < 10 {
        let mut v: Vec<u8> = Vec::new();
        v.push(48 + n as u8);
        v
    } else {
        let mut v = render_decimal(n / 10);
        v.push(48 + (n % 10) as u8);
        v
    }
}

/// The bytes of `"\r\nContent-Length: "`, between status line and length.
pub open spec fn spec_length_header() -> Seq<u8> {
    seq![
        13u8, 10u8, 67u8, 111u8, 110u8, 116u8, 101u8, 110u8, 116u8, 45u8, 76u8, 101u8, 110u8, 103u8, 116u8,
        104u8, 58u8, 32u8,
    ]
}

/// The bytes of `"\r\n\r\n"`, between the headers and the body.
pub open spec fn spec_header_end() -> Seq<u8> {
    seq![13u8, 10u8, 13u8, 10u8]
}

/// The whole response: status line, a Content-Length header giving the body's
/// exact length in decimal, a blank line, then the body.
pub open spec fn spec_response(status: Seq<u8>, contents: Seq<u8>) -> Seq<u8> {
    status + spec_length_header() + decimal_digits(contents.len()) + spec_header_end() + contents
}

/// Appends all of `src` to `dst`, in order.
pub fn push_all(dst: &mut Vec<u8>, src: &[u8])
    ensures
        final(dst)@ == old(dst)@ + src@,
{
    let mut i: usize = 0;
    while i < src.len()
        invariant
            i <= src@.len(),
            dst@ == old(dst)@ + src@.subrange(0, i as int),
        decreases src@.len() - i,
    {
        dst.push(src[i]);
        proof {
            assert(old(dst)@ + src@.subrange(0, i + 1 as int) =~= (old(dst)@ + src@.subrange(
                0,
                i as int,
            )).push(src@[i as int]));
        }
        i += 1;
    }
    proof {
        assert(old(dst)@ + src@.subrange(0, src@.len() as int) =~= old(dst)@ + src@);
    }
}

/// Builds the full response for a body served under this status line, with
/// the body's exact length declared in the Content-Length header.
pub fn build_response(status: &[u8], contents: &[u8]) -> (r: Vec<u8>)
    ensures
        r@ == spec_response(status@, contents@),
{
    let mut r: Vec<u8> = Vec::new();
    push_all(&mut r, status);
    let mut header: Vec<u8> = Vec::new();
    header.push(13u8);
    header.push(10u8);
    header.push(67u8);
    header.push(111u8);
    header.push(110u8);
    header.push(116u8);
    header.push(101u8);
    header.push(110u8);
    header.push(116u8);
    header.push(45u8);
    header.push(76u8);
    header.push(101u8);
    header.push(110u8);
    header.push(103u8);
    header.push(116u8);
    header.push(104u8);
    header.push(58u8);
    header.push(32u8);
    proof {
        assert(header@ =~= spec_length_header());
    }
    push_all(&mut r, header.as_slice());
    let digits = render_decimal(contents.len() as u64);
    push_all(&mut r, digits.as_slice());
    let mut blank: Vec<u8> = Vec::new();
    blank.push(13u8);
    blank.push(10u8);
    blank.push(13u8);
    blank.push(10u8);
    proof {
        assert(blank@ =~= spec_header_end());
    }
    push_all(&mut r, blank.as_slice());
    push_all(&mut r, contents);
    proof {
        assert(r@ =~= spec_response(status@, contents@));
    }
    r
}

} // verus!
