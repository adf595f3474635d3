//! Parsing the request line: the first line of the raw request bytes holds
//! `METHOD SP TARGET ...`; the target, prefixed with the server's root
//! marker `.`, becomes the filesystem path candidate.

use vstd::prelude::*;
use crate::ascii::ascii_bytes;
use crate::ascii::ascii_to_vec;

verus! {

/// Line feed, carriage return and space, as request bytes.
pub const LF: u8 = 10;
pub const CR: u8 = 13;
pub const SP: u8 = 32;

/// Why no path could be extracted from a request.
#[derive(PartialEq, Eq, Structural, Clone, Copy, Debug)]
pub enum RequestError {
    /// The request held no line at all.
    Empty,
    /// The first line held no second space-separated token.
    MissingTarget,
}

/// The failure description that a server-error page shows for each
/// request error.
pub open spec fn error_message(e: RequestError) -> Seq<u8> {
    match e {
        RequestError::Empty => ascii_bytes("Request was empty."@),
        RequestError::MissingTarget => ascii_bytes("Couldn't find the URL part of the request"@),
    }
}

impl RequestError {
    /// The failure description shown on the server-error page.
    pub fn message(&self) -> (r: Vec<u8>)
        ensures
            r@ == error_message(*self),
    {
        proof {
            reveal_strlit("Request was empty.");
            reveal_strlit("Couldn't find the URL part of the request");
            assert("Request was empty.".is_ascii());
            assert("Couldn't find the URL part of the request".is_ascii());
        }
        match self {
            RequestError::Empty => ascii_to_vec("Request was empty."),
            RequestError::MissingTarget => ascii_to_vec(
                "Couldn't find the URL part of the request",
            ),
        }
    }
}

/// The position of the first occurrence of `b` in `s`, or `s.len()` if none.
pub open spec fn find_byte(s: Seq<u8>, b: u8) -> int
    decreases s.len(),
{
    if s.len() == 0 {
        0
    } else if s[0] == b {
        0
    } else {
        1 + find_byte(s.skip(1), b)
    }
}

pub proof fn lemma_find_byte(s: Seq<u8>, b: u8)
    ensures
        0 <= find_byte(s, b) <= s.len(),
        forall|i: int| 0 <= i < find_byte(s, b) ==> s[i] != b,
        find_byte(s, b) < s.len() ==> s[find_byte(s, b)] == b,
    decreases s.len(),
{
    if s.len() != 0 && s[0] != b {
        lemma_find_byte(s.skip(1), b);
        assert forall|i: int| 0 <= i < find_byte(s, b) implies s[i] != b by {
            if i > 0 {
                assert(s.skip(1)[i - 1] == s[i]);
            }
        }
        if find_byte(s, b) < s.len() {
            assert(s.skip(1)[find_byte(s, b) - 1] == s[find_byte(s, b)]);
        }
    }
}

/// A position before which `b` never occurs, and at which it does, is
/// where `b` is first found.
pub proof fn lemma_find_byte_at(s: Seq<u8>, b: u8, k: int)
    requires
        0 <= k < s.len(),
        s[k] == b,
        forall|j: int| 0 <= j < k ==> s[j] != b,
    ensures
        find_byte(s, b) == k,
{
    lemma_find_byte(s, b);
}

/// When `a` is a pointwise prefix of `s`, the first occurrence of `b` is
/// found at the same position, as long as it falls inside `a`.
pub proof fn lemma_find_byte_prefix(a: Seq<u8>, s: Seq<u8>, b: u8)
    requires
        a.len() <= s.len(),
        forall|j: int| 0 <= j < a.len() ==> a[j] == s[j],
    ensures
        find_byte(a, b) < a.len() ==> find_byte(s, b) == find_byte(a, b),
        find_byte(a, b) == a.len() ==> find_byte(s, b) >= a.len(),
{
    lemma_find_byte(a, b);
    lemma_find_byte(s, b);
    if find_byte(a, b) < a.len() {
        assert(s[find_byte(a, b)] == b);
        if find_byte(s, b) < find_byte(a, b) {
            assert(a[find_byte(s, b)] == s[find_byte(s, b)]);
        }
    } else {
        if find_byte(s, b) < a.len() {
            assert(a[find_byte(s, b)] == s[find_byte(s, b)]);
        }
    }
}

/// The first line of the request: everything before the first line feed,
/// with one trailing carriage return removed, as `str::lines` reads it.
pub open spec fn first_line(req: Seq<u8>) -> Seq<u8> {
    let raw = req.take(find_byte(req, LF));
    if raw.len() > 0 && raw[raw.len() - 1] == CR {
        raw.take(raw.len() - 1)
    } else {
        raw
    }
}

/// The second space-separated token of `line`, if the line has one.
pub open spec fn second_token(line: Seq<u8>) -> Option<Seq<u8>> {
    if find_byte(line, SP) == line.len() {
        None
    } else {
        let rest = line.skip(find_byte(line, SP) + 1);
        Some(rest.take(find_byte(rest, SP)))
    }
}

/// The filesystem path candidate for a request: the root marker `.`
/// followed by the request target, when the request yields one.
pub open spec fn path_of_request(req: Seq<u8>) -> Result<Seq<u8>, RequestError> {
    if req.len() == 0 {
        Err(RequestError::Empty)
    } else {
        match second_token(first_line(req)) {
            Some(target) => Ok(ascii_bytes("."@) + target),
            None => Err(RequestError::MissingTarget),
        }
    }
}

/// Position of the first occurrence of `b` at or after `from`, or `s.len()`.
fn scan_byte(s: &Vec<u8>, from: usize, b: u8) -> (r: usize)
    requires
        from <= s@.len(),
    ensures
        r == from + find_byte(s@.skip(from as int), b),
{
    let mut i: usize = from;
    while i < s.len()
        invariant
            from <= i <= s@.len(),
            find_byte(s@.skip(from as int), b) == i - from + find_byte(s@.skip(i as int), b),
        decreases s@.len() - i,
    {
        proof {
            assert(s@.skip(i as int)[0] == s@[i as int]);
            assert(s@.skip(i as int).skip(1) =~= s@.skip(i as int + 1));
        }
        if s[i] == b {
            return i;
        }
        i = i + 1;
    }
    proof {
        assert(s@.skip(i as int).len() == 0);
    }
    i
}

/// Extracts the filesystem path candidate from raw request bytes: the
/// second space-separated token of the first line, prefixed with `.`.
///
/// The candidate is taken from the request verbatim; before the
/// filesystem is probed with it, it must pass
/// [`crate::resolve::path_escapes_root`], which refuses a candidate whose
/// `..` segments could climb above the server root.
pub fn get_path_from_request(request: &Vec<u8>) -> (r: Result<Vec<u8>, RequestError>)
    ensures
        match r {
            Ok(path) => path_of_request(request@) == Ok::<Seq<u8>, RequestError>(path@),
            Err(e) => path_of_request(request@) == Err::<Seq<u8>, RequestError>(e),
        },
{
    if request.len() == 0 {
        return Err(RequestError::Empty);
    }
    let line_end = scan_byte(request, 0, LF);
    proof {
        assert(request@.skip(0) =~= request@);
        lemma_find_byte(request@, LF);
    }
    let line_len: usize = if line_end > 0 && request[line_end - 1] == CR {
        line_end - 1
    } else {
        line_end
    };
    let ghost line = first_line(request@);
    proof {
        assert(line =~= request@.take(line_len as int));
    }
    let sp1 = scan_byte(request, 0, SP);
    proof {
        lemma_find_byte(line, SP);
        lemma_find_byte_prefix(line, request@, SP);
    }
    if sp1 >= line_len {
        return Err(RequestError::MissingTarget);
    }
    let rest_start = sp1 + 1;
    let ghost rest = line.skip(find_byte(line, SP) + 1);
    let sp2 = scan_byte(request, rest_start, SP);
    let target_end: usize = if sp2 < line_len {
        sp2
    } else {
        line_len
    };
    proof {
        lemma_find_byte(rest, SP);
        assert(forall|j: int|
            0 <= j < rest.len() ==> rest[j] == #[trigger] request@.skip(rest_start as int)[j]);
        lemma_find_byte_prefix(rest, request@.skip(rest_start as int), SP);
        assert(target_end - rest_start == find_byte(rest, SP));
    }
    let mut path: Vec<u8> = Vec::new();
    path.push(46);
    let mut i: usize = rest_start;
    while i < target_end
        invariant
            rest_start <= i <= target_end <= request@.len(),
            path@.len() == 1 + i - rest_start,
            path@[0] == 46u8,
            forall|j: int| rest_start <= j < i ==> path@[1 + j - rest_start] == request@[j],
        decreases target_end - i,
    {
        path.push(request[i]);
        i = i + 1;
    }
    proof {
        reveal_strlit(".");
        assert(ascii_bytes("."@) =~= seq![46u8]);
        assert(path@ =~= ascii_bytes("."@) + rest.take(find_byte(rest, SP)));
    }
    Ok(path)
}

} // verus!
