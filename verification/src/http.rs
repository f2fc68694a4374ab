//! HTTP requests to Cloud Hypervisor's API socket, and what is made of the replies.

use crate::text;
use vstd::prelude::*;

verus! {

/// The text of a request. A body that is missing or empty is not announced.
pub open spec fn request(method: Seq<char>, path: Seq<char>, body: Option<Seq<char>>) -> Seq<char> {
    let line = method + " "@ + path;
    if body is Some && body->Some_0.len() > 0 {
        line
            + " HTTP/1.1\r\nHost: localhost\r\nContent-Type: application/json\r\nAccept: application/json\r\nContent-Length: "@
            + text::dec(text::bytes(body->Some_0).len()) + "\r\n\r\n"@ + body->Some_0
    } else {
        line + " HTTP/1.1\r\nHost: localhost\r\nAccept: application/json\r\n\r\n"@
    }
}

/// Builds the text of a request.
pub fn request_text(method: &str, path: &str, body: Option<&str>) -> (res: String)
    ensures
        res@ == request(method@, path@, text::opt_str(body)),
{
    let mut out: String = text::join3(method, " ", path);
    match body {
        Some(b) => {
            if !b.is_empty() {
                out.append(
                    " HTTP/1.1\r\nHost: localhost\r\nContent-Type: application/json\r\nAccept: application/json\r\nContent-Length: ",
                );
                let n: usize = b.as_bytes().len();
                out.append(text::decimal(n as u64).as_str());
                out.append("\r\n\r\n");
                out.append(b);
                return out;
            }
        },
        None => {},
    }
    out.append(" HTTP/1.1\r\nHost: localhost\r\nAccept: application/json\r\n\r\n");
    out
}

/// Whether `p` occurs in `s` at position `at`.
pub open spec fn bytes_at(s: Seq<u8>, p: Seq<u8>, at: int) -> bool {
    0 <= at && at + p.len() <= s.len() && s.subrange(at, at + p.len()) == p
}

/// Whether `at` is the first place at which `p` occurs in `s`.
pub open spec fn first_at(s: Seq<u8>, p: Seq<u8>, at: int) -> bool {
    bytes_at(s, p, at) && forall|k: int| 0 <= k < at ==> !#[trigger] bytes_at(s, p, k)
}

fn matches_bytes(s: &[u8], p: &[u8], at: usize) -> (res: bool)
    requires
        at + p@.len() <= s@.len(),
    ensures
        res == bytes_at(s@, p@, at as int),
{
    let mut i: usize = 0;
    while i < p.len()
        invariant
            i <= p@.len(),
            at + p@.len() <= s.len(),
            forall|j: int| 0 <= j < i ==> s@[at + j] == p@[j],
        decreases p@.len() - i,
    {
        if s[at + i] != p[i] {
            assert(s@.subrange(at as int, at + p@.len())[i as int] != p@[i as int]);
            return false;
        }
        i += 1;
    }
    assert(s@.subrange(at as int, at + p@.len()) =~= p@);
    true
}

/// Finds the first place at which `needle` occurs.
pub fn find_subsequence(haystack: &[u8], needle: &[u8]) -> (res: Option<usize>)
    requires
        needle@.len() > 0,
    ensures
        match res {
            Some(at) => first_at(haystack@, needle@, at as int),
            None => forall|k: int| !#[trigger] bytes_at(haystack@, needle@, k),
        },
{
    if haystack.len() < needle.len() {
        return None;
    }
    let last: usize = haystack.len() - needle.len();
    let mut i: usize = 0;
    while i <= last
        invariant
            i <= last + 1,
            last == haystack@.len() - needle@.len(),
            last < haystack.len(),
            forall|k: int| 0 <= k < i ==> !#[trigger] bytes_at(haystack@, needle@, k),
        decreases last + 1 - i,
    {
        if matches_bytes(haystack, needle, i) {
            return Some(i);
        }
        i += 1;
    }
    assert forall|k: int| !#[trigger] bytes_at(haystack@, needle@, k) by {
        if 0 <= k && k + needle@.len() <= haystack@.len() {
            assert(k < i);
        }
    }
    None
}

/// The blank line that ends the headers.
pub open spec fn blank_line() -> Seq<u8> {
    seq![13u8, 10, 13, 10]
}

/// Where the headers of a reply end; nothing where they have not all come.
pub open spec fn header_end(r: Seq<u8>) -> Option<int> {
    if exists|at: int| first_at(r, blank_line(), at) {
        Some((choose|at: int| first_at(r, blank_line(), at)) + 4)
    } else {
        None
    }
}

proof fn lemma_first_unique(s: Seq<u8>, p: Seq<u8>, a: int, b: int)
    requires
        first_at(s, p, a),
        first_at(s, p, b),
    ensures
        a == b,
{
    if a < b {
        assert(!bytes_at(s, p, a));
    }
    if b < a {
        assert(!bytes_at(s, p, b));
    }
}

fn find_header_end(r: &[u8]) -> (res: Option<usize>)
    ensures
        match res {
            Some(n) => header_end(r@) == Some(n as int) && n <= r@.len(),
            None => header_end(r@) is None,
        },
{
    let blank: [u8; 4] = [13, 10, 13, 10];
    assert(blank@ =~= blank_line());
    match find_subsequence(r, &blank) {
        Some(at) => {
            let n: usize = r.len();
            assert(at + 4 <= n);
            proof {
                let c = choose|k: int| first_at(r@, blank_line(), k);
                assert(first_at(r@, blank_line(), at as int));
                lemma_first_unique(r@, blank_line(), at as int, c);
            }
            Some(at + 4)
        },
        None => None,
    }
}

/// The length that a line announces, where it is a length header: nothing inside where the length
/// is no number.
pub open spec fn length_in(line: Seq<char>) -> Option<Option<nat>> {
    if text::has_prefix(line, "Content-Length:"@) {
        Some(
            text::parsed(
                text::trimmed(line.skip("Content-Length:"@.len() as int)),
                usize::MAX as nat,
            ),
        )
    } else if text::has_prefix(line, "content-length:"@) {
        Some(
            text::parsed(
                text::trimmed(line.skip("content-length:"@.len() as int)),
                usize::MAX as nat,
            ),
        )
    } else {
        None
    }
}

/// The length that the first length header among some lines announces.
pub open spec fn announced(lines: Seq<Seq<char>>) -> Option<nat>
    decreases lines.len(),
{
    if lines.len() == 0 {
        None
    } else {
        match length_in(lines[0]) {
            Some(n) => n,
            None => announced(lines.skip(1)),
        }
    }
}

/// The length that a reply announces.
pub fn parse_content_length(headers: &str) -> (res: Option<usize>)
    ensures
        match res {
            Some(n) => announced(text::lines(headers@)) == Some(n as nat),
            None => announced(text::lines(headers@)) is None,
        },
{
    let lines: Vec<String> = text::lines_of(headers);
    let ghost l = text::strings(lines@);
    let mut i: usize = 0;
    assert(l.skip(0) =~= l);
    while i < lines.len()
        invariant
            i <= lines@.len(),
            l == text::strings(lines@),
            l == text::lines(headers@),
            announced(l) == announced(l.skip(i as int)),
        decreases lines@.len() - i,
    {
        assert(l.skip(i as int)[0] == lines@[i as int]@);
        assert(l.skip(i as int).skip(1) =~= l.skip(i + 1));
        let val: Option<String> = match text::strip_prefix(lines[i].as_str(), "Content-Length:") {
            Some(v) => Some(v),
            None => text::strip_prefix(lines[i].as_str(), "content-length:"),
        };
        if let Some(v) = val {
            let t: String = text::trim(v.as_str());
            return match text::parse_up_to(t.as_str(), usize::MAX as u64) {
                Some(n) => Some(n as usize),
                None => None,
            };
        }
        i += 1;
    }
    None
}

/// Whether all of a reply has come: its headers, and as much behind them as they announce. A
/// reply that announces no length is complete with its headers, unless it names one that cannot
/// be read.
pub open spec fn complete(r: Seq<u8>) -> bool {
    match header_end(r) {
        Some(end) => match announced(text::lines(text::lossy(r))) {
            Some(n) => r.len() >= end + n,
            None => !text::has_substring(text::lossy(r), "Content-Length"@),
        },
        None => false,
    }
}

/// Decides [`complete`].
pub fn response_complete(r: &[u8]) -> (res: bool)
    ensures
        res == complete(r@),
{
    match find_header_end(r) {
        Some(end) => {
            let headers: String = text::from_utf8_lossy(r);
            match parse_content_length(headers.as_str()) {
                Some(n) => r.len() - end >= n,
                None => !text::contains(headers.as_str(), "Content-Length"),
            }
        },
        None => false,
    }
}

/// Whether a status line reports success.
pub open spec fn success(line: Seq<char>) -> bool {
    ||| text::has_substring(line, "200"@)
    ||| text::has_substring(line, "204"@)
    ||| text::has_substring(line, "201"@)
}

/// What follows the headers of a reply, nothing where they are not complete.
pub open spec fn body_of(r: Seq<u8>) -> Seq<u8> {
    match header_end(r) {
        Some(end) => r.skip(end),
        None => Seq::empty(),
    }
}

/// Whether a reply reports success: its first line does, or it has none.
pub open spec fn accepted(r: Seq<u8>) -> bool {
    let lines = text::lines(text::lossy(r));
    lines.len() == 0 || success(lines[0])
}

/// Reads a reply: its body where it reports success, and all of it where it does not.
pub fn read_response(r: &[u8]) -> (res: Result<String, String>)
    ensures
        match res {
            Ok(body) => accepted(r@) && (if header_end(r@) is Some {
                body@ == text::lossy(body_of(r@))
            } else {
                body@ == Seq::<char>::empty()
            }),
            Err(e) => !accepted(r@) && e@ == text::trimmed(text::lossy(r@)),
        },
{
    let all: String = text::from_utf8_lossy(r);
    let lines: Vec<String> = text::lines_of(all.as_str());
    assert(lines@.len() == text::strings(lines@).len());
    if lines.len() > 0 {
        assert(text::strings(lines@)[0] == lines@[0]@);
        let line: &str = lines[0].as_str();
        if !text::contains(line, "200") && !text::contains(line, "204") && !text::contains(
            line,
            "201",
        ) {
            return Err(text::trim(all.as_str()));
        }
    }
    match find_header_end(r) {
        Some(end) => {
            let body: Vec<u8> = crate::netlink::copy_range(r, end, r.len());
            assert(body@ =~= body_of(r@));
            Ok(text::from_utf8_lossy(body.as_slice()))
        },
        None => {
            let none: String = String::new();
            assert(none@ =~= Seq::<char>::empty());
            Ok(none)
        },
    }
}

/// A reply that is being received.
#[derive(Debug)]
pub struct ApiResponse {
    pub bytes: Vec<u8>,
}

impl ApiResponse {
    /// A reply of which nothing has come.
    pub fn new() -> (res: Self)
        ensures
            res.bytes@ == Seq::<u8>::empty(),
    {
        ApiResponse { bytes: Vec::new() }
    }

    /// Takes in what came next, and says whether to stop reading: where nothing came, because
    /// the other side closed, or where the reply is complete.
    pub fn feed(&mut self, chunk: &[u8]) -> (done: bool)
        ensures
            final(self).bytes@ == old(self).bytes@ + chunk@,
            done == (chunk@.len() == 0 || complete(old(self).bytes@ + chunk@)),
    {
        crate::netlink::push_bytes(&mut self.bytes, chunk);
        chunk.len() == 0 || response_complete(self.bytes.as_slice())
    }
}

/// The headers of a response end behind the first blank line: the four bytes in front of the end are
/// that line, and no earlier four bytes are. What follows is the body.
pub proof fn law_header_end(r: Seq<u8>)
    ensures
        match header_end(r) {
            Some(end) => {
                &&& 4 <= end <= r.len()
                &&& r[end - 4] == 13 && r[end - 3] == 10 && r[end - 2] == 13 && r[end - 1] == 10
                &&& forall|k: int|
                    0 <= k < end - 4 ==> !(#[trigger] r[k] == 13 && r[k + 1] == 10 && r[k + 2] == 13
                        && r[k + 3] == 10)
                &&& body_of(r) == r.skip(end)
            },
            None => {
                &&& forall|k: int|
                    0 <= k <= r.len() - 4 ==> !(#[trigger] r[k] == 13 && r[k + 1] == 10 && r[k + 2]
                        == 13 && r[k + 3] == 10)
                &&& body_of(r).len() == 0
                &&& !complete(r)
            },
        },
{
    match header_end(r) {
        Some(end) => {
            let at = choose|at: int| first_at(r, blank_line(), at);
            assert(first_at(r, blank_line(), at));
            let w = r.subrange(at, at + 4);
            assert(w[0] == r[at] && w[1] == r[at + 1] && w[2] == r[at + 2] && w[3] == r[at + 3]);
            assert forall|k: int| 0 <= k < end - 4 implies !(#[trigger] r[k] == 13 && r[k + 1] == 10
                && r[k + 2] == 13 && r[k + 3] == 10) by {
                lemma_blank_at(r, k);
                assert(!bytes_at(r, blank_line(), k));
            }
        },
        None => {
            assert forall|k: int| 0 <= k <= r.len() - 4 implies !(#[trigger] r[k] == 13 && r[k + 1]
                == 10 && r[k + 2] == 13 && r[k + 3] == 10) by {
                lemma_blank_at(r, k);
                if bytes_at(r, blank_line(), k) {
                    lemma_first(r, k);
                }
            }
        },
    }
}

proof fn lemma_blank_at(r: Seq<u8>, k: int)
    requires
        0 <= k,
        k + 4 <= r.len(),
    ensures
        bytes_at(r, blank_line(), k) <==> r[k] == 13 && r[k + 1] == 10 && r[k + 2] == 13 && r[k + 3]
            == 10,
{
    let w = r.subrange(k, k + 4);
    assert(w[0] == r[k] && w[1] == r[k + 1] && w[2] == r[k + 2] && w[3] == r[k + 3]);
    if r[k] == 13 && r[k + 1] == 10 && r[k + 2] == 13 && r[k + 3] == 10 {
        assert(w =~= blank_line());
    }
}

proof fn lemma_first(r: Seq<u8>, k: int)
    requires
        bytes_at(r, blank_line(), k),
    ensures
        exists|at: int| first_at(r, blank_line(), at),
    decreases k,
{
    if forall|j: int| 0 <= j < k ==> !#[trigger] bytes_at(r, blank_line(), j) {
        assert(first_at(r, blank_line(), k));
    } else {
        let j = choose|j: int| 0 <= j < k && #[trigger] bytes_at(r, blank_line(), j);
        lemma_first(r, j);
    }
}

/// A response that announces the length of its body is complete once that many bytes follow its
/// headers, and not before.
pub proof fn law_complete_with_length(r: Seq<u8>, n: nat)
    requires
        announced(text::lines(text::lossy(r))) == Some(n),
    ensures
        complete(r) <==> header_end(r) is Some && body_of(r).len() >= n,
{
    law_header_end(r);
}

/// A request without a body is three lines; with one, the headers say that it is JSON and how many
/// bytes it has, and the body follows the blank line as it is.
pub proof fn law_request_text(method: Seq<char>, path: Seq<char>, body: Seq<char>)
    ensures
        text::has_prefix(request(method, path, None), method + seq![' '] + path + seq![' ']),
        text::has_suffix(request(method, path, None), seq!['\r', '\n', '\r', '\n']),
        body.len() > 0 ==> text::has_prefix(
            request(method, path, Some(body)),
            method + seq![' '] + path + seq![' '],
        ),
        body.len() > 0 ==> text::has_suffix(
            request(method, path, Some(body)),
            seq![':', ' '] + text::dec(text::bytes(body).len()) + seq!['\r', '\n', '\r', '\n']
                + body,
        ),
        body.len() == 0 ==> request(method, path, Some(body)) == request(method, path, None),
{
    reveal_strlit(" ");
    reveal_strlit("\r\n\r\n");
    reveal_strlit(" HTTP/1.1\r\nHost: localhost\r\nAccept: application/json\r\n\r\n");
    reveal_strlit(
        " HTTP/1.1\r\nHost: localhost\r\nContent-Type: application/json\r\nAccept: application/json\r\nContent-Length: ",
    );
    let line = method + " "@ + path;
    let plain = " HTTP/1.1\r\nHost: localhost\r\nAccept: application/json\r\n\r\n"@;
    let head =
        " HTTP/1.1\r\nHost: localhost\r\nContent-Type: application/json\r\nAccept: application/json\r\nContent-Length: "@;
    let start = method + seq![' '] + path + seq![' '];
    assert(" "@ =~= seq![' ']);
    let end = seq!['\r', '\n', '\r', '\n'];
    assert("\r\n\r\n"@ =~= end);
    let r = request(method, path, None);
    let k = plain.len() as int;
    assert(plain[0] == ' ');
    assert(plain[k - 4] == '\r' && plain[k - 3] == '\n' && plain[k - 2] == '\r' && plain[k - 1]
        == '\n');
    assert(r.subrange(0, start.len() as int) =~= start);
    assert(r.subrange(r.len() - 4, r.len() as int) =~= end);
    if body.len() > 0 {
        let n = text::dec(text::bytes(body).len());
        let q = request(method, path, Some(body));
        let h = head.len() as int;
        assert(head[0] == ' ');
        assert(head[h - 2] == ':' && head[h - 1] == ' ');
        assert(q == line + head + n + end + body);
        assert(q.subrange(0, start.len() as int) =~= start);
        let tail = seq![':', ' '] + n + end + body;
        assert(head =~= head.take(h - 2) + seq![':', ' ']);
        assert(q =~= line + head.take(h - 2) + tail);
        assert(q.subrange(q.len() - tail.len(), q.len() as int) =~= tail);
    }
}

/// The hypervisor accepted a request where the first line of its response has one of the codes 200,
/// 201 and 204 in it, and refused it where that line has none.
pub proof fn law_accepted(r: Seq<u8>, line: Seq<char>)
    requires
        text::lines(text::lossy(r)).len() > 0,
        line == text::lines(text::lossy(r))[0],
    ensures
        accepted(r) <==> exists|at: int|
            0 <= at && at + 3 <= line.len() && #[trigger] line[at] == '2' && line[at + 1] == '0' && (
            line[at + 2] == '0' || line[at + 2] == '1' || line[at + 2] == '4'),
{
    reveal_strlit("200");
    reveal_strlit("201");
    reveal_strlit("204");
    assert("200"@ =~= seq!['2', '0', '0']);
    assert("201"@ =~= seq!['2', '0', '1']);
    assert("204"@ =~= seq!['2', '0', '4']);
    if accepted(r) {
        let code = if text::has_substring(line, "200"@) {
            "200"@
        } else if text::has_substring(line, "204"@) {
            "204"@
        } else {
            "201"@
        };
        let at = choose|at: int| #[trigger] text::occurs_at(line, code, at);
        assert(text::occurs_at(line, code, at));
        let w = line.subrange(at, at + 3);
        assert(w[0] == line[at] && w[1] == line[at + 1] && w[2] == line[at + 2]);
    }
    if exists|at: int|
        0 <= at && at + 3 <= line.len() && #[trigger] line[at] == '2' && line[at + 1] == '0' && (
        line[at + 2] == '0' || line[at + 2] == '1' || line[at + 2] == '4') {
        let at = choose|at: int|
            0 <= at && at + 3 <= line.len() && #[trigger] line[at] == '2' && line[at + 1] == '0' && (
            line[at + 2] == '0' || line[at + 2] == '1' || line[at + 2] == '4');
        let w = line.subrange(at, at + 3);
        assert(w =~= seq![line[at], line[at + 1], line[at + 2]]);
        if line[at + 2] == '0' {
            assert(text::occurs_at(line, "200"@, at));
        } else if line[at + 2] == '1' {
            assert(text::occurs_at(line, "201"@, at));
        } else {
            assert(text::occurs_at(line, "204"@, at));
        }
    }
}

/// The length of a body is the number behind the first header for it, in either of the two ways of
/// writing it, with white space around it or without.
pub proof fn law_announced(lines: Seq<Seq<char>>, i: int, rest: Seq<char>)
    requires
        0 <= i < lines.len(),
        lines[i] == "Content-Length:"@ + rest || lines[i] == "content-length:"@ + rest,
        forall|k: int| 0 <= k < i ==> length_in(#[trigger] lines[k]) is None,
    ensures
        announced(lines) == text::parsed(text::trimmed(rest), usize::MAX as nat),
    decreases lines.len(),
{
    if i > 0 {
        let more = lines.skip(1);
        assert(more[i - 1] == lines[i]);
        assert forall|k: int| 0 <= k < i - 1 implies length_in(#[trigger] more[k]) is None by {
            assert(more[k] == lines[k + 1]);
        }
        law_announced(more, i - 1, rest);
        assert(length_in(lines[0]) is None);
    } else {
        reveal_strlit("Content-Length:");
        reveal_strlit("content-length:");
        let p = "Content-Length:"@;
        let q = "content-length:"@;
        assert(p.len() == 15 && q.len() == 15);
        assert(p[0] == 'C' && q[0] == 'c');
        assert((p + rest).skip(15) =~= rest);
        assert((q + rest).skip(15) =~= rest);
        assert((p + rest).subrange(0, 15) =~= p);
        assert((q + rest).subrange(0, 15) =~= q);
        if lines[0] == q + rest {
            assert(lines[0].subrange(0, 15)[0] == 'c');
        }
    }
}

/// A response that announces no length is complete with its headers, unless it speaks of a length
/// that cannot be read.
pub proof fn law_complete_without_length(r: Seq<u8>)
    requires
        announced(text::lines(text::lossy(r))) is None,
        header_end(r) is Some,
    ensures
        complete(r) <==> !text::has_substring(text::lossy(r), "Content-Length"@),
{
}

} // verus!
