use vstd::prelude::*;
use crate::decode::parse_u64;
use crate::decode::u64_at;
use crate::envelope::Header;
use crate::http::HttpRequest;
use crate::json::COLON;

verus! {

pub const CR: u8 = 13;

pub const LF: u8 = 10;

pub const SP: u8 = 32;

/// Optional whitespace around a header value: space or horizontal tab.
pub open spec fn is_ows(b: u8) -> bool {
    b == SP || b == 9
}

/// A byte allowed in a header name: visible ASCII other than the colon.
pub open spec fn is_name_byte(b: u8) -> bool {
    33 <= b <= 126 && b != COLON
}

/// ASCII lowercase of a byte.
pub open spec fn lower(b: u8) -> u8 {
    if 65 <= b <= 90 {
        (b + 32) as u8
    } else {
        b
    }
}

/// `HTTP/1.1`
pub open spec fn http11() -> Seq<u8> {
    seq![72u8, 84, 84, 80, 47, 49, 46, 49]
}

/// `HTTP/1.0`
pub open spec fn http10() -> Seq<u8> {
    seq![72u8, 84, 84, 80, 47, 49, 46, 48]
}

/// `content-length`
pub open spec fn content_length_name() -> Seq<u8> {
    seq![99u8, 111, 110, 116, 101, 110, 116, 45, 108, 101, 110, 103, 116, 104]
}

/// The position of the first blank line (`\r\n\r\n`) at or after `i`, which
/// ends the head of a request.
pub open spec fn head_end(s: Seq<u8>, i: int) -> Option<int>
    decreases s.len() - i,
{
    if !(0 <= i && i + 4 <= s.len()) {
        None
    } else if s[i] == CR && s[i + 1] == LF && s[i + 2] == CR && s[i + 3] == LF {
        Some(i)
    } else {
        head_end(s, i + 1)
    }
}

/// The first position at or after `i` that holds `b`, or the length.
pub open spec fn find_byte(s: Seq<u8>, i: int, b: u8) -> int
    decreases s.len() - i,
{
    if !(0 <= i < s.len()) {
        s.len() as int
    } else if s[i] == b {
        i
    } else {
        find_byte(s, i + 1, b)
    }
}

/// The first position at or after `i` where `\r\n` starts, or the length.
pub open spec fn find_crlf(s: Seq<u8>, i: int) -> int
    decreases s.len() - i,
{
    if !(0 <= i && i + 1 < s.len()) {
        s.len() as int
    } else if s[i] == CR && s[i + 1] == LF {
        i
    } else {
        find_crlf(s, i + 1)
    }
}

pub open spec fn trim_start(v: Seq<u8>) -> Seq<u8>
    decreases v.len(),
{
    if v.len() > 0 && is_ows(v[0]) {
        trim_start(v.drop_first())
    } else {
        v
    }
}

pub open spec fn trim_end(v: Seq<u8>) -> Seq<u8>
    decreases v.len(),
{
    if v.len() > 0 && is_ows(v.last()) {
        trim_end(v.drop_last())
    } else {
        v
    }
}

/// The request line `METHOD SP TARGET SP HTTP/1.x`: method and target.
pub open spec fn request_line(line: Seq<u8>) -> Option<(Seq<u8>, Seq<u8>)> {
    let sp1 = find_byte(line, 0, SP);
    let sp2 = find_byte(line, sp1 + 1, SP);
    if 0 < sp1 && sp1 + 1 < sp2 < line.len() && (line.subrange(sp2 + 1, line.len() as int)
        == http11() || line.subrange(sp2 + 1, line.len() as int) == http10()) {
        Some((line.subrange(0, sp1), line.subrange(sp1 + 1, sp2)))
    } else {
        None
    }
}

/// A header line `name: value`; the value loses its surrounding whitespace.
pub open spec fn header_line(line: Seq<u8>) -> Option<(Seq<u8>, Seq<u8>)> {
    let colon = find_byte(line, 0, COLON);
    if 0 < colon < line.len() && forall|k: int| 0 <= k < colon ==> is_name_byte(#[trigger] line[k]) {
        Some((line.subrange(0, colon), trim_end(trim_start(line.subrange(colon + 1, line.len() as int)))))
    } else {
        None
    }
}

/// The header lines of `head` from position `i` to its end.
pub open spec fn header_lines(head: Seq<u8>, i: int) -> Option<Seq<(Seq<u8>, Seq<u8>)>>
    decreases head.len() - i,
{
    if !(0 <= i < head.len()) {
        None
    } else {
        let e = find_crlf(head, i);
        match header_line(head.subrange(i, e)) {
            None => None,
            Some(h) => {
                if e >= head.len() {
                    Some(seq![h])
                } else if i < e + 2 <= head.len() {
                    match header_lines(head, e + 2) {
                        Some(rest) => Some(seq![h] + rest),
                        None => None,
                    }
                } else {
                    None
                }
            },
        }
    }
}

/// Whether a header name is `Content-Length`, in any case.
pub open spec fn is_content_length(name: Seq<u8>) -> bool {
    name.len() == 14 && forall|k: int| 0 <= k < 14 ==> lower(#[trigger] name[k])
        == content_length_name()[k]
}

/// The body length that the headers declare: that of the first
/// `Content-Length` header, 0 without one, `None` when its value is not a
/// decimal number that fits in 64 bits.
pub open spec fn body_length(hs: Seq<(Seq<u8>, Seq<u8>)>) -> Option<u64>
    decreases hs.len(),
{
    if hs.len() == 0 {
        Some(0)
    } else if is_content_length(hs[0].0) {
        match u64_at(hs[0].1, 0) {
            Some((n, e)) => {
                if e == hs[0].1.len() {
                    Some(n)
                } else {
                    None
                }
            },
            None => None,
        }
    } else {
        body_length(hs.drop_first())
    }
}

/// What the head of a request states.
pub struct RequestHead {
    pub method: Seq<u8>,
    pub path: Seq<u8>,
    pub headers: Seq<(Seq<u8>, Seq<u8>)>,
    pub length: u64,
}

/// The head of a request, without its closing blank line.
pub open spec fn parse_head(head: Seq<u8>) -> Option<RequestHead> {
    let le = find_crlf(head, 0);
    match request_line(head.subrange(0, le)) {
        None => None,
        Some((method, path)) => {
            let hs = if le >= head.len() {
                Some(Seq::empty())
            } else {
                header_lines(head, le + 2)
            };
            match hs {
                None => None,
                Some(headers) => match body_length(headers) {
                    None => None,
                    Some(length) => Some(RequestHead { method, path, headers, length }),
                },
            }
        },
    }
}

/// What the bytes received so far on a connection amount to.
pub enum RequestOutcome {
    /// More bytes are needed.
    Incomplete,
    /// The bytes cannot start a request.
    Invalid,
    /// A request whose body ends before position `end`.
    Complete(RequestHead, int),
}

pub open spec fn request_outcome(s: Seq<u8>) -> RequestOutcome {
    match head_end(s, 0) {
        None => RequestOutcome::Incomplete,
        Some(he) => match parse_head(s.subrange(0, he)) {
            None => RequestOutcome::Invalid,
            Some(h) => {
                if he + 4 + h.length <= s.len() {
                    RequestOutcome::Complete(h, he + 4 + h.length)
                } else {
                    RequestOutcome::Incomplete
                }
            },
        },
    }
}

/// The result of `parse_request`.
pub enum Parsed {
    Incomplete,
    Invalid,
    /// The request, and the number of bytes it took.
    Complete(HttpRequest, usize),
}

fn find_head_end(s: &[u8]) -> (r: Option<usize>)
    ensures
        match head_end(s@, 0) {
            Some(h) => r == Some(h as usize) && 0 <= h && h + 4 <= s@.len(),
            None => r is None,
        },
{
    let n = s.len();
    let mut i: usize = 0;
    while n >= 4 && i <= n - 4
        invariant
            n == s@.len(),
            head_end(s@, 0) == head_end(s@, i as int),
        decreases n - i,
    {
        if s[i] == CR && s[i + 1] == LF && s[i + 2] == CR && s[i + 3] == LF {
            return Some(i);
        }
        i = i + 1;
    }
    None
}

fn copy_range(s: &[u8], lo: usize, hi: usize) -> (r: Vec<u8>)
    requires
        lo <= hi <= s@.len(),
    ensures
        r@ == s@.subrange(lo as int, hi as int),
{
    let mut r: Vec<u8> = Vec::new();
    let mut i: usize = lo;
    while i < hi
        invariant
            lo <= i <= hi <= s@.len(),
            r@ == s@.subrange(lo as int, i as int),
        decreases hi - i,
    {
        r.push(s[i]);
        i = i + 1;
        assert(r@ =~= s@.subrange(lo as int, i as int));
    }
    r
}

fn find_byte_from(s: &[u8], i: usize, b: u8) -> (r: usize)
    requires
        i <= s@.len(),
    ensures
        r == find_byte(s@, i as int, b),
        i <= r <= s@.len(),
{
    let mut j: usize = i;
    while j < s.len() && s[j] != b
        invariant
            i <= j <= s@.len(),
            find_byte(s@, i as int, b) == find_byte(s@, j as int, b),
        decreases s@.len() - j,
    {
        j = j + 1;
    }
    j
}

fn find_crlf_from(s: &[u8], i: usize) -> (r: usize)
    requires
        i <= s@.len(),
    ensures
        r == find_crlf(s@, i as int),
        i <= r <= s@.len(),
        r < s@.len() ==> r + 1 < s@.len(),
{
    let n = s.len();
    let mut j: usize = i;
    while n > 0 && j < n - 1 && !(s[j] == CR && s[j + 1] == LF)
        invariant
            n == s@.len(),
            i <= j <= n,
            find_crlf(s@, i as int) == find_crlf(s@, j as int),
        decreases n - j,
    {
        j = j + 1;
    }
    if n > 0 && j < n - 1 {
        j
    } else {
        n
    }
}

fn bytes_equal(a: &[u8], b: &[u8]) -> (r: bool)
    ensures
        r == (a@ == b@),
{
    if a.len() != b.len() {
        return false;
    }
    let mut i: usize = 0;
    while i < a.len()
        invariant
            a@.len() == b@.len(),
            i <= a@.len(),
            forall|k: int| 0 <= k < i ==> a@[k] == b@[k],
        decreases a@.len() - i,
    {
        if a[i] != b[i] {
            return false;
        }
        i = i + 1;
    }
    assert(a@ =~= b@);
    true
}

fn trimmed(v: &[u8]) -> (r: Vec<u8>)
    ensures
        r@ == trim_end(trim_start(v@)),
{
    let n = v.len();
    let mut start: usize = 0;
    assert(v@.subrange(0, n as int) =~= v@);
    while start < n && (v[start] == SP || v[start] == 9)
        invariant
            n == v@.len(),
            start <= n,
            trim_start(v@) == trim_start(v@.subrange(start as int, n as int)),
        decreases n - start,
    {
        assert(v@.subrange(start as int, n as int).drop_first() =~= v@.subrange(start + 1, n as int));
        start = start + 1;
    }
    assert(trim_start(v@) == v@.subrange(start as int, n as int));
    let mut end: usize = n;
    while end > start && (v[end - 1] == SP || v[end - 1] == 9)
        invariant
            n == v@.len(),
            start <= end <= n,
            trim_end(v@.subrange(start as int, n as int)) == trim_end(
                v@.subrange(start as int, end as int),
            ),
        decreases end - start,
    {
        assert(v@.subrange(start as int, end as int).drop_last() =~= v@.subrange(
            start as int,
            end - 1,
        ));
        end = end - 1;
    }
    copy_range(v, start, end)
}

fn parse_request_line(line: &[u8]) -> (r: Option<(Vec<u8>, Vec<u8>)>)
    ensures
        match request_line(line@) {
            Some((m, p)) => (r matches Some((a, b)) && a@ == m && b@ == p),
            None => r is None,
        },
{
    let n = line.len();
    let sp1 = find_byte_from(line, 0, SP);
    if sp1 == 0 || sp1 >= n {
        return None;
    }
    let sp2 = find_byte_from(line, sp1 + 1, SP);
    if sp2 <= sp1 + 1 || sp2 >= n {
        return None;
    }
    let version = copy_range(line, sp2 + 1, n);
    let v11: [u8; 8] = [72, 84, 84, 80, 47, 49, 46, 49];
    let v10: [u8; 8] = [72, 84, 84, 80, 47, 49, 46, 48];
    assert(v11@ == http11());
    assert(v10@ == http10());
    if !bytes_equal(version.as_slice(), &v11) && !bytes_equal(version.as_slice(), &v10) {
        return None;
    }
    Some((copy_range(line, 0, sp1), copy_range(line, sp1 + 1, sp2)))
}

fn parse_header_line(line: &[u8]) -> (r: Option<Header>)
    ensures
        match header_line(line@) {
            Some(h) => (r matches Some(x) && x@ == h),
            None => r is None,
        },
{
    let n = line.len();
    let colon = find_byte_from(line, 0, COLON);
    if colon == 0 || colon >= n {
        return None;
    }
    let mut k: usize = 0;
    while k < colon
        invariant
            colon < n == line@.len(),
            colon == find_byte(line@, 0, COLON),
            k <= colon,
            forall|m: int| 0 <= m < k ==> is_name_byte(#[trigger] line@[m]),
        decreases colon - k,
    {
        if !(33 <= line[k] && line[k] <= 126 && line[k] != COLON) {
            assert(!is_name_byte(line@[k as int]));
            return None;
        }
        k = k + 1;
    }
    let name = copy_range(line, 0, colon);
    let rest = copy_range(line, colon + 1, n);
    let value = trimmed(rest.as_slice());
    Some(Header { name, value })
}

/// Prepends parsed header lines to the result of parsing the rest.
pub open spec fn prepend_headers(
    pre: Seq<(Seq<u8>, Seq<u8>)>,
    r: Option<Seq<(Seq<u8>, Seq<u8>)>>,
) -> Option<Seq<(Seq<u8>, Seq<u8>)>> {
    match r {
        Some(rest) => Some(pre + rest),
        None => None,
    }
}

fn parse_header_lines(head: &[u8], i: usize) -> (r: Option<Vec<Header>>)
    requires
        i <= head@.len(),
    ensures
        match header_lines(head@, i as int) {
            Some(hs) => (r matches Some(v) && v@.map_values(|h: Header| h@) == hs),
            None => r is None,
        },
{
    let n = head.len();
    let mut out: Vec<Header> = Vec::new();
    let mut j: usize = i;
    loop
        invariant
            n == head@.len(),
            j <= n,
            header_lines(head@, i as int) == prepend_headers(
                out@.map_values(|h: Header| h@),
                header_lines(head@, j as int),
            ),
        decreases n - j,
    {
        if j >= n {
            return None;
        }
        let e = find_crlf_from(head, j);
        let line = copy_range(head, j, e);
        let h = match parse_header_line(line.as_slice()) {
            Some(h) => h,
            None => return None,
        };
        let ghost pre = out@.map_values(|x: Header| x@);
        let ghost hv = h@;
        out.push(h);
        assert(out@.map_values(|x: Header| x@) =~= pre + seq![hv]);
        if e >= n {
            assert(pre + seq![hv] =~= pre + seq![hv] + Seq::<(Seq<u8>, Seq<u8>)>::empty());
            return Some(out);
        }
        proof {
            match header_lines(head@, e + 2) {
                Some(rest) => {
                    assert(pre + (seq![hv] + rest) =~= (pre + seq![hv]) + rest);
                },
                None => {},
            }
        }
        j = e + 2;
    }
}

fn is_content_length_name(name: &[u8]) -> (r: bool)
    ensures
        r == is_content_length(name@),
{
    let key: [u8; 14] = [99, 111, 110, 116, 101, 110, 116, 45, 108, 101, 110, 103, 116, 104];
    assert(key@ == content_length_name());
    if name.len() != 14 {
        return false;
    }
    let mut k: usize = 0;
    while k < 14
        invariant
            name@.len() == 14,
            key@ == content_length_name(),
            k <= 14,
            forall|m: int| 0 <= m < k ==> lower(#[trigger] name@[m]) == content_length_name()[m],
        decreases 14 - k,
    {
        let b = name[k];
        let l = if 65 <= b && b <= 90 {
            b + 32
        } else {
            b
        };
        if l != key[k] {
            return false;
        }
        k = k + 1;
    }
    true
}

fn declared_length(headers: &Vec<Header>) -> (r: Option<u64>)
    ensures
        r == body_length(headers@.map_values(|h: Header| h@)),
{
    let ghost hs = headers@.map_values(|h: Header| h@);
    assert(hs.subrange(0, hs.len() as int) =~= hs);
    let mut k: usize = 0;
    while k < headers.len()
        invariant
            k <= headers@.len(),
            hs == headers@.map_values(|h: Header| h@),
            body_length(hs) == body_length(hs.subrange(k as int, hs.len() as int)),
        decreases headers@.len() - k,
    {
        let ghost tail = hs.subrange(k as int, hs.len() as int);
        assert(tail[0] == headers@[k as int]@);
        if is_content_length_name(headers[k].name.as_slice()) {
            let value = headers[k].value.as_slice();
            return match parse_u64(value, 0) {
                Some((n, e)) => {
                    if e == value.len() {
                        Some(n)
                    } else {
                        None
                    }
                },
                None => None,
            };
        }
        assert(tail.drop_first() =~= hs.subrange(k + 1, hs.len() as int));
        k = k + 1;
    }
    assert(hs.subrange(k as int, hs.len() as int) =~= Seq::<(Seq<u8>, Seq<u8>)>::empty());
    Some(0)
}

/// Reads one request from the bytes received so far on a connection: its head
/// up to the first blank line, then as many body bytes as `Content-Length`
/// declares (none without it). Says `Incomplete` while bytes are missing and
/// `Invalid` when the head breaks the grammar of `request_outcome`.
pub fn parse_request(buf: &[u8]) -> (r: Parsed)
    ensures
        match request_outcome(buf@) {
            RequestOutcome::Incomplete => r is Incomplete,
            RequestOutcome::Invalid => r is Invalid,
            RequestOutcome::Complete(h, end) => (r matches Parsed::Complete(req, n) && req.method@
                == h.method && req.path@ == h.path && req.headers@.map_values(|x: Header| x@)
                == h.headers && req.body@ == buf@.subrange(end - h.length, end) && n == end),
        },
{
    let total = buf.len();
    let he = match find_head_end(buf) {
        Some(he) => he,
        None => return Parsed::Incomplete,
    };
    let head = copy_range(buf, 0, he);
    let n = head.len();
    let le = find_crlf_from(head.as_slice(), 0);
    let line = copy_range(head.as_slice(), 0, le);
    assert(head_end(buf@, 0) == Some(he as int));
    let (method, path) = match parse_request_line(line.as_slice()) {
        Some(mp) => mp,
        None => {
            assert(parse_head(head@) is None);
            return Parsed::Invalid;
        },
    };
    let headers = if le >= n {
        let empty: Vec<Header> = Vec::new();
        assert(empty@.map_values(|x: Header| x@) =~= Seq::<(Seq<u8>, Seq<u8>)>::empty());
        empty
    } else {
        match parse_header_lines(head.as_slice(), le + 2) {
            Some(hs) => hs,
            None => {
                assert(parse_head(head@) is None);
                return Parsed::Invalid;
            },
        }
    };
    let length = match declared_length(&headers) {
        Some(length) => length,
        None => return Parsed::Invalid,
    };
    let start = he + 4;
    let available = (total - start) as u64;
    if length > available {
        return Parsed::Incomplete;
    }
    let end = start + length as usize;
    let body = copy_range(buf, start, end);
    Parsed::Complete(HttpRequest { method, path, headers, body }, end)
}

} // verus!
