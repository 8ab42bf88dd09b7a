use vstd::prelude::*;
use crate::envelope::ResponseEnvelope;
use crate::envelope::ResponseView;
use crate::json::BACKSLASH;
use crate::json::COLON;
use crate::json::COMMA;
use crate::json::LBRACE;
use crate::json::QUOTE;
use crate::json::RBRACE;

verus! {

pub open spec fn is_ws(b: u8) -> bool {
    b == 32 || b == 9 || b == 10 || b == 13
}

/// The first position at or after `i` that holds no JSON whitespace.
pub open spec fn skip_ws(s: Seq<u8>, i: int) -> int
    decreases s.len() - i,
{
    if 0 <= i < s.len() && is_ws(s[i]) {
        skip_ws(s, i + 1)
    } else {
        i
    }
}

pub open spec fn is_digit(b: u8) -> bool {
    48 <= b <= 57
}

/// The end of the run of decimal digits that starts at `i`.
pub open spec fn digits_end(s: Seq<u8>, i: int) -> int
    decreases s.len() - i,
{
    if 0 <= i < s.len() && is_digit(s[i]) {
        digits_end(s, i + 1)
    } else {
        i
    }
}

/// The number that a run of decimal digits denotes.
pub open spec fn digits_value(d: Seq<u8>) -> nat
    decreases d.len(),
{
    if d.len() == 0 {
        0
    } else {
        digits_value(d.drop_last()) * 10 + (d.last() - 48) as nat
    }
}

/// A JSON unsigned integer that starts at `i` and fits in a `u64`: its value
/// and the position after it. A leading zero is allowed only in `0` itself.
pub open spec fn u64_at(s: Seq<u8>, i: int) -> Option<(u64, int)> {
    let j = digits_end(s, i);
    if j == i || (s[i] == 48 && j > i + 1) {
        None
    } else if digits_value(s.subrange(i, j)) > u64::MAX {
        None
    } else {
        Some((digits_value(s.subrange(i, j)) as u64, j))
    }
}

/// The value of a hexadecimal digit, in either case.
pub open spec fn hex_value(b: u8) -> Option<nat> {
    if 48 <= b <= 57 {
        Some((b - 48) as nat)
    } else if 97 <= b <= 102 {
        Some((b - 87) as nat)
    } else if 65 <= b <= 70 {
        Some((b - 55) as nat)
    } else {
        None
    }
}

/// The value of the four hexadecimal digits at `i`.
pub open spec fn hex4_at(s: Seq<u8>, i: int) -> Option<nat> {
    if 0 <= i && i + 4 <= s.len() && hex_value(s[i]) is Some && hex_value(s[i + 1]) is Some
        && hex_value(s[i + 2]) is Some && hex_value(s[i + 3]) is Some {
        Some(
            hex_value(s[i])->0 * 4096 + hex_value(s[i + 1])->0 * 256 + hex_value(s[i + 2])->0 * 16
                + hex_value(s[i + 3])->0,
        )
    } else {
        None
    }
}

/// The UTF-8 encoding of the scalar value `cp`.
pub open spec fn utf8_bytes(cp: nat) -> Seq<u8> {
    if cp < 0x80 {
        seq![cp as u8]
    } else if cp < 0x800 {
        seq![(0xC0 + cp / 64) as u8, (0x80 + cp % 64) as u8]
    } else if cp < 0x10000 {
        seq![(0xE0 + cp / 4096) as u8, (0x80 + (cp / 64) % 64) as u8, (0x80 + cp % 64) as u8]
    } else {
        seq![
            (0xF0 + cp / 262144) as u8,
            (0x80 + (cp / 4096) % 64) as u8,
            (0x80 + (cp / 64) % 64) as u8,
            (0x80 + cp % 64) as u8,
        ]
    }
}

/// The bytes that the escape sequence starting with the backslash at `i`
/// stands for, and the position after it. A `\u` escape of a high surrogate
/// must be followed by one of a low surrogate; a lone surrogate is refused.
pub open spec fn escape_at(s: Seq<u8>, i: int) -> Option<(Seq<u8>, int)> {
    if !(0 <= i && i + 1 < s.len()) {
        None
    } else {
        let c = s[i + 1];
        if c == QUOTE || c == BACKSLASH || c == 47 {
            Some((seq![c], i + 2))
        } else if c == 98 {
            Some((seq![8u8], i + 2))
        } else if c == 102 {
            Some((seq![12u8], i + 2))
        } else if c == 110 {
            Some((seq![10u8], i + 2))
        } else if c == 114 {
            Some((seq![13u8], i + 2))
        } else if c == 116 {
            Some((seq![9u8], i + 2))
        } else if c == 117 {
            match hex4_at(s, i + 2) {
                None => None,
                Some(hi) => {
                    if 0xD800 <= hi < 0xDC00 {
                        if i + 7 < s.len() && s[i + 6] == BACKSLASH && s[i + 7] == 117 {
                            match hex4_at(s, i + 8) {
                                Some(lo) => {
                                    if 0xDC00 <= lo < 0xE000 {
                                        Some(
                                            (
                                                utf8_bytes(
                                                    (0x10000 + (hi - 0xD800) * 1024 + (lo
                                                        - 0xDC00)) as nat,
                                                ),
                                                i + 12,
                                            ),
                                        )
                                    } else {
                                        None
                                    }
                                },
                                None => None,
                            }
                        } else {
                            None
                        }
                    } else if 0xDC00 <= hi < 0xE000 {
                        None
                    } else {
                        Some((utf8_bytes(hi), i + 6))
                    }
                },
            }
        } else {
            None
        }
    }
}

/// Prepends `prefix` to the text of a partial string parse.
pub open spec fn prepend(prefix: Seq<u8>, r: Option<(Seq<u8>, int)>) -> Option<(Seq<u8>, int)> {
    match r {
        Some((rest, e)) => Some((prefix + rest, e)),
        None => None,
    }
}

/// The contents of a JSON string literal whose opening quote stands just
/// before `i`: the bytes it denotes and the position after its closing quote.
/// Control characters must be escaped.
pub open spec fn string_at(s: Seq<u8>, i: int) -> Option<(Seq<u8>, int)>
    decreases s.len() - i,
{
    if !(0 <= i < s.len()) {
        None
    } else if s[i] == QUOTE {
        Some((Seq::empty(), i + 1))
    } else if s[i] < 32 {
        None
    } else if s[i] == BACKSLASH {
        match escape_at(s, i) {
            Some((b, j)) => {
                if j > i {
                    prepend(b, string_at(s, j))
                } else {
                    None
                }
            },
            None => None,
        }
    } else {
        prepend(seq![s[i]], string_at(s, i + 1))
    }
}

/// The members of a reply read so far.
pub struct Fields {
    pub request_id: Option<u64>,
    pub status: Option<u64>,
    pub body: Option<Seq<u8>>,
}

/// `"request_id"`
pub open spec fn request_id_name() -> Seq<u8> {
    seq![34u8, 114, 101, 113, 117, 101, 115, 116, 95, 105, 100, 34]
}

/// `"status"`
pub open spec fn status_name() -> Seq<u8> {
    seq![34u8, 115, 116, 97, 116, 117, 115, 34]
}

/// `"body"`
pub open spec fn body_name() -> Seq<u8> {
    seq![34u8, 98, 111, 100, 121, 34]
}

/// Whether `key` stands at `i`.
pub open spec fn key_at(s: Seq<u8>, i: int, key: Seq<u8>) -> bool {
    0 <= i && i + key.len() <= s.len() && s.subrange(i, i + key.len()) == key
}

/// The start of a member's value, after the key that ends before `i`.
pub open spec fn value_start(s: Seq<u8>, i: int) -> Option<int> {
    let j = skip_ws(s, i);
    if 0 <= j < s.len() && s[j] == COLON {
        Some(skip_ws(s, j + 1))
    } else {
        None
    }
}

/// One member at `i`, added to `f`: the fields after it and the position
/// after its value. A member that `f` already holds is refused.
pub open spec fn member_at(s: Seq<u8>, i: int, f: Fields) -> Option<(Fields, int)> {
    if key_at(s, i, request_id_name()) && f.request_id is None {
        match value_start(s, i + 12) {
            Some(k) => match u64_at(s, k) {
                Some((v, e)) => Some((Fields { request_id: Some(v), ..f }, e)),
                None => None,
            },
            None => None,
        }
    } else if key_at(s, i, status_name()) && f.status is None {
        match value_start(s, i + 8) {
            Some(k) => match u64_at(s, k) {
                Some((v, e)) => Some((Fields { status: Some(v), ..f }, e)),
                None => None,
            },
            None => None,
        }
    } else if key_at(s, i, body_name()) && f.body is None {
        match value_start(s, i + 6) {
            Some(k) => {
                if 0 <= k < s.len() && s[k] == QUOTE {
                    match string_at(s, k + 1) {
                        Some((b, e)) => Some((Fields { body: Some(b), ..f }, e)),
                        None => None,
                    }
                } else {
                    None
                }
            },
            None => None,
        }
    } else {
        None
    }
}

/// The members from `i` up to the closing brace: the fields read and the
/// position after the brace.
pub open spec fn members_at(s: Seq<u8>, i: int, f: Fields) -> Option<(Fields, int)>
    decreases s.len() - i,
{
    if !(0 <= i < s.len()) {
        None
    } else {
        match member_at(s, i, f) {
        None => None,
        Some((g, e)) => {
            let j = skip_ws(s, e);
            if 0 <= j < s.len() && s[j] == COMMA {
                if i < skip_ws(s, j + 1) <= s.len() {
                    members_at(s, skip_ws(s, j + 1), g)
                } else {
                    None
                }
            } else if 0 <= j < s.len() && s[j] == RBRACE {
                Some((g, j + 1))
            } else {
                None
            }
        },
        }
    }
}

/// The reply that a message denotes: a JSON object, with whitespace allowed
/// between tokens, holding exactly the members `request_id` and `status`
/// (unsigned integers that fit in 64 bits) and `body` (a string), in any order.
pub open spec fn parse_response(s: Seq<u8>) -> Option<ResponseView> {
    let i = skip_ws(s, 0);
    if 0 <= i < s.len() && s[i] == LBRACE {
        match members_at(s, skip_ws(s, i + 1), Fields { request_id: None, status: None, body: None }) {
            Some((f, e)) => {
                if skip_ws(s, e) == s.len() && f.request_id is Some && f.status is Some
                    && f.body is Some {
                    Some(
                        ResponseView {
                            request_id: f.request_id->0,
                            status: f.status->0,
                            body: f.body->0,
                        },
                    )
                } else {
                    None
                }
            },
            None => None,
        }
    } else {
        None
    }
}

fn skip_whitespace(s: &[u8], i: usize) -> (r: usize)
    requires
        i <= s@.len(),
    ensures
        r == skip_ws(s@, i as int),
        i <= r <= s@.len(),
{
    let mut j: usize = i;
    while j < s.len() && (s[j] == 32 || s[j] == 9 || s[j] == 10 || s[j] == 13)
        invariant
            i <= j <= s@.len(),
            skip_ws(s@, i as int) == skip_ws(s@, j as int),
        decreases s@.len() - j,
    {
        j = j + 1;
    }
    j
}

proof fn lemma_digits_value_step(d: Seq<u8>)
    requires
        d.len() > 0,
    ensures
        digits_value(d) == digits_value(d.drop_last()) * 10 + (d.last() - 48) as nat,
        digits_value(d) >= digits_value(d.drop_last()),
{
}

pub(crate) fn parse_u64(s: &[u8], i: usize) -> (r: Option<(u64, usize)>)
    requires
        i <= s@.len(),
    ensures
        match u64_at(s@, i as int) {
            Some((v, e)) => r == Some((v, e as usize)) && i < e <= s@.len(),
            None => r is None,
        },
{
    let mut j: usize = i;
    let mut acc: u64 = 0;
    let mut overflow = false;
    while j < s.len() && 48 <= s[j] && s[j] <= 57
        invariant
            i <= j <= s@.len(),
            digits_end(s@, i as int) == digits_end(s@, j as int),
            !overflow ==> acc == digits_value(s@.subrange(i as int, j as int)),
            overflow ==> digits_value(s@.subrange(i as int, j as int)) > u64::MAX,
        decreases s@.len() - j,
    {
        let d = (s[j] - 48) as u64;
        let ghost before = digits_value(s@.subrange(i as int, j as int));
        if !overflow {
            if acc > (u64::MAX - d) / 10 {
                overflow = true;
                assert(acc * 10 + d > u64::MAX) by (nonlinear_arith)
                    requires
                        acc > (u64::MAX - d) / 10,
                        d <= 9,
                ;
            } else {
                assert(acc * 10 + d <= u64::MAX) by (nonlinear_arith)
                    requires
                        acc <= (u64::MAX - d) / 10,
                        d <= 9,
                ;
                acc = acc * 10 + d;
            }
        }
        j = j + 1;
        assert(s@.subrange(i as int, j as int).drop_last() =~= s@.subrange(i as int, j - 1));
        proof {
            lemma_digits_value_step(s@.subrange(i as int, j as int));
        }
    }
    if j == i || (s[i] == 48 && j > i + 1) {
        return None;
    }
    if overflow {
        return None;
    }
    Some((acc, j))
}

fn hex_digit_value(b: u8) -> (r: Option<u32>)
    ensures
        match hex_value(b) {
            Some(v) => r == Some(v as u32),
            None => r is None,
        },
{
    if 48 <= b && b <= 57 {
        Some((b - 48) as u32)
    } else if 97 <= b && b <= 102 {
        Some((b - 87) as u32)
    } else if 65 <= b && b <= 70 {
        Some((b - 55) as u32)
    } else {
        None
    }
}

fn parse_hex4(s: &[u8], i: usize) -> (r: Option<u32>)
    ensures
        match hex4_at(s@, i as int) {
            Some(v) => r == Some(v as u32) && v < 0x10000,
            None => r is None,
        },
{
    if i > s.len() || s.len() - i < 4 {
        return None;
    }
    let a = hex_digit_value(s[i]);
    let b = hex_digit_value(s[i + 1]);
    let c = hex_digit_value(s[i + 2]);
    let d = hex_digit_value(s[i + 3]);
    match (a, b, c, d) {
        (Some(a), Some(b), Some(c), Some(d)) => Some(a * 4096 + b * 256 + c * 16 + d),
        _ => None,
    }
}

fn push_utf8(out: &mut Vec<u8>, cp: u32)
    requires
        cp < 0x110000,
    ensures
        final(out)@ == old(out)@ + utf8_bytes(cp as nat),
{
    if cp < 0x80 {
        out.push(cp as u8);
    } else if cp < 0x800 {
        out.push((0xC0 + cp / 64) as u8);
        out.push((0x80 + cp % 64) as u8);
    } else if cp < 0x10000 {
        out.push((0xE0 + cp / 4096) as u8);
        out.push((0x80 + (cp / 64) % 64) as u8);
        out.push((0x80 + cp % 64) as u8);
    } else {
        out.push((0xF0 + cp / 262144) as u8);
        out.push((0x80 + (cp / 4096) % 64) as u8);
        out.push((0x80 + (cp / 64) % 64) as u8);
        out.push((0x80 + cp % 64) as u8);
    }
    assert(final(out)@ =~= old(out)@ + utf8_bytes(cp as nat));
}

fn push_escape(s: &[u8], i: usize, out: &mut Vec<u8>) -> (r: Option<usize>)
    ensures
        match escape_at(s@, i as int) {
            Some((b, j)) => r == Some(j as usize) && final(out)@ == old(out)@ + b && i < j <= s@.len(),
            None => r is None,
        },
{
    if i >= s.len() || s.len() - i < 2 {
        return None;
    }
    let c = s[i + 1];
    if c == QUOTE || c == BACKSLASH || c == 47 {
        out.push(c);
    } else if c == 98 {
        out.push(8);
    } else if c == 102 {
        out.push(12);
    } else if c == 110 {
        out.push(10);
    } else if c == 114 {
        out.push(13);
    } else if c == 116 {
        out.push(9);
    } else if c == 117 {
        let hi = match parse_hex4(s, i + 2) {
            Some(v) => v,
            None => return None,
        };
        if 0xD800 <= hi && hi < 0xDC00 {
            if s.len() - i > 7 && s[i + 6] == BACKSLASH && s[i + 7] == 117 {
                let lo = match parse_hex4(s, i + 8) {
                    Some(v) => v,
                    None => return None,
                };
                if 0xDC00 <= lo && lo < 0xE000 {
                    push_utf8(out, 0x10000 + (hi - 0xD800) * 1024 + (lo - 0xDC00));
                    return Some(i + 12);
                }
            }
            return None;
        } else if 0xDC00 <= hi && hi < 0xE000 {
            return None;
        } else {
            push_utf8(out, hi);
            return Some(i + 6);
        }
    } else {
        return None;
    }
    Some(i + 2)
}

fn parse_string(s: &[u8], i: usize) -> (r: Option<(Vec<u8>, usize)>)
    ensures
        match string_at(s@, i as int) {
            Some((b, e)) => (r matches Some((v, e2)) && v@ == b && e2 == e && i < e <= s@.len()),
            None => r is None,
        },
{
    let mut out: Vec<u8> = Vec::new();
    let mut j: usize = i;
    while j < s.len()
        invariant
            i <= j,
            string_at(s@, i as int) == prepend(out@, string_at(s@, j as int)),
        decreases s@.len() - j,
    {
        let c = s[j];
        if c == QUOTE {
            assert(out@ + Seq::<u8>::empty() =~= out@);
            return Some((out, j + 1));
        } else if c < 32 {
            return None;
        } else if c == BACKSLASH {
            let ghost before = out@;
            match push_escape(s, j, &mut out) {
                Some(k) => {
                    proof {
                        let (b, _) = escape_at(s@, j as int)->0;
                        assert(out@ == before + b);
                        match string_at(s@, k as int) {
                            Some((rest, e)) => {
                                assert(before + (b + rest) =~= out@ + rest);
                            },
                            None => {},
                        }
                    }
                    j = k;
                },
                None => {
                    return None;
                },
            }
        } else {
            let ghost before = out@;
            out.push(c);
            proof {
                match string_at(s@, j + 1) {
                    Some((rest, e)) => {
                        assert(before + (seq![c] + rest) =~= out@ + rest);
                    },
                    None => {},
                }
            }
            j = j + 1;
        }
    }
    None
}

fn key_matches(s: &[u8], i: usize, key: &[u8]) -> (r: bool)
    ensures
        r == key_at(s@, i as int, key@),
{
    if i > s.len() || s.len() - i < key.len() {
        return false;
    }
    let n = s.len();
    let mut k: usize = 0;
    while k < key.len()
        invariant
            n == s@.len(),
            k <= key@.len(),
            i + key@.len() <= s@.len(),
            forall|m: int| 0 <= m < k ==> s@[i + m] == key@[m],
        decreases key@.len() - k,
    {
        if s[i + k] != key[k] {
            assert(s@.subrange(i as int, i + key@.len())[k as int] != key@[k as int]);
            return false;
        }
        k = k + 1;
    }
    assert(s@.subrange(i as int, i + key@.len()) =~= key@);
    true
}

fn parse_value_start(s: &[u8], i: usize) -> (r: Option<usize>)
    requires
        i <= s@.len(),
    ensures
        match value_start(s@, i as int) {
            Some(k) => r == Some(k as usize) && i < k <= s@.len(),
            None => r is None,
        },
{
    let j = skip_whitespace(s, i);
    if j < s.len() && s[j] == COLON {
        Some(skip_whitespace(s, j + 1))
    } else {
        None
    }
}

/// The members of a reply read so far, as values.
struct Members {
    request_id: Option<u64>,
    status: Option<u64>,
    body: Option<Vec<u8>>,
}

impl View for Members {
    type V = Fields;

    closed spec fn view(&self) -> Fields {
        Fields {
            request_id: self.request_id,
            status: self.status,
            body: match self.body {
                Some(b) => Some(b@),
                None => None,
            },
        }
    }
}

fn parse_member(s: &[u8], i: usize, m: &mut Members) -> (r: Option<usize>)
    requires
        i <= s@.len(),
    ensures
        match member_at(s@, i as int, old(m)@) {
            Some((g, e)) => r == Some(e as usize) && final(m)@ == g && i < e <= s@.len(),
            None => r is None,
        },
{
    if i >= s.len() {
        return None;
    }
    let id_key: [u8; 12] = [34, 114, 101, 113, 117, 101, 115, 116, 95, 105, 100, 34];
    let status_key: [u8; 8] = [34, 115, 116, 97, 116, 117, 115, 34];
    let body_key: [u8; 6] = [34, 98, 111, 100, 121, 34];
    assert(id_key@ == request_id_name());
    assert(status_key@ == status_name());
    assert(body_key@ == body_name());
    if m.request_id.is_none() && key_matches(s, i, &id_key) {
        let k = match parse_value_start(s, i + 12) {
            Some(k) => k,
            None => return None,
        };
        match parse_u64(s, k) {
            Some((v, e)) => {
                m.request_id = Some(v);
                Some(e)
            },
            None => None,
        }
    } else if m.status.is_none() && key_matches(s, i, &status_key) {
        let k = match parse_value_start(s, i + 8) {
            Some(k) => k,
            None => return None,
        };
        match parse_u64(s, k) {
            Some((v, e)) => {
                m.status = Some(v);
                Some(e)
            },
            None => None,
        }
    } else if m.body.is_none() && key_matches(s, i, &body_key) {
        let k = match parse_value_start(s, i + 6) {
            Some(k) => k,
            None => return None,
        };
        if k < s.len() && s[k] == QUOTE {
            match parse_string(s, k + 1) {
                Some((b, e)) => {
                    m.body = Some(b);
                    Some(e)
                },
                None => None,
            }
        } else {
            None
        }
    } else {
        None
    }
}

fn parse_members(s: &[u8], i: usize, m: &mut Members) -> (r: Option<usize>)
    requires
        i <= s@.len(),
    ensures
        match members_at(s@, i as int, old(m)@) {
            Some((g, e)) => r == Some(e as usize) && final(m)@ == g && i < e <= s@.len(),
            None => r is None,
        },
{
    let mut j: usize = i;
    loop
        invariant
            i <= j <= s@.len(),
            members_at(s@, i as int, old(m)@) == members_at(s@, j as int, m@),
        decreases s@.len() - j,
    {
        if j >= s.len() {
            return None;
        }
        let e = match parse_member(s, j, m) {
            Some(e) => e,
            None => return None,
        };
        let k = skip_whitespace(s, e);
        if k < s.len() && s[k] == COMMA {
            let n = skip_whitespace(s, k + 1);
            if n <= j {
                return None;
            }
            j = n;
        } else if k < s.len() && s[k] == RBRACE {
            return Some(k + 1);
        } else {
            return None;
        }
    }
}

/// Decodes a reply of the external responder; `None` when the message is not
/// a well-formed reply (see `parse_response`).
pub fn decode_response(s: &[u8]) -> (r: Option<ResponseEnvelope>)
    ensures
        match parse_response(s@) {
            Some(v) => (r matches Some(e) && e@ == v),
            None => r is None,
        },
{
    let i = skip_whitespace(s, 0);
    if !(i < s.len() && s[i] == LBRACE) {
        return None;
    }
    let start = skip_whitespace(s, i + 1);
    let mut m = Members { request_id: None, status: None, body: None };
    let e = match parse_members(s, start, &mut m) {
        Some(e) => e,
        None => return None,
    };
    if skip_whitespace(s, e) != s.len() {
        return None;
    }
    match (m.request_id, m.status, m.body) {
        (Some(request_id), Some(status), Some(body)) => Some(
            ResponseEnvelope { request_id, status, body },
        ),
        _ => None,
    }
}

} // verus!
