use vstd::prelude::*;
use crate::decode::digits_end;
use crate::decode::digits_value;
use crate::decode::is_digit;
use crate::decode::body_name;
use crate::decode::escape_at;
use crate::decode::hex4_at;
use crate::decode::hex_value;
use crate::decode::member_at;
use crate::decode::members_at;
use crate::decode::parse_response;
use crate::decode::request_id_name;
use crate::decode::skip_ws;
use crate::decode::status_name;
use crate::decode::value_start;
use crate::decode::Fields;
use crate::decode::prepend;
use crate::decode::string_at;
use crate::decode::u64_at;
use crate::decode::utf8_bytes;
use crate::envelope::ResponseView;
use crate::json::decimal;
use crate::json::json_string;
use crate::json::COLON;
use crate::json::COMMA;
use crate::json::LBRACE;
use crate::json::RBRACE;
use crate::json::escape;
use crate::json::escape_byte;
use crate::json::hex_digit;
use crate::json::BACKSLASH;
use crate::json::QUOTE;

verus! {

proof fn lemma_decimal_digits(n: nat)
    ensures
        decimal(n).len() >= 1,
        forall|j: int| 0 <= j < decimal(n).len() ==> is_digit(#[trigger] decimal(n)[j]),
        decimal(n)[0] == 48 ==> n == 0 && decimal(n).len() == 1,
        digits_value(decimal(n)) == n,
    decreases n,
{
    if n >= 10 {
        lemma_decimal_digits(n / 10);
        let d = decimal(n);
        assert(d.drop_last() =~= decimal(n / 10));
        assert(d[0] == decimal(n / 10)[0]);
        assert(d.last() == (48 + n % 10) as u8);
        assert(48 + n % 10 < 256);
        assert((d.last() - 48) as nat == n % 10);
        assert(digits_value(d) == digits_value(d.drop_last()) * 10 + (d.last() - 48) as nat);
        assert((n / 10) * 10 + n % 10 == n) by (nonlinear_arith);
    } else {
        assert(decimal(n).drop_last() =~= Seq::<u8>::empty());
        assert(decimal(n).last() == (48 + n) as u8);
        assert((decimal(n).last() - 48) as nat == n);
        assert(digits_value(decimal(n)) == digits_value(decimal(n).drop_last()) * 10 + (
        decimal(n).last() - 48) as nat);
    }
}

proof fn lemma_digits_end(s: Seq<u8>, i: int, k: int)
    requires
        0 <= i,
        0 <= k,
        i + k <= s.len(),
        forall|j: int| i <= j < i + k ==> is_digit(#[trigger] s[j]),
        i + k == s.len() || !is_digit(s[i + k]),
    ensures
        digits_end(s, i) == i + k,
    decreases k,
{
    if k > 0 {
        lemma_digits_end(s, i + 1, k - 1);
    }
}

/// A number written by `decimal`, followed by something other than a digit,
/// reads back as that number.
proof fn lemma_u64_in(a: Seq<u8>, n: u64, b: Seq<u8>)
    requires
        b.len() == 0 || !is_digit(b[0]),
    ensures
        u64_at(a + decimal(n as nat) + b, a.len() as int) == Some(
            (n, (a.len() + decimal(n as nat).len()) as int),
        ),
{
    let d = decimal(n as nat);
    let s = a + d + b;
    let i = a.len() as int;
    lemma_decimal_digits(n as nat);
    assert forall|j: int| i <= j < i + d.len() implies is_digit(#[trigger] s[j]) by {
        assert(s[j] == d[j - i]);
    }
    if b.len() > 0 {
        assert(s[i + d.len()] == b[0]);
    }
    lemma_digits_end(s, i, d.len() as int);
    assert(s.subrange(i, i + d.len()) =~= d);
    assert(s[i] == d[0]);
}

proof fn lemma_escape_concat(x: Seq<u8>, y: Seq<u8>)
    ensures
        escape(x + y) == escape(x) + escape(y),
    decreases y.len(),
{
    if y.len() == 0 {
        assert(x + y =~= x);
        assert(escape(x) + escape(y) =~= escape(x));
    } else {
        lemma_escape_concat(x, y.drop_last());
        assert((x + y).drop_last() =~= x + y.drop_last());
        assert((x + y).last() == y.last());
        assert(escape(x) + escape(y) =~= escape(x) + escape(y.drop_last()) + escape_byte(y.last()));
    }
}

proof fn lemma_escape_front(body: Seq<u8>)
    requires
        body.len() > 0,
    ensures
        escape(body) == escape_byte(body[0]) + escape(body.drop_first()),
{
    assert(body =~= seq![body[0]] + body.drop_first());
    lemma_escape_concat(seq![body[0]], body.drop_first());
    let one = seq![body[0]];
    assert(one.drop_last() =~= Seq::<u8>::empty());
    assert(one.last() == body[0]);
    assert(escape(Seq::<u8>::empty()) == Seq::<u8>::empty());
    assert(escape(one) == escape(one.drop_last()) + escape_byte(one.last()));
    assert(escape(one) =~= escape_byte(body[0]));
}

proof fn lemma_hex_digit(x: u8)
    requires
        x < 16,
    ensures
        hex_value(hex_digit(x)) == Some(x as nat),
{
}

/// One escaped byte at `i`, followed by the escapes of the rest, reads back as
/// that byte.
proof fn lemma_escaped_byte(s: Seq<u8>, i: int, c: u8)
    requires
        0 <= i,
        i + escape_byte(c).len() < s.len(),
        s.subrange(i, i + escape_byte(c).len()) == escape_byte(c),
    ensures
        string_at(s, i) == prepend(seq![c], string_at(s, i + escape_byte(c).len())),
{
    let e = escape_byte(c);
    assert forall|k: int| 0 <= k < e.len() implies s[i + k] == #[trigger] e[k] by {
        assert(s.subrange(i, i + e.len())[k] == s[i + k]);
    }
    if c == QUOTE || c == BACKSLASH || c == 8 || c == 12 || c == 10 || c == 13 || c == 9 {
        assert(s[i] == BACKSLASH);
        assert(s[i + 1] == e[1]);
        assert(escape_at(s, i) == Some((seq![c], i + 2)));
    } else if c < 32 {
        assert(s[i] == BACKSLASH);
        assert(s[i + 1] == 117);
        assert(s[i + 2] == 48 && s[i + 3] == 48);
        assert(s[i + 4] == hex_digit(c / 16) && s[i + 5] == hex_digit(c % 16));
        lemma_hex_digit(c / 16);
        lemma_hex_digit(c % 16);
        assert(hex_value(48) == Some(0nat));
        assert(hex4_at(s, i + 2) == Some(((c / 16) * 16 + c % 16) as nat));
        assert((c / 16) * 16 + c % 16 == c);
        assert(utf8_bytes(c as nat) =~= seq![c]);
        assert(escape_at(s, i) == Some((seq![c], i + 6)));
    } else {
        assert(e[0] == c);
        assert(s[i] == c);
    }
}

/// An escaped text followed by a closing quote reads back as the text.
proof fn lemma_string_in(a: Seq<u8>, body: Seq<u8>, b: Seq<u8>)
    ensures
        string_at(a + escape(body) + seq![QUOTE] + b, a.len() as int) == Some(
            (body, (a.len() + escape(body).len() + 1) as int),
        ),
    decreases body.len(),
{
    let s = a + escape(body) + seq![QUOTE] + b;
    let i = a.len() as int;
    if body.len() == 0 {
        assert(s[i] == QUOTE);
    } else {
        let c = body[0];
        let rest = body.drop_first();
        lemma_escape_front(body);
        let e = escape_byte(c);
        let a2 = a + e;
        assert(s =~= a2 + escape(rest) + seq![QUOTE] + b);
        lemma_string_in(a2, rest, b);
        assert(s.subrange(i, i + e.len()) =~= e);
        lemma_escaped_byte(s, i, c);
        assert(seq![c] + rest =~= body);
    }
}

/// `{"request_id":`
pub open spec fn reply_open() -> Seq<u8> {
    seq![123u8, 34, 114, 101, 113, 117, 101, 115, 116, 95, 105, 100, 34, 58]
}

/// `,"status":`
pub open spec fn status_part() -> Seq<u8> {
    seq![44u8, 34, 115, 116, 97, 116, 117, 115, 34, 58]
}

/// `,"body":`
pub open spec fn body_part() -> Seq<u8> {
    seq![44u8, 34, 98, 111, 100, 121, 34, 58]
}

/// A reply as the compact JSON object `{"request_id":N,"status":S,"body":"..."}`,
/// its body escaped as `json_string` escapes text.
pub open spec fn reply_text(r: ResponseView) -> Seq<u8> {
    reply_open() + decimal(r.request_id as nat) + status_part() + decimal(r.status as nat)
        + body_part() + json_string(r.body) + seq![RBRACE]
}

/// The member `"request_id":N` at `p`, before something other than a digit.
proof fn lemma_id_member(t: Seq<u8>, p: int, n: u64, f: Fields)
    requires
        0 <= p,
        f.request_id is None,
        p + 13 + decimal(n as nat).len() < t.len(),
        t.subrange(p, p + 12) == request_id_name(),
        t[p + 12] == COLON,
        t.subrange(p + 13, p + 13 + decimal(n as nat).len()) == decimal(n as nat),
        !is_digit(t[p + 13 + decimal(n as nat).len()]),
    ensures
        member_at(t, p, f) == Some(
            (Fields { request_id: Some(n), ..f }, p + 13 + decimal(n as nat).len()),
        ),
{
    let d = decimal(n as nat);
    lemma_decimal_digits(n as nat);
    let a = t.subrange(0, p + 13);
    let b = t.subrange(p + 13 + d.len(), t.len() as int);
    assert(t =~= a + d + b);
    lemma_u64_in(a, n, b);
    assert(t[p + 13] == d[0]);
    assert(value_start(t, p + 12) == Some(p + 13));
}

/// The member `"status":S` at `p`, before something other than a digit.
proof fn lemma_status_member(t: Seq<u8>, p: int, n: u64, f: Fields)
    requires
        0 <= p,
        f.status is None,
        p + 9 + decimal(n as nat).len() < t.len(),
        t.subrange(p, p + 8) == status_name(),
        t[p + 8] == COLON,
        t.subrange(p + 9, p + 9 + decimal(n as nat).len()) == decimal(n as nat),
        !is_digit(t[p + 9 + decimal(n as nat).len()]),
    ensures
        member_at(t, p, f) == Some(
            (Fields { status: Some(n), ..f }, p + 9 + decimal(n as nat).len()),
        ),
{
    let d = decimal(n as nat);
    lemma_decimal_digits(n as nat);
    let a = t.subrange(0, p + 9);
    let b = t.subrange(p + 9 + d.len(), t.len() as int);
    assert(t =~= a + d + b);
    lemma_u64_in(a, n, b);
    assert(t[p + 9] == d[0]);
    assert(value_start(t, p + 8) == Some(p + 9));
    assert(t[p + 1] == t.subrange(p, p + 8)[1]);
    if p + 12 <= t.len() {
        assert(t.subrange(p, p + 12)[1] != request_id_name()[1]);
    }
}

/// The member `"body":"..."` at `p`.
#[verifier::rlimit(100)]
proof fn lemma_body_member(t: Seq<u8>, p: int, body: Seq<u8>, f: Fields)
    requires
        0 <= p,
        f.body is None,
        p + 8 + escape(body).len() < t.len(),
        t.subrange(p, p + 6) == body_name(),
        t[p + 6] == COLON,
        t[p + 7] == QUOTE,
        t.subrange(p + 8, p + 8 + escape(body).len()) == escape(body),
        t[p + 8 + escape(body).len()] == QUOTE,
    ensures
        member_at(t, p, f) == Some(
            (Fields { body: Some(body), ..f }, p + 9 + escape(body).len()),
        ),
{
    let e = escape(body);
    let a = t.subrange(0, p + 8);
    let b = t.subrange(p + 9 + e.len(), t.len() as int);
    assert(t =~= a + e + seq![QUOTE] + b);
    lemma_string_in(a, body, b);
    assert(value_start(t, p + 6) == Some(p + 7));
    assert(t[p + 1] == t.subrange(p, p + 6)[1]);
    if p + 12 <= t.len() {
        assert(t.subrange(p, p + 12)[1] != request_id_name()[1]);
    }
    if p + 8 <= t.len() {
        assert(t.subrange(p, p + 8)[1] != status_name()[1]);
    }
}

/// Where the parts of a reply stand in a text `t`: the layout of `reply_text(r)`.
pub open spec fn reply_layout(t: Seq<u8>, r: ResponseView) -> bool {
    let n1 = decimal(r.request_id as nat).len() as int;
    let n2 = decimal(r.status as nat).len() as int;
    let e = escape(r.body);
    let key2 = 15 + n1;
    let key3 = 25 + n1 + n2;
    &&& t.len() == 35 + n1 + n2 + e.len()
    &&& t[0] == LBRACE
    &&& t.subrange(1, 13) == request_id_name()
    &&& t[13] == COLON
    &&& t.subrange(14, 14 + n1) == decimal(r.request_id as nat)
    &&& t[14 + n1] == COMMA
    &&& t.subrange(key2, key2 + 8) == status_name()
    &&& t[key2 + 8] == COLON
    &&& t.subrange(key2 + 9, key2 + 9 + n2) == decimal(r.status as nat)
    &&& t[key2 + 9 + n2] == COMMA
    &&& t.subrange(key3, key3 + 6) == body_name()
    &&& t[key3 + 6] == COLON
    &&& t[key3 + 7] == QUOTE
    &&& t.subrange(key3 + 8, key3 + 8 + e.len()) == e
    &&& t[key3 + 8 + e.len()] == QUOTE
    &&& t[key3 + 9 + e.len()] == RBRACE
}

#[verifier::rlimit(100)]
proof fn lemma_reply_layout(r: ResponseView)
    ensures
        reply_layout(reply_text(r), r),
{
    let t = reply_text(r);
    let d1 = decimal(r.request_id as nat);
    let d2 = decimal(r.status as nat);
    let e = escape(r.body);
    let n1 = d1.len() as int;
    let n2 = d2.len() as int;
    let key2 = 15 + n1;
    let key3 = 25 + n1 + n2;
    let x1 = reply_open() + d1;
    let x2 = x1 + status_part();
    let x3 = x2 + d2;
    let x4 = x3 + body_part();
    let x5 = x4 + seq![QUOTE];
    let x6 = x5 + e;
    let x7 = x6 + seq![QUOTE];
    assert(t =~= x7 + seq![RBRACE]);
    assert(t.subrange(1, 13) =~= request_id_name());
    assert(t.subrange(14, 14 + n1) =~= d1);
    assert(t.subrange(key2, key2 + 8) =~= status_name());
    assert(t.subrange(key2 + 9, key2 + 9 + n2) =~= d2);
    assert(t.subrange(key3, key3 + 6) =~= body_name());
    assert(t.subrange(key3 + 8, key3 + 8 + e.len()) =~= e);
}

/// A member followed by a comma and the quote of the next key.
proof fn lemma_members_next(t: Seq<u8>, i: int, f: Fields, g: Fields, e: int)
    requires
        0 <= i < e,
        e + 1 < t.len(),
        member_at(t, i, f) == Some((g, e)),
        t[e] == COMMA,
        t[e + 1] == QUOTE,
    ensures
        members_at(t, i, f) == members_at(t, e + 1, g),
{
    assert(skip_ws(t, e) == e);
    assert(skip_ws(t, e + 1) == e + 1);
}

/// A member followed by the closing brace.
proof fn lemma_members_last(t: Seq<u8>, i: int, f: Fields, g: Fields, e: int)
    requires
        0 <= i < e < t.len(),
        member_at(t, i, f) == Some((g, e)),
        t[e] == RBRACE,
    ensures
        members_at(t, i, f) == Some((g, e + 1)),
{
    assert(skip_ws(t, e) == e);
}

proof fn lemma_layout_decodes(t: Seq<u8>, r: ResponseView)
    requires
        reply_layout(t, r),
    ensures
        parse_response(t) == Some(r),
{
    let n1 = decimal(r.request_id as nat).len() as int;
    let n2 = decimal(r.status as nat).len() as int;
    let e = escape(r.body);
    let key2 = 15 + n1;
    let key3 = 25 + n1 + n2;
    let end = key3 + 9 + e.len();
    let f0 = Fields { request_id: None, status: None, body: None };
    let f1 = Fields { request_id: Some(r.request_id), ..f0 };
    let f2 = Fields { status: Some(r.status), ..f1 };
    let f3 = Fields { body: Some(r.body), ..f2 };
    lemma_id_member(t, 1, r.request_id, f0);
    lemma_status_member(t, key2, r.status, f1);
    lemma_body_member(t, key3, r.body, f2);
    assert(t[1] == t.subrange(1, 13)[0]);
    assert(t[key2] == t.subrange(key2, key2 + 8)[0]);
    assert(t[key3] == t.subrange(key3, key3 + 6)[0]);
    lemma_members_last(t, key3, f2, f3, end);
    lemma_members_next(t, key2, f1, f2, key3 - 1);
    lemma_members_next(t, 1, f0, f1, key2 - 1);
    assert(skip_ws(t, 0) == 0);
    assert(skip_ws(t, 1) == 1);
    assert(skip_ws(t, end + 1) == end + 1);
}

/// A reply written as a compact JSON object, with the escaping that request
/// envelopes use, decodes to exactly that reply.
pub proof fn lemma_reply_text_decodes(r: ResponseView)
    ensures
        parse_response(reply_text(r)) == Some(r),
{
    lemma_reply_layout(r);
    lemma_layout_decodes(reply_text(r), r);
}

} // verus!
