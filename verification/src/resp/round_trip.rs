//! Parsing gives back what was serialized: every tree of bulk strings and
//! arrays, whatever its texts hold, comes back from its bytes as it was.
use super::data::Value;
use super::errors::RESPError;
use super::parse::{at_end, is_eos, parse_items, parse_len, parse_value, scan_end, text_of};
use super::serialize::{crlf, plain, serialize, serialize_all};
use crate::text::{
    decimal, is_digit, latin1, lemma_decimal_digits, lemma_signed_decimal_parses, low_bytes,
};
use vstd::prelude::*;
use vstd::utf8::{
    encode_utf8, encode_utf8_decode_utf8, encode_utf8_valid_utf8, is_ascii_chars,
    is_ascii_chars_encode_utf8,
};

verus! {

/// A tree of bulk strings and arrays. Its lengths fit the machine word that
/// the parser reads a length into, as the lengths of all strings and arrays
/// in memory do.
pub open spec fn wireable(v: Value) -> bool
    decreases v,
{
    match v {
        Value::BulkString(s) => encode_utf8(s).len() <= isize::MAX,
        Value::Array(items) => items.len() <= isize::MAX && forall|i: int|
            0 <= i < items.len() ==> wireable(#[trigger] items[i]),
        _ => false,
    }
}

/// A tree of bulk strings and arrays holds no error value, so that the
/// serializer takes it.
pub proof fn lemma_wireable_is_plain(v: Value)
    requires
        wireable(v),
    ensures
        plain(v),
    decreases v,
{
    match v {
        Value::Array(items) => {
            assert forall|i: int| 0 <= i < items.len() implies plain(#[trigger] items[i]) by {
                lemma_wireable_is_plain(items[i]);
            }
        },
        _ => {},
    }
}

/// The bytes of the encoding of a value.
pub open spec fn wire(v: Value) -> Seq<u8> {
    encode_utf8(serialize(v))
}

/// From `pos` on, `data` holds `bytes`.
pub open spec fn holds(data: Seq<u8>, pos: int, bytes: Seq<u8>) -> bool {
    0 <= pos && pos + bytes.len() <= data.len() && data.subrange(pos, pos + bytes.len()) == bytes
}

proof fn lemma_holds_index(data: Seq<u8>, pos: int, bytes: Seq<u8>, i: int)
    requires
        holds(data, pos, bytes),
        0 <= i < bytes.len(),
    ensures
        data[pos + i] == bytes[i],
{
    assert(data.subrange(pos, pos + bytes.len())[i] == data[pos + i]);
}

proof fn lemma_holds_split(data: Seq<u8>, pos: int, a: Seq<u8>, b: Seq<u8>)
    requires
        holds(data, pos, a + b),
    ensures
        holds(data, pos, a),
        holds(data, pos + a.len(), b),
{
    let whole = a + b;
    assert forall|i: int| 0 <= i < a.len() implies data.subrange(pos, pos + a.len())[i] == a[i] by {
        lemma_holds_index(data, pos, whole, i);
    }
    assert(data.subrange(pos, pos + a.len()) =~= a);
    assert forall|i: int| 0 <= i < b.len() implies data.subrange(
        pos + a.len(),
        pos + a.len() + b.len(),
    )[i] == b[i] by {
        lemma_holds_index(data, pos, whole, a.len() + i);
    }
    assert(data.subrange(pos + a.len(), pos + a.len() + b.len()) =~= b);
}

/// The bytes of two texts, one after the other, are the bytes of the one
/// and then the bytes of the other.
pub proof fn lemma_encode_concat(a: Seq<char>, b: Seq<char>)
    ensures
        encode_utf8(a + b) == encode_utf8(a) + encode_utf8(b),
    decreases a.len(),
{
    if a.len() == 0 {
        assert(a + b =~= b);
        assert(encode_utf8(a) =~= Seq::<u8>::empty());
        assert(encode_utf8(a) + encode_utf8(b) =~= encode_utf8(b));
    } else {
        let whole = a + b;
        assert(whole[0] == a[0]);
        assert(whole.drop_first() =~= a.drop_first() + b);
        lemma_encode_concat(a.drop_first(), b);
        assert(encode_utf8(whole) =~= encode_utf8(a) + encode_utf8(b));
    }
}

/// A type byte, a count and a marker, as text.
pub open spec fn head(tag: char, n: nat) -> Seq<char> {
    seq![tag] + decimal(n) + crlf()
}

proof fn lemma_head_bytes(tag: char, n: nat)
    requires
        tag == '$' || tag == '*',
    ensures
        encode_utf8(head(tag, n)) == low_bytes(head(tag, n)),
        encode_utf8(crlf()) == seq![13u8, 10u8],
{
    let h = head(tag, n);
    lemma_decimal_digits(n);
    let dec = decimal(n);
    assert forall|i: int| 0 <= i < h.len() implies '\0' <= #[trigger] h[i] <= '\u{7f}' by {
        if 1 <= i < 1 + dec.len() {
            assert(h[i] == dec[i - 1]);
            assert(is_digit(dec[i - 1]));
            lemma_digit_ascii(dec[i - 1]);
        }
    }
    is_ascii_chars_encode_utf8(h);
    assert(encode_utf8(h) =~= low_bytes(h));
    let m = crlf();
    assert(is_ascii_chars(m));
    is_ascii_chars_encode_utf8(m);
    assert(encode_utf8(m) =~= seq![13u8, 10u8]);
}

proof fn lemma_digit_ascii(c: char)
    requires
        is_digit(c),
    ensures
        '\0' <= c <= '\u{7f}',
        (c as u8) as char == c,
        48 <= c as u8 <= 57,
{
}

proof fn lemma_scan_digits(data: Seq<u8>, p: int, d: int)
    requires
        0 <= p,
        0 <= d,
        forall|j: int| p <= j < p + d ==> 48 <= #[trigger] data[j] <= 57,
        is_eos(data, p + d),
    ensures
        scan_end(data, p) == p + d,
    decreases d,
{
    if d > 0 {
        assert(48 <= data[p] <= 57);
        assert(!is_eos(data, p));
        assert(!at_end(data, p));
        lemma_scan_digits(data, p + 1, d - 1);
    }
}

/// What a type byte, a count and a marker at `pos` give the parser.
proof fn lemma_header(data: Seq<u8>, pos: int, tag: char, n: nat, body: Seq<u8>)
    requires
        holds(data, pos, encode_utf8(head(tag, n)) + body),
        n <= isize::MAX,
        tag == '$' || tag == '*',
    ensures
        0 <= pos < data.len(),
        data[pos] == tag as u8,
        scan_end(data, pos + 1) == pos + 1 + decimal(n).len(),
        is_eos(data, pos + 1 + decimal(n).len()),
        parse_len(data, pos + 1) == Some(n as int),
        holds(data, pos + 1 + decimal(n).len() + 2, body),
        encode_utf8(head(tag, n)).len() == 1 + decimal(n).len() + 2,
{
    let dec = decimal(n);
    let d = dec.len() as int;
    let h = head(tag, n);
    let hb = low_bytes(h);
    lemma_head_bytes(tag, n);
    lemma_decimal_digits(n);
    lemma_holds_split(data, pos, hb, body);
    lemma_holds_index(data, pos, hb, 0);
    assert(hb[0] == h[0] as u8);
    assert forall|j: int| pos + 1 <= j < pos + 1 + d implies 48 <= #[trigger] data[j] <= 57 by {
        lemma_holds_index(data, pos, hb, j - pos);
        assert(h[j - pos] == dec[j - pos - 1]);
        assert(is_digit(dec[j - pos - 1]));
        lemma_digit_ascii(dec[j - pos - 1]);
    }
    lemma_holds_index(data, pos, hb, 1 + d);
    lemma_holds_index(data, pos, hb, 2 + d);
    assert(h[1 + d] == '\r');
    assert(h[2 + d] == '\n');
    assert(is_eos(data, pos + 1 + d));
    lemma_scan_digits(data, pos + 1, d);
    assert forall|j: int| 0 <= j < d implies latin1(data.subrange(pos + 1, pos + 1 + d))[j]
        == dec[j] by {
        lemma_holds_index(data, pos, hb, 1 + j);
        assert(h[1 + j] == dec[j]);
        assert(is_digit(dec[j]));
        lemma_digit_ascii(dec[j]);
    }
    assert(latin1(data.subrange(pos + 1, pos + 1 + d)) =~= dec);
    lemma_signed_decimal_parses(n as int, isize::MIN as int, isize::MAX as int);
}

/// The parser reads a tree back from wherever its bytes stand, and ends just
/// behind them.
pub proof fn lemma_parse_back(data: Seq<u8>, pos: int, v: Value)
    requires
        wireable(v),
        holds(data, pos, wire(v)),
    ensures
        parse_value(data, pos) == Ok::<(Value, int), RESPError>((v, pos + wire(v).len())),
    decreases v, 1int,
{
    match v {
        Value::BulkString(s) => {
            let n = encode_utf8(s).len();
            let d = decimal(n).len() as int;
            let h = head('$', n);
            assert(serialize(v) =~= h + (s + crlf()));
            lemma_encode_concat(h, s + crlf());
            lemma_encode_concat(s, crlf());
            lemma_head_bytes('$', n);
            let body = encode_utf8(s) + seq![13u8, 10u8];
            lemma_header(data, pos, '$', n, body);
            let e = pos + 1 + d;
            lemma_holds_split(data, e + 2, encode_utf8(s), seq![13u8, 10u8]);
            lemma_holds_index(data, e + 2 + n, seq![13u8, 10u8], 0);
            lemma_holds_index(data, e + 2 + n, seq![13u8, 10u8], 1);
            assert(is_eos(data, e + 2 + n));
            encode_utf8_valid_utf8(s);
            encode_utf8_decode_utf8(s);
            assert(text_of(data, e + 2, e + 2 + n) == Some(s));
            assert(wire(v).len() == 1 + d + 2 + n + 2);
        },
        Value::Array(items) => {
            let n = items.len();
            let d = decimal(n).len() as int;
            let h = head('*', n);
            assert(serialize(v) =~= h + serialize_all(items));
            lemma_encode_concat(h, serialize_all(items));
            let body = encode_utf8(serialize_all(items));
            lemma_header(data, pos, '*', n, body);
            let e = pos + 1 + d;
            if n > 0 {
                lemma_parse_items_back(data, e + 2, items);
            } else {
                assert(items =~= Seq::<Value>::empty());
                assert(serialize_all(items) =~= Seq::<char>::empty());
                assert(body =~= Seq::<u8>::empty());
            }
        },
        _ => {},
    }
}

/// The parser reads a run of trees back, and ends just behind them.
pub proof fn lemma_parse_items_back(data: Seq<u8>, pos: int, items: Seq<Value>)
    requires
        forall|i: int| 0 <= i < items.len() ==> wireable(#[trigger] items[i]),
        holds(data, pos, encode_utf8(serialize_all(items))),
    ensures
        parse_items(data, pos, items.len() as int) == Ok::<(Seq<Value>, int), RESPError>(
            (items, pos + encode_utf8(serialize_all(items)).len()),
        ),
    decreases items, 0int,
{
    if items.len() == 0 {
        assert(items =~= Seq::<Value>::empty());
        assert(encode_utf8(serialize_all(items)) =~= Seq::<u8>::empty());
    } else {
        let first = items[0];
        let rest = items.drop_first();
        lemma_encode_concat(serialize(first), serialize_all(rest));
        lemma_holds_split(data, pos, wire(first), encode_utf8(serialize_all(rest)));
        assert(wireable(first));
        lemma_parse_back(data, pos, first);
        super::parse::lemma_parse_value_bounds(data, pos);
        assert forall|i: int| 0 <= i < rest.len() implies wireable(#[trigger] rest[i]) by {
            assert(rest[i] == items[i + 1]);
        }
        lemma_parse_items_back(data, pos + wire(first).len(), rest);
        assert(rest.len() == items.len() - 1);
        assert(seq![first] + rest =~= items);
    }
}

/// Round trip: every tree of bulk strings and arrays, serialized and parsed
/// from the bytes of that text, comes back as it was, and the parser ends
/// behind the last of the bytes.
pub proof fn lemma_round_trip(v: Value)
    requires
        wireable(v),
    ensures
        parse_value(wire(v), 0) == Ok::<(Value, int), RESPError>((v, wire(v).len() as int)),
{
    let data = wire(v);
    assert(data.subrange(0, data.len() as int) =~= data);
    lemma_parse_back(data, 0, v);
}

} // verus!
