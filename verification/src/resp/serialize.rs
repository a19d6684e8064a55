//! The serializer: from texts and value trees to what goes on the wire.
use super::data::{view_all, DataType, Value};
use crate::text::{decimal, low_bytes, push_decimal, push_decimal_bytes};
use vstd::prelude::*;
use vstd::std_specs::vecdeque::VecDequeAdditionalSpecFns;
use vstd::string::*;
use vstd::utf8::encode_utf8;

verus! {

/// The end-of-sequence marker: carriage return, line feed.
pub open spec fn crlf() -> Seq<char> {
    seq!['\r', '\n']
}

/// `+<text>\r\n`
pub open spec fn simple_str(s: Seq<char>) -> Seq<char> {
    seq!['+'] + s + crlf()
}

/// `-<text>\r\n`
pub open spec fn simple_err(s: Seq<char>) -> Seq<char> {
    seq!['-'] + s + crlf()
}

/// `$<len>\r\n<text>\r\n`, where `len` counts the bytes of the text in UTF-8.
pub open spec fn bulk_str(s: Seq<char>) -> Seq<char> {
    seq!['$'] + decimal(encode_utf8(s).len()) + crlf() + s + crlf()
}

/// The texts of `strs` as bulk strings, one after the other.
pub open spec fn bulk_strs(strs: Seq<Seq<char>>) -> Seq<char>
    decreases strs.len(),
{
    if strs.len() == 0 {
        Seq::empty()
    } else {
        bulk_str(strs[0]) + bulk_strs(strs.drop_first())
    }
}

/// `*<count>\r\n`, then each text as a bulk string.
pub open spec fn arr(strs: Seq<Seq<char>>) -> Seq<char> {
    seq!['*'] + decimal(strs.len()) + crlf() + bulk_strs(strs)
}

/// `$<len>\r\n`, then the bytes as they are, with no marker behind them.
pub open spec fn store_file(bytes: Seq<u8>) -> Seq<u8> {
    seq![36u8] + low_bytes(decimal(bytes.len())) + seq![13u8, 10u8] + bytes
}

/// No error value stands anywhere in the tree.
pub open spec fn plain(v: Value) -> bool
    decreases v,
{
    match v {
        Value::SimpleString(_) => true,
        Value::BulkString(_) => true,
        Value::Array(items) => forall|i: int| 0 <= i < items.len() ==> plain(#[trigger] items[i]),
        _ => false,
    }
}

/// The encodings of `items`, one after the other.
pub open spec fn serialize_all(items: Seq<Value>) -> Seq<char>
    decreases items,
{
    if items.len() == 0 {
        Seq::empty()
    } else {
        serialize(items[0]) + serialize_all(items.drop_first())
    }
}

/// The encoding of a value: a simple string as `+<text>\r\n`, a bulk string
/// as `$<len>\r\n<text>\r\n`, an array as `*<count>\r\n` and then its elements.
pub open spec fn serialize(v: Value) -> Seq<char>
    decreases v,
{
    match v {
        Value::SimpleString(s) => simple_str(s),
        Value::BulkString(s) => bulk_str(s),
        Value::Array(items) => seq!['*'] + decimal(items.len()) + crlf() + serialize_all(items),
        _ => Seq::empty(),
    }
}

/// The bulk strings of a sequence that grew by one text end with that text's
/// bulk string.
pub proof fn lemma_bulk_strs_push(strs: Seq<Seq<char>>, s: Seq<char>)
    ensures
        bulk_strs(strs.push(s)) == bulk_strs(strs) + bulk_str(s),
    decreases strs.len(),
{
    if strs.len() == 0 {
        assert(strs.push(s).drop_first() =~= Seq::<Seq<char>>::empty());
        assert(bulk_strs(strs.push(s).drop_first()) =~= Seq::<char>::empty());
        assert(bulk_strs(strs.push(s)) =~= bulk_strs(strs) + bulk_str(s));
    } else {
        lemma_bulk_strs_push(strs.drop_first(), s);
        assert(strs.push(s).drop_first() =~= strs.drop_first().push(s));
        assert(bulk_strs(strs.push(s)) =~= bulk_strs(strs) + bulk_str(s));
    }
}

/// The encoding of a sequence that grew by one value ends with that value's
/// encoding.
pub proof fn lemma_serialize_all_push(items: Seq<Value>, v: Value)
    ensures
        serialize_all(items.push(v)) == serialize_all(items) + serialize(v),
    decreases items.len(),
{
    if items.len() == 0 {
        assert(items.push(v).drop_first() =~= Seq::<Value>::empty());
        assert(serialize_all(items.push(v).drop_first()) =~= Seq::<char>::empty());
        assert(serialize_all(items.push(v)) =~= serialize_all(items) + serialize(v));
    } else {
        lemma_serialize_all_push(items.drop_first(), v);
        assert(items.push(v).drop_first() =~= items.drop_first().push(v));
        assert(serialize_all(items.push(v)) =~= serialize_all(items) + serialize(v));
    }
}

/// The functions that write values for the wire.
#[derive(Debug)]
pub struct Serializer {}

impl Serializer {
    /// A simple string: `+<text>\r\n`.
    pub fn to_simple_str(str: &str) -> (r: String)
        ensures
            r@ == simple_str(str@),
    {
        let mut buffer = "+".to_owned();
        proof {
            reveal_strlit("+");
            reveal_strlit("\r\n");
        }
        buffer.append(str);
        buffer.append("\r\n");
        assert(buffer@ =~= simple_str(str@));
        buffer
    }

    /// A simple error: `-<text>\r\n`.
    pub fn to_simple_err(str: &str) -> (r: String)
        ensures
            r@ == simple_err(str@),
    {
        let mut buffer = "-".to_owned();
        proof {
            reveal_strlit("-");
            reveal_strlit("\r\n");
        }
        buffer.append(str);
        buffer.append("\r\n");
        assert(buffer@ =~= simple_err(str@));
        buffer
    }

    /// A bulk string: `$<len>\r\n<text>\r\n`.
    pub fn to_bulk_str(str: &str) -> (r: String)
        ensures
            r@ == bulk_str(str@),
    {
        let mut buffer = "$".to_owned();
        proof {
            reveal_strlit("$");
            reveal_strlit("\r\n");
        }
        push_decimal(&mut buffer, str.as_bytes().len() as u64);
        buffer.append("\r\n");
        buffer.append(str);
        buffer.append("\r\n");
        assert(buffer@ =~= bulk_str(str@));
        buffer
    }

    /// An array of bulk strings: `*<count>\r\n`, then each text.
    pub fn to_arr(strs: Vec<&str>) -> (r: String)
        ensures
            r@ == arr(strs@.map_values(|s: &str| s@)),
    {
        let ghost texts = strs@.map_values(|s: &str| s@);
        let mut buffer = "*".to_owned();
        proof {
            reveal_strlit("*");
            reveal_strlit("\r\n");
        }
        push_decimal(&mut buffer, strs.len() as u64);
        buffer.append("\r\n");
        let ghost head = buffer@;
        let mut i: usize = 0;
        assert(texts.subrange(0, 0) =~= Seq::<Seq<char>>::empty());
        assert(buffer@ =~= head + bulk_strs(texts.subrange(0, 0)));
        while i < strs.len()
            invariant
                i <= strs.len(),
                texts == strs@.map_values(|s: &str| s@),
                buffer@ == head + bulk_strs(texts.subrange(0, i as int)),
            decreases strs.len() - i,
        {
            let one = Self::to_bulk_str(strs[i]);
            buffer.append(one.as_str());
            proof {
                lemma_bulk_strs_push(texts.subrange(0, i as int), strs@[i as int]@);
                assert(texts.subrange(0, i + 1) =~= texts.subrange(0, i as int).push(
                    strs@[i as int]@,
                ));
                assert(buffer@ =~= head + bulk_strs(texts.subrange(0, i + 1)));
            }
            i = i + 1;
        }
        assert(texts.subrange(0, i as int) =~= texts);
        assert(buffer@ =~= arr(texts));
        buffer
    }

    /// Frames a snapshot for a follower: its length, a marker, and the bytes.
    pub fn store_file(mut bytes: Vec<u8>) -> (r: Vec<u8>)
        ensures
            r@ == store_file(bytes@),
    {
        let mut buffer: Vec<u8> = Vec::new();
        buffer.push(36);
        push_decimal_bytes(&mut buffer, bytes.len() as u64);
        buffer.push(13);
        buffer.push(10);
        let ghost payload = bytes@;
        buffer.append(&mut bytes);
        assert(buffer@ =~= store_file(payload));
        buffer
    }

    /// The encoding of a tree of strings and arrays.
    pub fn serialize_data(dt: DataType) -> (r: String)
        requires
            plain(dt@),
        ensures
            r@ == serialize(dt@),
    {
        Self::serialize_ref(&dt)
    }

    fn serialize_ref(dt: &DataType) -> (r: String)
        requires
            plain(dt@),
        ensures
            r@ == serialize(dt@),
        decreases dt,
    {
        match dt {
            DataType::SimpleString(s) => Serializer::to_simple_str(s.as_str()),
            DataType::BulkString(s) => Serializer::to_bulk_str(s.as_str()),
            DataType::Array(vec) => {
                let ghost items = view_all(*vec);
                assert(dt@ == Value::Array(items)) by {
                    assert(dt@->Array_0 =~= items);
                }
                let mut buffer = "*".to_owned();
                proof {
                    reveal_strlit("*");
                    reveal_strlit("\r\n");
                }
                push_decimal(&mut buffer, vec.len() as u64);
                buffer.append("\r\n");
                let ghost head = buffer@;
                let mut i: usize = 0;
                assert(items.subrange(0, 0) =~= Seq::<Value>::empty());
                assert(buffer@ =~= head + serialize_all(items.subrange(0, 0)));
                while i < vec.len()
                    invariant
                        i <= vec.len(),
                        items == view_all(*vec),
                        dt matches DataType::Array(w) && w == vec,
                        forall|j: int| 0 <= j < items.len() ==> plain(#[trigger] items[j]),
                        buffer@ == head + serialize_all(items.subrange(0, i as int)),
                    decreases vec.len() - i,
                {
                    assert(items[i as int] == vec[i as int]@);
                    let one = Self::serialize_ref(&vec[i]);
                    buffer.append(one.as_str());
                    proof {
                        lemma_serialize_all_push(items.subrange(0, i as int), items[i as int]);
                        assert(items.subrange(0, i + 1) =~= items.subrange(0, i as int).push(
                            items[i as int],
                        ));
                        assert(buffer@ =~= head + serialize_all(items.subrange(0, i + 1)));
                    }
                    i = i + 1;
                }
                assert(items.subrange(0, i as int) =~= items);
                assert(buffer@ =~= serialize(Value::Array(items)));
                buffer
            },
            _ => String::new(),
        }
    }
}

} // verus!
