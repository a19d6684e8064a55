//! Entries of a stream as they go on the wire.
use super::store::fields_view;
use super::StreamID;
use crate::resp::serialize::{arr, bulk_str, crlf, Serializer};
use crate::text::{decimal, push_char, push_decimal};
use vstd::prelude::*;
use vstd::string::*;

verus! {

/// An ID as text: `<timestamp>-<sequence>`.
pub open spec fn id_text(uid: StreamID) -> Seq<char> {
    decimal(uid.id as nat) + seq!['-'] + decimal(uid.seq as nat)
}

/// The names and values of the fields, one after the other.
pub open spec fn flat(fields: Seq<(Seq<char>, Seq<char>)>) -> Seq<Seq<char>> {
    Seq::new(
        2 * fields.len(),
        |i: int|
            if i % 2 == 0 {
                fields[i / 2].0
            } else {
                fields[i / 2].1
            },
    )
}

/// One entry: an array of two, the ID as a bulk string and the array of the
/// fields.
pub open spec fn entry_text(entry: (StreamID, Seq<(Seq<char>, Seq<char>)>)) -> Seq<char> {
    seq!['*', '2'] + crlf() + bulk_str(id_text(entry.0)) + arr(flat(entry.1))
}

/// The entries, one after the other.
pub open spec fn entries_text(entries: Seq<(StreamID, Seq<(Seq<char>, Seq<char>)>)>) -> Seq<char>
    decreases entries.len(),
{
    if entries.len() == 0 {
        Seq::empty()
    } else {
        entries_text(entries.drop_last()) + entry_text(entries.last())
    }
}

/// A range of entries: `*<count>\r\n`, then each entry.
pub open spec fn range_text(entries: Seq<(StreamID, Seq<(Seq<char>, Seq<char>)>)>) -> Seq<char> {
    seq!['*'] + decimal(entries.len()) + crlf() + entries_text(entries)
}

/// What a range of borrowed entries stands for.
pub open spec fn range_view(range: Seq<(&StreamID, &Vec<(String, String)>)>) -> Seq<
    (StreamID, Seq<(Seq<char>, Seq<char>)>),
> {
    Seq::new(range.len(), |i: int| (*range[i].0, fields_view(*range[i].1)))
}

/// The functions that write entries for the wire.
pub struct StreamSerializer {}

impl StreamSerializer {
    /// An ID as a bulk string.
    pub fn stream_id(stream_id: &StreamID) -> (r: String)
        ensures
            r@ == bulk_str(id_text(*stream_id)),
    {
        let mut s = String::new();
        push_decimal(&mut s, stream_id.id as u64);
        push_char(&mut s, '-');
        push_decimal(&mut s, stream_id.seq as u64);
        assert(s@ =~= id_text(*stream_id));
        Serializer::to_bulk_str(s.as_str())
    }

    /// Puts the names and values of the fields behind the texts of `buffer`.
    pub fn flat_strs<'a>(v: &'a Vec<(String, String)>, buffer: Vec<&'a str>) -> (r: Vec<&'a str>)
        ensures
            r@.map_values(|s: &str| s@) == buffer@.map_values(|s: &str| s@) + flat(
                fields_view(*v),
            ),
    {
        let ghost front = buffer@.map_values(|s: &str| s@);
        let ghost base = buffer@.len() as int;
        let mut buffer = buffer;
        let mut i: usize = 0;
        while i < v.len()
            invariant
                i <= v@.len(),
                buffer@.len() == base + 2 * i,
                base == front.len(),
                forall|k: int| 0 <= k < base ==> (#[trigger] buffer@[k])@ == front[k],
                forall|k: int|
                    0 <= k < i ==> (#[trigger] buffer@[base + 2 * k])@ == v@[k].0@ && buffer@[base
                        + 2 * k + 1]@ == v@[k].1@,
            decreases v@.len() - i,
        {
            let p = &v[i];
            buffer.push(p.0.as_str());
            buffer.push(p.1.as_str());
            i = i + 1;
        }
        proof {
            let texts = buffer@.map_values(|s: &str| s@);
            let want = front + flat(fields_view(*v));
            assert forall|j: int| 0 <= j < texts.len() implies texts[j] == want[j] by {
                if j >= base {
                    let k = (j - base) / 2;
                    assert((buffer@[base + 2 * k])@ == v@[k].0@);
                } else {
                    assert(buffer@[j]@ == front[j]);
                }
            }
            assert(texts =~= want);
        }
        buffer
    }

    /// The fields of an entry as an array of bulk strings.
    pub fn v_to_arr(v: &Vec<(String, String)>) -> (r: String)
        ensures
            r@ == arr(flat(fields_view(*v))),
    {
        let buffer = Self::flat_strs(v, Vec::new());
        assert(Seq::<Seq<char>>::empty() + flat(fields_view(*v)) =~= flat(fields_view(*v)));
        assert(Seq::<&str>::empty().map_values(|s: &str| s@) =~= Seq::<Seq<char>>::empty());
        Serializer::to_arr(buffer)
    }

    /// A range of entries as an array of arrays.
    pub fn to_arr(stream_range: &Vec<(&StreamID, &Vec<(String, String)>)>) -> (r: String)
        ensures
            r@ == range_text(range_view(stream_range@)),
    {
        let ghost entries = range_view(stream_range@);
        let mut buffer = "*".to_owned();
        proof {
            reveal_strlit("*");
            reveal_strlit("\r\n");
        }
        push_decimal(&mut buffer, stream_range.len() as u64);
        buffer.append("\r\n");
        let ghost head = buffer@;
        let mut i: usize = 0;
        assert(entries.subrange(0, 0) =~= Seq::empty());
        assert(buffer@ =~= head + entries_text(entries.subrange(0, 0)));
        while i < stream_range.len()
            invariant
                i <= stream_range@.len(),
                entries == range_view(stream_range@),
                buffer@ == head + entries_text(entries.subrange(0, i as int)),
            decreases stream_range@.len() - i,
        {
            let (id, v) = stream_range[i];
            let ghost before = buffer@;
            buffer.append("*2");
            buffer.append("\r\n");
            let one = Self::stream_id(id);
            buffer.append(one.as_str());
            let fields = Self::v_to_arr(v);
            buffer.append(fields.as_str());
            proof {
                reveal_strlit("*2");
                reveal_strlit("\r\n");
                let upto = entries.subrange(0, i + 1);
                assert(upto.drop_last() =~= entries.subrange(0, i as int));
                assert(upto.last() == entries[i as int]);
                assert("*2"@ =~= seq!['*', '2']);
                assert(buffer@ =~= before + entry_text(entries[i as int]));
                assert(buffer@ =~= head + entries_text(upto));
            }
            i = i + 1;
        }
        assert(entries.subrange(0, i as int) =~= entries);
        buffer
    }
}

} // verus!
