//! The snapshot that a leader hands to a follower that has just attached.
use vstd::prelude::*;
use vstd::string::StringSliceAdditionalSpecFns;

verus! {

/// An empty snapshot, two hexadecimal digits for each of its bytes.
pub const EMPTY: &'static str =
    "524544495330303131fa0972656469732d76657205372e322e30fa0a72656469732d62697473c040fa056374696d65c26d08bc65fa08757365642d6d656dc2b0c41000fa08616f662d62617365c000fff06e3bfec0ff5aa2";

/// The value of one hexadecimal digit.
pub open spec fn hex_digit(b: u8) -> Option<int> {
    if 48 <= b <= 57 {
        Some(b - 48)
    } else if 97 <= b <= 102 {
        Some(b - 87)
    } else if 65 <= b <= 70 {
        Some(b - 55)
    } else {
        None
    }
}

/// The byte that two characters write in base sixteen: two digits, or a `+`
/// and one digit.
pub open spec fn hex_pair(a: u8, b: u8) -> Option<u8> {
    match hex_digit(b) {
        None => None,
        Some(low) => if a == 43 {
            Some(low as u8)
        } else {
            match hex_digit(a) {
                Some(high) => Some((16 * high + low) as u8),
                None => None,
            }
        },
    }
}

/// The bytes that a text of an even length writes, two characters for each;
/// `None` where a pair writes no byte.
pub open spec fn hex_bytes(hex: Seq<u8>) -> Option<Seq<u8>>
    decreases hex.len(),
{
    if hex.len() < 2 {
        Some(Seq::empty())
    } else {
        match (hex_bytes(hex.subrange(0, hex.len() - 2)), hex_pair(hex[hex.len() - 2], hex.last())) {
            (Some(front), Some(b)) => Some(front.push(b)),
            _ => None,
        }
    }
}

/// The value of one hexadecimal digit.
fn hex_value(b: u8) -> (r: Option<u8>)
    ensures
        match r {
            Some(v) => hex_digit(b) == Some(v as int),
            None => hex_digit(b) is None,
        },
{
    if 48 <= b && b <= 57 {
        Some(b - 48)
    } else if 97 <= b && b <= 102 {
        Some(b - 87)
    } else if 65 <= b && b <= 70 {
        Some(b - 55)
    } else {
        None
    }
}

/// Reads a text of hexadecimal digits, two for each byte.
pub fn hex_to_bytes(hex: &[u8]) -> (r: Option<Vec<u8>>)
    requires
        hex@.len() % 2 == 0,
    ensures
        match r {
            Some(v) => hex_bytes(hex@) == Some(v@),
            None => hex_bytes(hex@) is None,
        },
{
    let mut out: Vec<u8> = Vec::new();
    let mut i: usize = 0;
    assert(hex@.subrange(0, 0) =~= Seq::<u8>::empty());
    while i < hex.len()
        invariant
            i <= hex@.len(),
            i % 2 == 0,
            hex@.len() % 2 == 0,
            hex_bytes(hex@.subrange(0, i as int)) == Some(out@),
        decreases hex@.len() - i,
    {
        let a = hex[i];
        let b = hex[i + 1];
        let ghost upto = hex@.subrange(0, i + 2);
        proof {
            assert(upto.subrange(0, upto.len() - 2) =~= hex@.subrange(0, i as int));
            assert(upto[upto.len() - 2] == a);
            assert(upto.last() == b);
        }
        let byte = match hex_value(b) {
            None => None,
            Some(low) => if a == 43 {
                Some(low)
            } else {
                match hex_value(a) {
                    Some(high) => Some(16 * high + low),
                    None => None,
                }
            },
        };
        match byte {
            Some(v) => {
                out.push(v);
            },
            None => {
                proof {
                    lemma_hex_bytes_prefix(hex@, i + 2);
                }
                return None;
            },
        }
        i = i + 2;
    }
    assert(hex@.subrange(0, i as int) =~= hex@);
    Some(out)
}

/// A text of which a prefix of an even length writes no bytes writes none.
proof fn lemma_hex_bytes_prefix(hex: Seq<u8>, k: int)
    requires
        0 <= k <= hex.len(),
        k % 2 == 0,
        hex.len() % 2 == 0,
        hex_bytes(hex.subrange(0, k)) is None,
    ensures
        hex_bytes(hex) is None,
    decreases hex.len() - k,
{
    if k < hex.len() {
        let upto = hex.subrange(0, k + 2);
        assert(upto.subrange(0, upto.len() - 2) =~= hex.subrange(0, k));
        lemma_hex_bytes_prefix(hex, k + 2);
    } else {
        assert(hex.subrange(0, k) =~= hex);
    }
}

/// The bytes that a snapshot in hexadecimal digits stands for: none where
/// the text is no run of pairs of digits.
pub open spec fn snapshot_of(hex: Seq<u8>) -> Seq<u8> {
    if hex.len() % 2 == 0 {
        match hex_bytes(hex) {
            Some(b) => b,
            None => Seq::empty(),
        }
    } else {
        Seq::empty()
    }
}

/// The bytes of the empty snapshot.
pub fn empty_store_file_bytes() -> (r: Vec<u8>)
    ensures
        r@ == snapshot_of(EMPTY.spec_bytes()),
{
    let hex = EMPTY.as_bytes();
    if hex.len() % 2 != 0 {
        return Vec::new();
    }
    match hex_to_bytes(hex) {
        Some(v) => v,
        None => Vec::new(),
    }
}

} // verus!
