//! The order of stream IDs: by the timestamp, then by the sequence number.
use super::StreamID;
use std::cmp::Ordering;
use vstd::prelude::*;
use vstd::std_specs::cmp::PartialOrdSpecImpl;

verus! {

impl PartialOrd for StreamID {
    fn partial_cmp(&self, other: &Self) -> (r: Option<Ordering>) {
        if self.id == other.id && self.seq == other.seq {
            Some(Ordering::Equal)
        } else if self.id > other.id {
            Some(Ordering::Greater)
        } else if self.id == other.id {
            if self.seq > other.seq {
                Some(Ordering::Greater)
            } else {
                Some(Ordering::Less)
            }
        } else {
            Some(Ordering::Less)
        }
    }
}

impl PartialOrdSpecImpl for StreamID {
    open spec fn obeys_partial_cmp_spec() -> bool {
        true
    }

    open spec fn partial_cmp_spec(&self, other: &Self) -> Option<Ordering> {
        if *self == *other {
            Some(Ordering::Equal)
        } else if self.less_than(*other) {
            Some(Ordering::Less)
        } else {
            Some(Ordering::Greater)
        }
    }
}

/// Two IDs are equal, or one is less than the other; and the order passes
/// on: the IDs are ordered totally.
pub proof fn lemma_order_is_total(a: StreamID, b: StreamID, c: StreamID)
    ensures
        a == b || a.less_than(b) || b.less_than(a),
        !(a.less_than(b) && b.less_than(a)),
        !a.less_than(a),
        a.less_than(b) && b.less_than(c) ==> a.less_than(c),
{
}

} // verus!
