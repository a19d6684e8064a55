//! The value tree that the codec produces and consumes.
use super::errors::RESPError;
use crate::text::{lower_text, str_eq, to_lower};
use std::collections::VecDeque;
use vstd::prelude::*;
use vstd::std_specs::vecdeque::VecDequeAdditionalSpecFns;

verus! {

/// The mathematical model of a [`DataType`]: texts are sequences of
/// characters, an array is a sequence of values.
pub enum Value {
    SimpleString(Seq<char>),
    SimpleError(Seq<char>),
    BulkString(Seq<char>),
    BulkError(Seq<char>),
    Array(Seq<Value>),
}

impl Value {
    /// The text of a simple or bulk string, looking through arrays of one
    /// element, is `text`.
    pub open spec fn is_str(self, text: Seq<char>) -> bool
        decreases self,
    {
        match self {
            Value::SimpleString(s) => s == text,
            Value::BulkString(s) => s == text,
            Value::Array(a) => a.len() == 1 && a[0].is_str(text),
            _ => false,
        }
    }

    /// The text that a string or error value carries.
    pub open spec fn text(self) -> Option<Seq<char>> {
        match self {
            Value::SimpleString(s) => Some(s),
            Value::SimpleError(s) => Some(s),
            Value::BulkString(s) => Some(s),
            Value::BulkError(s) => Some(s),
            Value::Array(_) => None,
        }
    }

    /// The value is a string or an error whose text is `text`, whatever the
    /// case of the letters.
    pub open spec fn says(self, text: Seq<char>) -> bool {
        match self.text() {
            Some(t) => lower_text(t) == lower_text(text),
            None => false,
        }
    }

    /// The text of a simple or bulk string.
    pub open spec fn string(self) -> Option<Seq<char>> {
        match self {
            Value::SimpleString(s) => Some(s),
            Value::BulkString(s) => Some(s),
            _ => None,
        }
    }
}

/// A value of the wire protocol: a string or an error, simple or bulk, or
/// an array of values.
#[derive(Debug, PartialEq, Eq)]
pub enum DataType {
    SimpleString(String),
    SimpleError(String),
    BulkString(String),
    BulkError(String),
    Array(VecDeque<DataType>),
}

/// The values that the elements of `items` stand for, in order.
pub open spec fn view_all(items: VecDeque<DataType>) -> Seq<Value> {
    Seq::new(
        items.len() as nat,
        |i: int|
            if 0 <= i < items.len() {
                items[i].view()
            } else {
                Value::Array(Seq::empty())
            },
    )
}

impl View for DataType {
    type V = Value;

    open spec fn view(&self) -> Value
        decreases self,
    {
        match self {
            DataType::SimpleString(s) => Value::SimpleString(s@),
            DataType::SimpleError(s) => Value::SimpleError(s@),
            DataType::BulkString(s) => Value::BulkString(s@),
            DataType::BulkError(s) => Value::BulkError(s@),
            DataType::Array(items) => Value::Array(
                Seq::new(
                    items.len() as nat,
                    |i: int|
                        if 0 <= i < items.len() {
                            items[i].view()
                        } else {
                            Value::Array(Seq::empty())
                        },
                ),
            ),
        }
    }
}

/// An array stands for the array of what its elements stand for.
pub proof fn lemma_view_array(items: VecDeque<DataType>)
    ensures
        DataType::Array(items)@ == Value::Array(view_all(items)),
        view_all(items).len() == items.len(),
{
    assert(DataType::Array(items)@->Array_0 =~= view_all(items));
}

impl DataType {
    /// Whether this value is the string `resp`, alone or as the only element
    /// of an array.
    pub fn is_str(self, resp: &str) -> (r: bool)
        ensures
            r == self@.is_str(resp@),
        decreases self,
    {
        match self {
            DataType::SimpleString(s) => str_eq(s.as_str(), resp),
            DataType::BulkString(s) => str_eq(s.as_str(), resp),
            DataType::Array(mut arr) => {
                if arr.len() == 1 {
                    let ghost first = arr[0];
                    match arr.pop_front() {
                        Some(d) => {
                            assert(d == first);
                            d.is_str(resp)
                        },
                        None => false,
                    }
                } else {
                    false
                }
            },
            _ => false,
        }
    }

    /// Whether this value is a string or an error whose text is `other`.
    pub fn cmp_str(&self, other: &str) -> (r: bool)
        ensures
            r == (self@.text() == Some(other@)),
    {
        match self {
            DataType::SimpleString(s) => str_eq(s.as_str(), other),
            DataType::SimpleError(s) => str_eq(s.as_str(), other),
            DataType::BulkString(s) => str_eq(s.as_str(), other),
            DataType::BulkError(s) => str_eq(s.as_str(), other),
            _ => false,
        }
    }

    /// Whether this value is a string or an error whose text is `other`,
    /// whatever the case of the letters.
    pub fn says(&self, other: &str) -> (r: bool)
        ensures
            r == self@.says(other@),
    {
        let text = match self {
            DataType::SimpleString(s) => s,
            DataType::SimpleError(s) => s,
            DataType::BulkString(s) => s,
            DataType::BulkError(s) => s,
            _ => {
                return false;
            },
        };
        let a = to_lower(text.as_str());
        let b = to_lower(other);
        str_eq(a.as_str(), b.as_str())
    }

    /// The text of a simple or bulk string; any other value is of the wrong
    /// type.
    pub fn try_to_string(&self) -> (r: Result<String, RESPError>)
        ensures
            match r {
                Ok(s) => self@.string() == Some(s@),
                Err(e) => self@.string() is None && e == RESPError::InvalidType,
            },
    {
        match self {
            DataType::SimpleString(s) => Ok(s.clone()),
            DataType::BulkString(s) => Ok(s.clone()),
            _ => Err(RESPError::InvalidType),
        }
    }
}

impl Clone for DataType {
    /// A copy that stands for the same value.
    fn clone(&self) -> (r: Self)
        ensures
            r@ == self@,
        decreases self,
    {
        match self {
            DataType::SimpleString(s) => DataType::SimpleString(s.clone()),
            DataType::SimpleError(s) => DataType::SimpleError(s.clone()),
            DataType::BulkString(s) => DataType::BulkString(s.clone()),
            DataType::BulkError(s) => DataType::BulkError(s.clone()),
            DataType::Array(items) => {
                let mut copy: VecDeque<DataType> = VecDeque::new();
                let mut i: usize = 0;
                while i < items.len()
                    invariant
                        i <= items.len(),
                        self matches DataType::Array(w) && w == items,
                        copy@.len() == i,
                        forall|k: int| 0 <= k < i ==> (#[trigger] copy@[k])@ == items[k]@,
                    decreases items.len() - i,
                {
                    let one = items[i].clone();
                    copy.push_back(one);
                    i = i + 1;
                }
                proof {
                    lemma_view_array(copy);
                    lemma_view_array(*items);
                    assert(view_all(copy) =~= view_all(*items));
                }
                DataType::Array(copy)
            },
        }
    }
}

} // verus!
