//! Stream IDs as they are written: `<timestamp>-<sequence>`, with `*` for a
//! part that the store picks.
use super::errors::StreamError;
use super::{StreamID, RANGE_GT, RANGE_LT, WC_STR};
use crate::text::{
    chars_of, opt_text, parse_unsigned, parse_unsigned_str, regex_is_match, regex_search, str_eq,
    string_of,
};
use vstd::prelude::*;

verus! {

/// The shapes of a written ID: two parts, each digits or `*`, around a `-`;
/// or one of `*`, `+`, `-`. Matched anywhere in the text.
pub const ID_PATTERN: &'static str = "([0-9]+|\\*)-([0-9]+|\\*)|\\*|\\+|\\-";

/// The functions that read written IDs.
pub struct StreamIDParser {}

/// The index of the first `-` at or behind `from`, or the length of `s`.
pub open spec fn dash(s: Seq<char>, from: int) -> int
    decreases s.len() - from,
{
    if from < 0 || from >= s.len() {
        s.len() as int
    } else if s[from] == '-' {
        from
    } else {
        dash(s, from + 1)
    }
}

/// One part of an ID as a number: `None` for the wildcard `*`, 0 for `-`,
/// the greatest number for `+`, else the decimal number that is written.
pub open spec fn string_to_usize_opt(v: Seq<char>) -> Result<Option<usize>, StreamError> {
    if v == seq!['*'] {
        Ok(None)
    } else if v == seq!['-'] {
        Ok(Some(0usize))
    } else if v == seq!['+'] {
        Ok(Some(usize::MAX))
    } else {
        match parse_unsigned(v, usize::MAX as nat) {
            Some(n) => Ok(Some(n as usize)),
            None => Err(StreamError::InvalidStreamID),
        }
    }
}

/// A written ID cut at its first `-`: the part before it, and the part
/// between it and the next `-`. A text that the pattern does not match is no
/// ID; one without a `-`, and the text `-` itself, is a single part.
pub open spec fn split_initial(id: Seq<char>, matched: Option<bool>) -> Result<
    (Seq<char>, Option<Seq<char>>),
    StreamError,
> {
    if matched != Some(true) {
        Err(StreamError::InvalidStreamID)
    } else if dash(id, 0) < id.len() && id != seq!['-'] {
        let d = dash(id, 0);
        Ok((id.subrange(0, d), Some(id.subrange(d + 1, dash(id, d + 1)))))
    } else {
        Ok((id, None))
    }
}

/// The two parts of an ID as numbers. `0-0` is no ID.
pub open spec fn convert(id: Seq<char>, seq: Option<Seq<char>>) -> Result<
    (Option<usize>, Option<usize>),
    StreamError,
> {
    match string_to_usize_opt(id) {
        Err(e) => Err(e),
        Ok(i) => {
            let second = match seq {
                Some(s) => string_to_usize_opt(s),
                None => Ok(None),
            };
            match second {
                Err(e) => Err(e),
                Ok(s) => if i == Some(0usize) && s == Some(0usize) {
                    Err(StreamError::StreamIDZero)
                } else {
                    Ok((i, s))
                },
            }
        },
    }
}

/// The bound of a range that is written as an ID: both parts as given, or
/// the one number for both where only one is given.
pub open spec fn to_stream_id(id: Seq<char>, seq: Option<Seq<char>>) -> Result<
    StreamID,
    StreamError,
> {
    match convert(id, seq) {
        Err(e) => Err(e),
        Ok((i, s)) => match (i, s) {
            (Some(i), Some(s)) => Ok(StreamID { id: i, seq: s }),
            (Some(i), None) => Ok(StreamID { id: i, seq: i }),
            _ => Err(StreamError::InvalidStreamID),
        },
    }
}

proof fn lemma_dash_bounds(s: Seq<char>, from: int)
    requires
        0 <= from <= s.len(),
    ensures
        from <= dash(s, from) <= s.len(),
        dash(s, from) < s.len() ==> s[dash(s, from)] == '-',
        forall|i: int| from <= i < dash(s, from) ==> s[i] != '-',
    decreases s.len() - from,
{
    if from < s.len() && s[from] != '-' {
        lemma_dash_bounds(s, from + 1);
    }
}

impl StreamIDParser {
    /// The index of the first `-` at or behind `from`.
    pub fn find_dash(chars: &Vec<char>, from: usize) -> (r: usize)
        requires
            from <= chars@.len(),
        ensures
            r == dash(chars@, from as int),
            from <= r <= chars@.len(),
    {
        let mut i: usize = from;
        proof {
            lemma_dash_bounds(chars@, from as int);
        }
        while i < chars.len() && chars[i] != '-'
            invariant
                from <= i <= chars@.len(),
                dash(chars@, i as int) == dash(chars@, from as int),
            decreases chars@.len() - i,
        {
            i = i + 1;
        }
        i
    }

    /// One part of an ID as a number; `None` is the wildcard.
    pub fn string_to_usize_opt(v: String) -> (r: Result<Option<usize>, StreamError>)
        ensures
            r == string_to_usize_opt(v@),
    {
        proof {
            reveal_strlit("*");
            reveal_strlit("-");
            reveal_strlit("+");
            assert("*"@ =~= seq!['*']);
            assert("-"@ =~= seq!['-']);
            assert("+"@ =~= seq!['+']);
        }
        if str_eq(v.as_str(), WC_STR) {
            Ok(None)
        } else if str_eq(v.as_str(), RANGE_LT) {
            Ok(Some(0))
        } else if str_eq(v.as_str(), RANGE_GT) {
            Ok(Some(usize::MAX))
        } else {
            match parse_unsigned_str(v.as_str(), usize::MAX as u64) {
                Some(n) => Ok(Some(n as usize)),
                None => Err(StreamError::InvalidStreamID),
            }
        }
    }

    /// Cuts a written ID into its parts, given what the search for
    /// [`ID_PATTERN`] in it found.
    pub fn split_matched(id: String, matched: Option<bool>) -> (r: Result<
        (String, Option<String>),
        StreamError,
    >)
        ensures
            match r {
                Ok((first, second)) => split_initial(id@, matched) == Ok::<
                    (Seq<char>, Option<Seq<char>>),
                    StreamError,
                >((first@, opt_text(second))),
                Err(e) => split_initial(id@, matched) == Err::<
                    (Seq<char>, Option<Seq<char>>),
                    StreamError,
                >(e),
            },
    {
        match matched {
            Some(true) => {},
            _ => {
                return Err(StreamError::InvalidStreamID);
            },
        }
        let chars = chars_of(id.as_str());
        let d = Self::find_dash(&chars, 0);
        proof {
            reveal_strlit("-");
            assert("-"@ =~= seq!['-']);
        }
        if d < chars.len() && !str_eq(id.as_str(), RANGE_LT) {
            let e = Self::find_dash(&chars, d + 1);
            let first = string_of(&chars, 0, d);
            let second = string_of(&chars, d + 1, e);
            Ok((first, Some(second)))
        } else {
            Ok((id, None))
        }
    }

    /// Cuts a written ID into its parts.
    pub fn split_initial(id: String) -> (r: Result<(String, Option<String>), StreamError>)
        ensures
            match r {
                Ok((first, second)) => split_initial(id@, regex_search(ID_PATTERN@, id@)) == Ok::<
                    (Seq<char>, Option<Seq<char>>),
                    StreamError,
                >((first@, opt_text(second))),
                Err(e) => split_initial(id@, regex_search(ID_PATTERN@, id@)) == Err::<
                    (Seq<char>, Option<Seq<char>>),
                    StreamError,
                >(e),
            },
    {
        let matched = regex_is_match(ID_PATTERN, id.as_str());
        Self::split_matched(id, matched)
    }

    /// The two parts of an ID as numbers; `None` is the wildcard.
    pub fn convert_to_usize_opt(id: String, seq: Option<String>) -> (r: Result<
        (Option<usize>, Option<usize>),
        StreamError,
    >)
        ensures
            r == convert(id@, opt_text(seq)),
    {
        let id = match Self::string_to_usize_opt(id) {
            Ok(v) => v,
            Err(e) => {
                return Err(e);
            },
        };
        let seq = match seq {
            Some(seq) => match Self::string_to_usize_opt(seq) {
                Ok(v) => v,
                Err(e) => {
                    return Err(e);
                },
            },
            None => None,
        };
        match (id, seq) {
            (Some(0), Some(0)) => Err(StreamError::StreamIDZero),
            _ => Ok((id, seq)),
        }
    }

    /// The bound of a range. The timestamp must not be the wildcard.
    pub fn to_stream_id(id: String, seq: Option<String>) -> (r: Result<StreamID, StreamError>)
        requires
            id@ != seq!['*'],
        ensures
            r == to_stream_id(id@, opt_text(seq)),
    {
        match Self::convert_to_usize_opt(id, seq) {
            Ok((Some(id), Some(seq))) => Ok(StreamID::new(id, seq)),
            Ok((Some(id), None)) => Ok(StreamID::new(id, id)),
            Ok((None, _)) => Err(StreamError::InvalidStreamID),
            Err(e) => Err(e),
        }
    }
}

} // verus!
