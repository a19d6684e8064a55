//! The two requests that the codec itself knows: `PING` and `ECHO`.
use super::data::{lemma_view_array, view_all, DataType, Value};
use crate::text::str_eq;
use vstd::prelude::*;
use vstd::std_specs::vecdeque::VecDequeAdditionalSpecFns;
use vstd::utf8::encode_utf8;

verus! {

/// A request that the codec recognizes by itself.
pub enum Command {
    Echo(String),
    PING,
}

/// The mathematical model of a [`Command`].
pub enum CommandModel {
    Echo(Seq<char>),
    PING,
}

impl View for Command {
    type V = CommandModel;

    open spec fn view(&self) -> CommandModel {
        match self {
            Command::Echo(s) => CommandModel::Echo(s@),
            Command::PING => CommandModel::PING,
        }
    }
}

/// The names that the codec knows.
pub open spec fn known(name: Seq<char>) -> bool {
    name == "echo"@ || name == "ping"@
}

/// The values that [`Command::from_dt`] takes: a string other than `echo`,
/// which needs an argument, or an array that is not empty, in which an
/// `echo` is followed by a string.
pub open spec fn readable(v: Value) -> bool {
    match v {
        Value::SimpleString(s) => s != "echo"@,
        Value::BulkString(s) => s != "echo"@,
        Value::Array(a) => a.len() > 0 && (a[0].text() == Some("echo"@) ==> a.len() > 1
            && a[1].string() is Some),
        _ => false,
    }
}

/// The request that a value is: the string `ping`; or an array that begins
/// with `echo` and the text to give back, or with `ping`.
pub open spec fn recognized(v: Value) -> Option<CommandModel> {
    match v {
        Value::SimpleString(s) => if s == "ping"@ {
            Some(CommandModel::PING)
        } else {
            None
        },
        Value::BulkString(s) => if s == "ping"@ {
            Some(CommandModel::PING)
        } else {
            None
        },
        Value::Array(a) => if a.len() > 1 && a[0].text() == Some("echo"@) && a[1].string() is Some {
            Some(CommandModel::Echo(a[1].string()->Some_0))
        } else if a.len() > 0 && a[0].text() == Some("ping"@) {
            Some(CommandModel::PING)
        } else {
            None
        },
        _ => None,
    }
}

/// What a request that may be missing stands for.
pub open spec fn requested(r: Option<Command>) -> Option<CommandModel> {
    match r {
        Some(c) => Some(c@),
        None => None,
    }
}

impl Command {
    /// Whether the codec knows the name.
    fn is_known(name: &str) -> (r: bool)
        ensures
            r == known(name@),
    {
        str_eq(name, "echo") || str_eq(name, "ping")
    }

    /// The request that a value is, if the codec knows it.
    pub fn from_dt(dt: &DataType) -> (r: Option<Self>)
        requires
            readable(dt@),
        ensures
            requested(r) == recognized(dt@),
    {
        match dt {
            DataType::SimpleString(s) => {
                if Self::is_known(s.as_str()) {
                    Some(Command::PING)
                } else {
                    None
                }
            },
            DataType::BulkString(s) => {
                if Self::is_known(s.as_str()) {
                    Some(Command::PING)
                } else {
                    None
                }
            },
            DataType::Array(arr) => {
                proof {
                    lemma_view_array(*arr);
                }
                let first = &arr[0];
                assert(view_all(*arr)[0] == first@);
                if first.cmp_str("echo") {
                    assert(view_all(*arr)[1] == arr[1]@);
                    match arr[1].try_to_string() {
                        Ok(s) => {
                            return Some(Command::Echo(s));
                        },
                        Err(_) => {
                            return None;
                        },
                    }
                }
                if first.cmp_str("ping") {
                    return Some(Command::PING);
                }
                None
            },
            _ => None,
        }
    }

    /// The bytes that answer the request.
    pub fn response(&self) -> (r: Option<&[u8]>)
        ensures
            r matches Some(b) && b@ == match self@ {
                CommandModel::PING => encode_utf8("+PONG\r\n"@),
                CommandModel::Echo(s) => encode_utf8(s),
            },
    {
        match self {
            Command::PING => Some("+PONG\r\n".as_bytes()),
            Command::Echo(s) => Some(s.as_str().as_bytes()),
        }
    }
}

} // verus!
