//! An in-memory key-value and stream store that speaks a RESP-like wire
//! protocol, with the rules of leader/follower replication.
//!
//! Each public function carries a contract over the mathematical models that
//! the modules define, and Verus proves the function against it. Eleven
//! functions are believed, not proved: those whose body is a call of the
//! standard library or of another crate (`String::push`, `str::from_utf8`,
//! the system clock, the search of a regular expression, a random letter or
//! digit, and the hash map of the key-value store). Each of them says above
//! its header what it calls and what is taken on trust.
pub mod resp;
pub mod server;
pub mod stream;
pub mod text;
