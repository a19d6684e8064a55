//! The wire codec: the value tree, its parser and its serializer.
pub mod command;
pub mod data;
pub mod errors;
pub mod parse;
pub mod round_trip;
pub mod serialize;
