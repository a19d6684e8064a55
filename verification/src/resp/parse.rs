//! The parser: from the bytes of one request or reply to a value tree.
//!
//! The grammar is stated by [`parse_value`]; [`Parser::parse`] computes it.
//! Texts are UTF-8 and are taken as they are written, letter for letter.
use super::data::{lemma_view_array, view_all, DataType, Value};
use super::errors::RESPError;
use crate::text::{latin1, opt_text, parse_isize_bytes, parse_signed, utf8_text};
use std::collections::VecDeque;
use vstd::prelude::*;
use vstd::utf8::{decode_utf8, encode_utf8_decode_utf8, encode_utf8_valid_utf8, valid_utf8};

verus! {

/// At `pos` stands the two-byte end-of-sequence marker, carriage return and
/// line feed.
pub open spec fn is_eos(data: Seq<u8>, pos: int) -> bool {
    0 <= pos && pos + 1 < data.len() && data[pos] == 13 && data[pos + 1] == 10
}

/// `pos` is the index of the last byte.
pub open spec fn at_end(data: Seq<u8>, pos: int) -> bool {
    pos + 1 == data.len()
}

/// Where a scan that starts at `pos` stops: at the first end-of-sequence
/// marker, at the last byte, or where the bytes are used up.
pub open spec fn scan_end(data: Seq<u8>, pos: int) -> int
    decreases data.len() - pos,
{
    if pos < 0 || pos >= data.len() || is_eos(data, pos) || at_end(data, pos) {
        pos
    } else {
        scan_end(data, pos + 1)
    }
}

/// The bytes `data[from..to]` as text, where they are UTF-8.
pub open spec fn text_of(data: Seq<u8>, from: int, to: int) -> Option<Seq<char>> {
    if valid_utf8(data.subrange(from, to)) {
        Some(decode_utf8(data.subrange(from, to)))
    } else {
        None
    }
}

/// The length that is written from `pos` up to where the scan stops.
pub open spec fn parse_len(data: Seq<u8>, pos: int) -> Option<int> {
    if 0 <= pos <= data.len() {
        parse_signed(
            latin1(data.subrange(pos, scan_end(data, pos))),
            isize::MIN as int,
            isize::MAX as int,
        )
    } else {
        None
    }
}

/// A simple string whose type byte stands at `pos`: the text up to the
/// end-of-sequence marker.
pub open spec fn parse_simple(data: Seq<u8>, pos: int) -> Result<
    (Value, int),
    RESPError,
> {
    let e = scan_end(data, pos + 1);
    if is_eos(data, e) {
        match text_of(data, pos + 1, e) {
            Some(t) => Ok((Value::SimpleString(t), e + 2)),
            None => Err(RESPError::InvalidData),
        }
    } else {
        Err(RESPError::InvalidData)
    }
}

/// A bulk string whose type byte stands at `pos`: a length and a marker,
/// then that many bytes and a marker. A negative length stands for the null
/// bulk string, which has neither bytes nor a second marker and is read as
/// the empty text.
pub open spec fn parse_bulk(data: Seq<u8>, pos: int) -> Result<(Value, int), RESPError> {
    let e = scan_end(data, pos + 1);
    match parse_len(data, pos + 1) {
        None => Err(RESPError::InvalidData),
        Some(n) => if !is_eos(data, e) {
            Err(RESPError::InvalidData)
        } else if n < 0 {
            Ok((Value::BulkString(Seq::empty()), e + 2))
        } else if is_eos(data, e + 2 + n) {
            match text_of(data, e + 2, e + 2 + n) {
                Some(t) => Ok((Value::BulkString(t), e + 2 + n + 2)),
                None => Err(RESPError::InvalidData),
            }
        } else {
            Err(RESPError::InvalidData)
        },
    }
}

/// `n` values that stand one after the other from `pos` on.
pub open spec fn parse_items(data: Seq<u8>, pos: int, n: int) -> Result<
    (Seq<Value>, int),
    RESPError,
>
    decreases data.len() - pos, 2int, n,
{
    if n <= 0 {
        Ok((Seq::empty(), pos))
    } else {
        match parse_value(data, pos) {
            Err(e) => Err(e),
            Ok((v, p)) => if pos < p <= data.len() {
                match parse_items(data, p, n - 1) {
                    Err(e) => Err(e),
                    Ok((vs, q)) => Ok((seq![v] + vs, q)),
                }
            } else {
                Err(RESPError::InvalidData)
            },
        }
    }
}

/// An array whose type byte stands at `pos`: a count and a marker, then
/// that many values. A count below one gives the empty array.
pub open spec fn parse_array(data: Seq<u8>, pos: int) -> Result<(Value, int), RESPError>
    decreases data.len() - pos, 0int, 0int,
{
    let e = scan_end(data, pos + 1);
    match parse_len(data, pos + 1) {
        None => Err(RESPError::InvalidData),
        Some(n) => if !is_eos(data, e) || e <= pos {
            Err(RESPError::InvalidData)
        } else if n <= 0 {
            Ok((Value::Array(Seq::empty()), e + 2))
        } else {
            match parse_items(data, e + 2, n) {
                Err(x) => Err(x),
                Ok((items, q)) => Ok((Value::Array(items), q)),
            }
        },
    }
}

/// The value that stands at `pos`, with the position behind it, or the error
/// that the bytes from `pos` on give.
pub open spec fn parse_value(data: Seq<u8>, pos: int) -> Result<(Value, int), RESPError>
    decreases data.len() - pos, 1int, 0int,
{
    if pos < 0 || pos >= data.len() {
        Err(RESPError::InvalidData)
    } else if data[pos] == 43 {
        parse_simple(data, pos)
    } else if data[pos] == 36 {
        parse_bulk(data, pos)
    } else if data[pos] == 42 {
        parse_array(data, pos)
    } else {
        Err(RESPError::InvalidType)
    }
}

/// A scan stops at or behind where it starts, and within the bytes.
pub proof fn lemma_scan_end_bounds(data: Seq<u8>, pos: int)
    requires
        0 <= pos <= data.len(),
    ensures
        pos <= scan_end(data, pos) <= data.len(),
    decreases data.len() - pos,
{
    if pos < 0 || pos >= data.len() || is_eos(data, pos) || at_end(data, pos) {
    } else {
        lemma_scan_end_bounds(data, pos + 1);
    }
}

/// The values behind a run of items end within the bytes, at or behind where
/// the run starts.
pub proof fn lemma_parse_items_bounds(data: Seq<u8>, pos: int, n: int)
    requires
        0 <= pos <= data.len(),
    ensures
        parse_items(data, pos, n) matches Ok((vs, q)) ==> pos <= q <= data.len() && vs.len() == (if n
            <= 0 {
            0
        } else {
            n
        }),
    decreases data.len() - pos, n,
{
    if n > 0 {
        match parse_value(data, pos) {
            Err(e) => {},
            Ok((v, p)) => {
                if pos < p <= data.len() {
                    lemma_parse_items_bounds(data, p, n - 1);
                }
            },
        }
    }
}

/// A value that parses takes at least one byte and ends within the bytes.
pub proof fn lemma_parse_value_bounds(data: Seq<u8>, pos: int)
    ensures
        parse_value(data, pos) matches Ok((v, p)) ==> 0 <= pos < p <= data.len(),
{
    if 0 <= pos < data.len() {
        lemma_scan_end_bounds(data, pos + 1);
        let e = scan_end(data, pos + 1);
        if data[pos] == 42 {
            match parse_len(data, pos + 1) {
                None => {},
                Some(n) => {
                    if n > 0 && is_eos(data, e) {
                        lemma_parse_items_bounds(data, e + 2, n);
                    }
                },
            }
        }
    }
}

/// `prefix` put before the items of a parsed run.
pub open spec fn with_prefix(
    prefix: Seq<Value>,
    rest: Result<(Seq<Value>, int), RESPError>,
) -> Result<(Seq<Value>, int), RESPError> {
    match rest {
        Ok((vs, q)) => Ok((prefix + vs, q)),
        Err(e) => Err(e),
    }
}

/// A cursor over the bytes of one request or reply.
#[derive(Debug)]
pub struct Parser<'data> {
    data: &'data [u8],
    position: usize,
    len: usize,
}

impl<'data> Parser<'data> {
    /// The bytes that this parser reads.
    pub closed spec fn bytes(&self) -> Seq<u8> {
        self.data@
    }

    /// The index of the next byte to read.
    pub closed spec fn pos(&self) -> int {
        self.position as int
    }

    /// The position lies within the bytes, or just behind them.
    pub closed spec fn wf(&self) -> bool {
        self.len == self.data@.len() && self.position <= self.len
    }

    /// A parser at the first of the bytes.
    pub fn new(data: &'data [u8]) -> (r: Self)
        ensures
            r.wf(),
            r.bytes() == data@,
            r.pos() == 0,
    {
        Self { data, position: 0, len: data.len() }
    }

    /// The byte behind the next one.
    pub fn peek(&self) -> (r: u8)
        requires
            self.wf(),
            self.pos() + 1 < self.bytes().len(),
        ensures
            r == self.bytes()[self.pos() + 1],
    {
        self.data[self.position + 1]
    }

    /// Takes the next byte.
    pub fn read_byte(&mut self) -> (r: u8)
        requires
            old(self).wf(),
            old(self).pos() < old(self).bytes().len(),
        ensures
            final(self).wf(),
            final(self).bytes() == old(self).bytes(),
            final(self).pos() == old(self).pos() + 1,
            r == old(self).bytes()[old(self).pos()],
    {
        let byte = self.data[self.position];
        self.position += 1;
        byte
    }

    /// Whether the next byte is the last one.
    pub fn at_end(&self) -> (r: bool)
        requires
            self.wf(),
        ensures
            r == at_end(self.bytes(), self.pos()),
    {
        self.len > 0 && self.position == self.len - 1
    }

    /// Whether the end-of-sequence marker comes next.
    pub fn is_eos(&self) -> (r: bool)
        requires
            self.wf(),
        ensures
            r == is_eos(self.bytes(), self.pos()),
    {
        self.position < self.len && self.len - self.position >= 2 && self.data[self.position] == 13
            && self.peek() == 10
    }

    /// Steps over the end-of-sequence marker, which must come next.
    pub fn skip_crlf(&mut self) -> (r: Result<(), RESPError>)
        requires
            old(self).wf(),
        ensures
            final(self).wf(),
            final(self).bytes() == old(self).bytes(),
            match r {
                Ok(_) => is_eos(old(self).bytes(), old(self).pos()) && final(self).pos() == old(
                    self,
                ).pos() + 2,
                Err(e) => !is_eos(old(self).bytes(), old(self).pos()) && final(self).pos() == old(
                    self,
                ).pos() && e == RESPError::InvalidData,
            },
    {
        if !self.at_end() && self.is_eos() {
            self.position += 2;
            Ok(())
        } else {
            Err(RESPError::InvalidData)
        }
    }

    /// Moves to where a scan from here stops.
    fn scan(&mut self)
        requires
            old(self).wf(),
        ensures
            final(self).wf(),
            final(self).bytes() == old(self).bytes(),
            final(self).pos() == scan_end(old(self).bytes(), old(self).pos()),
    {
        while self.position < self.len && !self.is_eos() && !self.at_end()
            invariant
                self.wf(),
                self.bytes() == old(self).bytes(),
                old(self).pos() <= self.pos(),
                scan_end(self.bytes(), self.pos()) == scan_end(old(self).bytes(), old(self).pos()),
            decreases self.len - self.position,
        {
            self.position += 1;
        }
    }

    /// The text `data[from..to]`, where these bytes are UTF-8.
    fn text(&self, from: usize, to: usize) -> (r: Option<String>)
        requires
            self.wf(),
            from <= to <= self.bytes().len(),
        ensures
            opt_text(r) == text_of(self.bytes(), from as int, to as int),
    {
        let part = &self.data[from..to];
        match utf8_text(part) {
            Some(s) => {
                proof {
                    encode_utf8_valid_utf8(s@);
                    encode_utf8_decode_utf8(s@);
                }
                Some(s.to_owned())
            },
            None => None,
        }
    }

    /// Reads the length that is written from here up to where the scan stops.
    pub fn parse_len(&mut self) -> (r: Result<isize, RESPError>)
        requires
            old(self).wf(),
        ensures
            final(self).wf(),
            final(self).bytes() == old(self).bytes(),
            final(self).pos() == scan_end(old(self).bytes(), old(self).pos()),
            match r {
                Ok(n) => parse_len(old(self).bytes(), old(self).pos()) == Some(n as int),
                Err(e) => parse_len(old(self).bytes(), old(self).pos()) is None && e
                    == RESPError::InvalidData,
            },
    {
        let start = self.position;
        proof {
            lemma_scan_end_bounds(self.bytes(), self.pos());
        }
        self.scan();
        match parse_isize_bytes(self.data, start, self.position) {
            Some(n) => Ok(n),
            None => Err(RESPError::InvalidData),
        }
    }

    /// Reads the simple string whose type byte comes next.
    pub fn parse_simple_str(&mut self) -> (r: Result<DataType, RESPError>)
        requires
            old(self).wf(),
        ensures
            final(self).wf(),
            final(self).bytes() == old(self).bytes(),
            match r {
                Ok(d) => parse_simple(
                    old(self).bytes(),
                    old(self).pos(),
                ) == Ok::<
                    (Value, int),
                    RESPError,
                >((d@, final(self).pos())),
                Err(e) => parse_simple(
                    old(self).bytes(),
                    old(self).pos(),
                ) == Err::<
                    (Value, int),
                    RESPError,
                >(e),
            },
    {
        if self.position >= self.len {
            return Err(RESPError::InvalidData);
        }
        self.position += 1;
        let start = self.position;
        proof {
            lemma_scan_end_bounds(self.bytes(), self.pos());
        }
        self.scan();
        let buffer = self.text(start, self.position);
        match self.skip_crlf() {
            Ok(_) => {},
            Err(e) => {
                return Err(e);
            },
        }
        match buffer {
            Some(text) => Ok(DataType::SimpleString(text)),
            None => Err(RESPError::InvalidData),
        }
    }

    /// Reads the bulk string whose type byte comes next.
    pub fn parse_bulk_str(&mut self) -> (r: Result<DataType, RESPError>)
        requires
            old(self).wf(),
        ensures
            final(self).wf(),
            final(self).bytes() == old(self).bytes(),
            match r {
                Ok(d) => parse_bulk(
                    old(self).bytes(),
                    old(self).pos(),
                ) == Ok::<
                    (Value, int),
                    RESPError,
                >((d@, final(self).pos())),
                Err(e) => parse_bulk(
                    old(self).bytes(),
                    old(self).pos(),
                ) == Err::<
                    (Value, int),
                    RESPError,
                >(e),
            },
    {
        if self.position >= self.len {
            return Err(RESPError::InvalidData);
        }
        self.position += 1;
        proof {
            lemma_scan_end_bounds(self.bytes(), self.pos());
        }
        let len = match self.parse_len() {
            Ok(n) => n,
            Err(e) => {
                return Err(e);
            },
        };
        match self.skip_crlf() {
            Ok(_) => {},
            Err(e) => {
                return Err(e);
            },
        }
        if len < 0 {
            return Ok(DataType::BulkString(String::new()));
        }
        let start = self.position;
        let n: usize = len as usize;
        if n > self.len - start {
            return Err(RESPError::InvalidData);
        }
        self.position = start + n;
        match self.skip_crlf() {
            Ok(_) => {},
            Err(e) => {
                return Err(e);
            },
        }
        match self.text(start, start + n) {
            Some(text) => Ok(DataType::BulkString(text)),
            None => Err(RESPError::InvalidData),
        }
    }

    /// Reads the array whose type byte comes next.
    pub fn parse_array(&mut self) -> (r: Result<DataType, RESPError>)
        requires
            old(self).wf(),
        ensures
            final(self).wf(),
            final(self).bytes() == old(self).bytes(),
            match r {
                Ok(d) => parse_array(
                    old(self).bytes(),
                    old(self).pos(),
                ) == Ok::<
                    (Value, int),
                    RESPError,
                >((d@, final(self).pos())),
                Err(e) => parse_array(
                    old(self).bytes(),
                    old(self).pos(),
                ) == Err::<
                    (Value, int),
                    RESPError,
                >(e),
            },
        decreases old(self).bytes().len() - old(self).pos(), 0int,
    {
        if self.position >= self.len {
            return Err(RESPError::InvalidData);
        }
        self.position += 1;
        proof {
            lemma_scan_end_bounds(self.bytes(), self.pos());
        }
        let len = match self.parse_len() {
            Ok(n) => n,
            Err(e) => {
                return Err(e);
            },
        };
        match self.skip_crlf() {
            Ok(_) => {},
            Err(e) => {
                return Err(e);
            },
        }
        if len <= 0 {
            let empty: VecDeque<DataType> = VecDeque::new();
            proof {
                lemma_view_array(empty);
                assert(view_all(empty) =~= Seq::<Value>::empty());
            }
            return Ok(DataType::Array(empty));
        }
        let ghost start = self.pos();
        let mut buffer: VecDeque<DataType> = VecDeque::new();
        let mut k: isize = 0;
        assert(view_all(buffer) =~= Seq::<Value>::empty());
        assert(with_prefix(view_all(buffer), parse_items(self.bytes(), start, len as int))
            == parse_items(self.bytes(), start, len as int)) by {
            match parse_items(self.bytes(), start, len as int) {
                Ok((vs, q)) => {
                    assert(view_all(buffer) + vs =~= vs);
                },
                Err(e) => {},
            }
        }
        while k < len
            invariant
                self.wf(),
                self.bytes() == old(self).bytes(),
                0 <= k <= len,
                old(self).pos() < start <= self.pos() <= self.bytes().len(),
                buffer.len() == k,
                parse_array(self.bytes(), old(self).pos()) == match parse_items(
                    self.bytes(),
                    start,
                    len as int,
                ) {
                    Err(x) => Err::<(Value, int), RESPError>(x),
                    Ok((items, q)) => Ok((Value::Array(items), q)),
                },
                parse_items(self.bytes(), start, len as int) == with_prefix(
                    view_all(buffer),
                    parse_items(self.bytes(), self.pos(), len - k),
                ),
            decreases len - k,
        {
            let ghost before = self.pos();
            let ghost seen = view_all(buffer);
            proof {
                lemma_parse_value_bounds(self.bytes(), before);
            }
            match self.parse() {
                Ok(d) => {
                    buffer.push_back(d);
                    proof {
                        assert(view_all(buffer) =~= seen.push(d@));
                        match parse_items(self.bytes(), self.pos(), len - k - 1) {
                            Ok((vs, q)) => {
                                assert(seen + (seq![d@] + vs) =~= seen.push(d@) + vs);
                            },
                            Err(e) => {},
                        }
                    }
                },
                Err(e) => {
                    return Err(e);
                },
            }
            k = k + 1;
        }
        proof {
            lemma_view_array(buffer);
            assert(view_all(buffer) + Seq::<Value>::empty() =~= view_all(buffer));
        }
        Ok(DataType::Array(buffer))
    }

    /// Reads the value that comes next: a simple string, a bulk string or an
    /// array, by its first byte.
    pub fn parse(&mut self) -> (r: Result<DataType, RESPError>)
        requires
            old(self).wf(),
        ensures
            final(self).wf(),
            final(self).bytes() == old(self).bytes(),
            match r {
                Ok(d) => parse_value(
                    old(self).bytes(),
                    old(self).pos(),
                ) == Ok::<
                    (Value, int),
                    RESPError,
                >((d@, final(self).pos())),
                Err(e) => parse_value(
                    old(self).bytes(),
                    old(self).pos(),
                ) == Err::<
                    (Value, int),
                    RESPError,
                >(e),
            },
        decreases old(self).bytes().len() - old(self).pos(), 1int,
    {
        if self.position >= self.len {
            return Err(RESPError::InvalidData);
        }
        let tag = self.data[self.position];
        if tag == 43 {
            self.parse_simple_str()
        } else if tag == 36 {
            self.parse_bulk_str()
        } else if tag == 42 {
            self.parse_array()
        } else {
            Err(RESPError::InvalidType)
        }
    }
}

} // verus!
