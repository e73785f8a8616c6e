//! The line reader: it gathers what is read off a connection, chunk by chunk,
//! until a line feed has come or the byte budget is used up.

use vstd::prelude::*;
use crate::bytes::{append, contains_byte, LF};

verus! {

/// Number of bytes asked of the connection with each read.
pub const CHUNK_SIZE: usize = 128;

/// Whether nothing more needs to be read: a line feed has come, or the bytes
/// have reached the budget. A budget of zero is no budget: only a line feed
/// then ends the reading.
pub open spec fn line_complete(buffer: Seq<u8>, limit: nat) -> bool {
    buffer.contains(LF) || (limit != 0 && buffer.len() >= limit)
}

/// The bytes gathered so far, with the budget.
pub struct LineReader {
    buffer: Vec<u8>,
    limit: usize,
}

impl LineReader {
    /// The bytes gathered so far.
    pub closed spec fn buffered(&self) -> Seq<u8> {
        self.buffer@
    }

    /// The byte budget; zero means none.
    pub closed spec fn limit(&self) -> nat {
        self.limit as nat
    }

    /// A reader that has gathered nothing yet.
    pub fn new(limit: usize) -> (reader: LineReader)
        ensures
            reader.buffered() == Seq::<u8>::empty(),
            reader.limit() == limit,
    {
        LineReader { buffer: Vec::new(), limit }
    }

    /// Whether another chunk should be read.
    pub fn wants_more(&self) -> (more: bool)
        ensures
            more == !line_complete(self.buffered(), self.limit()),
    {
        !contains_byte(self.buffer.as_slice(), LF) && (self.limit == 0 || self.buffer.len()
            < self.limit)
    }

    /// Takes in one chunk.
    pub fn feed(&mut self, chunk: &[u8])
        ensures
            final(self).buffered() == old(self).buffered() + chunk@,
            final(self).limit() == old(self).limit(),
    {
        append(&mut self.buffer, chunk);
    }

    /// Whether nothing has been gathered.
    pub fn is_empty(&self) -> (empty: bool)
        ensures
            empty == (self.buffered().len() == 0),
    {
        self.buffer.len() == 0
    }

    /// The bytes gathered so far.
    pub fn bytes(&self) -> (bytes: &[u8])
        ensures
            bytes@ == self.buffered(),
    {
        self.buffer.as_slice()
    }
}

} // verus!
