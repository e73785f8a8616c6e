//! The handler of one connection, as a state machine. The caller owns the
//! socket: it reads when told to, hands over what the read gave, and writes the
//! one response. The handler decides.

use vstd::prelude::*;
use crate::reader::{line_complete, LineReader};
use crate::route::{optional_text, respond, respond_spec, served_token, Site};
use crate::store::Store;

verus! {

/// Where a connection stands. Parsing and routing happen within the one step
/// that ends the wait for the request line.
#[derive(Clone, Copy, Debug, PartialEq, Eq, Structural)]
pub enum Phase {
    /// The request line is still being read.
    AwaitRequestLine,
    /// The connection is done: a response was handed out, or none will be.
    Responded,
}

/// What a read on the connection gave.
#[derive(Debug, PartialEq, Eq)]
pub enum Event {
    /// The bytes of one read. No bytes at all: the peer has closed.
    Data(Vec<u8>),
    /// The read failed or timed out.
    Failed,
}

/// What the caller is to do next.
#[derive(Debug, PartialEq, Eq)]
pub enum Action {
    /// Read another chunk and hand it over.
    Read,
    /// Write these bytes, flush, and close. `served` holds the token of a
    /// redirect, for the log.
    Reply { bytes: Vec<u8>, served: Option<Vec<u8>> },
    /// Close without a response: the peer closed before sending anything, or
    /// the connection was done already.
    Close,
    /// Drop the connection without a response: reading failed.
    Abandon,
}

/// What an event leads to while the request line is awaited, as mathematical values.
pub enum Outcome {
    Read,
    Reply { bytes: Seq<u8>, served: Option<Seq<u8>> },
    Close,
    Abandon,
}

impl View for Action {
    type V = Outcome;

    open spec fn view(&self) -> Outcome {
        match self {
            Action::Read => Outcome::Read,
            Action::Reply { bytes, served } => Outcome::Reply {
                bytes: bytes@,
                served: optional_text(*served),
            },
            Action::Close => Outcome::Close,
            Action::Abandon => Outcome::Abandon,
        }
    }
}

/// The reply to `head`: the response on the wire, and the token if it is a redirect.
pub open spec fn reply_for(links: Map<Seq<u8>, Seq<u8>>, site: Site, head: Seq<u8>) -> Outcome {
    Outcome::Reply {
        bytes: respond_spec(links, site, head).wire(),
        served: served_token(links, head),
    }
}

/// What a read leads to while the request line is awaited, where `buffered` is
/// what was read before and `limit` the byte budget.
///
/// A failed read abandons the connection. A peer that closed before sending
/// anything gets no response. Bytes that leave the line unfinished ask for
/// another read. Everything else is answered: a finished line, a used-up
/// budget, or a peer that closed in the middle of the line.
pub open spec fn on_read(
    links: Map<Seq<u8>, Seq<u8>>,
    site: Site,
    buffered: Seq<u8>,
    limit: nat,
    chunk: Option<Seq<u8>>,
) -> Outcome {
    match chunk {
        None => Outcome::Abandon,
        Some(bytes) => if bytes.len() == 0 && buffered.len() == 0 {
            Outcome::Close
        } else if bytes.len() > 0 && !line_complete(buffered + bytes, limit) {
            Outcome::Read
        } else {
            reply_for(links, site, buffered + bytes)
        },
    }
}

/// The view of an event: the bytes read, or `None` for a failed read.
pub open spec fn bytes_read(event: Event) -> Option<Seq<u8>> {
    match event {
        Event::Data(bytes) => Some(bytes@),
        Event::Failed => None,
    }
}

/// The handler of one connection.
pub struct Connection {
    phase: Phase,
    reader: LineReader,
}

impl Connection {
    /// Where the connection stands.
    pub closed spec fn phase(&self) -> Phase {
        self.phase
    }

    /// What has been read so far.
    pub closed spec fn buffered(&self) -> Seq<u8> {
        self.reader.buffered()
    }

    /// The byte budget of the request line; zero means none.
    pub closed spec fn limit(&self) -> nat {
        self.reader.limit()
    }

    /// The handler of a fresh connection, which is to be read from.
    pub fn new(limit: usize) -> (connection: Connection)
        ensures
            connection.phase() == Phase::AwaitRequestLine,
            connection.buffered() == Seq::<u8>::empty(),
            connection.limit() == limit,
    {
        Connection { phase: Phase::AwaitRequestLine, reader: LineReader::new(limit) }
    }

    /// Whether the connection is done.
    pub fn is_done(&self) -> (done: bool)
        ensures
            done == (self.phase() == Phase::Responded),
    {
        self.phase == Phase::Responded
    }

    /// Takes what a read gave and says what to do next.
    ///
    /// Only `Read` leaves the connection waiting; every other action ends it,
    /// and a connection that is done answers every event with `Close`. So a
    /// connection hands out at most one reply.
    pub fn step(&mut self, store: &Store, site: &Site, event: Event) -> (action: Action)
        requires
            store.wf(),
        ensures
            final(self).limit() == old(self).limit(),
            action@ == if old(self).phase() == Phase::Responded {
                Outcome::Close
            } else {
                on_read(store@, *site, old(self).buffered(), old(self).limit(), bytes_read(event))
            },
            final(self).phase() == if action@ == Outcome::Read {
                Phase::AwaitRequestLine
            } else {
                Phase::Responded
            },
            final(self).buffered() == match event {
                Event::Data(bytes) if old(self).phase() == Phase::AwaitRequestLine
                    => old(self).buffered() + bytes@,
                _ => old(self).buffered(),
            },
    {
        if self.phase == Phase::Responded {
            return Action::Close;
        }
        match event {
            Event::Failed => {
                self.phase = Phase::Responded;
                Action::Abandon
            },
            Event::Data(chunk) => {
                let ended: bool = chunk.len() == 0;
                if ended && self.reader.is_empty() {
                    self.phase = Phase::Responded;
                    assert(self.reader.buffered() + chunk@ =~= self.reader.buffered());
                    return Action::Close;
                }
                self.reader.feed(chunk.as_slice());
                if !ended && self.reader.wants_more() {
                    return Action::Read;
                }
                self.phase = Phase::Responded;
                let answer = respond(store, site, self.reader.bytes());
                Action::Reply { bytes: answer.response.to_bytes(), served: answer.served }
            },
        }
    }
}

} // verus!
