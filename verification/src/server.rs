//! The accept loop, as a state machine. The caller owns the listener and the
//! data behind the store: it accepts, asks whether the data changed, loads, and
//! serves, each when told to. The server owns the store and decides.

use vstd::prelude::*;
use crate::connection::{bytes_read, on_read, Action, Connection, Event, Outcome, Phase};
use crate::route::Site;
use crate::store::Store;

verus! {

/// Milliseconds a read on an accepted connection may take.
pub const READ_TIMEOUT_MS: u64 = 500;

/// What asking for a change of the data behind the store gave.
#[derive(Clone, Copy, Debug, PartialEq, Eq, Structural)]
pub enum StoreCheck {
    Unchanged,
    Changed,
    /// The check itself failed, which counts as no change.
    Failed,
}

/// Where the loop stands within the turn of one incoming connection.
#[derive(Clone, Copy, Debug, PartialEq, Eq, Structural)]
pub enum LoopState {
    /// Between two connections.
    Idle,
    /// A connection came in; the answer of the change check is awaited.
    Checking { accepted: bool },
    /// The data changed; the outcome of the load is awaited.
    Loading { accepted: bool },
}

/// What the caller reports.
#[derive(Debug, PartialEq, Eq)]
pub enum LoopEvent {
    /// A connection came in. `accepted` is false where accepting it failed.
    Incoming { accepted: bool },
    /// The change check was made.
    Checked(StoreCheck),
    /// The load was made: the fresh mapping, or `None` where it failed.
    Loaded(Option<Store>),
}

/// What the caller is to do next.
#[derive(Clone, Copy, Debug, PartialEq, Eq, Structural)]
pub enum LoopAction {
    /// Wait for the next connection.
    Accept,
    /// Ask whether the data behind the store changed.
    CheckStore,
    /// Load the data behind the store.
    LoadStore,
    /// Serve the connection that came in, with the read timeout set.
    Serve,
}

/// The answer to one event.
#[derive(Debug, PartialEq, Eq)]
pub struct Turn {
    pub action: LoopAction,
    /// After a successful reload, the number of links now stored, for the log.
    pub reloaded: Option<usize>,
}

/// What is done with the connection once the store is dealt with: it is served
/// if it was accepted, and skipped if not.
pub open spec fn proceed(accepted: bool) -> LoopAction {
    if accepted {
        LoopAction::Serve
    } else {
        LoopAction::Accept
    }
}

/// The state after `event`. An event that the state does not wait for changes nothing.
pub open spec fn next_state(state: LoopState, event: LoopEvent) -> LoopState {
    match (state, event) {
        (LoopState::Idle, LoopEvent::Incoming { accepted }) => LoopState::Checking { accepted },
        (LoopState::Checking { accepted }, LoopEvent::Checked(StoreCheck::Changed))
            => LoopState::Loading { accepted },
        (LoopState::Checking { .. }, LoopEvent::Checked(_)) => LoopState::Idle,
        (LoopState::Loading { .. }, LoopEvent::Loaded(_)) => LoopState::Idle,
        _ => state,
    }
}

/// The action after `event`. Every connection has the change check made first;
/// only a change has the data loaded; whatever the load gave, the connection
/// is then served. An event that the state does not wait for has the pending
/// request made again.
pub open spec fn next_action(state: LoopState, event: LoopEvent) -> LoopAction {
    match (state, event) {
        (LoopState::Idle, LoopEvent::Incoming { .. }) => LoopAction::CheckStore,
        (LoopState::Checking { .. }, LoopEvent::Checked(StoreCheck::Changed))
            => LoopAction::LoadStore,
        (LoopState::Checking { accepted }, LoopEvent::Checked(_)) => proceed(accepted),
        (LoopState::Loading { accepted }, LoopEvent::Loaded(_)) => proceed(accepted),
        (LoopState::Idle, _) => LoopAction::Accept,
        (LoopState::Checking { .. }, _) => LoopAction::CheckStore,
        (LoopState::Loading { .. }, _) => LoopAction::LoadStore,
    }
}

/// The mapping that `event` brings in: only a successful load that the loop
/// waited for brings one.
pub open spec fn fresh_links(state: LoopState, event: LoopEvent) -> Option<Map<Seq<u8>, Seq<u8>>> {
    match (state, event) {
        (LoopState::Loading { .. }, LoopEvent::Loaded(Some(fresh))) => Some(fresh@),
        _ => None,
    }
}

/// The links after `event`: those that the event brings in, or else the ones
/// there were.
pub open spec fn links_after(
    links: Map<Seq<u8>, Seq<u8>>,
    state: LoopState,
    event: LoopEvent,
) -> Map<Seq<u8>, Seq<u8>> {
    match fresh_links(state, event) {
        Some(fresh) => fresh,
        None => links,
    }
}

/// The store, the configuration, and the state of the accept loop.
pub struct Server {
    store: Store,
    site: Site,
    state: LoopState,
}

impl Server {
    /// The invariant of the type: the store is well formed.
    pub closed spec fn wf(&self) -> bool {
        self.store.wf()
    }

    /// The links that requests are answered from.
    pub closed spec fn links(&self) -> Map<Seq<u8>, Seq<u8>> {
        self.store@
    }

    /// The configuration.
    pub closed spec fn site(&self) -> Site {
        self.site
    }

    /// Where the loop stands.
    pub closed spec fn state(&self) -> LoopState {
        self.state
    }

    /// A server that waits for its first connection.
    pub fn init(store: Store, site: Site) -> (server: Server)
        requires
            store.wf(),
        ensures
            server.wf(),
            server.links() == store@,
            server.site() == site,
            server.state() == LoopState::Idle,
    {
        Server { store, site, state: LoopState::Idle }
    }

    /// Takes one event of the accept loop and says what to do next.
    ///
    /// The links change only by a successful load that the loop asked for. A
    /// failed load, a failed check and a connection that could not be accepted
    /// leave them as they are, and the loop goes on.
    pub fn step(&mut self, event: LoopEvent) -> (turn: Turn)
        requires
            old(self).wf(),
            event matches LoopEvent::Loaded(Some(fresh)) ==> fresh.wf(),
        ensures
            final(self).wf(),
            final(self).site() == old(self).site(),
            final(self).state() == next_state(old(self).state(), event),
            turn.action == next_action(old(self).state(), event),
            final(self).links() == links_after(old(self).links(), old(self).state(), event),
            match fresh_links(old(self).state(), event) {
                Some(links) => links.dom().finite() && turn.reloaded == Some(
                    links.dom().len() as usize,
                ),
                None => turn.reloaded is None,
            },
    {
        match self.state {
            LoopState::Idle => match event {
                LoopEvent::Incoming { accepted } => {
                    self.state = LoopState::Checking { accepted };
                    Turn { action: LoopAction::CheckStore, reloaded: None }
                },
                _ => Turn { action: LoopAction::Accept, reloaded: None },
            },
            LoopState::Checking { accepted } => match event {
                LoopEvent::Checked(StoreCheck::Changed) => {
                    self.state = LoopState::Loading { accepted };
                    Turn { action: LoopAction::LoadStore, reloaded: None }
                },
                LoopEvent::Checked(_) => {
                    self.state = LoopState::Idle;
                    Turn { action: after_store(accepted), reloaded: None }
                },
                _ => Turn { action: LoopAction::CheckStore, reloaded: None },
            },
            LoopState::Loading { accepted } => match event {
                LoopEvent::Loaded(loaded) => {
                    self.state = LoopState::Idle;
                    let replaced: bool = self.store.refresh(loaded);
                    let reloaded: Option<usize> = if replaced {
                        Some(self.store.len())
                    } else {
                        None
                    };
                    Turn { action: after_store(accepted), reloaded }
                },
                _ => Turn { action: LoopAction::LoadStore, reloaded: None },
            },
        }
    }

    /// The handler for a connection that was just accepted.
    pub fn open(&self) -> (connection: Connection)
        ensures
            connection.phase() == Phase::AwaitRequestLine,
            connection.buffered() == Seq::<u8>::empty(),
            connection.limit() == self.site().max_request_len,
    {
        Connection::new(self.site.max_request_len)
    }

    /// Hands what a read gave to the handler of a connection, which answers
    /// from the links of this server. The links are only read.
    pub fn serve(&self, connection: &mut Connection, event: Event) -> (action: Action)
        requires
            self.wf(),
        ensures
            final(connection).limit() == old(connection).limit(),
            action@ == if old(connection).phase() == Phase::Responded {
                Outcome::Close
            } else {
                on_read(
                    self.links(),
                    self.site(),
                    old(connection).buffered(),
                    old(connection).limit(),
                    bytes_read(event),
                )
            },
            final(connection).phase() == if action@ == Outcome::Read {
                Phase::AwaitRequestLine
            } else {
                Phase::Responded
            },
            final(connection).buffered() == match event {
                Event::Data(bytes) if old(connection).phase() == Phase::AwaitRequestLine
                    => old(connection).buffered() + bytes@,
                _ => old(connection).buffered(),
            },
    {
        connection.step(&self.store, &self.site, event)
    }

    /// The store, for reading.
    pub fn store(&self) -> (store: &Store)
        ensures
            store@ == self.links(),
            self.wf() ==> store.wf(),
    {
        &self.store
    }
}

/// Picks what is done with the connection once the store is dealt with.
pub fn after_store(accepted: bool) -> (action: LoopAction)
    ensures
        action == proceed(accepted),
{
    if accepted {
        LoopAction::Serve
    } else {
        LoopAction::Accept
    }
}

} // verus!
