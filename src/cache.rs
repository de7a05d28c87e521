//! The decisions of a read-through cache of tile images.
//!
//! One request for a tile's image runs as a small state machine: look the
//! tile up in the store; serve a hit; on a miss fetch the image from the
//! provider, write it to the store (insert, or replace the bytes and refresh
//! the timestamp) and serve it once the write has succeeded. Any failure of
//! the store or of the provider ends the request with `Fail`, without retry.
//! The caller performs each action and hands the outcome back as an event.

use crate::tile::Tile;
use vstd::prelude::*;

verus! {

/// The key of a tile's image in the store: `(x, y, z)`.
pub type TileKey = (u32, u32, u8);

/// The key of tile `t`.
pub open spec fn key_of(t: Tile) -> TileKey {
    (t.x, t.y, t.z)
}

/// Where a request stands.
#[derive(Debug)]
pub enum RequestState {
    /// Waiting for the store's answer to a lookup.
    AwaitLookup,
    /// Waiting for the provider's image.
    AwaitFetch,
    /// Waiting for the store to write these bytes.
    AwaitStore(Vec<u8>),
    /// Served or failed; nothing is left to do.
    Finished,
}

/// The outcome of the last action, handed back by the caller.
#[derive(Debug)]
pub enum CacheEvent {
    /// The store answered a lookup: the stored bytes, or `None`.
    Found(Option<Vec<u8>>),
    /// The provider returned the image.
    Fetched(Vec<u8>),
    /// The store wrote the bytes.
    Stored,
    /// The store or the provider failed.
    Failed,
}

/// What the caller is to do next.
#[derive(Debug)]
pub enum CacheAction {
    /// Look the key up in the store.
    Lookup(TileKey),
    /// Fetch the tile's image from the provider.
    Fetch(Tile),
    /// Insert the bytes under the key, or replace the bytes stored there and
    /// refresh their timestamp.
    Store(TileKey, Vec<u8>),
    /// Hand the bytes to the client; the request is done.
    Serve(Vec<u8>),
    /// The request failed; the failure goes to the client.
    Fail,
}

/// A request for one tile's image.
#[derive(Debug)]
pub struct ImageRequest {
    pub tile: Tile,
    pub state: RequestState,
}

/// `RequestState` with its bytes as a sequence.
pub enum StateView {
    AwaitLookup,
    AwaitFetch,
    AwaitStore(Seq<u8>),
    Finished,
}

/// `CacheEvent` with its bytes as a sequence.
pub enum EventView {
    Found(Option<Seq<u8>>),
    Fetched(Seq<u8>),
    Stored,
    Failed,
}

/// `CacheAction` with its bytes as a sequence.
pub enum ActionView {
    Lookup(TileKey),
    Fetch(Tile),
    Store(TileKey, Seq<u8>),
    Serve(Seq<u8>),
    Fail,
}

impl View for RequestState {
    type V = StateView;

    open spec fn view(&self) -> StateView {
        match self {
            RequestState::AwaitLookup => StateView::AwaitLookup,
            RequestState::AwaitFetch => StateView::AwaitFetch,
            RequestState::AwaitStore(b) => StateView::AwaitStore(b@),
            RequestState::Finished => StateView::Finished,
        }
    }
}

impl View for CacheEvent {
    type V = EventView;

    open spec fn view(&self) -> EventView {
        match self {
            CacheEvent::Found(Some(b)) => EventView::Found(Some(b@)),
            CacheEvent::Found(None) => EventView::Found(None),
            CacheEvent::Fetched(b) => EventView::Fetched(b@),
            CacheEvent::Stored => EventView::Stored,
            CacheEvent::Failed => EventView::Failed,
        }
    }
}

impl View for CacheAction {
    type V = ActionView;

    open spec fn view(&self) -> ActionView {
        match self {
            CacheAction::Lookup(k) => ActionView::Lookup(*k),
            CacheAction::Fetch(t) => ActionView::Fetch(*t),
            CacheAction::Store(k, b) => ActionView::Store(*k, b@),
            CacheAction::Serve(b) => ActionView::Serve(b@),
            CacheAction::Fail => ActionView::Fail,
        }
    }
}

impl View for ImageRequest {
    type V = (Tile, StateView);

    open spec fn view(&self) -> (Tile, StateView) {
        (self.tile, self.state@)
    }
}

/// A new request for tile `t` and its first action.
pub open spec fn start(t: Tile) -> ((Tile, StateView), ActionView) {
    ((t, StateView::AwaitLookup), ActionView::Lookup(key_of(t)))
}

/// The next state of a request and its next action, given the outcome of
/// the last action. An event that does not answer the pending action ends
/// the request with `Fail`.
pub open spec fn next(r: (Tile, StateView), e: EventView) -> ((Tile, StateView), ActionView) {
    let t = r.0;
    match (r.1, e) {
        (StateView::AwaitLookup, EventView::Found(Some(b))) => (
            (t, StateView::Finished),
            ActionView::Serve(b),
        ),
        (StateView::AwaitLookup, EventView::Found(None)) => (
            (t, StateView::AwaitFetch),
            ActionView::Fetch(t),
        ),
        (StateView::AwaitFetch, EventView::Fetched(b)) => (
            (t, StateView::AwaitStore(b)),
            ActionView::Store(key_of(t), b),
        ),
        (StateView::AwaitStore(b), EventView::Stored) => (
            (t, StateView::Finished),
            ActionView::Serve(b),
        ),
        _ => ((t, StateView::Finished), ActionView::Fail),
    }
}

impl ImageRequest {
    /// A request for the image of `tile`, with its first action: a lookup of
    /// the tile's key.
    pub fn new(tile: Tile) -> (r: (ImageRequest, CacheAction))
        ensures
            (r.0@, r.1@) == start(tile),
    {
        let key = tile.cache_key();
        (ImageRequest { tile, state: RequestState::AwaitLookup }, CacheAction::Lookup(key))
    }

    /// Takes the outcome of the last action and decides the next one.
    pub fn step(&mut self, ev: CacheEvent) -> (a: CacheAction)
        ensures
            (final(self)@, a@) == next(old(self)@, ev@),
    {
        let mut st = RequestState::Finished;
        core::mem::swap(&mut self.state, &mut st);
        match (st, ev) {
            (RequestState::AwaitLookup, CacheEvent::Found(Some(b))) => CacheAction::Serve(b),
            (RequestState::AwaitLookup, CacheEvent::Found(None)) => {
                self.state = RequestState::AwaitFetch;
                CacheAction::Fetch(self.tile)
            },
            (RequestState::AwaitFetch, CacheEvent::Fetched(b)) => {
                let key = self.tile.cache_key();
                let copy = b.clone();
                proof {
                    assert(copy@ =~= b@);
                }
                self.state = RequestState::AwaitStore(b);
                CacheAction::Store(key, copy)
            },
            (RequestState::AwaitStore(b), CacheEvent::Stored) => CacheAction::Serve(b),
            _ => CacheAction::Fail,
        }
    }

    /// Whether the request has been served or has failed.
    pub fn is_finished(&self) -> (r: bool)
        ensures
            r == (self.state@ is Finished),
    {
        match self.state {
            RequestState::Finished => true,
            _ => false,
        }
    }
}

/// A store of tile images, as a map from key to bytes.
pub type StoreModel = Map<TileKey, Seq<u8>>;

/// How the store `m` and a provider that returns `u` answer action `a`:
/// the event, the store afterwards, and the number of fetches made.
pub open spec fn respond(m: StoreModel, a: ActionView, u: Seq<u8>) -> (EventView, StoreModel, nat) {
    match a {
        ActionView::Lookup(k) => (
            EventView::Found(
                if m.contains_key(k) {
                    Some(m[k])
                } else {
                    None
                },
            ),
            m,
            0,
        ),
        ActionView::Fetch(_) => (EventView::Fetched(u), m, 1),
        ActionView::Store(k, b) => (EventView::Stored, m.insert(k, b), 0),
        _ => (EventView::Failed, m, 0),
    }
}

/// Runs a request from state `r` and pending action `a` against store `m`
/// for at most `fuel` steps: the last action, the store afterwards, and the
/// number of fetches made.
pub open spec fn drive(
    r: (Tile, StateView),
    a: ActionView,
    m: StoreModel,
    u: Seq<u8>,
    fuel: nat,
) -> (ActionView, StoreModel, nat)
    decreases fuel,
{
    if fuel == 0 || a is Serve || a is Fail {
        (a, m, 0)
    } else {
        let (e, m1, f1) = respond(m, a, u);
        let (r2, a2) = next(r, e);
        let (fa, m2, f2) = drive(r2, a2, m1, u, (fuel - 1) as nat);
        (fa, m2, f1 + f2)
    }
}

/// One whole request for tile `t` against store `m`, with a provider that
/// returns `u`: the final action, the store afterwards, and the number of
/// fetches made.
pub open spec fn get_model(m: StoreModel, t: Tile, u: Seq<u8>) -> (ActionView, StoreModel, nat) {
    let (r, a) = start(t);
    drive(r, a, m, u, 4)
}

/// A request for a tile that the store holds serves the stored bytes,
/// fetches nothing and leaves the store as it was; so a second request
/// serves the same bytes, again without a fetch.
pub proof fn lemma_hit_serves_stored(m: StoreModel, t: Tile, u1: Seq<u8>, u2: Seq<u8>)
    requires
        m.contains_key(key_of(t)),
    ensures
        get_model(m, t, u1) == (ActionView::Serve(m[key_of(t)]), m, 0nat),
        get_model(get_model(m, t, u1).1, t, u2) == (ActionView::Serve(m[key_of(t)]), m, 0nat),
{
    reveal_with_fuel(drive, 3);
}

/// A request for a tile that the store lacks fetches exactly once, serves
/// the fetched bytes and leaves them in the store; a later request then
/// serves them from the store without a fetch.
pub proof fn lemma_miss_fetches_once(m: StoreModel, t: Tile, u: Seq<u8>, u2: Seq<u8>)
    requires
        !m.contains_key(key_of(t)),
    ensures
        get_model(m, t, u) == (ActionView::Serve(u), m.insert(key_of(t), u), 1nat),
        get_model(m.insert(key_of(t), u), t, u2) == (
            ActionView::Serve(u),
            m.insert(key_of(t), u),
            0nat,
        ),
{
    reveal_with_fuel(drive, 5);
    let m1 = m.insert(key_of(t), u);
    assert(m1.contains_key(key_of(t)) && m1[key_of(t)] == u);
}

} // verus!
