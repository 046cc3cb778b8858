//! The canonical drawing shared by all clients, the changes owed to each
//! client, and the barrier that makes every client observe a global clear.
use vstd::prelude::*;

use crate::geometry::Rect;
use crate::line::{usable_rect, LineView, MergeMode};
use crate::lines::{contains_id, lines_transformed, merged, Lines};

verus! {

/// Model of one registered client.
pub ghost struct ClientView {
    /// The network peer that the client was registered for.
    pub peer: Seq<char>,
    /// Ids of lines changed or deleted by other clients since this client last pulled.
    pub pending: Set<u64>,
    /// Whether the client has yet to observe the most recent clear.
    pub awaiting_clear: bool,
}

/// Model of the whole shared state. A client's identity is its index in `clients`.
pub ghost struct SyncView {
    /// The canonical lines, in normalized coordinates.
    pub lines: Map<u64, LineView>,
    pub clients: Seq<ClientView>,
}

/// Model of what a pull hands back.
pub ghost struct PullView {
    pub lines: Map<u64, LineView>,
    pub changed: Option<Set<u64>>,
    pub clear: bool,
}

/// `clients`, where every client but `author` is owed the ids in `ids`.
pub open spec fn notify_others(clients: Seq<ClientView>, author: int, ids: Set<u64>) -> Seq<
    ClientView,
> {
    Seq::new(
        clients.len(),
        |i: int|
            if i == author {
                clients[i]
            } else {
                ClientView { pending: clients[i].pending.union(ids), ..clients[i] }
            },
    )
}

/// The ids flagged by an optional list: none when there is no list.
pub open spec fn flagged(changed: Option<Vec<u64>>) -> Set<u64> {
    match changed {
        Some(v) => v@.to_set(),
        None => Set::empty(),
    }
}

impl SyncView {
    /// Whether `c` identifies a registered client.
    pub open spec fn has_client(self, c: u64) -> bool {
        c < self.clients.len()
    }

    /// Whether a clear is still waiting to be observed by some client.
    pub open spec fn barrier_active(self) -> bool {
        exists|i: int| 0 <= i < self.clients.len() && #[trigger] self.clients[i].awaiting_clear
    }

    /// The state after client `c` has pushed `incoming`, flagging `changed`.
    pub open spec fn pushed(
        self,
        c: u64,
        incoming: Map<u64, LineView>,
        changed: Set<u64>,
        rect: Option<Rect>,
    ) -> SyncView {
        SyncView {
            lines: merged(self.lines, incoming, changed, rect, MergeMode::FromCanvas),
            clients: notify_others(self.clients, c as int, changed),
        }
    }

    /// The state after client `c` has deleted the lines with the ids in `ids`.
    pub open spec fn deleted(self, c: u64, ids: Set<u64>) -> SyncView {
        SyncView {
            lines: self.lines.remove_keys(ids),
            clients: notify_others(self.clients, c as int, ids),
        }
    }

    /// What a pull by client `c`, whose canvas is `rect`, hands back.
    pub open spec fn pull_result(self, c: u64, rect: Rect) -> PullView {
        if self.clients[c as int].awaiting_clear {
            PullView { lines: Map::empty(), changed: None, clear: true }
        } else {
            PullView {
                lines: lines_transformed(self.lines, Some(rect), MergeMode::ToCanvas),
                changed: Some(self.clients[c as int].pending),
                clear: false,
            }
        }
    }

    /// The state after a pull by client `c`: it is owed nothing and has observed any clear.
    pub open spec fn pulled(self, c: u64) -> SyncView {
        SyncView {
            lines: self.lines,
            clients: self.clients.update(
                c as int,
                ClientView {
                    pending: Set::empty(),
                    awaiting_clear: false,
                    ..self.clients[c as int]
                },
            ),
        }
    }

    /// The state after a clear: no lines, nothing owed, every client awaiting the clear.
    pub open spec fn cleared(self) -> SyncView {
        SyncView {
            lines: Map::empty(),
            clients: self.clients.map_values(
                |cl: ClientView|
                    ClientView { peer: cl.peer, pending: Set::empty(), awaiting_clear: true },
            ),
        }
    }

    /// Index of the client registered for `peer`, if any.
    pub open spec fn client_of(self, peer: Seq<char>) -> Option<int> {
        if exists|i: int| 0 <= i < self.clients.len() && #[trigger] self.clients[i].peer == peer {
            Some(
                choose|i: int| 0 <= i < self.clients.len() && #[trigger] self.clients[i].peer == peer,
            )
        } else {
            None
        }
    }

    /// The state after `peer` has made contact: unchanged if it is known, else
    /// with a new client that is owed nothing and is not held to an earlier clear.
    pub open spec fn registered(self, peer: Seq<char>) -> SyncView {
        if self.client_of(peer) is Some {
            self
        } else {
            SyncView {
                lines: self.lines,
                clients: self.clients.push(
                    ClientView { peer, pending: Set::empty(), awaiting_clear: false },
                ),
            }
        }
    }
}

/// Why a request was refused.
#[derive(Clone, Copy, Debug, PartialEq, Eq, Structural)]
pub enum SyncError {
    /// The request named a client identity that was never registered.
    UnknownClient,
}

/// The only flag a pull can carry.
#[derive(Clone, Copy, Debug, PartialEq, Eq, Structural)]
pub enum PullFlag {
    /// Everything was cleared: the client drops its whole local copy.
    Clear,
}

/// What a pull hands back: the canonical lines in the client's canvas space and
/// the ids changed since its last pull, or the clear flag alone.
pub struct PullResponse {
    pub lines: Lines,
    pub changed_lines: Option<Vec<u64>>,
    pub flag: Option<PullFlag>,
}

impl View for PullResponse {
    type V = PullView;

    open spec fn view(&self) -> PullView {
        PullView {
            lines: self.lines@,
            changed: match self.changed_lines {
                Some(v) => Some(v@.to_set()),
                None => None,
            },
            clear: self.flag is Some,
        }
    }
}

/// A client's local lines after it has taken in a pull: dropped entirely on a
/// clear, otherwise merged with the pulled lines (already in its canvas space)
/// and the changed ids.
pub open spec fn applied(local: Map<u64, LineView>, pull: PullView) -> Map<u64, LineView> {
    if pull.clear {
        Map::empty()
    } else {
        merged(
            local,
            pull.lines,
            match pull.changed {
                Some(ch) => ch,
                None => Set::empty(),
            },
            None,
            MergeMode::ToCanvas,
        )
    }
}

impl PullResponse {
    /// Takes this response into a client's local lines: a clear drops them all;
    /// otherwise the pulled lines are merged in, with the changed ids flagged.
    pub fn apply_to(&self, local: &mut Lines)
        ensures
            final(local)@ == applied(old(local)@, self@),
    {
        if self.flag.is_some() {
            local.clear();
        } else {
            let none: Vec<u64> = Vec::new();
            let changed = match &self.changed_lines {
                Some(v) => v,
                None => &none,
            };
            assert(changed@.to_set() =~= match self@.changed {
                Some(ch) => ch,
                None => Set::empty(),
            });
            local.merge(&self.lines, changed, None, MergeMode::ToCanvas);
        }
    }
}

/// One registered client.
pub(crate) struct Client {
    peer: String,
    pending: Vec<u64>,
    awaiting_clear: bool,
}

impl View for Client {
    type V = ClientView;

    closed spec fn view(&self) -> ClientView {
        ClientView {
            peer: self.peer@,
            pending: self.pending@.to_set(),
            awaiting_clear: self.awaiting_clear,
        }
    }
}

/// The shared state: canonical lines and the registered clients.
pub struct SyncState {
    lines: Lines,
    clients: Vec<Client>,
}

impl View for SyncState {
    type V = SyncView;

    closed spec fn view(&self) -> SyncView {
        SyncView { lines: self.lines@, clients: self.clients@.map_values(|c: Client| c@) }
    }
}

/// Adds `id` to `v` unless it is there already.
fn add_unique(v: &mut Vec<u64>, id: u64)
    requires
        old(v)@.no_duplicates(),
    ensures
        final(v)@.no_duplicates(),
        final(v)@.to_set() == old(v)@.to_set().insert(id),
{
    if !contains_id(v, id) {
        v.push(id);
        proof {
            old(v)@.lemma_push_to_set_commute(id);
        }
    } else {
        assert(old(v)@.to_set().insert(id) =~= old(v)@.to_set());
    }
}

/// Adds every id of `ids` to `v`, keeping each id once.
pub(crate) fn add_all(v: &mut Vec<u64>, ids: &Vec<u64>)
    requires
        old(v)@.no_duplicates(),
    ensures
        final(v)@.no_duplicates(),
        final(v)@.to_set() == old(v)@.to_set().union(ids@.to_set()),
{
    for i in 0..ids.len()
        invariant
            v@.no_duplicates(),
            v@.to_set() == old(v)@.to_set().union(ids@.take(i as int).to_set()),
    {
        add_unique(v, ids[i]);
        proof {
            assert(ids@.take(i + 1) =~= ids@.take(i as int).push(ids@[i as int]));
            ids@.take(i as int).lemma_push_to_set_commute(ids@[i as int]);
            assert(v@.to_set() =~= old(v)@.to_set().union(ids@.take(i + 1).to_set()));
        }
    }
    assert(ids@.take(ids@.len() as int) =~= ids@);
}

impl SyncState {
    /// The state's internal consistency: every pending list holds each id once,
    /// and no two clients share a peer.
    pub closed spec fn wf(&self) -> bool {
        &&& forall|i: int|
            0 <= i < self.clients@.len() ==> (#[trigger] self.clients@[i]).pending@.no_duplicates()
        &&& forall|i: int, j: int|
            0 <= i < j < self.clients@.len() ==> (#[trigger] self.clients@[i]).peer@
                != (#[trigger] self.clients@[j]).peer@
    }

    /// No lines and no clients.
    pub fn new() -> (r: SyncState)
        ensures
            r.wf(),
            r@.lines == Map::<u64, LineView>::empty(),
            r@.clients == Seq::<ClientView>::empty(),
    {
        let r = SyncState { lines: Lines::new(), clients: Vec::new() };
        assert(r@.clients =~= Seq::<ClientView>::empty());
        r
    }

    /// The canonical lines, in normalized coordinates.
    pub fn lines(&self) -> (r: &Lines)
        ensures
            r@ == self@.lines,
    {
        &self.lines
    }

    /// Number of registered clients.
    pub fn client_count(&self) -> (r: usize)
        ensures
            r == self@.clients.len(),
    {
        self.clients.len()
    }

    /// Whether `client` has yet to observe the most recent clear; `false` for an
    /// unknown client.
    pub fn awaiting_clear(&self, client: u64) -> (r: bool)
        ensures
            r == (self@.has_client(client) && self@.clients[client as int].awaiting_clear),
    {
        if client < self.clients.len() as u64 {
            self.clients[client as usize].awaiting_clear
        } else {
            false
        }
    }

    /// Whether a clear is still waiting to be observed by some client.
    pub fn barrier_active(&self) -> (r: bool)
        ensures
            r == self@.barrier_active(),
    {
        let mut i: usize = 0;
        while i < self.clients.len()
            invariant
                i <= self.clients@.len(),
                forall|j: int| 0 <= j < i ==> !(#[trigger] self.clients@[j]).awaiting_clear,
            decreases self.clients@.len() - i,
        {
            if self.clients[i].awaiting_clear {
                assert(self@.clients[i as int].awaiting_clear);
                return true;
            }
            i = i + 1;
        }
        assert forall|j: int| 0 <= j < self@.clients.len() implies !(
        #[trigger] self@.clients[j]).awaiting_clear by {
            assert(!self.clients@[j].awaiting_clear);
        }
        false
    }

    /// Owes every client but `author` the ids in `ids`.
    fn notify_others(&mut self, author: u64, ids: &Vec<u64>)
        requires
            old(self).wf(),
        ensures
            final(self).wf(),
            final(self)@ == (SyncView {
                lines: old(self)@.lines,
                clients: notify_others(old(self)@.clients, author as int, ids@.to_set()),
            }),
    {
        let n = self.clients.len();
        let ghost target = notify_others(old(self)@.clients, author as int, ids@.to_set());
        assert(target.len() == n);
        for i in 0..n
            invariant
                target.len() == n,
                target == notify_others(old(self)@.clients, author as int, ids@.to_set()),
                n == self.clients@.len(),
                n == old(self).clients@.len(),
                self.lines == old(self).lines,
                self.wf(),
                forall|j: int|
                    0 <= j < n ==> (#[trigger] self.clients@[j]).peer@ == old(
                        self,
                    ).clients@[j].peer@,
                forall|j: int|
                    0 <= j < n ==> (#[trigger] self.clients@[j])@ == if j < i {
                        target[j]
                    } else {
                        old(self)@.clients[j]
                    },
        {
            if i as u64 != author {
                add_all(&mut self.clients[i].pending, ids);
            }
            assert(self.clients@[i as int]@ == target[i as int]);
        }
        assert(self@.clients =~= target);
    }

    /// Registers `peer`, or finds it if it is registered already, and returns
    /// its client identity. Identities are handed out in order, so no two peers
    /// share one.
    pub fn register(&mut self, peer: &String) -> (id: u64)
        requires
            old(self).wf(),
        ensures
            final(self).wf(),
            final(self)@ == old(self)@.registered(peer@),
            final(self)@.has_client(id),
            final(self)@.clients[id as int].peer == peer@,
            old(self)@.has_client(id) <==> old(self)@.client_of(peer@) is Some,
    {
        let n = self.clients.len();
        let mut i: usize = 0;
        while i < n
            invariant
                n == self.clients@.len(),
                *self == *old(self),
                self.wf(),
                i <= n,
                forall|j: int| 0 <= j < i ==> (#[trigger] self@.clients[j]).peer != peer@,
            decreases n - i,
        {
            if self.clients[i].peer == *peer {
                assert(self@.clients[i as int].peer == peer@);
                assert(self@.client_of(peer@) == Some(i as int)) by {
                    let k = choose|k: int|
                        0 <= k < self@.clients.len() && #[trigger] self@.clients[k].peer == peer@;
                    assert(self@.clients[k] == self.clients@[k]@);
                    assert(self@.clients[i as int] == self.clients@[i as int]@);
                    if k != i as int {
                        if k < i {
                            assert(self.clients@[k].peer@ != self.clients@[i as int].peer@);
                        } else {
                            assert(self.clients@[i as int].peer@ != self.clients@[k].peer@);
                        }
                    }
                }
                return i as u64;
            }
            i = i + 1;
        }
        assert(self@.client_of(peer@) is None);
        let client = Client { peer: peer.clone(), pending: Vec::new(), awaiting_clear: false };
        assert(client.pending@.to_set() =~= Set::<u64>::empty());
        self.clients.push(client);
        assert(self@.clients =~= old(self)@.clients.push(
            ClientView { peer: peer@, pending: Set::empty(), awaiting_clear: false },
        ));
        assert forall|a: int, b: int| 0 <= a < b < self.clients@.len() implies (
        #[trigger] self.clients@[a]).peer@ != (#[trigger] self.clients@[b]).peer@ by {
            if b == n as int {
                assert(old(self)@.clients[a] == old(self).clients@[a]@);
                assert(old(self)@.clients[a].peer != peer@);
            } else {
                assert(old(self).clients@[a].peer@ != old(self).clients@[b].peer@);
            }
        }
        n as u64
    }

    /// Folds lines pushed by `client` into the canonical lines, taking them from
    /// its canvas space when `canvas_rect` is given, and owes every other client
    /// the ids in `changed_ids`. An unknown client is refused and nothing changes.
    pub fn push(
        &mut self,
        client: u64,
        incoming: &Lines,
        changed_ids: Option<Vec<u64>>,
        canvas_rect: Option<Rect>,
    ) -> (r: Result<(), SyncError>)
        requires
            old(self).wf(),
            usable_rect(canvas_rect),
        ensures
            final(self).wf(),
            match r {
                Ok(()) => old(self)@.has_client(client) && final(self)@ == old(self)@.pushed(
                    client,
                    incoming@,
                    flagged(changed_ids),
                    canvas_rect,
                ),
                Err(e) => !old(self)@.has_client(client) && e == SyncError::UnknownClient
                    && final(self)@ == old(self)@,
            },
    {
        if client >= self.clients.len() as u64 {
            return Err(SyncError::UnknownClient);
        }
        let changed = match changed_ids {
            Some(v) => v,
            None => Vec::new(),
        };
        assert(changed@.to_set() == flagged(changed_ids)) by {
            if changed_ids is None {
                assert(changed@.to_set() =~= Set::<u64>::empty());
            }
        }
        self.lines.merge(incoming, &changed, canvas_rect, MergeMode::FromCanvas);
        self.notify_others(client, &changed);
        Ok(())
    }

    /// Removes the lines with the ids in `ids` from the canonical lines and owes
    /// every client but `client` those ids. An unknown client is refused and
    /// nothing changes.
    pub fn delete(&mut self, client: u64, ids: &Vec<u64>) -> (r: Result<(), SyncError>)
        requires
            old(self).wf(),
        ensures
            final(self).wf(),
            match r {
                Ok(()) => old(self)@.has_client(client) && final(self)@ == old(self)@.deleted(
                    client,
                    ids@.to_set(),
                ),
                Err(e) => !old(self)@.has_client(client) && e == SyncError::UnknownClient
                    && final(self)@ == old(self)@,
            },
    {
        if client >= self.clients.len() as u64 {
            return Err(SyncError::UnknownClient);
        }
        for i in 0..ids.len()
            invariant
                self.clients == old(self).clients,
                self.lines@ == old(self).lines@.remove_keys(ids@.take(i as int).to_set()),
        {
            self.lines.remove(ids[i]);
            proof {
                assert(ids@.take(i + 1) =~= ids@.take(i as int).push(ids@[i as int]));
                ids@.take(i as int).lemma_push_to_set_commute(ids@[i as int]);
                assert(self.lines@ =~= old(self).lines@.remove_keys(ids@.take(i + 1).to_set()));
            }
        }
        assert(ids@.take(ids@.len() as int) =~= ids@);
        self.notify_others(client, ids);
        Ok(())
    }

    /// Hands `client` what it is owed. If it has yet to observe a clear, that is
    /// the clear flag alone; otherwise it is the canonical lines in the canvas
    /// space of `canvas_rect` and the ids changed since its last pull. Either way
    /// the client is then owed nothing. An unknown client is refused and nothing
    /// changes.
    pub fn pull(&mut self, client: u64, canvas_rect: &Rect) -> (r: Result<PullResponse, SyncError>)
        requires
            old(self).wf(),
            canvas_rect.is_valid(),
        ensures
            final(self).wf(),
            match r {
                Ok(resp) => {
                    &&& old(self)@.has_client(client)
                    &&& resp@ == old(self)@.pull_result(client, *canvas_rect)
                    &&& final(self)@ == old(self)@.pulled(client)
                    &&& resp.flag is Some ==> resp.flag == Some(PullFlag::Clear)
                    &&& resp.changed_lines matches Some(v) ==> v@.no_duplicates()
                },
                Err(e) => !old(self)@.has_client(client) && e == SyncError::UnknownClient
                    && final(self)@ == old(self)@,
            },
    {
        if client >= self.clients.len() as u64 {
            return Err(SyncError::UnknownClient);
        }
        let idx = client as usize;
        let ghost c = old(self)@.clients[idx as int];
        let mut taken: Vec<u64> = Vec::new();
        std::mem::swap(&mut taken, &mut self.clients[idx].pending);
        assert(self.clients@[idx as int].pending@.to_set() =~= Set::<u64>::empty());
        let was_awaiting = self.clients[idx].awaiting_clear;
        self.clients[idx].awaiting_clear = false;
        assert(self@.clients =~= old(self)@.pulled(client).clients) by {
            assert(self.clients@[idx as int]@ =~= old(self)@.pulled(client).clients[idx as int]);
        }
        if was_awaiting {
            let resp = PullResponse { lines: Lines::new(), changed_lines: None, flag: Some(PullFlag::Clear) };
            Ok(resp)
        } else {
            let lines = self.lines.transformed(Some(*canvas_rect), MergeMode::ToCanvas);
            Ok(PullResponse { lines, changed_lines: Some(taken), flag: None })
        }
    }

    /// Removes every line, drops everything owed, and holds every registered
    /// client to observe the clear on its next pull.
    pub fn clear(&mut self)
        requires
            old(self).wf(),
        ensures
            final(self).wf(),
            final(self)@ == old(self)@.cleared(),
    {
        self.lines.clear();
        let n = self.clients.len();
        let ghost target = old(self)@.cleared().clients;
        assert(target.len() == n);
        for i in 0..n
            invariant
                target.len() == n,
                target == old(self)@.cleared().clients,
                n == self.clients@.len(),
                n == old(self).clients@.len(),
                self.lines@ == Map::<u64, LineView>::empty(),
                self.wf(),
                forall|j: int|
                    0 <= j < n ==> (#[trigger] self.clients@[j]).peer@ == old(
                        self,
                    ).clients@[j].peer@,
                forall|j: int|
                    0 <= j < n ==> (#[trigger] self.clients@[j])@ == if j < i {
                        target[j]
                    } else {
                        old(self)@.clients[j]
                    },
        {
            self.clients[i].pending = Vec::new();
            self.clients[i].awaiting_clear = true;
            assert(self.clients@[i as int].pending@.to_set() =~= Set::<u64>::empty());
            assert(self.clients@[i as int]@ =~= target[i as int]);
        }
        assert(self@.clients =~= target);
        assert(self@.lines =~= Map::<u64, LineView>::empty());
    }
}

} // verus!
