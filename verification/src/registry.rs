//! Who receives the host's environment events.
//!
//! One set of listeners serves every attached client. The first attachment
//! asks for it, and the last one to leave takes it down.

use std::sync::Arc;
use vstd::prelude::*;

verus! {

/// Attached clients `T`, and the listeners `L` that serve them.
pub struct Registry<T: ?Sized, L> {
    next_id: u64,
    clients: Vec<(u64, Arc<T>)>,
    listeners: Option<L>,
}

/// The client has another id.
pub open spec fn other_than<T: ?Sized>(id: u64) -> spec_fn((u64, Arc<T>)) -> bool {
    |c: (u64, Arc<T>)| c.0 != id
}

/// Ids are distinct and below a bound.
pub open spec fn numbered<T: ?Sized>(clients: Seq<(u64, Arc<T>)>, bound: u64) -> bool {
    &&& forall|i: int| 0 <= i < clients.len() ==> (#[trigger] clients[i]).0 < bound
    &&& forall|i: int, j: int|
        0 <= i < j < clients.len() ==> (#[trigger] clients[i]).0 != (#[trigger] clients[j]).0
}

impl<T: ?Sized, L> Registry<T, L> {
    /// The attached clients with their ids, in order of attachment.
    pub closed spec fn clients(self) -> Seq<(u64, Arc<T>)> {
        self.clients@
    }

    /// The listeners.
    pub closed spec fn listeners(self) -> Option<L> {
        self.listeners
    }

    /// Id of the next attachment.
    pub closed spec fn next_id(self) -> u64 {
        self.next_id
    }

    /// Ids are distinct and below the next one, and listeners serve somebody.
    pub open spec fn inv(self) -> bool {
        &&& numbered(self.clients(), self.next_id())
        &&& self.listeners() is Some ==> self.clients().len() > 0
    }

    /// Nobody is attached.
    pub fn new() -> (registry: Self)
        ensures
            registry.inv(),
            registry.clients() == Seq::<(u64, Arc<T>)>::empty(),
            registry.listeners() is None,
            registry.next_id() == 0,
    {
        Registry { next_id: 0, clients: Vec::new(), listeners: None }
    }

    /// Whether the ids are used up.
    pub fn is_full(&self) -> (full: bool)
        ensures
            full == (self.next_id() == u64::MAX),
    {
        self.next_id == u64::MAX
    }

    /// Attaches a client and returns its id.
    pub fn attach(&mut self, client: Arc<T>) -> (id: u64)
        requires
            old(self).inv(),
            old(self).next_id() < u64::MAX,
        ensures
            final(self).inv(),
            id == old(self).next_id(),
            final(self).next_id() == id + 1,
            final(self).clients() == old(self).clients().push((id, client)),
            final(self).listeners() == old(self).listeners(),
    {
        let id = self.next_id;
        self.next_id += 1;
        self.clients.push((id, client));
        id
    }

    /// Whether somebody is attached and no listeners are up yet.
    pub fn wants_listeners(&self) -> (wants: bool)
        ensures
            wants == (self.clients().len() > 0 && self.listeners() is None),
    {
        self.clients.len() > 0 && self.listeners.is_none()
    }

    /// Puts up the listeners that the attached clients share.
    pub fn listen(&mut self, listeners: L)
        requires
            old(self).inv(),
            old(self).clients().len() > 0,
        ensures
            final(self).inv(),
            final(self).clients() == old(self).clients(),
            final(self).next_id() == old(self).next_id(),
            final(self).listeners() == Some(listeners),
    {
        self.listeners = Some(listeners);
    }

    /// The clients but for the one with this id.
    pub open spec fn left_by(clients: Seq<(u64, Arc<T>)>, id: u64) -> Seq<(u64, Arc<T>)> {
        clients.filter(other_than(id))
    }

    /// Detaches the client with this id, if it is attached. The listeners go
    /// with the last one.
    pub fn detach(&mut self, id: u64)
        requires
            old(self).inv(),
        ensures
            final(self).inv(),
            final(self).clients() == Self::left_by(old(self).clients(), id),
            final(self).next_id() == old(self).next_id(),
            final(self).listeners() == (if final(self).clients().len() == 0 {
                None
            } else {
                old(self).listeners()
            }),
    {
        let ghost all = self.clients@;
        let ghost stays = other_than::<T>(id);
        let mut kept: Vec<(u64, Arc<T>)> = Vec::new();
        let mut i: usize = 0;
        while i < self.clients.len()
            invariant
                i <= self.clients.len(),
                all == self.clients@,
                stays == other_than::<T>(id),
                kept@ == all.take(i as int).filter(stays),
            decreases self.clients.len() - i,
        {
            proof {
                reveal(Seq::filter);
                assert(all.take(i + 1).drop_last() =~= all.take(i as int));
            }
            let (client_id, client) = &self.clients[i];
            if *client_id != id {
                kept.push((*client_id, client.clone()));
            }
            i += 1;
        }
        assert(all.take(i as int) =~= all);
        self.clients = kept;
        if self.clients.len() == 0 {
            self.listeners = None;
        }
        proof {
            lemma_left_by(all, id, self.next_id);
        }
    }

    /// The clients to serve with an event: those attached when it comes in, in
    /// order of attachment.
    pub fn targets(&self) -> (targets: Vec<Arc<T>>)
        ensures
            targets@ == self.clients().map_values(|c: (u64, Arc<T>)| c.1),
    {
        let mut targets: Vec<Arc<T>> = Vec::new();
        let mut i: usize = 0;
        while i < self.clients.len()
            invariant
                i <= self.clients.len(),
                targets@ == self.clients@.take(i as int).map_values(|c: (u64, Arc<T>)| c.1),
            decreases self.clients.len() - i,
        {
            targets.push(self.clients[i].1.clone());
            i += 1;
            assert(targets@ =~= self.clients@.take(i as int).map_values(
                |c: (u64, Arc<T>)| c.1,
            ));
        }
        assert(self.clients@.take(i as int) =~= self.clients@);
        targets
    }
}

/// Leaving out one client keeps ids distinct and bounded.
proof fn lemma_left_by<T: ?Sized>(clients: Seq<(u64, Arc<T>)>, id: u64, bound: u64)
    requires
        numbered(clients, bound),
    ensures
        ({
            let left = clients.filter(other_than(id));
            &&& numbered(left, bound)
            &&& forall|i: int|
                0 <= i < left.len() ==> clients.contains(#[trigger] left[i]) && left[i].0 != id
        }),
    decreases clients.len(),
{
    reveal(Seq::filter);
    let stays = other_than::<T>(id);
    if clients.len() > 0 {
        let rest = clients.drop_last();
        lemma_left_by(rest, id, bound);
        let left = clients.filter(stays);
        let before = rest.filter(stays);
        assert(left == if stays(clients.last()) {
            before.push(clients.last())
        } else {
            before
        });
        assert forall|i: int| 0 <= i < left.len() implies clients.contains(#[trigger] left[i])
            && left[i].0 != id by {
            if i < before.len() {
                assert(rest.contains(before[i]));
                let k = choose|k: int| 0 <= k < rest.len() && rest[k] == before[i];
                assert(clients[k] == left[i]);
            } else {
                assert(clients[clients.len() - 1] == left[i]);
            }
        }
        assert forall|i: int, j: int| 0 <= i < j < left.len() implies (#[trigger] left[i]).0 != (
        #[trigger] left[j]).0 by {
            if j == before.len() {
                assert(rest.contains(before[i]));
                let k = choose|k: int| 0 <= k < rest.len() && rest[k] == before[i];
                assert(clients[k] == left[i]);
                assert(clients[clients.len() - 1] == left[j]);
            }
        }
    }
}

/// Detaching undoes attaching: the same clients are left in the same order.
pub proof fn law_detaching_undoes_attaching<T: ?Sized, L>(
    registry: Registry<T, L>,
    client: Arc<T>,
)
    requires
        registry.inv(),
    ensures
        Registry::<T, L>::left_by(
            registry.clients().push((registry.next_id(), client)),
            registry.next_id(),
        ) == registry.clients(),
{
    let id = registry.next_id();
    let all = registry.clients().push((id, client));
    reveal(Seq::filter);
    assert(all.drop_last() =~= registry.clients());
    lemma_all_stay(registry.clients(), id);
}

/// Nobody leaves when nobody has the id.
proof fn lemma_all_stay<T: ?Sized>(clients: Seq<(u64, Arc<T>)>, id: u64)
    requires
        forall|i: int| 0 <= i < clients.len() ==> (#[trigger] clients[i]).0 != id,
    ensures
        clients.filter(other_than(id)) == clients,
    decreases clients.len(),
{
    reveal(Seq::filter);
    if clients.len() > 0 {
        let rest = clients.drop_last();
        assert forall|i: int| 0 <= i < rest.len() implies (#[trigger] rest[i]).0 != id by {
            assert(rest[i] == clients[i]);
        }
        lemma_all_stay(rest, id);
        assert(rest.push(clients.last()) =~= clients);
    }
}

/// Detaching takes away whoever has the id and nobody else.
pub proof fn law_detaching_takes_away_one_client<T: ?Sized, L>(
    registry: Registry<T, L>,
    id: u64,
    client: (u64, Arc<T>),
)
    ensures
        Registry::<T, L>::left_by(registry.clients(), id).contains(client) <==> (
        registry.clients().contains(client) && client.0 != id),
        (forall|i: int|
            0 <= i < registry.clients().len() ==> (#[trigger] registry.clients()[i]).0 != id)
            ==> Registry::<T, L>::left_by(registry.clients(), id) == registry.clients(),
{
    lemma_who_stays(registry.clients(), id, client);
    if forall|i: int|
        0 <= i < registry.clients().len() ==> (#[trigger] registry.clients()[i]).0 != id {
        lemma_all_stay(registry.clients(), id);
    }
}

/// Who stays is who has another id.
proof fn lemma_who_stays<T: ?Sized>(
    clients: Seq<(u64, Arc<T>)>,
    id: u64,
    client: (u64, Arc<T>),
)
    ensures
        clients.filter(other_than(id)).contains(client) <==> (clients.contains(client) && client.0
            != id),
    decreases clients.len(),
{
    reveal(Seq::filter);
    let stays = other_than::<T>(id);
    let left = clients.filter(stays);
    if clients.len() > 0 {
        let rest = clients.drop_last();
        let before = rest.filter(stays);
        lemma_who_stays(rest, id, client);
        assert(left == if stays(clients.last()) {
            before.push(clients.last())
        } else {
            before
        });
        if clients.contains(client) && client != clients.last() {
            let k = choose|k: int| 0 <= k < clients.len() && clients[k] == client;
            assert(rest[k] == client);
        }
        if rest.contains(client) {
            let k = choose|k: int| 0 <= k < rest.len() && rest[k] == client;
            assert(clients[k] == client);
        }
        if before.contains(client) {
            let k = choose|k: int| 0 <= k < before.len() && before[k] == client;
            assert(left[k] == client);
        }
        if left.contains(client) {
            let k = choose|k: int| 0 <= k < left.len() && left[k] == client;
            if k < before.len() {
                assert(before[k] == client);
            } else {
                assert(clients[clients.len() - 1] == client);
            }
        }
        if client == clients.last() && client.0 != id {
            assert(left[left.len() - 1] == client);
            assert(clients[clients.len() - 1] == client);
        }
    }
}

} // verus!
