//! The watch channel of an entry.
//!
//! Each entry publishes its snapshots on a channel of its own, labelled with
//! the entry's incarnation. Senders and receivers of one channel carry the
//! same label.
//!
//! What a channel holds changes behind a shared reference, from any thread, so
//! contracts do not say what it holds now. They say which call was made on which
//! channel, what it was given and what was done with its result; and of a
//! snapshot, that it stands in a channel at some time.

use crate::snapshot::{QueryState, Snapshot};
use std::sync::Arc;
use tokio::sync::watch;
use vstd::prelude::*;

verus! {

/// `tokio::sync::watch::Sender`, carried as it is.
#[verifier::external_type_specification]
#[verifier::external_body]
#[verifier::reject_recursive_types(T)]
pub struct ExWatchSender<T>(watch::Sender<T>);

/// `tokio::sync::watch::Receiver`, carried as it is.
#[verifier::external_type_specification]
#[verifier::external_body]
#[verifier::reject_recursive_types(T)]
pub struct ExWatchReceiver<T>(watch::Receiver<T>);

/// Sending side of an entry's channel. Dropping the last one closes every
/// receiver.
#[verifier::reject_recursive_types(V)]
pub struct SnapshotSender<V: ?Sized> {
    incarnation: u64,
    tx: Arc<watch::Sender<Snapshot<V, V>>>,
}

/// Receiving side of an entry's channel.
#[verifier::reject_recursive_types(V)]
pub struct SnapshotReceiver<V: ?Sized> {
    /// Incarnation of the entry whose channel this is.
    pub incarnation: u64,
    /// The receiver to wait on.
    pub rx: watch::Receiver<Snapshot<V, V>>,
}

/// `rx` is a receiver of the channel of `tx`: what subscribing to it gives.
spec fn subscribed<V: ?Sized>(
    tx: watch::Sender<Snapshot<V, V>>,
    rx: watch::Receiver<Snapshot<V, V>>,
) -> bool {
    call_ensures(watch_subscribe::<V>, (&tx,), rx)
}

/// A look through `rx` that leaves nothing marked as seen finds `snapshot`.
spec fn found<V: ?Sized>(
    rx: watch::Receiver<Snapshot<V, V>>,
    snapshot: Snapshot<V, V>,
) -> bool {
    call_ensures(watch_borrow::<V>, (&rx,), snapshot)
}

/// A look through `rx` that marks what it finds as seen finds `snapshot`.
pub closed spec fn taken<V: ?Sized>(
    rx: &mut watch::Receiver<Snapshot<V, V>>,
    snapshot: Snapshot<V, V>,
) -> bool {
    call_ensures(watch_borrow_and_update::<V>, (rx,), snapshot)
}

/// `snapshot` stands in the channel of `tx` at some time: there is a receiver
/// of it that finds `snapshot`.
spec fn stood<V: ?Sized>(
    tx: watch::Sender<Snapshot<V, V>>,
    snapshot: Snapshot<V, V>,
) -> bool {
    exists|rx: watch::Receiver<Snapshot<V, V>>| #[trigger]
        subscribed(tx, rx) && found(rx, snapshot)
}

/// The channel of `tx` went from a snapshot that stood in it to the newer of
/// that and `fresh`; `changed` says whether `fresh` took its place.
spec fn advanced<V: ?Sized>(
    tx: watch::Sender<Snapshot<V, V>>,
    fresh: Snapshot<V, V>,
    changed: bool,
) -> bool {
    exists|held: Snapshot<V, V>| #[trigger]
        stood(tx, held) && stood(tx, Snapshot::newer(held, fresh)) && changed == (fresh.version
            > held.version)
}

impl<V: ?Sized> SnapshotSender<V> {
    /// Incarnation of the entry whose channel this is.
    pub closed spec fn incarnation(self) -> u64 {
        self.incarnation
    }

    /// The channel was opened with `initial` as its first value.
    pub closed spec fn opened_with(self, initial: Snapshot<V, V>) -> bool {
        call_ensures(watch_channel::<V>, (initial,), *self.tx)
    }

    /// `fresh` was handed to the channel.
    pub closed spec fn published(self, fresh: Snapshot<V, V>) -> bool {
        exists|changed: bool| call_ensures(watch_publish::<V>, (&*self.tx, fresh), changed)
    }

    /// `snapshot` stands in the channel at some time, where its receivers find
    /// it.
    pub closed spec fn shows(self, snapshot: Snapshot<V, V>) -> bool {
        stood(*self.tx, snapshot)
    }

    /// Opens the channel of an entry, with `initial` as its first value.
    pub(crate) fn open(incarnation: u64, initial: Snapshot<V, V>) -> (sender: Self)
        ensures
            sender.incarnation() == incarnation,
            sender.opened_with(initial),
    {
        SnapshotSender { incarnation, tx: Arc::new(watch_channel(initial)) }
    }

    /// A receiver of this channel.
    pub(crate) fn subscribe(&self) -> (receiver: SnapshotReceiver<V>)
        ensures
            receiver.incarnation == self.incarnation(),
            receiver.listens_to(*self),
    {
        SnapshotReceiver { incarnation: self.incarnation, rx: watch_subscribe(&self.tx) }
    }

    /// Another sender of the same channel.
    pub fn share(&self) -> (sender: Self)
        ensures
            sender == *self,
    {
        SnapshotSender { incarnation: self.incarnation, tx: self.tx.clone() }
    }

    /// Publishes a snapshot, unless the channel already holds a newer one.
    pub(crate) fn publish(&self, fresh: Snapshot<V, V>)
        ensures
            self.published(fresh),
    {
        watch_publish(&self.tx, fresh);
    }
}

impl<V: ?Sized> SnapshotReceiver<V> {
    /// This is a receiver of the channel that `sender` publishes on.
    pub closed spec fn listens_to(self, sender: SnapshotSender<V>) -> bool {
        subscribed(*sender.tx, self.rx)
    }

    /// This receiver finds `snapshot` on its channel.
    pub closed spec fn shows(self, snapshot: Snapshot<V, V>) -> bool {
        found(self.rx, snapshot)
    }

    /// The latest published snapshot, marked as seen: what the call on this
    /// receiver hands out, unaltered, with the receiver left as that call leaves
    /// it, on the channel it was on. Which snapshot that is depends on what was
    /// published when.
    pub(crate) fn look(&mut self) -> (snapshot: Snapshot<V, V>)
        ensures
            exists|rx: &mut watch::Receiver<Snapshot<V, V>>|
                *rx == old(self).rx && *final(rx) == final(self).rx && #[trigger] taken(
                    rx,
                    snapshot,
                ),
            final(self).incarnation == old(self).incarnation,
            forall|sender: SnapshotSender<V>| #[trigger]
                old(self).listens_to(sender) ==> final(self).listens_to(sender) && sender.shows(
                    snapshot,
                ),
    {
        let snapshot = watch_borrow_and_update(&mut self.rx);
        assert forall|rx: &mut watch::Receiver<Snapshot<V, V>>| #[trigger]
            call_ensures(watch_borrow_and_update::<V>, (rx,), snapshot) implies taken(
            rx,
            snapshot,
        ) by {}
        snapshot
    }

    /// Summary of the latest published snapshot, which stays unseen. Which one
    /// that is depends on what was published when.
    pub fn state(&self) -> (state: QueryState<V, V>)
        ensures
            exists|snapshot: Snapshot<V, V>| #[trigger]
                self.shows(snapshot) && QueryState::summary(snapshot) == state,
    {
        let snapshot = watch_borrow(&self.rx);
        assert(self.shows(snapshot));
        QueryState::from_snapshot(snapshot)
    }
}

/// Carrying out a notification leaves the newer of two snapshots in the
/// channel: the one that stood there, or the published one. So the version in a
/// channel never decreases, and does not stay below the published one.
pub proof fn law_publishing_keeps_the_newer<V: ?Sized>(
    sender: SnapshotSender<V>,
    fresh: Snapshot<V, V>,
)
    requires
        sender.published(fresh),
    ensures
        exists|held: Snapshot<V, V>| #[trigger]
            sender.shows(held) && sender.shows(Snapshot::newer(held, fresh)) && Snapshot::newer(
                held,
                fresh,
            ).version >= held.version && Snapshot::newer(held, fresh).version >= fresh.version,
{
    let changed = choose|changed: bool| call_ensures(
        watch_publish::<V>,
        (&*sender.tx, fresh),
        changed,
    );
    assert(advanced(*sender.tx, fresh, changed));
    let held = choose|held: Snapshot<V, V>| #[trigger]
        stood(*sender.tx, held) && stood(*sender.tx, Snapshot::newer(held, fresh)) && changed == (
        fresh.version > held.version);
    assert(sender.shows(held));
}

/// A new channel shows the snapshot that it was opened with.
pub proof fn law_a_channel_shows_its_first_value<V: ?Sized>(
    sender: SnapshotSender<V>,
    initial: Snapshot<V, V>,
)
    requires
        sender.opened_with(initial),
    ensures
        sender.shows(initial),
{
}

/// What a receiver finds stands in the channel that it listens to.
pub proof fn law_a_receiver_finds_what_its_channel_shows<V: ?Sized>(
    receiver: SnapshotReceiver<V>,
    sender: SnapshotSender<V>,
    snapshot: Snapshot<V, V>,
)
    requires
        receiver.listens_to(sender),
        receiver.shows(snapshot),
    ensures
        sender.shows(snapshot),
{
}

/// Calls `tokio::sync::watch::channel` with `initial` as the first value, and
/// drops the receiver it comes with. The value stands in the channel from the
/// start.
#[verifier::external_body]
fn watch_channel<V: ?Sized>(initial: Snapshot<V, V>) -> (tx: watch::Sender<Snapshot<V, V>>)
    ensures
        stood(tx, initial),
{
    watch::channel(initial).0
}

/// Calls `tokio::sync::watch::Sender::subscribe`. What the receiver finds
/// changes behind a shared reference, so nothing is claimed of it here.
#[verifier::external_body]
fn watch_subscribe<V: ?Sized>(tx: &watch::Sender<Snapshot<V, V>>) -> (rx: watch::Receiver<
    Snapshot<V, V>,
>) {
    tx.subscribe()
}

/// Calls `tokio::sync::watch::Sender::send_if_modified` with
/// [`Snapshot::advance`], so that an older snapshot never replaces a newer one.
/// Claims that the call takes the channel from one snapshot that stands in it to
/// another, the newer of that and `fresh`, and returns whether `fresh` took its
/// place.
/// Which snapshot the channel held, and when, depends on what was published.
#[verifier::external_body]
fn watch_publish<V: ?Sized>(tx: &watch::Sender<Snapshot<V, V>>, fresh: Snapshot<V, V>) -> (changed:
    bool)
    ensures
        advanced(*tx, fresh, changed),
{
    tx.send_if_modified(|current| current.advance(fresh))
}

/// Calls `tokio::sync::watch::Receiver::borrow` and clones the snapshot behind
/// it. Which snapshot that is depends on what was published when; nothing is
/// claimed of it here.
#[verifier::external_body]
fn watch_borrow<V: ?Sized>(rx: &watch::Receiver<Snapshot<V, V>>) -> (snapshot: Snapshot<V, V>) {
    rx.borrow().clone()
}

/// Calls `tokio::sync::watch::Receiver::borrow_and_update` and clones the
/// snapshot behind it. Claims that the receiver stays on its channel, with the
/// version that a receiver subscribed at that time has, and that the snapshot
/// stands in that channel. Which one it is depends on what was published when.
#[verifier::external_body]
fn watch_borrow_and_update<V: ?Sized>(rx: &mut watch::Receiver<Snapshot<V, V>>) -> (snapshot:
    Snapshot<V, V>)
    ensures
        forall|tx: watch::Sender<Snapshot<V, V>>| #[trigger]
            subscribed(tx, *old(rx)) ==> subscribed(tx, *final(rx)) && stood(tx, snapshot),
{
    rx.borrow_and_update().clone()
}

} // verus!
