//! Laws on the channels: who publishes where, and who hears it.

use crate::channel::SnapshotReceiver;
use crate::key::KeyModel;
use crate::machine::event::{Effect, EffectModel};
use crate::machine::inner::Inner;
use crate::machine::table::MachineModel;
use std::sync::Arc;
use vstd::prelude::*;

verus! {

/// Entries with one incarnation are one entry.
proof fn lemma_incarnation_tells<V: ?Sized, F: ?Sized, C>(
    m: MachineModel<V, F, C>,
    limit: int,
    a: KeyModel,
    b: KeyModel,
)
    requires
        m.inv(limit),
        m.holds(a),
        m.holds(b),
        m.entry(a)->0.incarnation == m.entry(b)->0.incarnation,
    ensures
        m.position(a) == m.position(b),
{
    let i = m.position(a);
    let j = m.position(b);
    assert(m.stands_at(a, i));
    assert(m.stands_at(b, j));
    if i < j {
        assert(m.slots[i].entry.incarnation != m.slots[j].entry.incarnation);
    } else if j < i {
        assert(m.slots[j].entry.incarnation != m.slots[i].entry.incarnation);
    }
}

/// Whoever waits on or watches an entry goes on hearing it for as long as the
/// entry stands, whatever event comes; and every notification that the entry
/// gives rise to goes to the channel that they listen to.
pub proof fn law_notifications_reach_the_listeners<
    V: ?Sized,
    F: ?Sized,
    C: Fn(&Arc<V>, &Arc<V>) -> bool,
>(
    before: Inner<V, F, C>,
    after: Inner<V, F, C>,
    key: KeyModel,
    rx: SnapshotReceiver<V>,
    effects: Seq<Effect<V, F>>,
    k: int,
)
    requires
        after.inv(),
        after.follows(before),
        after.addresses(effects),
        before.reaches(key, rx),
        after@.holds(key),
        0 <= k < effects.len(),
        effects[k]@ matches EffectModel::Notify { incarnation, .. } && incarnation == after@.entry(
            key,
        )->0.incarnation,
    ensures
        after.reaches(key, rx),
        effects[k] matches Effect::Notify { tx, .. } && after.channel(key) == Some(tx)
            && rx.listens_to(tx),
{
    after.lemma_inv();
    assert(after.channel(key) == before.channel(key));
    if let Effect::Notify { tx, .. } = effects[k] {
        assert(after.carries(tx));
        let other = choose|other: KeyModel| #[trigger]
            after.channel(other) == Some(tx) && after@.entry(other)->0.incarnation
                == tx.incarnation();
        lemma_incarnation_tells(after@, 3 * after.handled_spec(), key, other);
    }
}

} // verus!
