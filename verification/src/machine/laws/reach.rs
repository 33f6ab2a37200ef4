//! Which entries an event reaches.

use crate::key::{segments_model, KeyModel};
use crate::machine::event::Event;
use crate::machine::laws::steps::{lemma_prepared_entry, lemma_removal, lemma_result};
use crate::machine::table::MachineModel;
use crate::time::Instant;
use vstd::prelude::*;

verus! {

/// The key of an event that is about one key.
pub open spec fn subject<V: ?Sized, F: ?Sized, C>(ev: Event<V, F, C>) -> Option<KeyModel> {
    match ev {
        Event::Read { key, .. } => Some(key@),
        Event::Subscribe { key, .. } => Some(key@),
        Event::Unsubscribe { key, .. } => Some(key@),
        Event::RevalidateRequested { key } => Some(key@),
        Event::CommitOk { key, .. } => Some(key@),
        Event::CommitErr { key, .. } => Some(key@),
        Event::MutateSet { key, .. } => Some(key@),
        Event::MutateBegin { key, .. } => Some(key@),
        Event::MutateCommit { token, .. } => Some(token.key@),
        Event::MutateAbort { token, .. } => Some(token.key@),
        Event::Invalidate { .. } => None,
        Event::Broadcast { .. } => None,
        Event::TimerFired { key, .. } => Some(key@),
    }
}

/// An event about one key leaves the entries of all others as they are.
pub proof fn law_other_keys_stay<V: ?Sized, F: ?Sized, C>(
    m: MachineModel<V, F, C>,
    ev: Event<V, F, C>,
    unchanged: bool,
    now: Instant,
    other: KeyModel,
)
    requires
        m.valid(1),
        subject(ev) matches Some(key) && key != other,
    ensures
        m.step(ev, unchanged, now).machine.entry(other) == m.entry(other),
{
    if m.collects(ev) {
        lemma_removal(m, ev->TimerFired_key@, other);
    } else {
        let p = m.prepared(ev);
        lemma_prepared_entry(m, ev, other, u64::MAX - 3);
        lemma_result(m, ev, unchanged, now, other, u64::MAX - 3);
        if p.holds(other) {
            let i = p.position(other);
            assert(p.stands_at(other, i));
            if !m.holds(other) {
                assert(i < m.slots.len() ==> m.stands_at(other, i));
            }
        }
    }
}

/// An invalidation leaves the keys outside its prefix as they are.
pub proof fn law_invalidation_stays_under_its_prefix<V: ?Sized, F: ?Sized, C>(
    m: MachineModel<V, F, C>,
    ev: Event<V, F, C>,
    unchanged: bool,
    now: Instant,
    other: KeyModel,
)
    requires
        m.valid(1),
        ev matches Event::Invalidate { prefix } && !other.under(segments_model(prefix@)),
    ensures
        m.step(ev, unchanged, now).machine.entry(other) == m.entry(other),
{
    let p = m.prepared(ev);
    lemma_result(m, ev, unchanged, now, other, u64::MAX - 3);
    if p.holds(other) {
        assert(p.stands_at(other, p.position(other)));
    }
}

} // verus!
