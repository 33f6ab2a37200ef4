//! What a subscriber holds on to.

use crate::key::QueryKey;
use crate::machine::event::Event;
use vstd::prelude::*;

verus! {

/// A subscription to one key.
pub struct Subscription {
    key: QueryKey,
    sub_id: u64,
}

impl Subscription {
    /// Id of the subscription.
    pub closed spec fn sub_id(self) -> u64 {
        self.sub_id
    }

    /// The subscribed key.
    pub closed spec fn key_spec(self) -> QueryKey {
        self.key
    }

    /// A subscription that has begun.
    pub fn new(key: QueryKey, sub_id: u64) -> (subscription: Self)
        ensures
            subscription.key_spec() == key,
            subscription.sub_id() == sub_id,
    {
        Subscription { key, sub_id }
    }

    /// The subscribed key.
    pub fn key(&self) -> (key: &QueryKey)
        ensures
            *key == self.key_spec(),
    {
        &self.key
    }

    /// The event that asks for a revalidation.
    pub fn revalidate<V: ?Sized, F: ?Sized, C>(&self) -> (ev: Event<V, F, C>)
        ensures
            ev matches Event::RevalidateRequested { key } && key@ == self.key_spec()@,
    {
        Event::RevalidateRequested { key: self.key.clone() }
    }

    /// The event that ends the subscription.
    pub fn unsubscribe<V: ?Sized, F: ?Sized, C>(&self) -> (ev: Event<V, F, C>)
        ensures
            ev matches Event::Unsubscribe { key, sub_id } && key@ == self.key_spec()@ && sub_id
                == self.sub_id(),
    {
        Event::Unsubscribe { key: self.key.clone(), sub_id: self.sub_id }
    }
}

/// A subscription speaks for itself: what it asks for is about its own key, and what
/// it ends is its own subscription.
pub proof fn law_a_subscription_speaks_for_itself<V: ?Sized, F: ?Sized, C>(
    subscription: Subscription,
    request: Event<V, F, C>,
    end: Event<V, F, C>,
)
    requires
        call_ensures(Subscription::revalidate::<V, F, C>, (&subscription,), request),
        call_ensures(Subscription::unsubscribe::<V, F, C>, (&subscription,), end),
    ensures
        request is RevalidateRequested && request->RevalidateRequested_key@
            == subscription.key_spec()@,
        end is Unsubscribe && end->Unsubscribe_key@ == subscription.key_spec()@
            && end->Unsubscribe_sub_id == subscription.sub_id(),
{
}

} // verus!
