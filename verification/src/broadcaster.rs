//! The broadcaster: the single owner of the ordered set of output
//! subscribers. The actor loop that carries its commands lives with the
//! I/O plumbing; what is modelled and verified here is the decision it
//! makes: every current subscriber is attempted on each broadcast byte,
//! and exactly the subscribers whose write is accepted survive, in their
//! original order. Subscribers are identified by caller-chosen tokens.

use vstd::prelude::*;

verus! {

/// The survivors of one broadcast: the subscribers whose write was
/// accepted, in their original order.
pub open spec fn surviving(subs: Seq<u64>, accepted: Seq<bool>) -> Seq<u64>
    decreases subs.len(),
{
    if subs.len() == 0 {
        Seq::empty()
    } else {
        let rest = surviving(subs.drop_last(), accepted.drop_last());
        if accepted[subs.len() - 1] {
            rest.push(subs.last())
        } else {
            rest
        }
    }
}

/// A broadcast that every subscriber accepts drops nobody.
pub proof fn lemma_surviving_all_accepted(subs: Seq<u64>, accepted: Seq<bool>)
    requires
        accepted.len() == subs.len(),
        forall|i: int| 0 <= i < accepted.len() ==> accepted[i],
    ensures
        surviving(subs, accepted) == subs,
    decreases subs.len(),
{
    if subs.len() > 0 {
        lemma_surviving_all_accepted(subs.drop_last(), accepted.drop_last());
        assert(surviving(subs, accepted) =~= subs);
    } else {
        assert(surviving(subs, accepted) =~= subs);
    }
}

/// Every survivor of a broadcast was a subscriber before it.
pub proof fn lemma_surviving_subset(subs: Seq<u64>, accepted: Seq<bool>)
    ensures
        forall|i: int|
            0 <= i < surviving(subs, accepted).len() ==> subs.contains(
                #[trigger] surviving(subs, accepted)[i],
            ),
    decreases subs.len(),
{
    if subs.len() > 0 {
        lemma_surviving_subset(subs.drop_last(), accepted.drop_last());
        assert forall|i: int| 0 <= i < surviving(subs, accepted).len() implies subs.contains(
            #[trigger] surviving(subs, accepted)[i],
        ) by {
            let v = surviving(subs, accepted)[i];
            if i < surviving(subs.drop_last(), accepted.drop_last()).len() {
                let j = choose|j: int|
                    0 <= j < subs.drop_last().len() && subs.drop_last()[j] == v;
                assert(subs[j] == v);
            } else {
                assert(subs[subs.len() - 1] == v);
            }
        }
    }
}

/// The broadcaster's state: the ordered list of live subscribers.
pub struct Broadcaster {
    subscribers: Vec<u64>,
}

impl View for Broadcaster {
    type V = Seq<u64>;

    closed spec fn view(&self) -> Seq<u64> {
        self.subscribers@
    }
}

impl Broadcaster {
    /// A broadcaster with no subscribers yet.
    pub fn new() -> (b: Broadcaster)
        ensures
            b@ == Seq::<u64>::empty(),
    {
        Broadcaster { subscribers: Vec::new() }
    }

    /// Appends a subscriber: it receives every subsequently broadcast
    /// byte until its first write failure.
    pub fn subscribe(&mut self, sink: u64)
        ensures
            final(self)@ == old(self)@.push(sink),
    {
        self.subscribers.push(sink);
    }

    /// How many subscribers are currently live.
    pub fn subscriber_count(&self) -> (n: usize)
        ensures
            n == self@.len(),
    {
        self.subscribers.len()
    }

    /// The subscribers one broadcast byte must be attempted on, in order.
    pub fn recipients(&self) -> (r: Vec<u64>)
        ensures
            r@ == self@,
    {
        let r = self.subscribers.clone();
        proof {
            assert(r@ =~= self@);
        }
        r
    }

    /// Resolves one broadcast: `accepted[k]` says whether subscriber `k`
    /// (in the order `recipients` gave) accepted the byte. Exactly the
    /// accepting subscribers survive, in their original order; a failing
    /// subscriber is dropped silently, disturbing nobody else.
    pub fn retain_accepted(&mut self, accepted: &Vec<bool>)
        requires
            accepted@.len() == old(self)@.len(),
        ensures
            final(self)@ == surviving(old(self)@, accepted@),
    {
        let ghost subs = self.subscribers@;
        let mut kept: Vec<u64> = Vec::new();
        let mut k: usize = 0;
        while k < self.subscribers.len()
            invariant
                k <= self.subscribers.len(),
                self.subscribers@ == subs,
                accepted@.len() == subs.len(),
                kept@ == surviving(subs.take(k as int), accepted@.take(k as int)),
            decreases self.subscribers.len() - k,
        {
            if accepted[k] {
                let sink = self.subscribers[k];
                kept.push(sink);
            }
            proof {
                assert(subs.take(k + 1).drop_last() =~= subs.take(k as int));
                assert(accepted@.take(k + 1).drop_last() =~= accepted@.take(k as int));
                assert(subs.take(k + 1).last() == subs[k as int]);
            }
            k = k + 1;
        }
        proof {
            assert(subs.take(subs.len() as int) =~= subs);
            assert(accepted@.take(subs.len() as int) =~= accepted@);
        }
        self.subscribers = kept;
    }

    /// Close: no more bytes will arrive; every subscriber is dropped.
    /// The caller then signals its one-shot "done" notification.
    pub fn close(&mut self)
        ensures
            final(self)@ == Seq::<u64>::empty(),
    {
        self.subscribers.clear();
    }
}

} // verus!
