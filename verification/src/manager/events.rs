//! Fans a single `Event` out to every currently registered IPC client.

use crate::ipc::messages::Event;
use std::sync::mpsc::{Receiver, Sender};
use vstd::prelude::*;

verus! {

#[verifier::external_type_specification]
#[verifier::external_body]
#[verifier::reject_recursive_types(T)]
pub struct ExSender<T>(Sender<T>);

#[verifier::external_type_specification]
#[verifier::external_body]
#[verifier::reject_recursive_types(T)]
pub struct ExReceiver<T>(Receiver<T>);

/// A fresh channel (`std::sync::mpsc::channel`).
#[verifier::external_body]
fn event_channel() -> (Sender<Event>, Receiver<Event>) {
    std::sync::mpsc::channel()
}

/// `Sender::send`; whether the event was delivered depends on whether the
/// receiving end still exists, which nothing here can see, so nothing is
/// stated of the result.
#[verifier::external_body]
fn send_event(tx: &Sender<Event>, event: Event) -> bool {
    tx.send(event).is_ok()
}

/// The registered clients, each under the id it was given; ids are handed
/// out in increasing order and never reused. Beside each client the bus
/// keeps (as ghost state) the events it has handed to that client's channel,
/// and every id it has ever handed out.
pub struct EventBus {
    clients: Vec<(u64, Sender<Event>)>,
    next_id: u64,
    sent: Ghost<Seq<Seq<Event>>>,
    issued: Ghost<Set<u64>>,
}

/// `s` is strictly increasing and below `bound`.
pub open spec fn ids_ok(s: Seq<u64>, bound: u64) -> bool {
    &&& forall|i: int, j: int| 0 <= i < j < s.len() ==> s[i] < s[j]
    &&& forall|i: int| 0 <= i < s.len() ==> s[i] < bound
}

/// After sending `e`, the clients `nids` (with records `nlog`) are the
/// clients `ids` (with records `log`) at the increasing positions `keep`,
/// and each of them has `e` added to what it was sent.
pub open spec fn kept_after_send(
    ids: Seq<u64>,
    log: Seq<Seq<Event>>,
    nids: Seq<u64>,
    nlog: Seq<Seq<Event>>,
    keep: Seq<int>,
    e: Event,
) -> bool {
    &&& keep.len() == nids.len()
    &&& nlog.len() == nids.len()
    &&& forall|k: int|
        0 <= k < keep.len() ==> 0 <= #[trigger] keep[k] < ids.len() && nids[k] == ids[keep[k]] && nlog[k]
            == log[keep[k]].push(e)
    &&& forall|k: int, l: int| 0 <= k < l < keep.len() ==> #[trigger] keep[k] < #[trigger] keep[l]
}

impl EventBus {
    /// Ids of the registered clients, in registration order.
    pub closed spec fn ids(self) -> Seq<u64> {
        self.clients@.map_values(|c: (u64, Sender<Event>)| c.0)
    }

    /// The events handed to each client's channel so far, in the order of
    /// `ids()`.
    pub closed spec fn sent(self) -> Seq<Seq<Event>> {
        self.sent@
    }

    /// The id the next registration gets.
    pub closed spec fn next_id(self) -> u64 {
        self.next_id
    }

    /// Every id handed out by a registration on this bus so far, whether
    /// that client is still registered or not.
    pub closed spec fn issued(self) -> Set<u64> {
        self.issued@
    }

    /// `b` is `a` after `e` was sent to every client: the clients that stay
    /// are some of `a`'s, in their order, and each of them was sent `e`; the
    /// others are the ones whose channel refused it.
    pub open spec fn broadcasted(a: EventBus, b: EventBus, e: Event) -> bool {
        &&& b.next_id() == a.next_id()
        &&& b.issued() == a.issued()
        &&& exists|keep: Seq<int>| #[trigger] kept_after_send(a.ids(), a.sent(), b.ids(), b.sent(), keep, e)
    }

    /// `c` is `a` after `e1` and then `e2` were broadcast.
    pub open spec fn broadcasted2(a: EventBus, c: EventBus, e1: Event, e2: Event) -> bool {
        exists|m: EventBus| #[trigger] Self::broadcasted(a, m, e1) && Self::broadcasted(m, c, e2)
    }

    /// `d` is `a` after `e1`, `e2` and then `e3` were broadcast.
    pub open spec fn broadcasted3(a: EventBus, d: EventBus, e1: Event, e2: Event, e3: Event) -> bool {
        exists|m: EventBus| #[trigger] Self::broadcasted(a, m, e1) && Self::broadcasted2(m, d, e2, e3)
    }

    #[verifier::type_invariant]
    closed spec fn inv(self) -> bool {
        &&& ids_ok(self.ids(), self.next_id)
        &&& self.sent@.len() == self.clients.len()
        &&& forall|x: u64| #[trigger] self.issued@.contains(x) ==> x < self.next_id
    }

    pub fn new() -> (b: EventBus)
        ensures
            b.ids() == Seq::<u64>::empty(),
            b.sent() == Seq::<Seq<Event>>::empty(),
            b.next_id() == 0,
            b.issued() == Set::<u64>::empty(),
    {
        let b = EventBus { clients: Vec::new(), next_id: 0, sent: Ghost(Seq::empty()), issued: Ghost(Set::empty()) };
        assert(b.ids() =~= Seq::<u64>::empty());
        b
    }

    /// The id the next registration would get.
    pub fn next_client_id(&self) -> (r: u64)
        ensures
            r == self.next_id(),
    {
        self.next_id
    }

    /// Moves the contents out, leaving an empty bus with the same next id.
    fn take(&mut self) -> (r: (Vec<(u64, Sender<Event>)>, u64, Ghost<Seq<Seq<Event>>>, Ghost<Set<u64>>))
        ensures
            r.3@ == old(self).issued(),
            forall|x: u64| #[trigger] r.3@.contains(x) ==> x < r.1,
            final(self).issued() == old(self).issued(),
            r.0@.map_values(|c: (u64, Sender<Event>)| c.0) == old(self).ids(),
            r.1 == old(self).next_id(),
            r.2@ == old(self).sent(),
            ids_ok(old(self).ids(), r.1),
            r.2@.len() == r.0.len(),
            final(self).ids() == Seq::<u64>::empty(),
            final(self).next_id() == old(self).next_id(),
    {
        proof {
            use_type_invariant(&*self);
        }
        let mut taken = EventBus {
            clients: Vec::new(),
            next_id: self.next_id,
            sent: Ghost(Seq::empty()),
            issued: Ghost(self.issued@),
        };
        assert(taken.ids() =~= Seq::<u64>::empty());
        std::mem::swap(&mut taken, self);
        proof {
            use_type_invariant(&taken);
            assert(self.ids() =~= Seq::<u64>::empty());
        }
        let EventBus { clients, next_id, sent, issued } = taken;
        (clients, next_id, sent, issued)
    }

    /// Registers a new client: it gets the next id and the receiving end of
    /// its own channel, and nothing has been sent to it yet.
    pub fn register(&mut self) -> (r: (u64, Receiver<Event>))
        requires
            old(self).next_id() < u64::MAX,
        ensures
            r.0 == old(self).next_id(),
            !old(self).ids().contains(r.0),
            !old(self).issued().contains(r.0),
            final(self).issued() == old(self).issued().insert(r.0),
            final(self).ids() == old(self).ids().push(r.0),
            final(self).sent() == old(self).sent().push(Seq::<Event>::empty()),
            final(self).next_id() == old(self).next_id() + 1,
    {
        let (tx, rx) = event_channel();
        let (mut clients, id, sent, issued) = self.take();
        let ghost before = clients@;
        clients.push((id, tx));
        proof {
            let old_ids = before.map_values(|c: (u64, Sender<Event>)| c.0);
            assert(clients@.map_values(|c: (u64, Sender<Event>)| c.0) =~= old_ids.push(id));
        }
        *self = EventBus {
            clients,
            next_id: id + 1,
            sent: Ghost(sent@.push(Seq::empty())),
            issued: Ghost(issued@.insert(id)),
        };
        (id, rx)
    }

    /// Forgets client `id` (a no-op for an unknown id).
    pub fn unregister(&mut self, id: u64)
        ensures
            final(self).ids() == old(self).ids().filter(|x: u64| x != id),
            final(self).next_id() == old(self).next_id(),
            final(self).issued() == old(self).issued(),
    {
        let (clients, next_id, sent, issued) = self.take();
        let ghost old_ids = clients@.map_values(|c: (u64, Sender<Event>)| c.0);
        let ghost old_log = sent@;
        let mut kept: Vec<(u64, Sender<Event>)> = Vec::new();
        let ghost mut klog: Seq<Seq<Event>> = seq![];
        let mut rest = clients;
        let n = rest.len();
        // Walk from the front, keeping every client but `id`.
        rest = crate::collections::reversed(rest);
        let ghost rev = rest@;
        let mut i: usize = 0;
        while i < n
            invariant
                i <= n,
                rest.len() == n - i,
                rev.len() == n,
                old_ids.len() == n,
                old_log.len() == n,
                klog.len() == kept.len(),
                forall|k: int| 0 <= k < n - i ==> #[trigger] rest@[k] == rev[k],
                forall|k: int| 0 <= k < n ==> (#[trigger] rev[k]).0 == old_ids[n - 1 - k],
                kept@.map_values(|c: (u64, Sender<Event>)| c.0) == old_ids.subrange(0, i as int).filter(
                    |x: u64| x != id,
                ),
                ids_ok(old_ids, next_id),
            decreases n - i,
        {
            let c = rest.pop().unwrap();
            let ghost before = kept@;
            let ghost cid = c.0;
            assert(cid == old_ids[i as int]);
            assert(old_ids.subrange(0, i + 1) =~= old_ids.subrange(0, i as int).push(cid));
            if c.0 != id {
                kept.push(c);
                proof {
                    klog = klog.push(old_log[i as int]);
                }
                assert(kept@.map_values(|c: (u64, Sender<Event>)| c.0) =~= before.map_values(
                    |c: (u64, Sender<Event>)| c.0,
                ).push(cid));
            }
            proof {
                lemma_filter_push_id(old_ids.subrange(0, i as int), id, cid);
            }
            i += 1;
        }
        assert(old_ids.subrange(0, n as int) =~= old_ids);
        assert(ids_ok(kept@.map_values(|c: (u64, Sender<Event>)| c.0), next_id)) by {
            lemma_filter_keeps_order(old_ids, id, next_id);
        }
        *self = EventBus { clients: kept, next_id, sent: Ghost(klog), issued };
    }

    /// Sends `event` to every client, dropping the clients whose receiving
    /// end is gone. Which ones those are only the channels know; every
    /// client that stays was registered before, in the same order, and was
    /// sent the event.
    pub fn broadcast(&mut self, event: Event)
        ensures
            Self::broadcasted(*old(self), *final(self), event),
    {
        let (clients, next_id, sent, issued) = self.take();
        let ghost old_ids = clients@.map_values(|c: (u64, Sender<Event>)| c.0);
        let ghost old_log = sent@;
        let n = clients.len();
        let mut rest = crate::collections::reversed(clients);
        let ghost rev = rest@;
        let mut kept: Vec<(u64, Sender<Event>)> = Vec::new();
        let ghost mut keep: Seq<int> = seq![];
        let ghost mut klog: Seq<Seq<Event>> = seq![];
        let mut i: usize = 0;
        while i < n
            invariant
                i <= n,
                rest.len() == n - i,
                rev.len() == n,
                old_ids.len() == n,
                old_log.len() == n,
                forall|k: int| 0 <= k < n - i ==> #[trigger] rest@[k] == rev[k],
                forall|k: int| 0 <= k < n ==> (#[trigger] rev[k]).0 == old_ids[n - 1 - k],
                keep.len() == kept.len(),
                klog.len() == kept.len(),
                forall|k: int|
                    0 <= k < keep.len() ==> 0 <= #[trigger] keep[k] < i && kept@[k].0 == old_ids[keep[k]]
                        && klog[k] == old_log[keep[k]].push(event),
                forall|k: int, l: int| 0 <= k < l < keep.len() ==> #[trigger] keep[k] < #[trigger] keep[l],
            decreases n - i,
        {
            let c = rest.pop().unwrap();
            assert(c.0 == old_ids[i as int]);
            if send_event(&c.1, event.clone()) {
                kept.push(c);
                proof {
                    keep = keep.push(i as int);
                    klog = klog.push(old_log[i as int].push(event));
                }
            }
            i += 1;
        }
        let ghost nids = kept@.map_values(|c: (u64, Sender<Event>)| c.0);
        proof {
            assert forall|a: int, b: int| 0 <= a < b < nids.len() implies nids[a] < nids[b] by {
                assert(keep[a] < keep[b]);
                assert(nids[a] == old_ids[keep[a]]);
                assert(nids[b] == old_ids[keep[b]]);
            }
            assert forall|a: int| 0 <= a < nids.len() implies nids[a] < next_id by {
                assert(nids[a] == old_ids[keep[a]]);
            }
        }
        *self = EventBus { clients: kept, next_id, sent: Ghost(klog), issued };
        proof {
            assert(kept_after_send(old_ids, old_log, self.ids(), self.sent(), keep, event));
        }
    }
}

proof fn lemma_filter_push_id(s: Seq<u64>, id: u64, x: u64)
    ensures
        s.push(x).filter(|y: u64| y != id) == if x != id {
            s.filter(|y: u64| y != id).push(x)
        } else {
            s.filter(|y: u64| y != id)
        },
{
    reveal(Seq::filter);
    assert(s.push(x).drop_last() =~= s);
}

proof fn lemma_filter_keeps_order(s: Seq<u64>, id: u64, bound: u64)
    requires
        ids_ok(s, bound),
    ensures
        ids_ok(s.filter(|x: u64| x != id), bound),
    decreases s.len(),
{
    let f = |x: u64| x != id;
    if s.len() > 0 {
        let init = s.drop_last();
        assert(ids_ok(init, bound));
        lemma_filter_keeps_order(init, id, bound);
        assert(s =~= init.push(s.last()));
        lemma_filter_push_id(init, id, s.last());
        let fi = init.filter(f);
        if f(s.last()) {
            assert forall|i: int| 0 <= i < fi.len() implies fi[i] < s.last() by {
                assert(fi.contains(fi[i]));
                init.lemma_filter_contains_rev(f, fi[i]);
                assert(init.contains(fi[i]));
                let k = choose|k: int| 0 <= k < init.len() && init[k] == fi[i];
                assert(s[k] < s[s.len() - 1]);
            }
        }
    }
}

} // verus!
