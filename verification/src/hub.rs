//! The broadcast hub: the fan-out fabric that couples all connections.
//!
//! Any connection may publish a message; every current subscriber receives a
//! copy. Publishing never blocks and never fails, whatever the subscribers'
//! state: each subscriber owns a bounded queue, and when a subscriber falls
//! behind by more than the hub's capacity the oldest unread messages are
//! dropped and the loss is reported once, as a `Lagged` signal, on its next
//! receive. A message published while no subscriber is active is simply
//! dropped. Subscriptions start from the moment of `subscribe`: messages
//! published earlier are never delivered to a new subscriber.

use vstd::prelude::*;
use crate::line::tagged;
use crate::line::lemma_tagged_carries_content;
use crate::line::copy_bytes;

verus! {

/// The abstract state of one subscription: its pending messages, oldest
/// first, and the number of messages dropped since the loss was last
/// reported.
pub struct SubView {
    pub queue: Seq<Seq<u8>>,
    pub lag: nat,
}

/// The abstract state of the hub: its fixed capacity, whether it has been
/// torn down, and one slot per subscription ever created (`None` once the
/// subscription is dropped).
pub struct HubView {
    pub cap: nat,
    pub closed: bool,
    pub subs: Seq<Option<SubView>>,
}

/// What one receive call yields: the oldest pending message, a report that
/// `n` messages were dropped, nothing pending yet, or the hub torn down with
/// no further messages coming.
pub enum RecvOutcome {
    Message(Vec<u8>),
    Lagged(usize),
    Empty,
    Closed,
}

/// Spec-level counterpart of `RecvOutcome`.
pub enum RecvView {
    Message(Seq<u8>),
    Lagged(nat),
    Empty,
    Closed,
}

/// The abstract content of a receive outcome.
pub open spec fn outcome_view(r: RecvOutcome) -> RecvView {
    match r {
        RecvOutcome::Message(m) => RecvView::Message(m@),
        RecvOutcome::Lagged(n) => RecvView::Lagged(n as nat),
        RecvOutcome::Empty => RecvView::Empty,
        RecvOutcome::Closed => RecvView::Closed,
    }
}

/// One more dropped message, counted up to the machine limit.
pub open spec fn lag_inc(l: nat) -> nat {
    if l < usize::MAX as nat {
        l + 1
    } else {
        l
    }
}

/// How a publish changes one subscription: the message is appended; if the
/// queue is already full, the oldest pending message is dropped first and
/// the loss is counted. The new state depends only on the subscription's own
/// prior state, the capacity, and the message.
pub open spec fn publish_step(s: SubView, cap: nat, m: Seq<u8>) -> SubView {
    if s.queue.len() < cap {
        SubView { queue: s.queue.push(m), lag: s.lag }
    } else {
        SubView { queue: s.queue.drop_first().push(m), lag: lag_inc(s.lag) }
    }
}

/// How a publish changes the whole hub: every active subscription takes the
/// message by `publish_step`; dropped slots stay dropped.
pub open spec fn hub_publish(h: HubView, m: Seq<u8>) -> HubView {
    HubView {
        subs: h.subs.map_values(
            |o: Option<SubView>|
                match o {
                    Some(s) => Some(publish_step(s, h.cap, m)),
                    None => None,
                },
        ),
        ..h
    }
}

/// What one receive yields from a subscription: an unreported loss first,
/// else the oldest pending message, else `Closed` when the hub is torn down,
/// else nothing yet.
pub open spec fn recv_view(s: SubView, closed: bool) -> RecvView {
    if s.lag > 0 {
        RecvView::Lagged(s.lag)
    } else if s.queue.len() > 0 {
        RecvView::Message(s.queue[0])
    } else if closed {
        RecvView::Closed
    } else {
        RecvView::Empty
    }
}

/// How one receive changes the subscription: a reported loss is cleared
/// without touching the queue; a delivered message leaves the queue; an
/// empty queue is left as it is.
pub open spec fn recv_step(s: SubView, closed: bool) -> SubView {
    if s.lag > 0 {
        SubView { queue: s.queue, lag: 0 }
    } else if s.queue.len() > 0 {
        SubView { queue: s.queue.drop_first(), lag: 0 }
    } else {
        s
    }
}

/// One subscription as the hub stores it. A dropped subscription keeps its
/// slot, inactive and empty, so that identifiers stay stable.
struct Subscriber {
    active: bool,
    queue: Vec<Vec<u8>>,
    lagged: usize,
}

impl Subscriber {
    spec fn view_of(self) -> SubView {
        SubView { queue: self.queue@.map_values(|m: Vec<u8>| m@), lag: self.lagged as nat }
    }

    /// Appends the message, dropping the oldest pending one when full.
    fn deliver(&mut self, cap: usize, m: Vec<u8>)
        requires
            cap >= 1,
            old(self).active,
            old(self).view_of().queue.len() <= cap as nat,
        ensures
            final(self).active,
            final(self).view_of() == publish_step(old(self).view_of(), cap as nat, m@),
    {
        let ghost pre = self.view_of();
        if self.queue.len() == cap {
            self.queue.remove(0);
            if self.lagged < usize::MAX {
                self.lagged = self.lagged + 1;
            }
            proof {
                assert(self.queue@.map_values(|x: Vec<u8>| x@) =~= pre.queue.drop_first());
            }
        }
        self.queue.push(m);
        proof {
            if pre.queue.len() < cap as nat {
                assert(self.view_of().queue =~= pre.queue.push(m@));
            } else {
                assert(self.view_of().queue =~= pre.queue.drop_first().push(m@));
            }
        }
    }

    /// Takes the next outcome for this subscription and updates it.
    fn take_next(&mut self, closed: bool) -> (r: RecvOutcome)
        requires
            old(self).active,
        ensures
            final(self).active,
            outcome_view(r) == recv_view(old(self).view_of(), closed),
            final(self).view_of() == recv_step(old(self).view_of(), closed),
    {
        let ghost pre = self.view_of();
        if self.lagged > 0 {
            let n = self.lagged;
            self.lagged = 0;
            RecvOutcome::Lagged(n)
        } else if self.queue.len() > 0 {
            let m = self.queue.remove(0);
            proof {
                assert(self.view_of().queue =~= pre.queue.drop_first());
            }
            RecvOutcome::Message(m)
        } else if closed {
            RecvOutcome::Closed
        } else {
            RecvOutcome::Empty
        }
    }
}

/// The broadcast hub. Its abstract state is a `HubView`; every operation's
/// contract is stated over that view.
pub struct Hub {
    capacity: usize,
    closed: bool,
    subs: Vec<Subscriber>,
}

impl View for Hub {
    type V = HubView;

    closed spec fn view(&self) -> HubView {
        HubView {
            cap: self.capacity as nat,
            closed: self.closed,
            subs: self.subs@.map_values(
                |s: Subscriber|
                    if s.active {
                        Some(s.view_of())
                    } else {
                        None
                    },
            ),
        }
    }
}

/// A hub state is well formed when its capacity is positive and no active
/// subscription holds more pending messages than the capacity.
pub open spec fn hub_wf(h: HubView) -> bool {
    &&& h.cap >= 1
    &&& h.cap <= usize::MAX as nat
    &&& forall|i: int|
        0 <= i < h.subs.len() && h.subs[i] is Some ==> (#[trigger] h.subs[i])->Some_0.queue.len()
            <= h.cap
}

impl Hub {
    pub open spec fn wf(self) -> bool {
        hub_wf(self@)
    }

    /// Whether slot `id` holds a live subscription.
    pub open spec fn is_active(self, id: int) -> bool {
        0 <= id < self@.subs.len() && self@.subs[id] is Some
    }

    /// The abstract state of the subscription in slot `id`.
    pub open spec fn sub_view(self, id: int) -> SubView {
        self@.subs[id]->Some_0
    }

    /// Whether slot `id` holds a live subscription.
    pub fn is_live(&self, id: usize) -> (r: bool)
        ensures
            r == self.is_active(id as int),
    {
        id < self.subs.len() && self.subs[id].active
    }

    /// A fresh hub with the given per-subscriber queue capacity and no
    /// subscribers.
    pub fn new(capacity: usize) -> (h: Hub)
        requires
            capacity >= 1,
        ensures
            h.wf(),
            h@ == (HubView { cap: capacity as nat, closed: false, subs: Seq::empty() }),
    {
        let h = Hub { capacity, closed: false, subs: Vec::new() };
        proof {
            assert(h@.subs =~= Seq::<Option<SubView>>::empty());
        }
        h
    }

    /// Creates a subscription that starts from now: its queue begins empty,
    /// so messages published before this call are never delivered to it.
    /// Returns the subscription's identifier; no other slot changes.
    pub fn subscribe(&mut self) -> (id: usize)
        requires
            old(self).wf(),
        ensures
            final(self).wf(),
            id as int == old(self)@.subs.len(),
            final(self)@ == (HubView {
                subs: old(self)@.subs.push(Some(SubView { queue: Seq::empty(), lag: 0 })),
                ..old(self)@
            }),
    {
        let id = self.subs.len();
        self.subs.push(Subscriber { active: true, queue: Vec::new(), lagged: 0 });
        proof {
            assert(self@.subs =~= old(self)@.subs.push(
                Some(SubView { queue: Seq::<Seq<u8>>::empty(), lag: 0 }),
            )) by {
                assert(self.subs@[id as int].view_of().queue =~= Seq::<Seq<u8>>::empty());
            }
        }
        id
    }

    /// Drops the subscription in slot `id`: the slot stays, inactive, so
    /// other identifiers keep their meaning. No other slot changes.
    pub fn unsubscribe(&mut self, id: usize)
        requires
            old(self).wf(),
            old(self).is_active(id as int),
        ensures
            final(self).wf(),
            final(self)@ == (HubView { subs: old(self)@.subs.update(id as int, None), ..old(self)@ }),
    {
        let sub = &mut self.subs[id];
        sub.active = false;
        sub.queue.clear();
        sub.lagged = 0;
        proof {
            assert(self@.subs =~= old(self)@.subs.update(id as int, None::<SubView>));
        }
    }

    /// Tears the hub down: every subscriber's next receive, once its queue
    /// and loss report drain, yields `Closed`.
    pub fn close(&mut self)
        requires
            old(self).wf(),
        ensures
            final(self).wf(),
            final(self)@ == (HubView { closed: true, ..old(self)@ }),
    {
        self.closed = true;
        proof {
            assert(self@.subs =~= old(self)@.subs);
        }
    }

    /// Publishes one message: every active subscription takes a copy by
    /// `publish_step`, so the call never blocks and never fails, whatever
    /// any subscriber's backlog. With no active subscriber the message is
    /// dropped.
    pub fn publish(&mut self, msg: &Vec<u8>)
        requires
            old(self).wf(),
        ensures
            final(self).wf(),
            final(self)@ == hub_publish(old(self)@, msg@),
    {
        let cap = self.capacity;
        let n = self.subs.len();
        let ghost pre = *self;
        let mut i: usize = 0;
        while i < n
            invariant
                i <= n,
                n == self.subs@.len(),
                cap == pre.capacity,
                self.capacity == pre.capacity,
                self.closed == pre.closed,
                pre.wf(),
                n == pre.subs@.len(),
                forall|j: int|
                    0 <= j < i ==> #[trigger] self@.subs[j] == hub_publish(pre@, msg@).subs[j],
                forall|j: int| i <= j < n ==> #[trigger] self@.subs[j] == pre@.subs[j],
            decreases n - i,
        {
            let copy = copy_bytes(msg);
            let ghost prev = *self;
            let sub = &mut self.subs[i];
            if sub.active {
                proof {
                    assert(prev@.subs[i as int] == pre@.subs[i as int]);
                    assert(prev@.subs[i as int] == Some(prev.subs@[i as int].view_of()));
                    assert((pre@.subs[i as int])->Some_0.queue.len() <= pre@.cap);
                    assert(sub.view_of().queue.len() <= cap as nat);
                }
                sub.deliver(cap, copy);
            }
            proof {
                assert forall|j: int| 0 <= j < n && j != i implies #[trigger] self@.subs[j]
                    == prev@.subs[j] by {
                    assert(self.subs@[j] == prev.subs@[j]);
                }
                assert(self@.subs[i as int] == hub_publish(pre@, msg@).subs[i as int]) by {
                    if prev.subs@[i as int].active {
                        assert(self.subs@[i as int].view_of() == publish_step(
                            prev.subs@[i as int].view_of(),
                            cap as nat,
                            msg@,
                        ));
                        assert(self.subs@[i as int].active);
                        assert(self@.subs[i as int] == Some(self.subs@[i as int].view_of()));
                    } else {
                        assert(self.subs@[i as int] == prev.subs@[i as int]);
                        assert(prev@.subs[i as int] is None);
                    }
                }
            }
            i = i + 1;
        }
        proof {
            assert(self@.subs =~= hub_publish(pre@, msg@).subs);
        }
    }

    /// One receive for subscription `id`: an unreported loss is yielded
    /// first, as `Lagged`, exactly once; else the oldest pending message;
    /// else `Closed` if the hub is torn down, and `Empty` otherwise. Only
    /// slot `id` changes, by `recv_step`.
    pub fn recv(&mut self, id: usize) -> (r: RecvOutcome)
        requires
            old(self).wf(),
            old(self).is_active(id as int),
        ensures
            final(self).wf(),
            outcome_view(r) == recv_view(old(self).sub_view(id as int), old(self)@.closed),
            final(self)@ == (HubView {
                subs: old(self)@.subs.update(
                    id as int,
                    Some(recv_step(old(self).sub_view(id as int), old(self)@.closed)),
                ),
                ..old(self)@
            }),
    {
        let closed = self.closed;
        let sub = &mut self.subs[id];
        let r = sub.take_next(closed);
        proof {
            assert(self@.subs =~= old(self)@.subs.update(
                id as int,
                Some(recv_step(old(self).sub_view(id as int), old(self)@.closed)),
            ));
        }
        r
    }
}

/// Law: publishing always delivers. After a publish, every active
/// subscription's queue is non-empty, ends with the published message, and
/// still fits the capacity — a slow subscriber loses old messages, never
/// new ones, and never stalls the publisher.
pub proof fn lemma_publish_delivers(s: SubView, cap: nat, m: Seq<u8>)
    requires
        cap >= 1,
        s.queue.len() <= cap,
    ensures
        publish_step(s, cap, m).queue.len() >= 1,
        publish_step(s, cap, m).queue.last() == m,
        publish_step(s, cap, m).queue.len() <= cap,
{
}

/// Law: order preservation for one subscriber. Two messages published in
/// order land in every active subscription's queue adjacently and in that
/// order, as long as the subscription does not overflow; the loss count is
/// untouched.
pub proof fn lemma_publish_order(s: SubView, cap: nat, m1: Seq<u8>, m2: Seq<u8>)
    requires
        s.queue.len() + 2 <= cap,
    ensures
        publish_step(publish_step(s, cap, m1), cap, m2).queue == s.queue + seq![m1, m2],
        publish_step(publish_step(s, cap, m1), cap, m2).lag == s.lag,
{
    assert(publish_step(publish_step(s, cap, m1), cap, m2).queue =~= s.queue + seq![m1, m2]);
}

/// Law: isolation. What a publish does to subscription `c` depends only on
/// `c`'s own prior state and the hub's capacity: two hubs that agree there,
/// whatever every other subscriber's backlog, agree on `c` after the
/// publish. One client that never reads cannot affect another's deliveries;
/// and `hub_publish` is total, so no subscriber's state can make a send
/// fail.
pub proof fn lemma_publish_isolation(h1: HubView, h2: HubView, m: Seq<u8>, c: int)
    requires
        h1.cap == h2.cap,
        0 <= c < h1.subs.len(),
        0 <= c < h2.subs.len(),
        h1.subs[c] == h2.subs[c],
    ensures
        hub_publish(h1, m).subs[c] == hub_publish(h2, m).subs[c],
{
}

/// A whole sequence of publishes, oldest first, applied to one
/// subscription.
pub open spec fn publish_all(s: SubView, cap: nat, ms: Seq<Seq<u8>>) -> SubView
    decreases ms.len(),
{
    if ms.len() == 0 {
        s
    } else {
        publish_all(publish_step(s, cap, ms[0]), cap, ms.skip(1))
    }
}

proof fn lemma_publish_all_full(s: SubView, cap: nat, ms: Seq<Seq<u8>>)
    requires
        1 <= cap,
        s.queue.len() == cap,
        s.lag + ms.len() <= usize::MAX as nat,
    ensures
        publish_all(s, cap, ms).queue == (s.queue + ms).skip(ms.len() as int),
        publish_all(s, cap, ms).queue.len() == cap,
        publish_all(s, cap, ms).lag == s.lag + ms.len(),
    decreases ms.len(),
{
    if ms.len() == 0 {
        assert((s.queue + ms).skip(0) =~= s.queue);
    } else {
        let s1 = publish_step(s, cap, ms[0]);
        assert(s1.lag == s.lag + 1);
        lemma_publish_all_full(s1, cap, ms.skip(1));
        assert(s1.queue + ms.skip(1) =~= (s.queue + ms).skip(1));
        assert((s.queue + ms).skip(1).skip(ms.len() - 1) =~= (s.queue + ms).skip(
            ms.len() as int,
        ));
    }
}

/// Law: lagging-subscriber resumption. If a subscription with a full queue
/// stops consuming while `k` more messages are published, exactly the `k`
/// oldest unread messages are skipped and the newest are retained; its next
/// receive reports `Lagged(k)` exactly once — the report clears the count
/// and drops nothing further — and the receive after that delivers the
/// oldest retained message: never a skipped message again, never a second
/// report for the same episode, and no stall.
pub proof fn lemma_lagged_resumption(s: SubView, cap: nat, ms: Seq<Seq<u8>>)
    requires
        1 <= cap,
        s.queue.len() == cap,
        s.lag == 0,
        1 <= ms.len() <= usize::MAX as nat,
    ensures
        ({
            let after = publish_all(s, cap, ms);
            let reported = recv_step(after, false);
            &&& after.lag == ms.len()
            &&& after.queue == (s.queue + ms).skip(ms.len() as int)
            &&& recv_view(after, false) == RecvView::Lagged(ms.len())
            &&& reported == (SubView { queue: after.queue, lag: 0 })
            &&& recv_view(reported, false) == RecvView::Message((s.queue + ms)[ms.len() as int])
            &&& !(recv_view(reported, false) is Lagged)
        }),
{
    lemma_publish_all_full(s, cap, ms);
    let after = publish_all(s, cap, ms);
    assert(after.queue[0] == (s.queue + ms)[ms.len() as int]);
}

/// Law: echo fidelity. When a line `l` read from the client at `addr` is
/// tagged and published, every active subscription's queue ends with a
/// message that carries `l` verbatim after the `[<addr>]: ` tag.
pub proof fn lemma_echo_fidelity(h: HubView, addr: Seq<u8>, l: Seq<u8>, c: int)
    requires
        hub_wf(h),
        0 <= c < h.subs.len(),
        h.subs[c] is Some,
    ensures
        ({
            let q = (hub_publish(h, tagged(addr, l)).subs[c])->Some_0.queue;
            &&& q.len() >= 1
            &&& q.last().subrange(addr.len() + 4 as int, q.last().len() as int) == l
        }),
{
    lemma_publish_delivers((h.subs[c])->Some_0, h.cap, tagged(addr, l));
    lemma_tagged_carries_content(addr, l);
}

} // verus!
