//! The broadcast hub: the multi-producer, multi-consumer distribution point.
//!
//! The hub keeps one bounded backlog per live subscription. Publishing
//! delivers a copy of the notification to every live backlog without ever
//! waiting on a consumer: when a backlog is full the oldest undrained entry
//! is dropped and the subscription's lag count grows, favouring the most
//! recent state over strict completeness.

use vstd::prelude::*;
use crate::notification::NotificationTemplate;

verus! {

/// Signal that a publish found zero live subscriptions. Non-fatal: the
/// caller may log it, but the operation that triggered the publish must
/// still succeed.
#[derive(Clone, Copy, PartialEq, Eq, Structural, Debug)]
pub struct NoSubscribers;

/// What one call to [`Hub::recv`] yields for a subscription.
pub enum RecvOutcome {
    /// Normal delivery, in publish order for this subscriber.
    Notification(NotificationTemplate),
    /// The subscriber fell behind and this many notifications were dropped;
    /// not terminal, the caller resynchronizes and keeps reading.
    Lagged(u64),
    /// Nothing is pending; the caller suspends until woken.
    Empty,
    /// The hub is shutting down and the backlog is drained; terminal.
    Closed,
}

/// Per-subscriber state: the bounded backlog of undrained notifications and
/// the count of entries dropped since the subscriber last observed its lag.
pub struct Subscription {
    queue: Vec<NotificationTemplate>,
    missed: u64,
}

/// The mathematical value of one subscription.
#[verifier::ext_equal]
pub struct SubModel {
    pub queue: Seq<NotificationTemplate>,
    pub missed: u64,
}

impl Subscription {
    pub closed spec fn model(&self) -> SubModel {
        SubModel { queue: self.queue@, missed: self.missed }
    }
}

/// A fresh subscription: empty backlog, no lag.
pub open spec fn empty_sub() -> SubModel {
    SubModel { queue: Seq::empty(), missed: 0 }
}

/// A lag count grows by one per dropped entry, saturating at the largest
/// representable count.
pub open spec fn sat_inc(m: u64) -> u64 {
    if m == u64::MAX {
        m
    } else {
        (m + 1) as u64
    }
}

/// How one publish changes one live subscription: append the notification
/// if the backlog has room, otherwise drop the oldest entry, count the drop,
/// and append.
pub open spec fn publish_step(m: SubModel, n: NotificationTemplate, cap: nat) -> SubModel {
    if m.queue.len() < cap {
        SubModel { queue: m.queue.push(n), missed: m.missed }
    } else {
        SubModel { queue: m.queue.skip(1).push(n), missed: sat_inc(m.missed) }
    }
}

/// How one publish changes the whole registry: every live slot takes the
/// step, every dead slot stays dead.
pub open spec fn publish_all_slots(
    ms: Seq<Option<SubModel>>,
    n: NotificationTemplate,
    cap: nat,
) -> Seq<Option<SubModel>> {
    Seq::new(
        ms.len(),
        |i: int|
            match ms[i] {
                Some(m) => Some(publish_step(m, n, cap)),
                None => None,
            },
    )
}

/// The number of live slots in a registry.
pub open spec fn live_count(ms: Seq<Option<SubModel>>) -> nat
    decreases ms.len(),
{
    if ms.len() == 0 {
        0
    } else {
        live_count(ms.drop_last()) + (if ms.last() is Some {
            1nat
        } else {
            0nat
        })
    }
}

/// Every live backlog in the registry respects the capacity bound.
pub open spec fn backlogs_bounded(ms: Seq<Option<SubModel>>, cap: nat) -> bool {
    forall|i: int|
        0 <= i < ms.len() ==> ((#[trigger] ms[i]) matches Some(m) ==> m.queue.len() <= cap)
}

/// What one recv yields, as a function of the subscription's state and of
/// whether the hub has closed: reported lag first, then the backlog in
/// order, then closure.
pub open spec fn recv_outcome(m: SubModel, closed: bool) -> RecvOutcome {
    if m.missed > 0 {
        RecvOutcome::Lagged(m.missed)
    } else if m.queue.len() > 0 {
        RecvOutcome::Notification(m.queue[0])
    } else if closed {
        RecvOutcome::Closed
    } else {
        RecvOutcome::Empty
    }
}

/// The subscription's state after one recv.
pub open spec fn recv_next(m: SubModel) -> SubModel {
    if m.missed > 0 {
        SubModel { queue: m.queue, missed: 0 }
    } else if m.queue.len() > 0 {
        SubModel { queue: m.queue.skip(1), missed: 0 }
    } else {
        m
    }
}

/// The registry of currently-live subscriptions. Created once, lives for
/// the process; holds no history of past notifications.
pub struct Hub {
    capacity: usize,
    closed: bool,
    slots: Vec<Option<Subscription>>,
}

impl Hub {
    /// The backlog capacity *C* this hub was created with.
    pub closed spec fn cap(&self) -> nat {
        self.capacity as nat
    }

    /// Whether the hub has been closed.
    pub closed spec fn is_closed(&self) -> bool {
        self.closed
    }

    /// The registry as a sequence of slots; a `None` slot belonged to a
    /// subscription that has been torn down.
    pub closed spec fn models(&self) -> Seq<Option<SubModel>> {
        Seq::new(
            self.slots@.len(),
            |i: int|
                match self.slots@[i] {
                    Some(s) => Some(s.model()),
                    None => None,
                },
        )
    }

    /// Whether `id` names a live subscription.
    pub open spec fn live(&self, id: int) -> bool {
        0 <= id < self.models().len() && self.models()[id] is Some
    }

    /// The state of the live subscription `id`.
    pub open spec fn model_of(&self, id: int) -> SubModel
        recommends
            self.live(id),
    {
        match self.models()[id] {
            Some(m) => m,
            None => empty_sub(),
        }
    }

    /// Well-formedness: a positive capacity bounds every live backlog.
    pub open spec fn wf(&self) -> bool {
        self.cap() >= 1 && backlogs_bounded(self.models(), self.cap())
    }

    /// A new hub with backlog capacity `capacity`, no subscriptions, open.
    pub fn new(capacity: usize) -> (h: Hub)
        requires
            capacity >= 1,
        ensures
            h.wf(),
            h.cap() == capacity,
            !h.is_closed(),
            h.models().len() == 0,
    {
        Hub { capacity, closed: false, slots: Vec::new() }
    }

    /// Register a fresh subscription; always succeeds, and the new backlog
    /// starts empty. The returned handle stays valid until `unsubscribe`.
    pub fn subscribe(&mut self) -> (id: usize)
        requires
            old(self).wf(),
        ensures
            final(self).wf(),
            final(self).cap() == old(self).cap(),
            final(self).is_closed() == old(self).is_closed(),
            id == old(self).models().len(),
            final(self).models() == old(self).models().push(Some(empty_sub())),
            live_count(final(self).models()) == live_count(old(self).models()) + 1,
    {
        let id = self.slots.len();
        self.slots.push(Some(Subscription { queue: Vec::new(), missed: 0 }));
        proof {
            let pre = old(self).models();
            let post = self.models();
            assert(post =~= pre.push(Some(empty_sub())));
            lemma_live_count_push(pre, Some(empty_sub()));
            assert forall|i: int|
                0 <= i < post.len() implies ((#[trigger] post[i]) matches Some(m)
                ==> m.queue.len() <= self.cap()) by {
                if i < pre.len() {
                    assert(pre[i] == post[i]);
                }
            }
        }
        id
    }

    /// Tear one subscription down: its slot leaves the live set, so no
    /// further publish delivers to it.
    pub fn unsubscribe(&mut self, id: usize)
        requires
            old(self).wf(),
            old(self).live(id as int),
        ensures
            final(self).wf(),
            final(self).cap() == old(self).cap(),
            final(self).is_closed() == old(self).is_closed(),
            final(self).models() == old(self).models().update(id as int, None),
            live_count(final(self).models()) == live_count(old(self).models()) - 1,
    {
        self.slots[id] = None;
        proof {
            let pre = old(self).models();
            let post = self.models();
            assert(post =~= pre.update(id as int, None));
            lemma_live_count_update_none(pre, id as int);
            assert forall|i: int|
                0 <= i < post.len() implies ((#[trigger] post[i]) matches Some(m)
                ==> m.queue.len() <= self.cap()) by {
                if i != id as int {
                    assert(pre[i] == post[i]);
                }
            }
        }
    }

    /// Close the hub: every subscription still drains its backlog, then
    /// observes `Closed`.
    pub fn close(&mut self)
        requires
            old(self).wf(),
        ensures
            final(self).wf(),
            final(self).is_closed(),
            final(self).cap() == old(self).cap(),
            final(self).models() == old(self).models(),
    {
        self.closed = true;
        proof {
            assert(self.models() =~= old(self).models());
        }
    }

    /// Whether `id` names a live subscription.
    pub fn is_live(&self, id: usize) -> (r: bool)
        ensures
            r == self.live(id as int),
    {
        id < self.slots.len() && self.slots[id].is_some()
    }

    /// The number of currently-live subscriptions.
    pub fn subscriber_count(&self) -> (c: usize)
        ensures
            c == live_count(self.models()),
    {
        let ghost ms = self.models();
        let mut c: usize = 0;
        let mut i: usize = 0;
        while i < self.slots.len()
            invariant
                i <= self.slots@.len(),
                c <= i,
                ms == self.models(),
                ms.len() == self.slots@.len(),
                c == live_count(ms.subrange(0, i as int)),
            decreases self.slots@.len() - i,
        {
            proof {
                assert(ms.subrange(0, i + 1).drop_last() =~= ms.subrange(0, i as int));
                assert(ms.subrange(0, i + 1).last() == ms[i as int]);
            }
            if self.slots[i].is_some() {
                c = c + 1;
            }
            i = i + 1;
        }
        proof {
            assert(ms.subrange(0, ms.len() as int) =~= ms);
        }
        c
    }

    /// Deliver a copy of `n` to every live subscription's backlog, dropping
    /// the oldest entry of any backlog already at capacity. Never waits on a
    /// consumer; the work is bounded by the slot count times the capacity.
    /// Returns how many subscribers were reached, or `NoSubscribers` if
    /// there were none — and exactly then.
    pub fn publish(&mut self, n: &NotificationTemplate) -> (r: Result<usize, NoSubscribers>)
        requires
            old(self).wf(),
        ensures
            final(self).wf(),
            final(self).cap() == old(self).cap(),
            final(self).is_closed() == old(self).is_closed(),
            final(self).models() == publish_all_slots(old(self).models(), *n, old(self).cap()),
            r matches Ok(c) ==> c == live_count(old(self).models()) && c > 0,
            r is Err <==> live_count(old(self).models()) == 0,
    {
        let ghost pre = self.models();
        let ghost cap_g = self.cap();
        let capacity = self.capacity;
        let mut delivered: usize = 0;
        let mut i: usize = 0;
        while i < self.slots.len()
            invariant
                capacity == old(self).capacity,
                capacity >= 1,
                self.capacity == old(self).capacity,
                self.closed == old(self).closed,
                self.slots@.len() == old(self).slots@.len(),
                pre == old(self).models(),
                cap_g == old(self).cap(),
                backlogs_bounded(pre, cap_g),
                pre.len() == self.slots@.len(),
                i <= self.slots@.len(),
                delivered <= i,
                delivered == live_count(pre.subrange(0, i as int)),
                forall|j: int| i <= j < pre.len() ==> #[trigger] self.models()[j] == pre[j],
                forall|j: int|
                    0 <= j < i ==> #[trigger] self.models()[j] == publish_all_slots(
                        pre,
                        *n,
                        cap_g,
                    )[j],
            decreases self.slots@.len() - i,
        {
            proof {
                assert(pre.subrange(0, i + 1).drop_last() =~= pre.subrange(0, i as int));
                assert(pre.subrange(0, i + 1).last() == pre[i as int]);
            }
            let ghost before = self.models();
            let cur = self.slots[i].take();
            match cur {
                None => {
                    proof {
                        assert(self.models() =~= before);
                    }
                },
                Some(mut sub) => {
                    let ghost m0 = sub.model();
                    proof {
                        assert(before[i as int] == Some(m0));
                        assert(pre[i as int] == Some(m0));
                    }
                    if sub.queue.len() >= capacity {
                        let ghost q0 = sub.queue@;
                        sub.queue.remove(0);
                        proof {
                            assert(sub.queue@ =~= q0.skip(1));
                        }
                        if sub.missed < u64::MAX {
                            sub.missed = sub.missed + 1;
                        }
                        proof {
                            assert(sub.queue@ == m0.queue.skip(1));
                            assert(sub.missed == sat_inc(m0.missed));
                        }
                    }
                    sub.queue.push(n.clone());
                    delivered = delivered + 1;
                    proof {
                        assert(sub.model().queue == publish_step(m0, *n, cap_g).queue);
                        assert(sub.model().missed == publish_step(m0, *n, cap_g).missed);
                        assert(sub.model() =~= publish_step(m0, *n, cap_g));
                    }
                    self.slots[i] = Some(sub);
                    proof {
                        assert(self.models() =~= before.update(i as int, Some(sub.model())));
                        assert(sub.model() == publish_step(m0, *n, cap_g));
                    }
                },
            }
            proof {
                assert forall|j: int|
                    0 <= j < pre.len() && j != i as int implies #[trigger] self.models()[j]
                    == before[j] by {}
                assert(self.models()[i as int] == publish_all_slots(pre, *n, cap_g)[i as int]);
            }
            i = i + 1;
        }
        proof {
            assert(pre.subrange(0, pre.len() as int) =~= pre);
            assert(self.models() =~= publish_all_slots(pre, *n, cap_g));
            assert forall|j: int|
                0 <= j < self.models().len() implies ((#[trigger] self.models()[j]) matches Some(m)
                ==> m.queue.len() <= cap_g) by {}
        }
        if delivered == 0 {
            Err(NoSubscribers)
        } else {
            Ok(delivered)
        }
    }

    /// Take one step of draining the subscription `id`: a pending lag report
    /// first, then the backlog front in publish order, then `Closed` once
    /// the hub has shut down, otherwise `Empty`.
    pub fn recv(&mut self, id: usize) -> (r: RecvOutcome)
        requires
            old(self).wf(),
            old(self).live(id as int),
        ensures
            final(self).wf(),
            final(self).cap() == old(self).cap(),
            final(self).is_closed() == old(self).is_closed(),
            r == recv_outcome(old(self).model_of(id as int), old(self).is_closed()),
            final(self).models() == old(self).models().update(
                id as int,
                Some(recv_next(old(self).model_of(id as int))),
            ),
            live_count(final(self).models()) == live_count(old(self).models()),
    {
        let closed = self.closed;
        let cur = self.slots[id].take();
        let r = match cur {
            None => {
                proof {
                    assert(false);
                }
                RecvOutcome::Empty
            },
            Some(mut sub) => {
                let out;
                if sub.missed > 0 {
                    let k = sub.missed;
                    sub.missed = 0;
                    out = RecvOutcome::Lagged(k);
                } else if sub.queue.len() > 0 {
                    let ghost q0 = sub.queue@;
                    let head = sub.queue.remove(0);
                    proof {
                        assert(sub.queue@ =~= q0.skip(1));
                    }
                    out = RecvOutcome::Notification(head);
                } else {
                    if closed {
                        out = RecvOutcome::Closed;
                    } else {
                        out = RecvOutcome::Empty;
                    }
                }
                self.slots[id] = Some(sub);
                out
            },
        };
        proof {
            let pre = old(self).models();
            let post = self.models();
            let next = recv_next(old(self).model_of(id as int));
            assert(post =~= pre.update(id as int, Some(next)));
            lemma_live_count_update_same_liveness(pre, id as int, Some(next));
            assert forall|i: int|
                0 <= i < post.len() implies ((#[trigger] post[i]) matches Some(m)
                ==> m.queue.len() <= self.cap()) by {
                if i != id as int {
                    assert(pre[i] == post[i]);
                }
            }
        }
        r
    }
}

/// The state of one subscription after a whole sequence of publishes, in
/// order, none of them drained.
pub open spec fn publish_seq(m: SubModel, ns: Seq<NotificationTemplate>, cap: nat) -> SubModel
    decreases ns.len(),
{
    if ns.len() == 0 {
        m
    } else {
        publish_seq(publish_step(m, ns[0], cap), ns.skip(1), cap)
    }
}

/// Fan-out: one publish reaches every live slot and no dead one. Each live
/// backlog ends with the published notification, behind exactly the entries
/// it retained, in their old order: all of them if there was room, all but
/// the oldest otherwise.
pub proof fn lemma_fan_out(ms: Seq<Option<SubModel>>, n: NotificationTemplate, cap: nat)
    requires
        cap >= 1,
    ensures
        publish_all_slots(ms, n, cap).len() == ms.len(),
        forall|i: int|
            0 <= i < ms.len() ==> ((#[trigger] ms[i]) matches Some(m)
                ==> (publish_all_slots(ms, n, cap)[i] matches Some(m2) && m2.queue.len() >= 1
                && m2.queue.last() == n && m2.queue.drop_last() == (if m.queue.len() < cap {
                m.queue
            } else {
                m.queue.skip(1)
            }))),
        forall|i: int|
            0 <= i < ms.len() ==> ((#[trigger] ms[i]) is None ==> publish_all_slots(
                ms,
                n,
                cap,
            )[i] is None),
{
    assert forall|i: int|
        0 <= i < ms.len() implies ((#[trigger] ms[i]) matches Some(m) ==> (publish_all_slots(
        ms,
        n,
        cap,
    )[i] matches Some(m2) && m2.queue.len() >= 1 && m2.queue.last() == n && m2.queue.drop_last()
        == (if m.queue.len() < cap {
        m.queue
    } else {
        m.queue.skip(1)
    }))) by {
        match ms[i] {
            Some(m) => {
                let m2 = publish_step(m, n, cap);
                if m.queue.len() < cap {
                    assert(m2.queue.drop_last() =~= m.queue);
                } else {
                    assert(m2.queue.drop_last() =~= m.queue.skip(1));
                }
            },
            None => {},
        }
    }
}

/// The whole registry after a burst of publishes, in order.
pub open spec fn publish_seq_all_slots(
    ms: Seq<Option<SubModel>>,
    ns: Seq<NotificationTemplate>,
    cap: nat,
) -> Seq<Option<SubModel>>
    decreases ns.len(),
{
    if ns.len() == 0 {
        ms
    } else {
        publish_seq_all_slots(publish_all_slots(ms, ns[0], cap), ns.skip(1), cap)
    }
}

/// Fan-out over a burst: every live slot observes the same burst, through
/// the same per-subscription steps and in the same order, while every dead
/// slot stays dead. With [`lemma_publish_seq_order`], each subscriber's
/// backlog is then a contiguous suffix of the one total publish order.
pub proof fn lemma_fan_out_seq(ms: Seq<Option<SubModel>>, ns: Seq<NotificationTemplate>, cap: nat)
    ensures
        publish_seq_all_slots(ms, ns, cap).len() == ms.len(),
        forall|i: int|
            0 <= i < ms.len() ==> ((#[trigger] ms[i]) matches Some(m) ==> publish_seq_all_slots(
                ms,
                ns,
                cap,
            )[i] == Some(publish_seq(m, ns, cap))),
        forall|i: int|
            0 <= i < ms.len() ==> ((#[trigger] ms[i]) is None ==> publish_seq_all_slots(
                ms,
                ns,
                cap,
            )[i] is None),
    decreases ns.len(),
{
    if ns.len() > 0 {
        let ms1 = publish_all_slots(ms, ns[0], cap);
        lemma_fan_out_seq(ms1, ns.skip(1), cap);
        assert forall|i: int| 0 <= i < ms.len() implies ((#[trigger] ms[i]) matches Some(m)
            ==> publish_seq_all_slots(ms, ns, cap)[i] == Some(publish_seq(m, ns, cap))) by {
            match ms[i] {
                Some(m) => {
                    assert(ms1[i] == Some(publish_step(m, ns[0], cap)));
                    assert(publish_seq_all_slots(ms1, ns.skip(1), cap)[i] == Some(
                        publish_seq(publish_step(m, ns[0], cap), ns.skip(1), cap),
                    ));
                },
                None => {},
            }
        }
        assert forall|i: int| 0 <= i < ms.len() implies ((#[trigger] ms[i]) is None
            ==> publish_seq_all_slots(ms, ns, cap)[i] is None) by {
            if ms[i] is None {
                assert(ms1[i] is None);
            }
        }
    }
}

/// Teardown: a slot that has left the live set receives nothing from a
/// publish.
pub proof fn lemma_teardown(ms: Seq<Option<SubModel>>, id: int, n: NotificationTemplate, cap: nat)
    requires
        0 <= id < ms.len(),
        ms[id] is None,
    ensures
        publish_all_slots(ms, n, cap)[id] is None,
{
}

/// Per-subscriber ordering, FIFO modulo lag: after any burst of publishes
/// into an undrained subscription, its backlog is exactly a contiguous
/// suffix of what it held plus the burst, in publish order — everything as
/// long as backlog plus burst stay within capacity, and beyond that exactly
/// the oldest surplus entries are dropped and counted.
pub proof fn lemma_publish_seq_order(m: SubModel, ns: Seq<NotificationTemplate>, cap: nat)
    requires
        cap >= 1,
        m.queue.len() <= cap,
        m.missed + ns.len() <= u64::MAX,
    ensures
        m.queue.len() + ns.len() <= cap ==> publish_seq(m, ns, cap) == (SubModel {
            queue: m.queue + ns,
            missed: m.missed,
        }),
        m.queue.len() + ns.len() > cap ==> publish_seq(m, ns, cap) == (SubModel {
            queue: (m.queue + ns).skip(m.queue.len() + ns.len() - cap),
            missed: (m.missed + m.queue.len() + ns.len() - cap) as u64,
        }),
    decreases ns.len(),
{
    if ns.len() == 0 {
        assert(m.queue + ns =~= m.queue);
        assert(publish_seq(m, ns, cap) =~= SubModel { queue: m.queue + ns, missed: m.missed });
    } else {
        let m1 = publish_step(m, ns[0], cap);
        lemma_publish_seq_order(m1, ns.skip(1), cap);
        if m.queue.len() < cap {
            assert(m1.queue + ns.skip(1) =~= m.queue + ns);
            if m1.queue.len() + ns.skip(1).len() > cap {
                assert(publish_seq(m, ns, cap) =~= SubModel {
                    queue: (m.queue + ns).skip(m.queue.len() + ns.len() - cap),
                    missed: (m.missed + m.queue.len() + ns.len() - cap) as u64,
                });
            }
        } else {
            assert(m.queue.len() == cap);
            assert(m1.missed == m.missed + 1);
            assert(m1.queue =~= m.queue.skip(1).push(ns[0]));
            assert(m1.queue + ns.skip(1) =~= (m.queue + ns).skip(1));
            if m1.queue.len() + ns.skip(1).len() <= cap {
                assert(ns.len() == 1);
                assert((m.queue + ns).skip(m.queue.len() + ns.len() - cap) =~= m1.queue + ns.skip(
                    1,
                ));
                assert(publish_seq(m, ns, cap) =~= SubModel {
                    queue: (m.queue + ns).skip(m.queue.len() + ns.len() - cap),
                    missed: (m.missed + m.queue.len() + ns.len() - cap) as u64,
                });
            } else {
                assert((m1.queue + ns.skip(1)).skip(m1.queue.len() + ns.skip(1).len() - cap) =~= (
                m.queue + ns).skip(m.queue.len() + ns.len() - cap));
                assert(publish_seq(m, ns, cap) =~= SubModel {
                    queue: (m.queue + ns).skip(m.queue.len() + ns.len() - cap),
                    missed: (m.missed + m.queue.len() + ns.len() - cap) as u64,
                });
            }
        }
    }
}

/// Lag semantics: publishing more than `cap` notifications to a fresh,
/// undrained subscription drops exactly the oldest surplus. The lag count
/// equals the number of dropped entries — so the next recv yields
/// `Lagged` with that count — and the backlog then holds exactly the
/// newest `cap` notifications, in publish order.
pub proof fn lemma_lag_semantics(ns: Seq<NotificationTemplate>, cap: nat, closed: bool)
    requires
        cap >= 1,
        cap < ns.len(),
        ns.len() <= u64::MAX,
    ensures
        publish_seq(empty_sub(), ns, cap).queue == ns.skip(ns.len() - cap),
        publish_seq(empty_sub(), ns, cap).missed == ns.len() - cap,
        recv_outcome(publish_seq(empty_sub(), ns, cap), closed) == RecvOutcome::Lagged(
            (ns.len() - cap) as u64,
        ),
        recv_next(publish_seq(empty_sub(), ns, cap)).queue == ns.skip(ns.len() - cap),
        recv_next(publish_seq(empty_sub(), ns, cap)).missed == 0,
{
    lemma_publish_seq_order(empty_sub(), ns, cap);
    assert(empty_sub().queue + ns =~= ns);
}

/// Appending a slot adds its liveness to the live count.
proof fn lemma_live_count_push(ms: Seq<Option<SubModel>>, x: Option<SubModel>)
    ensures
        live_count(ms.push(x)) == live_count(ms) + (if x is Some {
            1nat
        } else {
            0nat
        }),
{
    assert(ms.push(x).drop_last() =~= ms);
    assert(ms.push(x).last() == x);
}

/// Emptying a live slot lowers the live count by one.
proof fn lemma_live_count_update_none(ms: Seq<Option<SubModel>>, i: int)
    requires
        0 <= i < ms.len(),
        ms[i] is Some,
    ensures
        live_count(ms.update(i, None)) == live_count(ms) - 1,
    decreases ms.len(),
{
    if i == ms.len() - 1 {
        assert(ms.update(i, None).drop_last() =~= ms.drop_last());
        assert(ms.update(i, None).last() is None);
    } else {
        assert(ms.update(i, None).drop_last() =~= ms.drop_last().update(i, None));
        assert(ms.update(i, None).last() == ms.last());
        lemma_live_count_update_none(ms.drop_last(), i);
    }
}

/// Replacing a live slot by a live one keeps the live count.
proof fn lemma_live_count_update_same_liveness(
    ms: Seq<Option<SubModel>>,
    i: int,
    x: Option<SubModel>,
)
    requires
        0 <= i < ms.len(),
        ms[i] is Some <==> x is Some,
    ensures
        live_count(ms.update(i, x)) == live_count(ms),
    decreases ms.len(),
{
    if i == ms.len() - 1 {
        assert(ms.update(i, x).drop_last() =~= ms.drop_last());
        assert(ms.update(i, x).last() == x);
    } else {
        assert(ms.update(i, x).drop_last() =~= ms.drop_last().update(i, x));
        assert(ms.update(i, x).last() == ms.last());
        lemma_live_count_update_same_liveness(ms.drop_last(), i, x);
    }
}

} // verus!
