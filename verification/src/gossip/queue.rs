//! Quality of Service message prioritization queue.
use std::collections::VecDeque;
use vstd::prelude::*;

use crate::message::types::{envelope_of, envelopes_of, ProtocolMessage, TransactionEnvelope};

verus! {

#[derive(Debug, Clone, Copy, PartialEq, Eq, PartialOrd, Ord)]
pub enum MessagePriority {
    High,
    Normal,
    Low,
}

/// The tier a message is queued in: control traffic (topology updates and
/// anti-entropy sync) is High, transactions are Normal. Low is reserved.
pub open spec fn priority_of(msg: ProtocolMessage) -> MessagePriority {
    match msg {
        ProtocolMessage::Transaction(_) => MessagePriority::Normal,
        _ => MessagePriority::High,
    }
}

impl MessagePriority {
    pub fn for_message(msg: &ProtocolMessage) -> (p: Self)
        ensures
            p == priority_of(*msg),
    {
        match msg {
            ProtocolMessage::TopologyUpdate(_)
            | ProtocolMessage::SyncRequest(_)
            | ProtocolMessage::SyncResponse(_) => MessagePriority::High,
            ProtocolMessage::Transaction(_) => MessagePriority::Normal,
        }
    }
}

/// A priority queue that orders messages into High, Normal, and Low queues.
pub struct PriorityQueue {
    high: VecDeque<ProtocolMessage>,
    normal: VecDeque<ProtocolMessage>,
    low: VecDeque<ProtocolMessage>,
}

/// `next` is `q` with `m` appended to the tier of its priority.
pub open spec fn pushed(q: PriorityQueue, m: ProtocolMessage, next: PriorityQueue) -> bool {
    &&& next.high_tier() == (if priority_of(m) == MessagePriority::High {
        q.high_tier().push(m)
    } else {
        q.high_tier()
    })
    &&& next.normal_tier() == (if priority_of(m) == MessagePriority::Normal {
        q.normal_tier().push(m)
    } else {
        q.normal_tier()
    })
    &&& next.low_tier() == (if priority_of(m) == MessagePriority::Low {
        q.low_tier().push(m)
    } else {
        q.low_tier()
    })
}

/// `next` is `q` after a pop that returned `res`: the front message of the
/// whole queue, or nothing from an empty queue.
pub open spec fn popped(q: PriorityQueue, res: Option<ProtocolMessage>, next: PriorityQueue) -> bool {
    if q.spec_len() > 0 {
        res == Some(q.contents()[0]) && next.contents() == q.contents().drop_first()
    } else {
        res is None && next.contents() == q.contents()
    }
}

/// The messages of priority `p`.
pub open spec fn of_priority(p: MessagePriority) -> spec_fn(ProtocolMessage) -> bool {
    |m: ProtocolMessage| priority_of(m) == p
}

impl PriorityQueue {
    /// Messages waiting in the High tier, oldest first.
    pub closed spec fn high_tier(&self) -> Seq<ProtocolMessage> {
        self.high@
    }

    /// Messages waiting in the Normal tier, oldest first.
    pub closed spec fn normal_tier(&self) -> Seq<ProtocolMessage> {
        self.normal@
    }

    /// Messages waiting in the Low tier, oldest first.
    pub closed spec fn low_tier(&self) -> Seq<ProtocolMessage> {
        self.low@
    }

    /// All queued messages in pop order.
    pub open spec fn contents(&self) -> Seq<ProtocolMessage> {
        self.high_tier() + self.normal_tier() + self.low_tier()
    }

    /// Total number of queued messages.
    pub open spec fn spec_len(&self) -> nat {
        self.high_tier().len() + self.normal_tier().len() + self.low_tier().len()
    }

    pub fn new() -> (q: Self)
        ensures
            q.high_tier() == Seq::<ProtocolMessage>::empty(),
            q.normal_tier() == Seq::<ProtocolMessage>::empty(),
            q.low_tier() == Seq::<ProtocolMessage>::empty(),
    {
        Self { high: VecDeque::new(), normal: VecDeque::new(), low: VecDeque::new() }
    }

    /// Push a message into the appropriate priority tier.
    pub fn push(&mut self, msg: ProtocolMessage)
        requires
            old(self).spec_len() < usize::MAX,
        ensures
            pushed(*old(self), msg, *final(self)),
    {
        let priority = MessagePriority::for_message(&msg);
        match priority {
            MessagePriority::High => self.high.push_back(msg),
            MessagePriority::Normal => self.normal.push_back(msg),
            MessagePriority::Low => self.low.push_back(msg),
        }
    }

    /// Pop the next highest priority message from the queue.
    pub fn pop(&mut self) -> (res: Option<ProtocolMessage>)
        ensures
            old(self).high_tier().len() > 0 ==> {
                &&& res == Some(old(self).high_tier()[0])
                &&& final(self).high_tier() == old(self).high_tier().drop_first()
                &&& final(self).normal_tier() == old(self).normal_tier()
                &&& final(self).low_tier() == old(self).low_tier()
            },
            old(self).high_tier().len() == 0 && old(self).normal_tier().len() > 0 ==> {
                &&& res == Some(old(self).normal_tier()[0])
                &&& final(self).high_tier() == old(self).high_tier()
                &&& final(self).normal_tier() == old(self).normal_tier().drop_first()
                &&& final(self).low_tier() == old(self).low_tier()
            },
            old(self).high_tier().len() == 0 && old(self).normal_tier().len() == 0
                && old(self).low_tier().len() > 0 ==> {
                &&& res == Some(old(self).low_tier()[0])
                &&& final(self).high_tier() == old(self).high_tier()
                &&& final(self).normal_tier() == old(self).normal_tier()
                &&& final(self).low_tier() == old(self).low_tier().drop_first()
            },
            popped(*old(self), res, *final(self)),
            old(self).spec_len() > 0 ==> {
                &&& res == Some(old(self).contents()[0])
                &&& final(self).contents() == old(self).contents().drop_first()
            },
            old(self).spec_len() == 0 ==> {
                &&& res is None
                &&& final(self).high_tier() == old(self).high_tier()
                &&& final(self).normal_tier() == old(self).normal_tier()
                &&& final(self).low_tier() == old(self).low_tier()
            },
    {
        let ghost h = self.high@;
        let ghost n = self.normal@;
        let ghost l = self.low@;
        if let Some(msg) = self.high.pop_front() {
            assert(self.contents() =~= (h + n + l).drop_first());
            return Some(msg);
        }
        if let Some(msg) = self.normal.pop_front() {
            assert(h + n + l =~= n + l);
            assert(self.contents() =~= (h + n + l).drop_first());
            return Some(msg);
        }
        if let Some(msg) = self.low.pop_front() {
            assert(h + n + l =~= l);
            assert(self.contents() =~= (h + n + l).drop_first());
            return Some(msg);
        }
        None
    }

    /// The total number of messages spanning all priority tiers.
    pub fn len(&self) -> (n: usize)
        requires
            self.spec_len() <= usize::MAX,
        ensures
            n == self.spec_len(),
    {
        self.high.len() + self.normal.len() + self.low.len()
    }

    /// Check if all tiers are empty.
    pub fn is_empty(&self) -> (b: bool)
        requires
            self.spec_len() <= usize::MAX,
        ensures
            b == (self.spec_len() == 0),
    {
        self.len() == 0
    }

    /// The transaction envelopes in the queue, tier by tier, oldest first.
    pub fn iter_envelopes(&self) -> (envs: Vec<&TransactionEnvelope>)
        ensures
            envs@.len() == envelopes_of(self.contents()).len(),
            forall|i: int|
                0 <= i < envs@.len() ==> *#[trigger] envs@[i] == envelopes_of(self.contents())[i],
    {
        let mut envs: Vec<&TransactionEnvelope> = Vec::new();
        let ghost all = self.contents();
        let ghost mut seen: Seq<ProtocolMessage> = Seq::empty();
        collect_envelopes(&self.high, &mut envs, Ghost(seen));
        proof {
            seen = self.high@;
        }
        collect_envelopes(&self.normal, &mut envs, Ghost(seen));
        proof {
            seen = self.high@ + self.normal@;
        }
        collect_envelopes(&self.low, &mut envs, Ghost(seen));
        proof {
            assert(self.high@ + self.normal@ + self.low@ =~= all);
        }
        envs
    }
}

/// Appends to `out` references to the envelopes held in `tier`, in order.
fn collect_envelopes<'a>(
    tier: &'a VecDeque<ProtocolMessage>,
    out: &mut Vec<&'a TransactionEnvelope>,
    Ghost(before): Ghost<Seq<ProtocolMessage>>,
)
    requires
        old(out)@.len() == envelopes_of(before).len(),
        forall|i: int|
            0 <= i < old(out)@.len() ==> *#[trigger] old(out)@[i] == envelopes_of(before)[i],
    ensures
        final(out)@.len() == envelopes_of(before + tier@).len(),
        forall|i: int|
            0 <= i < final(out)@.len() ==> *#[trigger] final(out)@[i] == envelopes_of(
                before + tier@,
            )[i],
{
    let n = tier.len();
    let mut k: usize = 0;
    while k < n
        invariant
            n == tier@.len(),
            k <= n,
            out@.len() == envelopes_of(before + tier@.take(k as int)).len(),
            forall|i: int|
                0 <= i < out@.len() ==> *#[trigger] out@[i] == envelopes_of(
                    before + tier@.take(k as int),
                )[i],
        decreases n - k,
    {
        let ghost prev = before + tier@.take(k as int);
        let ghost next = before + tier@.take(k + 1);
        assert(next =~= prev.push(tier@[k as int]));
        assert(next.drop_last() =~= prev);
        let msg = &tier[k];
        match msg {
            ProtocolMessage::Transaction(env) => {
                out.push(env);
            },
            _ => {},
        }
        k = k + 1;
    }
    assert(tier@.take(n as int) =~= tier@);
}

impl Default for PriorityQueue {
    fn default() -> (q: Self)
        ensures
            q.spec_len() == 0,
    {
        Self::new()
    }
}

/// No message is ever queued in the Low tier.
pub proof fn lemma_low_tier_unused(m: ProtocolMessage)
    ensures
        priority_of(m) != MessagePriority::Low,
{
}

/// Pushing messages onto an empty queue sorts them stably by priority: the
/// High tier holds the high-priority ones in push order, the Normal tier the
/// others in push order, and the Low tier stays empty.
pub proof fn lemma_pushes_sort_by_priority(qs: Seq<PriorityQueue>, ms: Seq<ProtocolMessage>)
    requires
        qs.len() == ms.len() + 1,
        qs[0].high_tier().len() == 0,
        qs[0].normal_tier().len() == 0,
        qs[0].low_tier().len() == 0,
        forall|i: int| 0 <= i < ms.len() ==> #[trigger] pushed(qs[i], ms[i], qs[i + 1]),
    ensures
        qs.last().high_tier() == ms.filter(of_priority(MessagePriority::High)),
        qs.last().normal_tier() == ms.filter(of_priority(MessagePriority::Normal)),
        qs.last().low_tier().len() == 0,
        qs.last().contents() == ms.filter(of_priority(MessagePriority::High)) + ms.filter(
            of_priority(MessagePriority::Normal),
        ),
    decreases ms.len(),
{
    let hp = of_priority(MessagePriority::High);
    let np = of_priority(MessagePriority::Normal);
    if ms.len() == 0 {
        assert(ms.filter(hp) =~= Seq::<ProtocolMessage>::empty());
        assert(ms.filter(np) =~= Seq::<ProtocolMessage>::empty());
        assert(qs.last().high_tier() =~= Seq::<ProtocolMessage>::empty());
        assert(qs.last().normal_tier() =~= Seq::<ProtocolMessage>::empty());
        assert(qs.last().contents() =~= Seq::<ProtocolMessage>::empty());
    } else {
        let n = ms.len() - 1;
        let qs1 = qs.take(n + 1);
        let ms1 = ms.take(n);
        assert forall|i: int| 0 <= i < ms1.len() implies #[trigger] pushed(qs1[i], ms1[i], qs1[i + 1]) by {
            assert(pushed(qs[i], ms[i], qs[i + 1]));
        }
        lemma_pushes_sort_by_priority(qs1, ms1);
        assert(ms1.push(ms[n]) =~= ms);
        ms1.lemma_filter_push(ms[n], hp);
        ms1.lemma_filter_push(ms[n], np);
        assert(pushed(qs[n], ms[n], qs[n + 1]));
        assert(qs1.last() == qs[n]);
        lemma_low_tier_unused(ms[n]);
        let q = qs.last();
        assert(q.low_tier() =~= Seq::<ProtocolMessage>::empty());
        assert(q.contents() =~= q.high_tier() + q.normal_tier());
    }
}

/// Popping drains a queue in order: the `i`-th of a run of pops returns the
/// `i`-th message of the queue's contents, and nothing once it is empty.
pub proof fn lemma_pops_drain_in_order(qs: Seq<PriorityQueue>, rs: Seq<Option<ProtocolMessage>>)
    requires
        qs.len() == rs.len() + 1,
        forall|i: int| 0 <= i < rs.len() ==> #[trigger] popped(qs[i], rs[i], qs[i + 1]),
    ensures
        forall|i: int|
            0 <= i < rs.len() ==> #[trigger] rs[i] == (if i < qs[0].contents().len() {
                Some(qs[0].contents()[i])
            } else {
                None
            }),
    decreases rs.len(),
{
    if rs.len() > 0 {
        let qs1 = qs.drop_first();
        let rs1 = rs.drop_first();
        assert forall|i: int| 0 <= i < rs1.len() implies #[trigger] popped(qs1[i], rs1[i], qs1[i + 1]) by {
            let k = i + 1;
            assert(popped(qs[k], rs[k], qs[k + 1]));
        }
        lemma_pops_drain_in_order(qs1, rs1);
        let z = 0int;
        assert(popped(qs[z], rs[z], qs[z + 1]));
        let c = qs[0].contents();
        assert(qs[0].spec_len() == c.len());
        assert(qs[1].spec_len() == qs[1].contents().len());
        assert forall|i: int| 0 <= i < rs.len() implies #[trigger] rs[i] == (if i < c.len() {
            Some(c[i])
        } else {
            None
        }) by {
            if i > 0 {
                assert(rs[i] == rs1[i - 1]);
                if c.len() > 0 {
                    assert(qs1[0].contents() == c.drop_first());
                }
            }
        }
    }
}

} // verus!
