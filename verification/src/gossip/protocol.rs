//! Gossip state, anti-entropy sync, and the decisions of the gossip loop:
//! fanout rounds, signature strikes and ban expiry.
use std::collections::VecDeque;
use vstd::prelude::*;

use crate::discovery::peer_list::{
    expired_bans, expiry_checked, identities_of, lemma_reachable_distinct, reachable_entry, seen_at,
    PeerEntries, PeerList,
};
use crate::gossip::bloom::{
    all_bits_set, lemma_added_in_current, lemma_marked_keeps, marked, windows_added, windows_hold,
    BloomWindows, SlidingBloomFilter,
};
use crate::gossip::fanout::{drawn_from, fanout_for, select_random_peers, FanoutCalculator};
use crate::gossip::queue::{MessagePriority, PriorityQueue};
use crate::gossip::strike_tracker::{
    failure_recorded, failures_of, recent, StrikeEntries, StrikeTracker,
};
use crate::keys::{has_key, key_pos, without_key};
use crate::message::types::{
    envelope_of, envelopes_of, id_prefix, lemma_envelopes_of_append, message_id_prefix,
    ProtocolMessage, SyncRequest, SyncResponse, TransactionEnvelope,
};
use crate::peer::identity::PeerIdentity;
use crate::peer::peer_node::{banned_until, Peer};
use crate::time::TimeSpan;

verus! {

broadcast use vstd::seq_lib::group_seq_properties;

/// Threshold above which a SyncResponse is treated as a "macro-merge" event.
pub const MACRO_MERGE_THRESHOLD: usize = 500;

/// Maximum number of envelopes to pull from a macro-merge backlog in a single recovery step.
pub const MACRO_MERGE_BATCH_SIZE: usize = 50;

/// Maximum envelopes drained per fanout round.
pub const FANOUT_BATCH_SIZE: usize = 32;

/// Per-send timeout to prevent blocking the loop indefinitely.
pub const SEND_TIMEOUT_MS: u64 = 500;

/// Envelopes wrapped as transaction messages, in order.
pub open spec fn as_transactions(envs: Seq<TransactionEnvelope>) -> Seq<ProtocolMessage> {
    envs.map_values(|e: TransactionEnvelope| ProtocolMessage::Transaction(e))
}

/// Whether an envelope carries the timestamp `t`.
pub open spec fn stamped(t: u64) -> spec_fn(TransactionEnvelope) -> bool {
    |e: TransactionEnvelope| e.timestamp == t
}

/// Envelopes ordered by non-decreasing timestamp.
pub open spec fn sorted_by_timestamp(s: Seq<TransactionEnvelope>) -> bool {
    forall|i: int, j: int| 0 <= i < j < s.len() ==> s[i].timestamp <= s[j].timestamp
}

/// `r` is the stable sort of `s` by timestamp: sorted, and the envelopes of
/// each timestamp appear in `r` exactly as, and in the order, they appear in `s`.
pub open spec fn is_stable_sort_by_timestamp(s: Seq<TransactionEnvelope>, r: Seq<TransactionEnvelope>) -> bool {
    &&& sorted_by_timestamp(r)
    &&& forall|t: u64| #[trigger] r.filter(stamped(t)) == s.filter(stamped(t))
}

/// The id prefixes a sync request lists, as byte sequences.
pub open spec fn known_prefixes(req: SyncRequest) -> Seq<Seq<u8>> {
    req.known_message_ids@.map_values(|p: [u8; 4]| p@)
}

/// Whether the envelope's id prefix is absent from `known`.
pub open spec fn unknown_to(known: Seq<Seq<u8>>) -> spec_fn(TransactionEnvelope) -> bool {
    |e: TransactionEnvelope| !known.contains(id_prefix(e.message_id))
}

/// What draining a fanout batch of at most `budget` envelopes from queue tiers
/// `h`, `n`, `l` gives: the envelopes popped, in order, and the tiers after.
/// Popping stops when the queue is empty, or at the first message that is not
/// a transaction, which goes back to the end of its (High) tier.
pub open spec fn drained(
    h: Seq<ProtocolMessage>,
    n: Seq<ProtocolMessage>,
    l: Seq<ProtocolMessage>,
    budget: nat,
) -> (Seq<TransactionEnvelope>, Seq<ProtocolMessage>, Seq<ProtocolMessage>, Seq<ProtocolMessage>)
    decreases budget,
{
    if budget == 0 {
        (Seq::empty(), h, n, l)
    } else {
        let (m, h1, n1, l1) = if h.len() > 0 {
            (Some(h[0]), h.drop_first(), n, l)
        } else if n.len() > 0 {
            (Some(n[0]), h, n.drop_first(), l)
        } else if l.len() > 0 {
            (Some(l[0]), h, n, l.drop_first())
        } else {
            (None, h, n, l)
        };
        match m {
            None => (Seq::empty(), h, n, l),
            Some(ProtocolMessage::Transaction(env)) => {
                let rest = drained(h1, n1, l1, (budget - 1) as nat);
                (seq![env] + rest.0, rest.1, rest.2, rest.3)
            },
            Some(other) => (Seq::empty(), h1.push(other), n1, l1),
        }
    }
}

/// What forwarding a drained batch gives, starting from filter windows `w`
/// (`k` hashes, windows of `capacity` ids): each envelope is checked against
/// and added to the filter; those not seen before and with hops left are
/// forwarded as copies with one hop fewer. Also gives the windows after.
pub open spec fn forwarded(
    w: BloomWindows,
    k: int,
    capacity: int,
    batch: Seq<TransactionEnvelope>,
) -> (Seq<TransactionEnvelope>, BloomWindows)
    decreases batch.len(),
{
    if batch.len() == 0 {
        (Seq::empty(), w)
    } else {
        let env = batch[0];
        let seen = windows_hold(w, env.message_id, k);
        let w1 = if seen {
            w
        } else {
            windows_added(w, env.message_id, k, capacity)
        };
        let rest = forwarded(w1, k, capacity, batch.drop_first());
        if seen || env.ttl_hops == 0 {
            rest
        } else {
            (seq![TransactionEnvelope { ttl_hops: (env.ttl_hops - 1) as u8, ..env }] + rest.0, rest.1)
        }
    }
}

/// Passes a drained batch through the seen-id filter: returns the outbound
/// copies (one hop fewer) of the envelopes not seen before that still have
/// hops left, in batch order; every envelope of the batch is added to the filter.
pub fn outbound_copies(bloom: &mut SlidingBloomFilter, batch: Vec<TransactionEnvelope>) -> (out: Vec<TransactionEnvelope>)
    requires
        old(bloom).wf(),
    ensures
        final(bloom).wf(),
        final(bloom).hashes() == old(bloom).hashes(),
        final(bloom).window_capacity() == old(bloom).window_capacity(),
        ({
            let f = forwarded(
                old(bloom).windows(),
                old(bloom).hashes(),
                old(bloom).window_capacity(),
                batch@,
            );
            out@ == f.0 && final(bloom).windows() == f.1
        }),
{
    let ghost k = bloom.hashes();
    let ghost cap = bloom.window_capacity();
    let ghost target = forwarded(bloom.windows(), k, cap, batch@);
    let mut out: Vec<TransactionEnvelope> = Vec::new();
    let n = batch.len();
    let mut i: usize = 0;
    while i < n
        invariant
            n == batch@.len(),
            i <= n,
            bloom.wf(),
            bloom.hashes() == k,
            bloom.window_capacity() == cap,
            ({
                let f = forwarded(bloom.windows(), k, cap, batch@.skip(i as int));
                out@ + f.0 == target.0 && f.1 == target.1
            }),
        decreases n - i,
    {
        let env = &batch[i];
        proof {
            assert(batch@.skip(i as int).drop_first() =~= batch@.skip(i + 1));
            assert(batch@.skip(i as int)[0] == batch@[i as int]);
        }
        let seen = bloom.check_and_add(&env.message_id);
        if !seen && env.ttl_hops != 0 {
            let mut copy = env.clone();
            copy.ttl_hops = copy.ttl_hops - 1;
            let ghost before = out@;
            out.push(copy);
            proof {
                let f = forwarded(bloom.windows(), k, cap, batch@.skip(i + 1));
                assert(out@ + f.0 =~= before + (seq![copy] + f.0));
            }
        }
        i += 1;
    }
    proof {
        assert(batch@.skip(n as int) =~= Seq::<TransactionEnvelope>::empty());
        assert(out@ + Seq::<TransactionEnvelope>::empty() =~= out@);
    }
    out
}

pub struct GossipState {
    pub active_queue: PriorityQueue,
    /// Envelopes held back for macro-merge, released in batches in this order.
    pub macro_merge_backlog: VecDeque<TransactionEnvelope>,
}

impl GossipState {
    /// Envelopes waiting in the macro-merge backlog, in release order.
    pub open spec fn backlog(&self) -> Seq<TransactionEnvelope> {
        self.macro_merge_backlog@
    }

    pub fn new() -> (s: Self)
        ensures
            s.active_queue.high_tier() == Seq::<ProtocolMessage>::empty(),
            s.active_queue.normal_tier() == Seq::<ProtocolMessage>::empty(),
            s.active_queue.low_tier() == Seq::<ProtocolMessage>::empty(),
            s.backlog() == Seq::<TransactionEnvelope>::empty(),
    {
        GossipState { active_queue: PriorityQueue::new(), macro_merge_backlog: VecDeque::new() }
    }

    /// Queues an envelope for forwarding in the Normal tier.
    pub fn add_envelope(&mut self, env: TransactionEnvelope)
        requires
            old(self).active_queue.spec_len() < usize::MAX,
        ensures
            final(self).active_queue.high_tier() == old(self).active_queue.high_tier(),
            final(self).active_queue.normal_tier() == old(self).active_queue.normal_tier().push(
                ProtocolMessage::Transaction(env),
            ),
            final(self).active_queue.low_tier() == old(self).active_queue.low_tier(),
            final(self).backlog() == old(self).backlog(),
    {
        self.active_queue.push(ProtocolMessage::Transaction(env));
    }

    /// Pops up to `FANOUT_BATCH_SIZE` envelopes for a fanout round. A message
    /// that is not a transaction stops the batch and is queued again at the
    /// end of its tier.
    pub fn drain_fanout_batch(&mut self) -> (batch: Vec<TransactionEnvelope>)
        requires
            old(self).active_queue.spec_len() <= usize::MAX,
        ensures
            ({
                let d = drained(
                    old(self).active_queue.high_tier(),
                    old(self).active_queue.normal_tier(),
                    old(self).active_queue.low_tier(),
                    FANOUT_BATCH_SIZE as nat,
                );
                &&& batch@ == d.0
                &&& final(self).active_queue.high_tier() == d.1
                &&& final(self).active_queue.normal_tier() == d.2
                &&& final(self).active_queue.low_tier() == d.3
            }),
            final(self).backlog() == old(self).backlog(),
    {
        let ghost target = drained(
            self.active_queue.high_tier(),
            self.active_queue.normal_tier(),
            self.active_queue.low_tier(),
            FANOUT_BATCH_SIZE as nat,
        );
        let mut batch: Vec<TransactionEnvelope> = Vec::new();
        let mut k: usize = 0;
        while k < FANOUT_BATCH_SIZE
            invariant_except_break
                k <= FANOUT_BATCH_SIZE,
                self.active_queue.spec_len() <= usize::MAX,
                self.macro_merge_backlog@ == old(self).backlog(),
                ({
                    let d = drained(
                        self.active_queue.high_tier(),
                        self.active_queue.normal_tier(),
                        self.active_queue.low_tier(),
                        (FANOUT_BATCH_SIZE - k) as nat,
                    );
                    &&& batch@ + d.0 == target.0
                    &&& d.1 == target.1
                    &&& d.2 == target.2
                    &&& d.3 == target.3
                }),
            ensures
                batch@ == target.0,
                self.active_queue.high_tier() == target.1,
                self.active_queue.normal_tier() == target.2,
                self.active_queue.low_tier() == target.3,
                self.macro_merge_backlog@ == old(self).backlog(),
            decreases FANOUT_BATCH_SIZE - k,
        {
            let ghost h = self.active_queue.high_tier();
            let ghost n = self.active_queue.normal_tier();
            let ghost l = self.active_queue.low_tier();
            let ghost budget = (FANOUT_BATCH_SIZE - k) as nat;
            match self.active_queue.pop() {
                Some(ProtocolMessage::Transaction(env)) => {
                    let ghost before = batch@;
                    batch.push(env);
                    k += 1;
                    proof {
                        let rest = drained(
                            self.active_queue.high_tier(),
                            self.active_queue.normal_tier(),
                            self.active_queue.low_tier(),
                            (FANOUT_BATCH_SIZE - k) as nat,
                        );
                        assert(drained(h, n, l, budget).0 == seq![env] + rest.0);
                        assert(batch@ + rest.0 =~= before + (seq![env] + rest.0));
                    }
                },
                Some(other) => {
                    self.active_queue.push(other);
                    proof {
                        assert(batch@ + Seq::<TransactionEnvelope>::empty() =~= batch@);
                    }
                    break;
                },
                None => {
                    proof {
                        assert(batch@ + Seq::<TransactionEnvelope>::empty() =~= batch@);
                    }
                    break;
                },
            }
        }
        proof {
            assert(batch@ + Seq::<TransactionEnvelope>::empty() =~= batch@);
        }
        batch
    }

    /// Empties the active queue for a shutdown flush and returns its
    /// transaction envelopes in pop order; other messages are dropped.
    pub fn drain_pending_transactions(&mut self) -> (envs: Vec<TransactionEnvelope>)
        ensures
            envs@ == envelopes_of(old(self).active_queue.contents()),
            final(self).active_queue.spec_len() == 0,
            final(self).backlog() == old(self).backlog(),
    {
        let ghost all = self.active_queue.contents();
        let mut envs: Vec<TransactionEnvelope> = Vec::new();
        loop
            invariant
                envs@ + envelopes_of(self.active_queue.contents()) == envelopes_of(all),
                self.macro_merge_backlog@ == old(self).backlog(),
            ensures
                envs@ == envelopes_of(all),
                self.active_queue.spec_len() == 0,
                self.macro_merge_backlog@ == old(self).backlog(),
            decreases self.active_queue.spec_len(),
        {
            let ghost before = self.active_queue.contents();
            match self.active_queue.pop() {
                Some(msg) => {
                    proof {
                        assert(before =~= seq![msg] + self.active_queue.contents());
                        lemma_envelopes_of_append(seq![msg], self.active_queue.contents());
                        reveal_with_fuel(Seq::filter_map, 2);
                    }
                    match msg {
                        ProtocolMessage::Transaction(env) => {
                            proof {
                                assert(envelopes_of(seq![ProtocolMessage::Transaction(env)])
                                    =~= seq![env]);
                            }
                            let ghost prev = envs@;
                            envs.push(env);
                            assert(envs@ + envelopes_of(self.active_queue.contents()) =~= prev + (
                            seq![env] + envelopes_of(self.active_queue.contents())));
                        },
                        _ => {
                            proof {
                                assert(envelopes_of(seq![msg]) =~= Seq::<TransactionEnvelope>::empty());
                                assert(Seq::<TransactionEnvelope>::empty() + envelopes_of(
                                    self.active_queue.contents(),
                                ) =~= envelopes_of(self.active_queue.contents()));
                            }
                        },
                    }
                },
                None => {
                    proof {
                        assert(self.active_queue.contents() =~= Seq::<ProtocolMessage>::empty());
                        assert(envelopes_of(Seq::<ProtocolMessage>::empty()) =~= Seq::<
                            TransactionEnvelope,
                        >::empty());
                        assert(envs@ + Seq::<TransactionEnvelope>::empty() =~= envs@);
                    }
                    break;
                },
            }
        }
        envs
    }

    pub fn pending_macro_merge_len(&self) -> (n: usize)
        ensures
            n == self.backlog().len(),
    {
        self.macro_merge_backlog.len()
    }

    /// Moves up to `batch_size` envelopes from the front of the macro-merge
    /// backlog into the active queue and returns how many were moved.
    pub fn process_paced_recovery_batch(&mut self, batch_size: usize) -> (moved: usize)
        requires
            old(self).active_queue.spec_len() + vstd::math::min(
                batch_size as int,
                old(self).backlog().len() as int,
            ) <= usize::MAX,
        ensures
            moved == vstd::math::min(batch_size as int, old(self).backlog().len() as int),
            final(self).backlog() == old(self).backlog().skip(moved as int),
            final(self).active_queue.high_tier() == old(self).active_queue.high_tier(),
            final(self).active_queue.normal_tier() == old(self).active_queue.normal_tier()
                + as_transactions(old(self).backlog().take(moved as int)),
            final(self).active_queue.low_tier() == old(self).active_queue.low_tier(),
    {
        if batch_size == 0 {
            assert(as_transactions(self.backlog().take(0)) =~= Seq::<ProtocolMessage>::empty());
            assert(self.backlog().skip(0) =~= self.backlog());
            assert(self.active_queue.normal_tier() + Seq::<ProtocolMessage>::empty()
                =~= self.active_queue.normal_tier());
            return 0;
        }
        let ghost start = *self;
        let mut moved = 0usize;
        while moved < batch_size
            invariant_except_break
                moved <= batch_size,
            invariant
                moved <= start.backlog().len(),
                start.active_queue.spec_len() + vstd::math::min(
                    batch_size as int,
                    start.backlog().len() as int,
                ) <= usize::MAX,
                self.backlog() == start.backlog().skip(moved as int),
                self.active_queue.high_tier() == start.active_queue.high_tier(),
                self.active_queue.normal_tier() == start.active_queue.normal_tier()
                    + as_transactions(start.backlog().take(moved as int)),
                self.active_queue.low_tier() == start.active_queue.low_tier(),
            ensures
                moved == vstd::math::min(batch_size as int, start.backlog().len() as int),
                self.backlog() == start.backlog().skip(moved as int),
                self.active_queue.high_tier() == start.active_queue.high_tier(),
                self.active_queue.normal_tier() == start.active_queue.normal_tier()
                    + as_transactions(start.backlog().take(moved as int)),
                self.active_queue.low_tier() == start.active_queue.low_tier(),
            decreases batch_size - moved,
        {
            if let Some(env) = self.macro_merge_backlog.pop_front() {
                proof {
                    assert(start.backlog().take(moved + 1) =~= start.backlog().take(
                        moved as int,
                    ).push(env));
                    assert(as_transactions(start.backlog().take(moved + 1)) =~= as_transactions(
                        start.backlog().take(moved as int),
                    ).push(ProtocolMessage::Transaction(env)));
                    assert(start.backlog().skip(moved + 1) =~= start.backlog().skip(
                        moved as int,
                    ).drop_first());
                }
                self.add_envelope(env);
                moved += 1;
            } else {
                break;
            }
        }
        moved
    }

    /// Lists the id prefix of every envelope held in the active queue.
    pub fn generate_sync_request(&self) -> (req: SyncRequest)
        ensures
            req.known_message_ids@.len() == envelopes_of(self.active_queue.contents()).len(),
            forall|i: int|
                0 <= i < req.known_message_ids@.len() ==> (#[trigger] req.known_message_ids@[i])@
                    == id_prefix(envelopes_of(self.active_queue.contents())[i].message_id),
    {
        let envs = self.active_queue.iter_envelopes();
        let mut known_message_ids: Vec<[u8; 4]> = Vec::new();
        let n = envs.len();
        let mut k: usize = 0;
        while k < n
            invariant
                n == envs@.len(),
                k <= n,
                envs@.len() == envelopes_of(self.active_queue.contents()).len(),
                forall|i: int|
                    0 <= i < envs@.len() ==> *#[trigger] envs@[i] == envelopes_of(
                        self.active_queue.contents(),
                    )[i],
                known_message_ids@.len() == k,
                forall|i: int|
                    0 <= i < k ==> (#[trigger] known_message_ids@[i])@ == id_prefix(
                        envelopes_of(self.active_queue.contents())[i].message_id,
                    ),
            decreases n - k,
        {
            let prefix = message_id_prefix(&envs[k].message_id);
            known_message_ids.push(prefix);
            k += 1;
        }
        SyncRequest { known_message_ids }
    }

    /// Answers a pull request with copies of the queued envelopes whose id
    /// prefix the requester does not list, in queue order.
    pub fn handle_sync_request(&self, req: &SyncRequest) -> (resp: SyncResponse)
        ensures
            resp.missing_envelopes@ == envelopes_of(self.active_queue.contents()).filter(
                unknown_to(known_prefixes(*req)),
            ),
    {
        let envs = self.active_queue.iter_envelopes();
        let ghost all = envelopes_of(self.active_queue.contents());
        let ghost pred = unknown_to(known_prefixes(*req));
        let mut missing_envelopes: Vec<TransactionEnvelope> = Vec::new();
        let n = envs.len();
        let mut k: usize = 0;
        while k < n
            invariant
                n == envs@.len(),
                k <= n,
                envs@.len() == all.len(),
                forall|i: int| 0 <= i < envs@.len() ==> *#[trigger] envs@[i] == all[i],
                pred == unknown_to(known_prefixes(*req)),
                missing_envelopes@ == all.take(k as int).filter(pred),
            decreases n - k,
        {
            let env = envs[k];
            let prefix = message_id_prefix(&env.message_id);
            let known = prefix_listed(&req.known_message_ids, &prefix);
            proof {
                assert(all.take(k + 1) =~= all.take(k as int).push(all[k as int]));
                all.take(k as int).lemma_filter_push(all[k as int], pred);
            }
            if !known {
                missing_envelopes.push(env.clone());
            }
            k += 1;
        }
        assert(all.take(n as int) =~= all);
        SyncResponse { missing_envelopes }
    }

    /// Merges a pull response. Up to `MACRO_MERGE_THRESHOLD` envelopes go straight
    /// into the active queue in order; a larger response replaces the macro-merge
    /// backlog with its envelopes stably sorted by timestamp, to be released in
    /// paced batches.
    pub fn handle_sync_response(&mut self, resp: SyncResponse)
        requires
            resp.missing_envelopes@.len() <= MACRO_MERGE_THRESHOLD ==> old(
                self,
            ).active_queue.spec_len() + resp.missing_envelopes@.len() <= usize::MAX,
        ensures
            resp.missing_envelopes@.len() <= MACRO_MERGE_THRESHOLD ==> {
                &&& final(self).active_queue.normal_tier() == old(
                    self,
                ).active_queue.normal_tier() + as_transactions(resp.missing_envelopes@)
                &&& final(self).backlog() == old(self).backlog()
            },
            resp.missing_envelopes@.len() > MACRO_MERGE_THRESHOLD ==> {
                &&& final(self).active_queue.normal_tier() == old(
                    self,
                ).active_queue.normal_tier()
                &&& is_stable_sort_by_timestamp(resp.missing_envelopes@, final(self).backlog())
            },
            final(self).active_queue.high_tier() == old(self).active_queue.high_tier(),
            final(self).active_queue.low_tier() == old(self).active_queue.low_tier(),
    {
        let envs = resp.missing_envelopes;
        let n = envs.len();
        if n <= MACRO_MERGE_THRESHOLD {
            let ghost start = *self;
            let mut k: usize = 0;
            while k < n
                invariant
                    n == envs@.len(),
                    k <= n,
                    start.active_queue.spec_len() + n <= usize::MAX,
                    self.backlog() == start.backlog(),
                    self.active_queue.high_tier() == start.active_queue.high_tier(),
                    self.active_queue.normal_tier() == start.active_queue.normal_tier()
                        + as_transactions(envs@.take(k as int)),
                    self.active_queue.low_tier() == start.active_queue.low_tier(),
                decreases n - k,
            {
                proof {
                    assert(envs@.take(k + 1) =~= envs@.take(k as int).push(envs@[k as int]));
                    assert(as_transactions(envs@.take(k + 1)) =~= as_transactions(
                        envs@.take(k as int),
                    ).push(ProtocolMessage::Transaction(envs@[k as int])));
                }
                self.add_envelope(envs[k].clone());
                k += 1;
            }
            assert(envs@.take(n as int) =~= envs@);
            return;
        }
        let sorted = stable_sort_by_timestamp(&envs);
        let mut backlog: VecDeque<TransactionEnvelope> = VecDeque::new();
        let m = sorted.len();
        let mut k: usize = 0;
        while k < m
            invariant
                m == sorted@.len(),
                k <= m,
                backlog@ == sorted@.take(k as int),
            decreases m - k,
        {
            backlog.push_back(sorted[k].clone());
            proof {
                assert(sorted@.take(k + 1) =~= sorted@.take(k as int).push(sorted@[k as int]));
            }
            k += 1;
        }
        assert(sorted@.take(m as int) =~= sorted@);
        self.macro_merge_backlog = backlog;
    }
}

impl Default for GossipState {
    fn default() -> (s: Self)
        ensures
            s.active_queue.spec_len() == 0,
            s.backlog().len() == 0,
    {
        Self::new()
    }
}

/// Whether `prefix` occurs among `known`.
fn prefix_listed(known: &Vec<[u8; 4]>, prefix: &[u8; 4]) -> (listed: bool)
    ensures
        listed == known@.map_values(|p: [u8; 4]| p@).contains(prefix@),
{
    let ghost views = known@.map_values(|p: [u8; 4]| p@);
    let n = known.len();
    let mut k: usize = 0;
    while k < n
        invariant
            n == known@.len(),
            k <= n,
            views == known@.map_values(|p: [u8; 4]| p@),
            forall|i: int| 0 <= i < k ==> views[i] != prefix@,
        decreases n - k,
    {
        let candidate = &known[k];
        if candidate[0] == prefix[0] && candidate[1] == prefix[1] && candidate[2] == prefix[2]
            && candidate[3] == prefix[3] {
            assert(views[k as int] =~= prefix@);
            return true;
        }
        assert(views[k as int] != prefix@) by {
            if views[k as int] == prefix@ {
                assert(views[k as int][0] == prefix@[0]);
                assert(views[k as int][1] == prefix@[1]);
                assert(views[k as int][2] == prefix@[2]);
                assert(views[k as int][3] == prefix@[3]);
            }
        }
        k += 1;
    }
    false
}

/// Inserting `x` just before the first element that is later than it extends
/// the group of envelopes sharing `x`'s timestamp at its end and leaves every
/// other timestamp group unchanged.
proof fn lemma_insert_extends_group(r: Seq<TransactionEnvelope>, p: int, x: TransactionEnvelope, t: u64)
    requires
        0 <= p <= r.len(),
        forall|k: int| p <= k < r.len() ==> r[k].timestamp > x.timestamp,
    ensures
        r.insert(p, x).filter(stamped(t)) == (if x.timestamp == t {
            r.filter(stamped(t)).push(x)
        } else {
            r.filter(stamped(t))
        }),
{
    let pred = stamped(t);
    let front = r.take(p);
    let back = r.skip(p);
    assert(r =~= front + back);
    assert(r.insert(p, x) =~= front.push(x) + back);
    Seq::filter_distributes_over_add(front, back, pred);
    Seq::filter_distributes_over_add(front.push(x), back, pred);
    front.lemma_filter_push(x, pred);
    if x.timestamp == t {
        assert(back.all(|e: TransactionEnvelope| !pred(e)));
        back.lemma_all_neg_filter_empty(pred);
        assert(back.filter(pred) =~= Seq::<TransactionEnvelope>::empty());
        assert(front.filter(pred).push(x) + Seq::<TransactionEnvelope>::empty()
            =~= (front.filter(pred) + Seq::<TransactionEnvelope>::empty()).push(x));
    } else {
        assert(front.filter(pred) + back.filter(pred) =~= front.filter(pred) + back.filter(
            pred,
        ));
    }
}

/// Returns copies of `envs` stably sorted by timestamp (insertion sort).
pub fn stable_sort_by_timestamp(envs: &Vec<TransactionEnvelope>) -> (sorted: Vec<TransactionEnvelope>)
    ensures
        is_stable_sort_by_timestamp(envs@, sorted@),
{
    let mut sorted: Vec<TransactionEnvelope> = Vec::new();
    let n = envs.len();
    let mut k: usize = 0;
    while k < n
        invariant
            n == envs@.len(),
            k <= n,
            sorted_by_timestamp(sorted@),
            forall|t: u64| #[trigger] sorted@.filter(stamped(t)) == envs@.take(k as int).filter(
                stamped(t),
            ),
        decreases n - k,
    {
        let x = envs[k].clone();
        let mut p = sorted.len();
        while p > 0 && sorted[p - 1].timestamp > x.timestamp
            invariant
                p <= sorted@.len(),
                forall|j: int| p <= j < sorted@.len() ==> sorted@[j].timestamp > x.timestamp,
            decreases p,
        {
            p -= 1;
        }
        let ghost old_sorted = sorted@;
        proof {
            assert forall|t: u64| #[trigger] old_sorted.insert(p as int, x).filter(stamped(t))
                == envs@.take(k + 1).filter(stamped(t)) by {
                lemma_insert_extends_group(old_sorted, p as int, x, t);
                assert(envs@.take(k + 1) =~= envs@.take(k as int).push(x));
                envs@.take(k as int).lemma_filter_push(x, stamped(t));
            }
            old_sorted.insert_ensures(p as int, x);
        }
        sorted.insert(p, x);
        proof {
            assert(sorted@ == old_sorted.insert(p as int, x));
            assert forall|i: int, j: int| 0 <= i < j < sorted@.len() implies sorted@[i].timestamp
                <= sorted@[j].timestamp by {
                if j < p {
                } else if j == p {
                    if p > 0 {
                        assert(old_sorted[p - 1].timestamp <= x.timestamp);
                        assert(old_sorted[i].timestamp <= old_sorted[p - 1].timestamp);
                    }
                } else if i < p {
                    assert(sorted@[j] == old_sorted[j - 1]);
                } else if i == p {
                    assert(sorted@[j] == old_sorted[j - 1]);
                } else {
                    assert(sorted@[j] == old_sorted[j - 1]);
                    assert(sorted@[i] == old_sorted[i - 1]);
                }
            }
        }
        k += 1;
    }
    assert(envs@.take(n as int) =~= envs@);
    sorted
}

/// Tracks cumulative gossip loop statistics.
#[derive(Default, Debug)]
pub struct GossipLoopMetrics {
    pub rounds_fired: u64,
    pub envelopes_forwarded: u64,
}

/// The sends of one fanout round: every envelope goes to every recipient.
pub struct FanoutPlan {
    pub recipients: Vec<PeerIdentity>,
    pub envelopes: Vec<TransactionEnvelope>,
}

/// The decisions of one epidemic fanout round at `now`: the candidates are
/// the peers seen within the expiry window and not banned. With none, the
/// round only counts itself. Otherwise the recipients are a random choice of
/// as many candidates as the fanout for their number, a batch is drained from
/// the queue, and its envelopes pass the seen-id filter and hop limit; the
/// round and the forwarded envelopes are counted.
pub fn plan_fanout_round_at(
    bloom: &mut SlidingBloomFilter,
    metrics: &mut GossipLoopMetrics,
    state: &mut GossipState,
    peer_list: &PeerList,
    fanout_calc: &FanoutCalculator,
    now: u64,
) -> (plan: FanoutPlan)
    requires
        peer_list.wf(),
        old(bloom).wf(),
        old(state).active_queue.spec_len() <= usize::MAX,
        old(metrics).rounds_fired < u64::MAX,
        old(metrics).envelopes_forwarded + FANOUT_BATCH_SIZE <= u64::MAX,
        ({
            let count = identities_of(
                peer_list.entries().filter(reachable_entry(now, peer_list.expiry())),
            ).len();
            count > fanout_calc.min_fanout && count <= fanout_calc.max_fanout
                ==> fanout_calc.min_fanout <= fanout_calc.max_fanout
        }),
    ensures
        final(bloom).wf(),
        final(bloom).hashes() == old(bloom).hashes(),
        final(bloom).window_capacity() == old(bloom).window_capacity(),
        final(state).backlog() == old(state).backlog(),
        final(metrics).rounds_fired == old(metrics).rounds_fired + 1,
        final(metrics).envelopes_forwarded == old(metrics).envelopes_forwarded
            + plan.envelopes@.len(),
        identities_of(peer_list.entries().filter(reachable_entry(now, peer_list.expiry()))).len()
            == 0 ==> {
            &&& plan.recipients@.len() == 0
            &&& plan.envelopes@.len() == 0
            &&& final(bloom).windows() == old(bloom).windows()
            &&& final(state).active_queue.high_tier() == old(state).active_queue.high_tier()
            &&& final(state).active_queue.normal_tier() == old(state).active_queue.normal_tier()
            &&& final(state).active_queue.low_tier() == old(state).active_queue.low_tier()
        },
        ({
            let cands = identities_of(
                peer_list.entries().filter(reachable_entry(now, peer_list.expiry())),
            );
            cands.len() > 0 ==> {
                &&& plan.recipients@.len() == vstd::math::min(
                    fanout_for(
                        fanout_calc.min_fanout as int,
                        fanout_calc.max_fanout as int,
                        cands.len() as int,
                        None,
                    ),
                    cands.len() as int,
                )
                &&& exists|idx: Seq<int>| #[trigger] drawn_from(plan.recipients@, cands, idx)
            }
        }),
        forall|i: int, j: int|
            0 <= i < j < plan.recipients@.len() ==> #[trigger] plan.recipients@[i]
                != #[trigger] plan.recipients@[j],
        ({
            let cands = identities_of(
                peer_list.entries().filter(reachable_entry(now, peer_list.expiry())),
            );
            let q = old(state).active_queue;
            let d = drained(q.high_tier(), q.normal_tier(), q.low_tier(), FANOUT_BATCH_SIZE as nat);
            let f = forwarded(
                old(bloom).windows(),
                old(bloom).hashes(),
                old(bloom).window_capacity(),
                d.0,
            );
            cands.len() > 0 ==> {
                &&& final(state).active_queue.high_tier() == d.1
                &&& final(state).active_queue.normal_tier() == d.2
                &&& final(state).active_queue.low_tier() == d.3
                &&& plan.envelopes@ == f.0
                &&& final(bloom).windows() == f.1
            }
        }),
{
    let candidates = peer_list.reachable_identities_at(now);
    if candidates.len() == 0 {
        metrics.rounds_fired = metrics.rounds_fired + 1;
        return FanoutPlan { recipients: Vec::new(), envelopes: Vec::new() };
    }
    let f = fanout_calc.calculate(candidates.len(), None);
    let recipients = select_random_peers(candidates.as_slice(), f);
    proof {
        let cands = candidates@;
        lemma_reachable_distinct(peer_list.entries(), now, peer_list.expiry());
        let idx = choose|idx: Seq<int>| drawn_from(recipients@, cands, idx);
        assert forall|i: int, j: int| 0 <= i < j < recipients@.len() implies #[trigger] recipients@[i]
            != #[trigger] recipients@[j] by {
            let (a, b) = if idx[i] < idx[j] {
                (idx[i], idx[j])
            } else {
                (idx[j], idx[i])
            };
            assert(cands[a] != cands[b]);
        }
    }
    let batch = state.drain_fanout_batch();
    proof {
        let q = old(state).active_queue;
        let d = drained(q.high_tier(), q.normal_tier(), q.low_tier(), FANOUT_BATCH_SIZE as nat);
        lemma_drained_len(q.high_tier(), q.normal_tier(), q.low_tier(), FANOUT_BATCH_SIZE as nat);
        lemma_forwarded_len(bloom.windows(), bloom.hashes(), bloom.window_capacity(), d.0);
    }
    let envelopes = outbound_copies(bloom, batch);
    metrics.rounds_fired = metrics.rounds_fired + 1;
    metrics.envelopes_forwarded = metrics.envelopes_forwarded + envelopes.len() as u64;
    FanoutPlan { recipients, envelopes }
}

/// A round drains at most its budget of envelopes.
pub proof fn lemma_drained_len(
    h: Seq<ProtocolMessage>,
    n: Seq<ProtocolMessage>,
    l: Seq<ProtocolMessage>,
    budget: nat,
)
    ensures
        drained(h, n, l, budget).0.len() <= budget,
    decreases budget,
{
    if budget > 0 {
        if h.len() > 0 {
            lemma_drained_len(h.drop_first(), n, l, (budget - 1) as nat);
        } else if n.len() > 0 {
            lemma_drained_len(h, n.drop_first(), l, (budget - 1) as nat);
        } else if l.len() > 0 {
            lemma_drained_len(h, n, l.drop_first(), (budget - 1) as nat);
        }
    }
}

/// Hop limits are kept: every forwarded copy has one hop fewer than an
/// envelope of the batch that still had hops left.
pub proof fn lemma_forwarded_spend_a_hop(w: BloomWindows, k: int, capacity: int, batch: Seq<TransactionEnvelope>)
    ensures
        forall|i: int|
            0 <= i < forwarded(w, k, capacity, batch).0.len() ==> {
                let out = #[trigger] forwarded(w, k, capacity, batch).0[i];
                out.ttl_hops < u8::MAX && batch.contains(
                    TransactionEnvelope { ttl_hops: (out.ttl_hops + 1) as u8, ..out },
                )
            },
    decreases batch.len(),
{
    if batch.len() > 0 {
        let env = batch[0];
        let seen = windows_hold(w, env.message_id, k);
        let w1 = if seen {
            w
        } else {
            windows_added(w, env.message_id, k, capacity)
        };
        let tail = batch.drop_first();
        lemma_forwarded_spend_a_hop(w1, k, capacity, tail);
        let rest = forwarded(w1, k, capacity, tail).0;
        let out = forwarded(w, k, capacity, batch).0;
        assert forall|i: int| 0 <= i < out.len() implies {
            let o = #[trigger] out[i];
            o.ttl_hops < u8::MAX && batch.contains(
                TransactionEnvelope { ttl_hops: (o.ttl_hops + 1) as u8, ..o },
            )
        } by {
            if seen || env.ttl_hops == 0 {
                let o = rest[i];
                let j = choose|j: int|
                    0 <= j < tail.len() && tail[j] == TransactionEnvelope {
                        ttl_hops: (o.ttl_hops + 1) as u8,
                        ..o
                    };
                assert(batch[j + 1] == tail[j]);
            } else if i == 0 {
                assert(out[0] == TransactionEnvelope { ttl_hops: (env.ttl_hops - 1) as u8, ..env });
                assert(batch[0] == TransactionEnvelope {
                    ttl_hops: (out[0].ttl_hops + 1) as u8,
                    ..out[0]
                });
            } else {
                assert(out[i] == rest[i - 1]);
                let o = rest[i - 1];
                let j = choose|j: int|
                    0 <= j < tail.len() && tail[j] == TransactionEnvelope {
                        ttl_hops: (o.ttl_hops + 1) as u8,
                        ..o
                    };
                assert(batch[j + 1] == tail[j]);
            }
        }
    }
}

/// While an id stays in the previous window (no rotation fits in the
/// remaining checks), no envelope with that id is forwarded.
proof fn lemma_previous_blocks(w: BloomWindows, x: [u8; 32], batch: Seq<TransactionEnvelope>, k: int, capacity: int)
    requires
        all_bits_set(w.previous, x, k),
        w.inserted + batch.len() <= capacity,
    ensures
        forall|i: int|
            0 <= i < forwarded(w, k, capacity, batch).0.len() ==> (#[trigger] forwarded(
                w,
                k,
                capacity,
                batch,
            ).0[i]).message_id != x,
    decreases batch.len(),
{
    if batch.len() > 0 {
        let env = batch[0];
        let seen = windows_hold(w, env.message_id, k);
        let w1 = if seen {
            w
        } else {
            windows_added(w, env.message_id, k, capacity)
        };
        lemma_previous_blocks(w1, x, batch.drop_first(), k, capacity);
        let out = forwarded(w, k, capacity, batch).0;
        let tail_out = forwarded(w1, k, capacity, batch.drop_first()).0;
        if !seen && env.ttl_hops != 0 {
            assert(env.message_id != x);
            assert forall|i: int| 0 <= i < out.len() implies out[i].message_id != x by {
                if i > 0 {
                    assert(out[i] == tail_out[i - 1]);
                }
            }
        }
    }
}

/// While an id is in the current window, no envelope with that id is
/// forwarded within the next `capacity` envelopes.
proof fn lemma_current_blocks(w: BloomWindows, x: [u8; 32], batch: Seq<TransactionEnvelope>, k: int, capacity: int)
    requires
        w.current.len() > 0,
        all_bits_set(w.current, x, k),
        w.inserted <= capacity,
        batch.len() <= capacity,
    ensures
        forall|i: int|
            0 <= i < forwarded(w, k, capacity, batch).0.len() ==> (#[trigger] forwarded(
                w,
                k,
                capacity,
                batch,
            ).0[i]).message_id != x,
    decreases batch.len(),
{
    if batch.len() > 0 {
        let env = batch[0];
        let y = env.message_id;
        let rest = batch.drop_first();
        let seen = windows_hold(w, y, k);
        let w1 = if seen {
            w
        } else {
            windows_added(w, y, k, capacity)
        };
        if seen {
            lemma_current_blocks(w, x, rest, k, capacity);
        } else if w.inserted < capacity {
            lemma_marked_keeps(w.current, x, y, k);
            lemma_current_blocks(w1, x, rest, k, capacity);
        } else {
            lemma_previous_blocks(w1, x, rest, k, capacity);
        }
        let out = forwarded(w, k, capacity, batch).0;
        let tail_out = forwarded(w1, k, capacity, rest).0;
        if !seen && env.ttl_hops != 0 {
            assert(y != x);
            assert forall|i: int| 0 <= i < out.len() implies out[i].message_id != x by {
                if i > 0 {
                    assert(out[i] == tail_out[i - 1]);
                }
            }
        }
    }
}

/// Duplicate suppression within a round: when the filter's window holds at
/// least a batch, no message id is forwarded twice from one batch.
pub proof fn lemma_round_forwards_distinct_ids(
    w: BloomWindows,
    k: int,
    capacity: int,
    batch: Seq<TransactionEnvelope>,
)
    requires
        w.current.len() > 0,
        w.previous.len() == w.current.len(),
        capacity >= 1,
        0 <= w.inserted <= capacity,
        batch.len() <= capacity,
    ensures
        forall|i: int, j: int|
            0 <= i < j < forwarded(w, k, capacity, batch).0.len() ==> (#[trigger] forwarded(
                w,
                k,
                capacity,
                batch,
            ).0[i]).message_id != (#[trigger] forwarded(w, k, capacity, batch).0[j]).message_id,
    decreases batch.len(),
{
    if batch.len() > 0 {
        let env = batch[0];
        let x = env.message_id;
        let rest = batch.drop_first();
        let seen = windows_hold(w, x, k);
        let w1 = if seen {
            w
        } else {
            windows_added(w, x, k, capacity)
        };
        if !seen {
            lemma_added_in_current(w, x, k, capacity);
        }
        lemma_round_forwards_distinct_ids(w1, k, capacity, rest);
        let out = forwarded(w, k, capacity, batch).0;
        let tail_out = forwarded(w1, k, capacity, rest).0;
        if !seen && env.ttl_hops != 0 {
            lemma_current_blocks(w1, x, rest, k, capacity);
            assert forall|i: int, j: int| 0 <= i < j < out.len() implies out[i].message_id
                != out[j].message_id by {
                if i == 0 {
                    assert(out[j] == tail_out[j - 1]);
                } else {
                    assert(out[i] == tail_out[i - 1]);
                    assert(out[j] == tail_out[j - 1]);
                }
            }
        }
    }
}

/// No more envelopes are forwarded than the batch holds.
proof fn lemma_forwarded_len(w: BloomWindows, k: int, capacity: int, batch: Seq<TransactionEnvelope>)
    ensures
        forwarded(w, k, capacity, batch).0.len() <= batch.len(),
    decreases batch.len(),
{
    if batch.len() > 0 {
        let env = batch[0];
        let seen = windows_hold(w, env.message_id, k);
        let w1 = if seen {
            w
        } else {
            windows_added(w, env.message_id, k, capacity)
        };
        lemma_forwarded_len(w1, k, capacity, batch.drop_first());
    }
}

/// Seconds a peer is banned for sending too many unverifiable signatures (24 hours).
pub const SIGNATURE_BAN_DURATION_SEC: u64 = 86_400;

/// The outcome of checking an envelope's signature.
#[derive(Debug, Clone, Copy, PartialEq, Eq)]
pub enum SignatureCheck {
    /// The signature is the origin's.
    Valid,
    /// The signature was checked and is not the origin's.
    Invalid,
    /// The signature could not be checked.
    Unverifiable,
}

/// The table after banning `k` at `now` for a day, first adding it as seen at
/// `now` when it is not known.
pub open spec fn signature_ban_applied(s: PeerEntries, k: [u8; 32], now: u64) -> PeerEntries {
    let base = if has_key(s, k) {
        s
    } else {
        seen_at(s, k, now)
    };
    base.update(
        key_pos(base, k),
        (k, banned_until(base[key_pos(base, k)].1, now + SIGNATURE_BAN_DURATION_SEC)),
    )
}

/// Acts on the signature check of an incoming envelope, at monotonic time
/// `strike_now` and Unix time `now`. A valid signature clears the origin's
/// strikes; an invalid one changes nothing; one that cannot be checked is a
/// strike against the origin, and when its recent strikes exceed the maximum
/// the origin is banned for a day (added to the table first if unknown) and
/// returned as the error, for the caller to disconnect.
pub fn process_signature_check_at(
    envelope: &TransactionEnvelope,
    check: SignatureCheck,
    strike_tracker: &mut StrikeTracker,
    peer_list: &mut PeerList,
    strike_now: TimeSpan,
    now: u64,
) -> (res: Result<(), PeerIdentity>)
    requires
        now + SIGNATURE_BAN_DURATION_SEC <= u64::MAX,
        old(peer_list).wf(),
        old(strike_tracker).wf(),
    ensures
        final(peer_list).wf(),
        final(strike_tracker).wf(),
        final(strike_tracker).window() == old(strike_tracker).window(),
        final(strike_tracker).max_strikes() == old(strike_tracker).max_strikes(),
        final(peer_list).expiry() == old(peer_list).expiry(),
        ({
            let k = envelope.origin_pubkey;
            let before = old(strike_tracker).entries();
            match check {
                SignatureCheck::Valid => {
                    &&& res is Ok
                    &&& final(strike_tracker).entries() == without_key(before, k)
                    &&& final(peer_list).entries() == old(peer_list).entries()
                },
                SignatureCheck::Invalid => {
                    &&& res is Ok
                    &&& final(strike_tracker).entries() == before
                    &&& final(peer_list).entries() == old(peer_list).entries()
                },
                SignatureCheck::Unverifiable => {
                    let window = old(strike_tracker).window();
                    let ban = failures_of(before, k).filter(recent(strike_now, window)).len() + 1
                        > old(strike_tracker).max_strikes();
                    &&& final(strike_tracker).entries() == failure_recorded(before, k, strike_now, window)
                    &&& ban ==> res == Err::<(), PeerIdentity>(PeerIdentity { pubkey: k })
                        && final(peer_list).entries() == signature_ban_applied(
                        old(peer_list).entries(),
                        k,
                        now,
                    )
                    &&& !ban ==> res is Ok && final(peer_list).entries() == old(peer_list).entries()
                },
            }
        }),
{
    let peer_identity = PeerIdentity::new(envelope.origin_pubkey);
    match check {
        SignatureCheck::Valid => {
            strike_tracker.clear_peer(&peer_identity);
            Ok(())
        },
        SignatureCheck::Invalid => Ok(()),
        SignatureCheck::Unverifiable => {
            let should_ban = strike_tracker.record_failure_at(&peer_identity, strike_now);
            if should_ban {
                if peer_list.get_peer(&peer_identity.pubkey).is_none() {
                    peer_list.insert_or_update_at(peer_identity.pubkey, 0, now);
                    assert(peer_list.entries()[peer_list.entries().len() - 1].0
                        == peer_identity.pubkey);
                }
                proof {
                    crate::keys::lemma_has_key_first(peer_list.entries(), peer_identity.pubkey);
                }
                peer_list.ban_peer_at(&peer_identity.pubkey, SIGNATURE_BAN_DURATION_SEC, now);
                Err(peer_identity)
            } else {
                Ok(())
            }
        },
    }
}

/// The strike entries without those of the `ids`.
pub open spec fn without_keys(s: StrikeEntries, ids: Seq<PeerIdentity>) -> StrikeEntries
    decreases ids.len(),
{
    if ids.len() == 0 {
        s
    } else {
        without_keys(without_key(s, ids[0].pubkey), ids.drop_first())
    }
}

/// The periodic ban check at `now`: lifts the bans that ran out, forgets the
/// strikes of those peers, and returns them in table order.
pub fn lift_expired_bans_at(peer_list: &mut PeerList, strike_tracker: &mut StrikeTracker, now: u64) -> (lifted: Vec<PeerIdentity>)
    requires
        old(peer_list).wf(),
        old(strike_tracker).wf(),
    ensures
        final(peer_list).wf(),
        final(strike_tracker).wf(),
        lifted@ == expired_bans(old(peer_list).entries(), now),
        final(peer_list).entries() == old(peer_list).entries().map_values(
            |e: ([u8; 32], Peer)| expiry_checked(e, now),
        ),
        final(peer_list).expiry() == old(peer_list).expiry(),
        final(strike_tracker).entries() == without_keys(old(strike_tracker).entries(), lifted@),
        final(strike_tracker).window() == old(strike_tracker).window(),
        final(strike_tracker).max_strikes() == old(strike_tracker).max_strikes(),
{
    let lifted = peer_list.check_ban_expirations_at(now);
    let ghost start = strike_tracker.entries();
    let n = lifted.len();
    let mut i: usize = 0;
    while i < n
        invariant
            n == lifted@.len(),
            i <= n,
            without_keys(strike_tracker.entries(), lifted@.skip(i as int)) == without_keys(
                start,
                lifted@,
            ),
            strike_tracker.window() == old(strike_tracker).window(),
            strike_tracker.max_strikes() == old(strike_tracker).max_strikes(),
            strike_tracker.wf(),
        decreases n - i,
    {
        proof {
            assert(lifted@.skip(i as int).drop_first() =~= lifted@.skip(i + 1));
        }
        strike_tracker.clear_peer(&lifted[i]);
        i += 1;
    }
    proof {
        assert(lifted@.skip(n as int) =~= Seq::<PeerIdentity>::empty());
    }
    lifted
}

/// Wrapping envelopes as transactions and taking the envelopes back gives them unchanged.
pub proof fn lemma_envelopes_of_transactions(envs: Seq<TransactionEnvelope>)
    ensures
        envelopes_of(as_transactions(envs)) == envs,
    decreases envs.len(),
{
    if envs.len() > 0 {
        lemma_envelopes_of_transactions(envs.drop_last());
        assert(as_transactions(envs).drop_last() =~= as_transactions(envs.drop_last()));
        assert(envelope_of(as_transactions(envs).last()) == Some(envs.last()));
        assert(envs.drop_last() + seq![envs.last()] =~= envs);
    }
}

/// The envelopes queued in `q`, tier by tier.
pub open spec fn queued_envelopes(q: PriorityQueue) -> Seq<TransactionEnvelope> {
    envelopes_of(q.contents())
}

/// The id prefixes of the envelopes, in order.
pub open spec fn prefixes_of(envs: Seq<TransactionEnvelope>) -> Seq<Seq<u8>> {
    envs.map_values(|e: TransactionEnvelope| id_prefix(e.message_id))
}

/// Anti-entropy recovers what the requester missed: node `b` asks node `a`
/// with the request `b` generates, `a` answers it, and `b` merges the answer
/// (one of at most `MACRO_MERGE_THRESHOLD` envelopes, merged at once). Then
/// `b` still holds every envelope it held, and for every envelope `a` holds,
/// `b` holds one with the same id prefix.
pub proof fn lemma_sync_round_trip(
    a: GossipState,
    b: GossipState,
    req: SyncRequest,
    resp: SyncResponse,
    merged: GossipState,
)
    requires
        req.known_message_ids@.len() == queued_envelopes(b.active_queue).len(),
        forall|i: int|
            0 <= i < req.known_message_ids@.len() ==> (#[trigger] req.known_message_ids@[i])@
                == id_prefix(queued_envelopes(b.active_queue)[i].message_id),
        resp.missing_envelopes@ == queued_envelopes(a.active_queue).filter(
            unknown_to(known_prefixes(req)),
        ),
        resp.missing_envelopes@.len() <= MACRO_MERGE_THRESHOLD,
        merged.active_queue.high_tier() == b.active_queue.high_tier(),
        merged.active_queue.normal_tier() == b.active_queue.normal_tier() + as_transactions(
            resp.missing_envelopes@,
        ),
        merged.active_queue.low_tier() == b.active_queue.low_tier(),
    ensures
        forall|e: TransactionEnvelope|
            queued_envelopes(b.active_queue).contains(e) ==> queued_envelopes(merged.active_queue).contains(e),
        forall|i: int|
            0 <= i < queued_envelopes(a.active_queue).len() ==> prefixes_of(
                queued_envelopes(merged.active_queue),
            ).contains(id_prefix(#[trigger] queued_envelopes(a.active_queue)[i].message_id)),
{
    let h = b.active_queue.high_tier();
    let n = b.active_queue.normal_tier();
    let l = b.active_queue.low_tier();
    let missing = resp.missing_envelopes@;
    let before = queued_envelopes(b.active_queue);
    let after = queued_envelopes(merged.active_queue);
    lemma_envelopes_of_append(h, n);
    lemma_envelopes_of_append(h + n, l);
    lemma_envelopes_of_append(n, as_transactions(missing));
    lemma_envelopes_of_append(h, n + as_transactions(missing));
    lemma_envelopes_of_append(h + (n + as_transactions(missing)), l);
    lemma_envelopes_of_transactions(missing);
    assert(h + (n + as_transactions(missing)) =~= h + n + as_transactions(missing));
    let eh = envelopes_of(h);
    let en = envelopes_of(n);
    let el = envelopes_of(l);
    assert(before =~= eh + en + el);
    assert(after =~= eh + (en + missing) + el);
    assert forall|e: TransactionEnvelope| before.contains(e) implies after.contains(e) by {
        let j = choose|j: int| 0 <= j < before.len() && before[j] == e;
        if j < eh.len() {
            assert(after[j] == e);
        } else if j < eh.len() + en.len() {
            assert(after[j] == e);
        } else {
            assert(after[j + missing.len()] == e);
        }
    }
    let ea = queued_envelopes(a.active_queue);
    let known = known_prefixes(req);
    assert forall|i: int| 0 <= i < ea.len() implies prefixes_of(after).contains(
        id_prefix(#[trigger] ea[i].message_id),
    ) by {
        let e = ea[i];
        if unknown_to(known)(e) {
            ea.lemma_filter_contains(unknown_to(known), i);
            let j = choose|j: int| 0 <= j < missing.len() && missing[j] == e;
            assert(after[eh.len() + en.len() + j] == e);
            assert(prefixes_of(after)[eh.len() + en.len() + j] == id_prefix(e.message_id));
        } else {
            let j = choose|j: int| 0 <= j < known.len() && known[j] == id_prefix(e.message_id);
            assert(known[j] == req.known_message_ids@[j]@);
            let w = before[j];
            assert(before.contains(w));
            assert(after.contains(w));
            let k = choose|k: int| 0 <= k < after.len() && after[k] == w;
            assert(prefixes_of(after)[k] == id_prefix(e.message_id));
        }
    }
}

} // verus!
