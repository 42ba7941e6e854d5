//! virtio-net queue pairs: feature negotiation, queue hand-off and the TX
//! buffer pool.

use vstd::prelude::*;
use crate::virtio::hal::MappedRegion;
use crate::virtio::queue::{
    QueueState, UsedElem, VirtQueue, chain_post, pop_post, add_post, wrap16, pending_ids,
    valid_completions, stage_avail, with_next,
};
use crate::virtio::regs::{
    Common, NET_HDR_LEN, DRIVER_FEATURES, VIRTIO_F_VERSION_1, VIRTIO_NET_F_MQ, VIRTIO_NET_F_CTRL_VQ,
    VIRTIO_NET_CTRL_MQ, VIRTIO_NET_CTRL_MQ_VQ_PAIRS_SET,
};

verus! {

/// Largest Ethernet frame without jumbo frames: 1500 bytes of payload and
/// the 14-byte header.
pub const MAX_FRAME_LEN: usize = 1514;

/// Buffer size for both RX and TX: the virtio-net header followed by a full
/// non-jumbo Ethernet frame, rounded up. Every packet uses exactly one
/// descriptor and one buffer of this size.
pub const BUF_LEN: usize = 2048;

/// A buffer holds the header and a full frame.
pub proof fn lemma_buffer_holds_frame()
    ensures
        NET_HDR_LEN + MAX_FRAME_LEN <= BUF_LEN,
{
}

/// The pool slot that the buffer at address `buf` belongs to.
pub open spec fn slot_of(pool: MappedRegion, buf: u64) -> int {
    (buf - pool.virt) / (BUF_LEN as int)
}

/// The number of packets `transmit_batch` sends when asked for `want`
/// packets with `avail` pool buffers free.
pub open spec fn batch_len(want: int, avail: int) -> int {
    if want < avail { want } else { avail }
}

/// The free TX pool slots once the completions are reclaimed; a batch hands
/// them out from the end.
pub open spec fn tx_avail_slots(old: NetQueueState, used_idx: u16, used: Seq<UsedElem>) -> Seq<u16> {
    old.tx_free + freed_slots(old, reclaimed_ids(old.tx, used_idx, used))
}

/// The pool slot that packet `i` of a batch goes to.
pub open spec fn tx_batch_slot(old: NetQueueState, used_idx: u16, used: Seq<UsedElem>, i: int) -> u16 {
    let avail = tx_avail_slots(old, used_idx, used);
    avail[avail.len() - 1 - i]
}

/// What the fill callback is handed for packet `i` of a batch: the address
/// of its pool buffer and its slot.
pub open spec fn tx_fill_args(old: NetQueueState, used_idx: u16, used: Seq<UsedElem>, i: int) -> (u64, u16) {
    let slot = tx_batch_slot(old, used_idx, used, i);
    ((old.tx_pool.virt + slot * BUF_LEN) as u64, slot)
}

/// How `transmit_batch` changes a queue pair when up to `count` packets are
/// asked for and packet `i` carries `lens[i]` payload bytes: `lens.len()`
/// packets are sent, each in one pool buffer and one descriptor staged in
/// order in the available ring, and `notify` is the result of the flush.
/// Descriptors that carry no new packet keep their buffer, address, length
/// and flags.
pub open spec fn transmit_post(
    old: NetQueueState,
    new: NetQueueState,
    count: int,
    lens: Seq<usize>,
    used_idx: u16,
    used: Seq<UsedElem>,
    notify: Option<u16>,
) -> bool {
    let ids = reclaimed_ids(old.tx, used_idx, used);
    let avail = tx_avail_slots(old, used_idx, used);
    let fresh = ids.reverse() + old.tx.free;
    let n = lens.len() as int;
    &&& n == batch_len(count, avail.len() as int)
    &&& new.tx_free == avail.take(avail.len() - n)
    &&& forall|i: int| 0 <= i < n ==> {
        let slot = #[trigger] avail[avail.len() - 1 - i];
        let len = (NET_HDR_LEN + lens[i]) as u32;
        &&& new.tx.descs[fresh[i] as int] == (crate::virtio::queue::Desc {
            addr: (old.tx_pool.phys + slot * BUF_LEN) as u64,
            len: len,
            flags: 0,
            next: 0,
        })
        &&& new.tx.bufs[fresh[i] as int] == ((old.tx_pool.virt + slot * BUF_LEN) as u64, len)
    }
    &&& new.tx.avail == stage_avail(old.tx.avail, old.tx.shadow, old.tx.size, fresh.take(n))
    &&& new.tx.descs.len() == old.tx.descs.len()
    &&& new.tx.bufs.len() == old.tx.bufs.len()
    &&& forall|j: int|
        0 <= j < old.tx.descs.len() && !fresh.take(n).contains(j as u16) ==> {
            &&& #[trigger] new.tx.descs[j] == with_next(old.tx.descs[j], new.tx.descs[j].next)
            &&& new.tx.bufs[j] == old.tx.bufs[j]
        }
    &&& new.tx.free == fresh.skip(n)
    &&& new.tx.in_flight == old.tx.in_flight.difference(ids.to_set()).union(fresh.take(n).to_set())
    &&& new.tx.last_used == (if valid_completions(old.tx, used_idx, used) { used_idx } else { old.tx.last_used })
    &&& n == 0 ==> notify is None && new.tx.published == old.tx.published && new.tx.shadow == old.tx.shadow
    &&& n > 0 ==> new.tx.shadow == wrap16(old.tx.shadow + n)
        && new.tx.published == new.tx.shadow
        && notify == (if new.tx.shadow == old.tx.published { None } else { Some(old.tx.published) })
    &&& new.tx.size == old.tx.size
    &&& new.tx.desc_phys == old.tx.desc_phys
    &&& new.tx.avail_phys == old.tx.avail_phys
    &&& new.tx.used_phys == old.tx.used_phys
    &&& new.tx.notify_addr == old.tx.notify_addr
    &&& new.tx.queue_index == old.tx.queue_index
    &&& new.rx == old.rx
    &&& new.rx_pool == old.rx_pool
    &&& new.tx_pool == old.tx_pool
}

/// The payload lengths of the `n` packets a batch posted, as recorded in
/// their descriptors.
pub open spec fn tx_sent_lens(
    old: NetQueueState,
    new: NetQueueState,
    used_idx: u16,
    used: Seq<UsedElem>,
    n: int,
) -> Seq<usize> {
    let fresh = reclaimed_ids(old.tx, used_idx, used).reverse() + old.tx.free;
    Seq::new(n as nat, |i: int| (new.tx.descs[fresh[i] as int].len - NET_HDR_LEN) as usize)
}

/// Every length the fill callback `fill` can return leaves room for the
/// virtio-net header in one pool buffer.
pub open spec fn fill_fits<F: Fn(u64, u16) -> usize>(fill: F) -> bool {
    forall|buf: u64, slot: u16, len: usize| #[trigger] call_ensures(fill, (buf, slot), len) ==> NET_HDR_LEN + len <= BUF_LEN
}

/// The pool slot of the buffer that TX descriptor `id` carries.
pub open spec fn tx_slot_of(q: NetQueueState, id: u16) -> u16 {
    slot_of(q.tx_pool, q.tx.bufs[id as int].0) as u16
}

/// The pool slots of the buffers carried by the TX descriptors `ids`.
pub open spec fn freed_slots(q: NetQueueState, ids: Seq<u16>) -> Seq<u16> {
    Seq::new(ids.len(), |k: int| tx_slot_of(q, ids[k]))
}

/// The TX completions that `reclaim_tx` takes back: every pending one when
/// they name distinct descriptors in flight, none otherwise.
pub open spec fn reclaimed_ids(q: QueueState, used_idx: u16, used: Seq<UsedElem>) -> Seq<u16> {
    if valid_completions(q, used_idx, used) {
        pending_ids(q, used_idx, used)
    } else {
        Seq::empty()
    }
}

/// How `reclaim_tx` changes a queue pair. When the reported completions
/// are not distinct descriptors in flight nothing changes. Otherwise the TX
/// buffers of the pending completions go back to the pool, in completion
/// order, and their descriptors to the front of the free list; nothing else
/// changes.
pub open spec fn reclaim_post(old: NetQueueState, new: NetQueueState, used_idx: u16, used: Seq<UsedElem>) -> bool {
    if !valid_completions(old.tx, used_idx, used) {
        new == old
    } else {
        reclaim_all_post(old, new, used_idx, used)
    }
}

/// Taking back the TX buffers of every pending completion.
pub open spec fn reclaim_all_post(old: NetQueueState, new: NetQueueState, used_idx: u16, used: Seq<UsedElem>) -> bool {
    let ids = pending_ids(old.tx, used_idx, used);
    &&& new.tx_free == old.tx_free + freed_slots(old, ids)
    &&& new.tx.in_flight == old.tx.in_flight.difference(ids.to_set())
    &&& new.tx.free == ids.reverse() + old.tx.free
    &&& new.tx.last_used == used_idx
    &&& new.rx == old.rx
    &&& new.rx_pool == old.rx_pool
    &&& new.tx_pool == old.tx_pool
    &&& new.tx.size == old.tx.size
    &&& new.tx.avail == old.tx.avail
    &&& new.tx.bufs == old.tx.bufs
    &&& new.tx.shadow == old.tx.shadow
    &&& new.tx.published == old.tx.published
    &&& new.tx.descs.len() == old.tx.descs.len()
    &&& forall|j: int|
        0 <= j < old.tx.descs.len() ==> #[trigger] new.tx.descs[j] == with_next(old.tx.descs[j], new.tx.descs[j].next)
    &&& new.tx.desc_phys == old.tx.desc_phys
    &&& new.tx.avail_phys == old.tx.avail_phys
    &&& new.tx.used_phys == old.tx.used_phys
    &&& new.tx.notify_addr == old.tx.notify_addr
    &&& new.tx.queue_index == old.tx.queue_index
}

/// The state of one RX/TX queue pair.
pub ghost struct NetQueueState {
    pub rx: QueueState,
    pub tx: QueueState,
    pub rx_pool: MappedRegion,
    pub tx_pool: MappedRegion,
    /// Free TX pool slots; the next buffer handed out is the last one.
    pub tx_free: Seq<u16>,
}

/// A single RX/TX queue pair, owned by one core. TX buffers come from a
/// preallocated pool of `tx.size()` slots of `BUF_LEN` bytes, so the
/// packet path never allocates.
pub struct VirtioNetQueue {
    rx: VirtQueue,
    tx: VirtQueue,
    rx_pool: MappedRegion,
    tx_pool: MappedRegion,
    tx_free: Vec<u16>,
    /// The pool slot carried by each TX descriptor in flight.
    tx_slots: Ghost<Map<u16, u16>>,
    /// Number of pool slots handed out by `TxBatch::take_buffer` and not submitted.
    tx_held: Ghost<nat>,
}

impl View for VirtioNetQueue {
    type V = NetQueueState;

    closed spec fn view(&self) -> NetQueueState {
        NetQueueState {
            rx: self.rx@,
            tx: self.tx@,
            rx_pool: self.rx_pool,
            tx_pool: self.tx_pool,
            tx_free: self.tx_free@,
        }
    }
}

impl VirtioNetQueue {
    /// Every TX pool slot is free, held by a descriptor in flight, or held
    /// by a buffer that was handed out; no slot is in two of these places.
    pub closed spec fn wf(&self) -> bool {
        &&& self.rx.wf()
        &&& self.tx.wf()
        &&& self.tx_pool.fits()
        &&& self.tx_pool.len >= self.tx@.size * BUF_LEN
        &&& self.rx_pool.fits()
        &&& self.rx_pool.len >= self.rx@.size * BUF_LEN
        &&& self.tx_free@.no_duplicates()
        &&& forall|k: int| 0 <= k < self.tx_free@.len() ==> #[trigger] self.tx_free@[k] < self.tx@.size
        &&& self.tx_slots@.dom() == self.tx@.in_flight
        &&& forall|id: u16| #[trigger]
            self.tx_slots@.contains_key(id) ==> {
                let s = self.tx_slots@[id];
                &&& s < self.tx@.size
                &&& !self.tx_free@.contains(s)
                &&& self.tx@.bufs[id as int].0 == self.tx_pool.virt + s * BUF_LEN
            }
        &&& forall|a: u16, b: u16|
            #![trigger self.tx_slots@[a], self.tx_slots@[b]]
            self.tx_slots@.contains_key(a) && self.tx_slots@.contains_key(b) && a != b
                ==> self.tx_slots@[a] != self.tx_slots@[b]
        &&& self.tx_free@.len() + self.tx@.in_flight.len() + self.tx_held@ == self.tx@.size
    }

    /// Pool buffers taken from a batch and not yet submitted.
    pub closed spec fn held_buffers(&self) -> nat {
        self.tx_held@
    }

    /// Every TX pool slot is accounted for: it is free, carried by a TX
    /// descriptor in flight, or taken by a batch and not yet submitted. Free
    /// TX buffers therefore never outnumber free TX descriptors, so posting
    /// a free buffer always finds a descriptor; free slots are distinct and
    /// inside the pool.
    pub proof fn lemma_tx_accounting(&self)
        requires
            self.wf(),
        ensures
            self@.tx_free.len() + self@.tx.in_flight.len() + self.held_buffers() == self@.tx.size,
            self@.tx_free.len() <= self@.tx.free.len(),
            self@.tx_free.no_duplicates(),
            forall|k: int| 0 <= k < self@.tx_free.len() ==> #[trigger] self@.tx_free[k] < self@.tx.size,
    {
        self.tx.lemma_wf();
    }

    /// A slot's buffer lies inside the TX pool.
    pub proof fn lemma_pool_bounds(&self, s: u16)
        requires
            self.wf(),
            s < self@.tx.size,
        ensures
            s * BUF_LEN + BUF_LEN <= self@.tx_pool.len,
            self@.tx_pool.virt + s * BUF_LEN + BUF_LEN <= u64::MAX,
            self@.tx_pool.phys + s * BUF_LEN + BUF_LEN <= u64::MAX,
    {
        assert((s as int) * 2048 + 2048 <= (self.tx@.size as int) * 2048) by (nonlinear_arith)
            requires
                s < self.tx@.size,
        ;
    }

    /// Slot `s` is out of the pool: neither free nor carried by a descriptor in flight.
    pub closed spec fn slot_held(&self, s: u16) -> bool {
        &&& s < self.tx@.size
        &&& !self.tx_free@.contains(s)
        &&& forall|id: u16| #[trigger] self.tx_slots@.contains_key(id) ==> self.tx_slots@[id] != s
        &&& self.tx_held@ > 0
    }

    /// Builds a queue pair from freshly created queues: every RX descriptor
    /// may already be posted, no TX descriptor is in flight, and every TX
    /// pool slot `0..tx.size()` is free.
    pub fn new(rx: VirtQueue, tx: VirtQueue, rx_pool: MappedRegion, tx_pool: MappedRegion) -> (q: Self)
        requires
            rx.wf(),
            tx.wf(),
            tx@.in_flight == Set::<u16>::empty(),
            tx_pool.fits(),
            tx_pool.len >= tx@.size * BUF_LEN,
            rx_pool.fits(),
            rx_pool.len >= rx@.size * BUF_LEN,
        ensures
            q.wf(),
            q.held_buffers() == 0,
            q@ == (NetQueueState {
                rx: rx@,
                tx: tx@,
                rx_pool: rx_pool,
                tx_pool: tx_pool,
                tx_free: Seq::new(tx@.size as nat, |i: int| i as u16),
            }),
    {
        let tx_size = tx.size();
        let mut tx_free: Vec<u16> = Vec::new();
        let mut i: u16 = 0;
        while i < tx_size
            invariant
                i <= tx_size,
                tx_free@ == Seq::new(i as nat, |j: int| j as u16),
            decreases tx_size - i,
        {
            tx_free.push(i);
            i = i + 1;
            proof {
                assert(tx_free@ =~= Seq::new(i as nat, |j: int| j as u16));
            }
        }
        proof {
            assert(tx@.in_flight.len() == 0);
        }
        VirtioNetQueue { rx, tx, rx_pool, tx_pool, tx_free, tx_slots: Ghost(Map::empty()), tx_held: Ghost(0) }
    }

    /// The receive queue, whose rings the caller mirrors into device memory.
    pub fn rx_queue(&self) -> (r: &VirtQueue)
        requires
            self.wf(),
        ensures
            r.wf(),
            r@ == self@.rx,
    {
        &self.rx
    }

    /// The transmit queue, whose rings the caller mirrors into device memory.
    pub fn tx_queue(&self) -> (r: &VirtQueue)
        requires
            self.wf(),
        ensures
            r.wf(),
            r@ == self@.tx,
    {
        &self.tx
    }

    /// Number of TX buffers currently available.
    pub fn tx_available(&self) -> (r: usize)
        ensures
            r == self@.tx_free.len(),
    {
        self.tx_free.len()
    }

    /// Takes back the TX buffers of every completion the device reported:
    /// `used_idx` is the device's used index and `used` the used ring. The
    /// pool slot of each completed buffer is appended to the free slots, in
    /// completion order, and its descriptor becomes free again. Completions
    /// that repeat a descriptor or name one the device does not own are
    /// refused as a whole: nothing changes and `false` is returned.
    #[verifier::rlimit(50)]
    pub fn reclaim_tx(&mut self, used_idx: u16, used: &[UsedElem]) -> (r: bool)
        requires
            old(self).wf(),
        ensures
            final(self).wf(),
            final(self).held_buffers() == old(self).held_buffers(),
            r == valid_completions(old(self)@.tx, used_idx, used@),
            reclaim_post(old(self)@, final(self)@, used_idx, used@),
    {
        if !self.tx.completions_valid(used_idx, used) {
            return false;
        }
        let ghost old_self = self@;
        let ghost ids = pending_ids(old_self.tx, used_idx, used@);
        let ghost n = ids.len();
        let pool = self.tx_pool.virt;
        let ghost mut k: int = 0;
        proof {
            assert(old_self.tx_free + freed_slots(old_self, ids.take(0)) =~= old_self.tx_free);
            assert(ids.take(0).to_set() =~= Set::<u16>::empty());
            assert(old_self.tx.in_flight.difference(Set::<u16>::empty()) =~= old_self.tx.in_flight);
            assert(ids.take(0).reverse() + old_self.tx.free =~= old_self.tx.free);
        }
        while self.tx.last_used_idx() != used_idx
            invariant
                self.wf(),
                0 <= k <= n,
                n == used_idx.wrapping_sub(old_self.tx.last_used),
                ids == pending_ids(old_self.tx, used_idx, used@),
                valid_completions(old_self.tx, used_idx, used@),
                pool == self.tx_pool.virt,
                self@.tx.last_used == wrap16(old_self.tx.last_used + k),
                self@.tx_free == old_self.tx_free + freed_slots(old_self, ids.take(k)),
                self@.tx.in_flight == old_self.tx.in_flight.difference(ids.take(k).to_set()),
                self@.tx.free == ids.take(k).reverse() + old_self.tx.free,
                self@.rx == old_self.rx,
                self@.rx_pool == old_self.rx_pool,
                self@.tx_pool == old_self.tx_pool,
                self.tx_held@ == old(self).tx_held@,
                self@.tx.size == old_self.tx.size,
                self@.tx.avail == old_self.tx.avail,
                self@.tx.bufs == old_self.tx.bufs,
                self@.tx.shadow == old_self.tx.shadow,
                self@.tx.published == old_self.tx.published,
                self@.tx.descs.len() == old_self.tx.descs.len(),
                forall|j: int|
                    0 <= j < old_self.tx.descs.len() ==> #[trigger] self@.tx.descs[j] == with_next(
                        old_self.tx.descs[j],
                        self@.tx.descs[j].next,
                    ),
                self@.tx.desc_phys == old_self.tx.desc_phys,
                self@.tx.avail_phys == old_self.tx.avail_phys,
                self@.tx.used_phys == old_self.tx.used_phys,
                self@.tx.notify_addr == old_self.tx.notify_addr,
                self@.tx.queue_index == old_self.tx.queue_index,
            decreases n - k,
        {
            proof {
                lemma_wrap_reaches(old_self.tx.last_used, used_idx, k);
            }
            let slot_idx = self.tx.used_slot();
            let elem = used[slot_idx as usize];
            let ghost id = elem.id as u16;
            proof {
                assert(ids[k] == id);
                assert(!ids.take(k).to_set().contains(id)) by {
                    if ids.take(k).to_set().contains(id) {
                        let j = choose|j: int| 0 <= j < k && #[trigger] ids.take(k)[j] == id;
                        assert(ids[j] == ids[k]);
                    }
                }
                assert(old_self.tx.in_flight.contains(ids[k]));
            }
            let ghost prev_inflight = self.tx@.in_flight;
            let ghost prev_descs = self@.tx.descs;
            let ghost prev_free_len = self.tx_free@.len();
            assert(prev_inflight.contains(id));
            proof {
                self.tx.lemma_wf();
            }
            let popped = self.tx.pop_used(used_idx, elem);
            let (buf, _len) = popped.unwrap();
            let ghost s = self.tx_slots@[id];
            proof {
                assert(self.tx_slots@.contains_key(id));
                assert(buf == pool + s * BUF_LEN);
                assert((s * 2048) / 2048 == s) by (nonlinear_arith);
            }
            let slot = (buf - pool) / (BUF_LEN as u64);
            self.tx_free.push(slot as u16);
            proof {
                let old_slots = self.tx_slots@;
                self.tx_slots@ = old_slots.remove(id);
                k = k + 1;
                assert(slot == s);
                assert(old_self.tx.bufs[id as int].0 == pool + s * BUF_LEN);
                assert(slot_of(old_self.tx_pool, old_self.tx.bufs[id as int].0) == s);
                assert(slot_of(old_self.tx_pool, old_self.tx.bufs[id as int].0) as u16 == s);
                assert(tx_slot_of(old_self, id) == s);
                assert(ids.take(k) =~= ids.take(k - 1).push(id));
                assert(freed_slots(old_self, ids.take(k)) =~= freed_slots(old_self, ids.take(k - 1)).push(s));
                assert(self@.tx_free =~= old_self.tx_free + freed_slots(old_self, ids.take(k)));
                lemma_take_one_more(ids, k - 1);
                assert(self@.tx.in_flight =~= old_self.tx.in_flight.difference(ids.take(k).to_set()));
                assert(self@.tx.free =~= ids.take(k).reverse() + old_self.tx.free);
                // the new slot was held by the completed descriptor, so it is
                // distinct from every free slot and from every other in-flight slot
                lemma_push_fresh(self.tx_free@.drop_last(), s);
                assert(self.tx_free@ =~= self.tx_free@.drop_last().push(s));
                assert forall|x: u16| #[trigger] self.tx_slots@.contains_key(x) implies {
                    let t = self.tx_slots@[x];
                    &&& t < self.tx@.size
                    &&& !self.tx_free@.contains(t)
                    &&& self.tx@.bufs[x as int].0 == self.tx_pool.virt + t * BUF_LEN
                } by {
                    let t = old_slots[x];
                    assert(old_slots.contains_key(x) && x != id);
                    assert(t != s);
                    if self.tx_free@.contains(t) {
                        let j = choose|j: int| 0 <= j < self.tx_free@.len() && self.tx_free@[j] == t;
                        if j < self.tx_free@.len() - 1 {
                            assert(self.tx_free@.drop_last()[j] == t);
                        }
                    }
                }
                assert forall|j: int| 0 <= j < self.tx_free@.len() implies #[trigger] self.tx_free@[j]
                    < self.tx@.size by {
                    if j < self.tx_free@.len() - 1 {
                        assert(self.tx_free@[j] == self.tx_free@.drop_last()[j]);
                    }
                }
                assert(self.tx_slots@.dom() =~= self@.tx.in_flight);
                assert(self.rx.wf());
                assert(self.tx.wf());
                assert(self.tx_pool.fits());
                assert(self.tx_pool.len >= self.tx@.size * BUF_LEN);
                assert(self.rx_pool.len >= self.rx@.size * BUF_LEN);
                assert(forall|a: u16, b: u16|
                    #![trigger self.tx_slots@[a], self.tx_slots@[b]]
                    self.tx_slots@.contains_key(a) && self.tx_slots@.contains_key(b) && a != b
                        ==> self.tx_slots@[a] != self.tx_slots@[b]);
                assert(self@.tx.in_flight == prev_inflight.remove(id));
                assert forall|j: int| 0 <= j < old_self.tx.descs.len() implies #[trigger] self@.tx.descs[j]
                    == with_next(old_self.tx.descs[j], self@.tx.descs[j].next) by {
                    assert(prev_descs[j] == with_next(old_self.tx.descs[j], prev_descs[j].next));
                }
                assert(prev_inflight.remove(id).len() == prev_inflight.len() - 1);
                assert(self.tx_free@.len() == prev_free_len + 1);
                assert(self.tx_free@.len() + self.tx@.in_flight.len() + self.tx_held@ <= self.tx@.size);
            }
        }
        proof {
            lemma_wrap_done(old_self.tx.last_used, used_idx, k);
            assert(ids.take(k) =~= ids);
        }
        true
    }
}

/// Taking one more element of `ids` adds it to the set taken so far and in
/// front of the reversed prefix.
proof fn lemma_take_one_more(ids: Seq<u16>, k: int)
    requires
        0 <= k < ids.len(),
    ensures
        ids.take(k + 1).to_set() == ids.take(k).to_set().insert(ids[k]),
        ids.take(k + 1).reverse() == seq![ids[k]] + ids.take(k).reverse(),
{
    let t1 = ids.take(k + 1);
    let t0 = ids.take(k);
    assert forall|v: u16| t1.to_set().contains(v) <==> (t0.to_set().contains(v) || v == ids[k]) by {
        if t1.to_set().contains(v) {
            let j = choose|j: int| 0 <= j < t1.len() && #[trigger] t1[j] == v;
            if j < k {
                assert(t0[j] == v);
            }
        }
        if t0.to_set().contains(v) {
            let j = choose|j: int| 0 <= j < t0.len() && #[trigger] t0[j] == v;
            assert(t1[j] == v);
        }
        if v == ids[k] {
            assert(t1[k] == v);
        }
    }
    assert(t1.to_set() =~= t0.to_set().insert(ids[k]));
    assert(t1.reverse() =~= seq![ids[k]] + t0.reverse());
}

/// Appending a value that is not yet in a duplicate-free sequence keeps it
/// duplicate-free.
proof fn lemma_push_fresh(tf: Seq<u16>, x: u16)
    requires
        tf.no_duplicates(),
        !tf.contains(x),
    ensures
        tf.push(x).no_duplicates(),
{
    let t = tf.push(x);
    assert forall|a: int, b: int| 0 <= a < t.len() && 0 <= b < t.len() && a != b implies t[a] != t[b] by {
        if a == tf.len() {
            assert(tf.contains(t[b]));
        } else if b == tf.len() {
            assert(tf.contains(t[a]));
        }
    }
}

impl VirtioNetQueue {
    /// Publishes the staged RX entries; see `VirtQueue::flush`.
    pub fn flush_rx(&mut self) -> (r: Option<u16>)
        requires
            old(self).wf(),
        ensures
            final(self).wf(),
            final(self).held_buffers() == old(self).held_buffers(),
            old(self)@.rx.shadow == old(self)@.rx.published ==> r is None && final(self)@ == old(self)@,
            old(self)@.rx.shadow != old(self)@.rx.published ==> r == Some(old(self)@.rx.published)
                && final(self)@ == (NetQueueState {
                rx: QueueState { published: old(self)@.rx.shadow, ..old(self)@.rx },
                ..old(self)@
            }),
    {
        self.rx.flush()
    }

    /// Publishes the staged TX entries; see `VirtQueue::flush`.
    pub fn flush_tx(&mut self) -> (r: Option<u16>)
        requires
            old(self).wf(),
        ensures
            final(self).wf(),
            final(self).held_buffers() == old(self).held_buffers(),
            old(self)@.tx.shadow == old(self)@.tx.published ==> r is None && final(self)@ == old(self)@,
            old(self)@.tx.shadow != old(self)@.tx.published ==> r == Some(old(self)@.tx.published)
                && final(self)@ == (NetQueueState {
                tx: QueueState { published: old(self)@.tx.shadow, ..old(self)@.tx },
                ..old(self)@
            }),
    {
        self.tx.flush()
    }

    /// Publishes the staged entries of both rings: RX first, then TX.
    pub fn flush(&mut self) -> (r: (Option<u16>, Option<u16>))
        requires
            old(self).wf(),
        ensures
            final(self).wf(),
            final(self).held_buffers() == old(self).held_buffers(),
            r.0 == (if old(self)@.rx.shadow == old(self)@.rx.published {
                None
            } else {
                Some(old(self)@.rx.published)
            }),
            r.1 == (if old(self)@.tx.shadow == old(self)@.tx.published {
                None
            } else {
                Some(old(self)@.tx.published)
            }),
            final(self)@ == (NetQueueState {
                rx: QueueState { published: old(self)@.rx.shadow, ..old(self)@.rx },
                tx: QueueState { published: old(self)@.tx.shadow, ..old(self)@.tx },
                ..old(self)@
            }),
    {
        let a = self.flush_rx();
        let b = self.flush_tx();
        (a, b)
    }

    /// Submits up to `count` packets without notifying the device between
    /// them, and without allocating. First reclaims completed buffers (see
    /// `reclaim_tx`), then takes `n = min(count, free buffers)` pool buffers.
    /// For each packet the callback `fill` receives `(buffer, slot)`: it
    /// writes the virtio-net header and the payload into the buffer and
    /// returns the number of payload bytes to transmit; the buffer is then
    /// posted with that length behind the header. The batch is published
    /// with a single flush. Returns `n` and the result of the flush.
    #[verifier::rlimit(50)]
    pub fn transmit_batch<F: Fn(u64, u16) -> usize>(&mut self, count: usize, fill: F, used_idx: u16, used: &[UsedElem]) -> (r: (
        usize,
        Option<u16>,
    ))
        requires
            old(self).wf(),
            forall|buf: u64, slot: u16| call_requires(fill, (buf, slot)),
            fill_fits(fill),
        ensures
            final(self).wf(),
            final(self).held_buffers() == old(self).held_buffers(),
            transmit_post(
                old(self)@,
                final(self)@,
                count as int,
                tx_sent_lens(old(self)@, final(self)@, used_idx, used@, r.0 as int),
                used_idx,
                used@,
                r.1,
            ),
            forall|i: int|
                0 <= i < r.0 ==> call_ensures(
                    fill,
                    tx_fill_args(old(self)@, used_idx, used@, i),
                    #[trigger] tx_sent_lens(old(self)@, final(self)@, used_idx, used@, r.0 as int)[i],
                ),
    {
        let ghost o = self@;
        self.reclaim_tx(used_idx, used);
        let ghost mid = self@;
        proof {
            let ids = reclaimed_ids(old(self)@.tx, used_idx, used@);
            if !valid_completions(old(self)@.tx, used_idx, used@) {
                assert(ids =~= Seq::<u16>::empty());
                assert(mid.tx_free =~= old(self)@.tx_free + freed_slots(old(self)@, ids));
                assert(mid.tx.free =~= ids.reverse() + old(self)@.tx.free);
                assert(mid.tx.in_flight =~= old(self)@.tx.in_flight.difference(ids.to_set()));
                assert forall|j: int| 0 <= j < mid.tx.descs.len() implies #[trigger] mid.tx.descs[j]
                    == with_next(o.tx.descs[j], mid.tx.descs[j].next) by {}
            }
            assert(mid.tx_free == tx_avail_slots(o, used_idx, used@));
        }
        let avail_n = self.tx_free.len();
        let n: usize = if count < avail_n { count } else { avail_n };
        if n == 0 {
            proof {
                let ids = reclaimed_ids(old(self)@.tx, used_idx, used@);
                let fresh = ids.reverse() + old(self)@.tx.free;
                let lens = Seq::<usize>::empty();
                assert(self@.tx_free =~= self@.tx_free.take(self@.tx_free.len() as int));
                assert(fresh.skip(0) =~= fresh);
                assert(fresh.take(0) =~= Seq::<u16>::empty());
                assert(fresh.take(0).to_set() =~= Set::<u16>::empty());
                assert(self@.tx.in_flight =~= self@.tx.in_flight.union(Set::<u16>::empty()));
                assert(lens =~= tx_sent_lens(o, self@, used_idx, used@, 0));
                assert(transmit_post(o, self@, count as int, lens, used_idx, used@, None));
            }
            return (0, None);
        }
        let ghost mut lens: Seq<usize> = Seq::empty();
        let mut i: usize = 0;
        proof {
            assert(mid.tx.free.skip(0) =~= mid.tx.free);
            assert(mid.tx.free.take(0).to_set() =~= Set::<u16>::empty());
            assert(mid.tx.in_flight.union(Set::<u16>::empty()) =~= mid.tx.in_flight);
            assert(mid.tx_free.take(mid.tx_free.len() as int) =~= mid.tx_free);
            self.tx.lemma_wf();
        }
        while i < n
            invariant
                self.wf(),
                i <= n,
                n <= avail_n,
                avail_n == mid.tx_free.len(),
                n <= count,
                mid.tx_free == tx_avail_slots(o, used_idx, used@),
                mid.tx_pool == o.tx_pool,
                forall|buf: u64, slot: u16| call_requires(fill, (buf, slot)),
                fill_fits(fill),
                lens.len() == i,
                forall|j: int| 0 <= j < i ==> NET_HDR_LEN + #[trigger] lens[j] <= BUF_LEN,
                forall|j: int|
                    0 <= j < i ==> call_ensures(fill, tx_fill_args(o, used_idx, used@, j), #[trigger] lens[j]),
                self@.tx.avail == stage_avail(mid.tx.avail, mid.tx.shadow, mid.tx.size, mid.tx.free.take(i as int)),
                self@.tx.descs.len() == mid.tx.descs.len(),
                self@.tx.bufs.len() == mid.tx.bufs.len(),
                forall|j: int|
                    0 <= j < mid.tx.descs.len() && !mid.tx.free.take(i as int).contains(j as u16) ==> {
                        &&& #[trigger] self@.tx.descs[j] == mid.tx.descs[j]
                        &&& self@.tx.bufs[j] == mid.tx.bufs[j]
                    },
                self@.tx.desc_phys == mid.tx.desc_phys,
                self@.tx.avail_phys == mid.tx.avail_phys,
                self@.tx.used_phys == mid.tx.used_phys,
                self@.tx.notify_addr == mid.tx.notify_addr,
                self@.tx.queue_index == mid.tx.queue_index,
                self@.tx_free == mid.tx_free.take(avail_n - i),
                self@.tx.free == mid.tx.free.skip(i as int),
                self@.tx.in_flight == mid.tx.in_flight.union(mid.tx.free.take(i as int).to_set()),
                self@.tx.published == mid.tx.published,
                self@.tx.shadow == wrap16(mid.tx.shadow + i),
                self@.tx.last_used == mid.tx.last_used,
                self@.tx.size == mid.tx.size,
                mid.tx.free.len() >= avail_n,
                mid.tx.free.no_duplicates(),
                forall|k: int| 0 <= k < mid.tx.free.len() ==> #[trigger] mid.tx.free[k] < mid.tx.size,
                self@.rx == mid.rx,
                self@.rx_pool == mid.rx_pool,
                self@.tx_pool == mid.tx_pool,
                self.tx_held@ == old(self).tx_held@,
                forall|j: int| 0 <= j < i ==> {
                    let slot = #[trigger] mid.tx_free[avail_n - 1 - j];
                    let len = (NET_HDR_LEN + lens[j]) as u32;
                    &&& self@.tx.descs[mid.tx.free[j] as int] == (crate::virtio::queue::Desc {
                        addr: (mid.tx_pool.phys + slot * BUF_LEN) as u64,
                        len: len,
                        flags: 0,
                        next: 0,
                    })
                    &&& self@.tx.bufs[mid.tx.free[j] as int] == ((mid.tx_pool.virt + slot * BUF_LEN) as u64, len)
                },
            decreases n - i,
        {
            let ghost before = self@;
            let ghost before_slots = self.tx_slots@;
            proof {
                self.tx.lemma_wf();
                assert(self@.tx.free.len() >= 1);
            }
            let slot = self.tx_free.pop().unwrap();
            let ghost s = slot;
            proof {
                assert(slot == mid.tx_free[avail_n - 1 - i]);
                assert(slot < self.tx@.size);
                assert((slot as int) * 2048 <= (self.tx@.size as int) * 2048 - 2048) by (nonlinear_arith)
                    requires
                        slot < self.tx@.size,
                ;
            }
            let (buf, phys) = self.tx_pool.at(slot as usize * BUF_LEN);
            let payload = fill(buf, slot);
            proof {
                assert(call_ensures(fill, (buf, slot), payload));
                assert(NET_HDR_LEN + payload <= BUF_LEN);
                assert(tx_fill_args(o, used_idx, used@, i as int) == (buf, slot));
                lens = lens.push(payload);
            }
            let len = (NET_HDR_LEN + payload) as u32;
            let id = self.tx.tx_add(buf, phys, len);
            proof {
                let tf = before.tx_free;
                self.tx.lemma_wf();
                assert(id == mid.tx.free[i as int]);
                assert(tf[tf.len() - 1] == slot);
                assert(self.tx_free@ == tf.drop_last());
                self.tx_slots@ = before_slots.insert(id, slot);
                lemma_wrap16_succ(mid.tx.shadow + i);
                assert(mid.tx.free.skip(i + 1) =~= mid.tx.free.skip(i as int).drop_first());
                let t0 = mid.tx.free.take(i as int);
                let t1 = mid.tx.free.take(i + 1);
                assert forall|v: u16| t1.to_set().contains(v) <==> (t0.to_set().contains(v) || v == id) by {
                    if t1.to_set().contains(v) {
                        let j = choose|j: int| 0 <= j < t1.len() && #[trigger] t1[j] == v;
                        if j < i {
                            assert(t0[j] == v);
                        }
                    }
                    if t0.to_set().contains(v) {
                        let j = choose|j: int| 0 <= j < t0.len() && #[trigger] t0[j] == v;
                        assert(t1[j] == v);
                    }
                    if v == id {
                        assert(t1[i as int] == v);
                    }
                }
                assert(self@.tx.in_flight =~= mid.tx.in_flight.union(t1.to_set()));
                assert(mid.tx_free.take(avail_n - i - 1) =~= mid.tx_free.take(avail_n - i).drop_last());
                assert forall|j: int| 0 <= j < i + 1 implies {
                    let sl = #[trigger] mid.tx_free[avail_n - 1 - j];
                    let len = (NET_HDR_LEN + lens[j]) as u32;
                    &&& self@.tx.descs[mid.tx.free[j] as int] == (crate::virtio::queue::Desc {
                        addr: (mid.tx_pool.phys + sl * BUF_LEN) as u64,
                        len: len,
                        flags: 0,
                        next: 0,
                    })
                    &&& self@.tx.bufs[mid.tx.free[j] as int] == ((mid.tx_pool.virt + sl * BUF_LEN) as u64, len)
                } by {
                    if j < i {
                        assert(mid.tx.free[j] != id);
                    } else {
                        assert(mid.tx_free[avail_n - 1 - j] == slot);
                        assert(buf == mid.tx_pool.virt + slot * BUF_LEN);
                        assert(phys == mid.tx_pool.phys + slot * BUF_LEN);
                        assert(phys == (mid.tx_pool.phys + slot * BUF_LEN) as u64);
                    }
                }
                assert forall|j: int| 0 <= j < i + 1 implies call_ensures(
                    fill,
                    tx_fill_args(o, used_idx, used@, j),
                    #[trigger] lens[j],
                ) by {}
                // staging order and untouched descriptors
                assert(t1.drop_last() =~= t0);
                assert(t1.last() == id);
                assert(self@.tx.avail == stage_avail(mid.tx.avail, mid.tx.shadow, mid.tx.size, t1));
                assert forall|j: int|
                    0 <= j < mid.tx.descs.len() && !t1.contains(j as u16) implies {
                        &&& #[trigger] self@.tx.descs[j] == mid.tx.descs[j]
                        &&& self@.tx.bufs[j] == mid.tx.bufs[j]
                    } by {
                    assert(t1[i as int] == id);
                    assert(t1.contains(id));
                    assert(!t0.contains(j as u16)) by {
                        if t0.contains(j as u16) {
                            let k = choose|k: int| 0 <= k < t0.len() && t0[k] == j as u16;
                            assert(t1[k] == j as u16);
                        }
                    }
                    assert(before.tx.descs[j] == mid.tx.descs[j]);
                    if t0.contains(j as u16) {
                        let k = choose|k: int| 0 <= k < t0.len() && t0[k] == j as u16;
                        assert(t1[k] == j as u16);
                    }
                    assert(j != id as int);
                }
                // pool bookkeeping
                assert(!before.tx.in_flight.contains(id)) by {
                    assert(before.tx.free[0] == id);
                    assert(before.tx.free.contains(id));
                }
                assert(!self.tx_free@.contains(slot)) by {
                    if self.tx_free@.contains(slot) {
                        let j = choose|j: int| 0 <= j < self.tx_free@.len() && self.tx_free@[j] == slot;
                        assert(tf[j] == tf[tf.len() - 1]);
                    }
                }
                assert forall|x: u16| #[trigger] self.tx_slots@.contains_key(x) implies {
                    let t = self.tx_slots@[x];
                    &&& t < self.tx@.size
                    &&& !self.tx_free@.contains(t)
                    &&& self.tx@.bufs[x as int].0 == self.tx_pool.virt + t * BUF_LEN
                } by {
                    if x != id {
                        let t = before_slots[x];
                        assert(before_slots.contains_key(x));
                        assert(!tf.contains(t));
                        if self.tx_free@.contains(t) {
                            let j = choose|j: int| 0 <= j < self.tx_free@.len() && self.tx_free@[j] == t;
                            assert(tf[j] == t);
                        }
                    }
                }
                assert forall|a: u16, b: u16|
                    #![trigger self.tx_slots@[a], self.tx_slots@[b]]
                    self.tx_slots@.contains_key(a) && self.tx_slots@.contains_key(b) && a != b
                        implies self.tx_slots@[a] != self.tx_slots@[b] by {
                    if a == id {
                        assert(before_slots.contains_key(b));
                        assert(!tf.contains(before_slots[b]));
                        assert(tf.contains(slot));
                    } else if b == id {
                        assert(before_slots.contains_key(a));
                        assert(!tf.contains(before_slots[a]));
                        assert(tf.contains(slot));
                    }
                }
                assert forall|j: int| 0 <= j < self.tx_free@.len() implies #[trigger] self.tx_free@[j]
                    < self.tx@.size by {
                    assert(self.tx_free@[j] == tf[j]);
                }
                assert(self.tx_slots@.dom() =~= self@.tx.in_flight);
                assert(before.tx.in_flight.insert(id).len() == before.tx.in_flight.len() + 1);
            }
            i = i + 1;
        }
        let published = self.flush_tx();
        proof {
            let ids = reclaimed_ids(o.tx, used_idx, used@);
            let fresh = ids.reverse() + o.tx.free;
            assert(mid.tx_free.take(avail_n - n) == self@.tx_free);
            assert(mid.tx.free == fresh);
            assert forall|j: int|
                0 <= j < o.tx.descs.len() && !fresh.take(n as int).contains(j as u16) implies {
                    &&& #[trigger] self@.tx.descs[j] == with_next(o.tx.descs[j], self@.tx.descs[j].next)
                    &&& self@.tx.bufs[j] == o.tx.bufs[j]
                } by {
                assert(mid.tx.descs[j] == with_next(o.tx.descs[j], mid.tx.descs[j].next));
            }
            assert(transmit_post(o, self@, count as int, lens, used_idx, used@, published));
            assert forall|k: int| 0 <= k < n implies #[trigger] tx_sent_lens(o, self@, used_idx, used@, n as int)[k]
                == lens[k] by {
                let sl = mid.tx_free[avail_n - 1 - k];
                assert(self@.tx.descs[fresh[k] as int].len == (NET_HDR_LEN + lens[k]) as u32);
            }
            assert(lens =~= tx_sent_lens(o, self@, used_idx, used@, n as int));
        }
        (n, published)
    }
}

/// Packets the UDP transmit server sends per batch.
pub const UDP_TX_BATCH_SIZE: usize = 128;

/// Payload bytes of each packet the UDP transmit server sends.
pub const UDP_TX_PACKET_SIZE: usize = 10;

/// One round of the UDP transmit server, which repeats it for as long as
/// the kernel runs: a batch of up to `UDP_TX_BATCH_SIZE` packets of
/// `UDP_TX_PACKET_SIZE` payload bytes on `queue`; `write` writes the
/// virtio-net header and the payload into each buffer `(buffer, slot)`. See
/// `transmit_batch`.
pub fn udp_tx_server<W: Fn(u64, u16)>(queue: &mut VirtioNetQueue, write: W, used_idx: u16, used: &[UsedElem]) -> (r: (
    usize,
    Option<u16>,
))
    requires
        old(queue).wf(),
        forall|buf: u64, slot: u16| call_requires(write, (buf, slot)),
    ensures
        final(queue).wf(),
        final(queue).held_buffers() == old(queue).held_buffers(),
        transmit_post(
            old(queue)@,
            final(queue)@,
            UDP_TX_BATCH_SIZE as int,
            Seq::new(r.0 as nat, |i: int| UDP_TX_PACKET_SIZE),
            used_idx,
            used@,
            r.1,
        ),
        forall|i: int| 0 <= i < r.0 ==> call_ensures(write, #[trigger] tx_fill_args(old(queue)@, used_idx, used@, i), ()),
{
    let w = &write;
    let fill = |buf: u64, slot: u16| -> (len: usize)
        requires
            call_requires(w, (buf, slot)),
        ensures
            len == UDP_TX_PACKET_SIZE,
            call_ensures(w, (buf, slot), ()),
        {
            w(buf, slot);
            UDP_TX_PACKET_SIZE
        };
    assert forall|buf: u64, slot: u16| call_requires(fill, (buf, slot)) by {}
    let ghost o = queue@;
    let r = queue.transmit_batch(UDP_TX_BATCH_SIZE, fill, used_idx, used);
    proof {
        let lens = tx_sent_lens(o, queue@, used_idx, used@, r.0 as int);
        assert(lens =~= Seq::new(r.0 as nat, |i: int| UDP_TX_PACKET_SIZE)) by {
            assert forall|i: int| 0 <= i < lens.len() implies lens[i] == UDP_TX_PACKET_SIZE by {
                assert(call_ensures(fill, tx_fill_args(o, used_idx, used@, i), lens[i]));
            }
        }
        assert forall|i: int| 0 <= i < r.0 implies call_ensures(write, #[trigger] tx_fill_args(o, used_idx, used@, i), ()) by {
            assert(call_ensures(fill, tx_fill_args(o, used_idx, used@, i), lens[i]));
            assert(call_ensures(w, tx_fill_args(o, used_idx, used@, i), ()));
        }
    }
    r
}

/// Posts every buffer of `pool` (`rx.size()` buffers of `BUF_LEN` bytes, in
/// pool order) to the freshly created RX queue `rx`.
pub fn post_rx_pool(rx: &mut VirtQueue, pool: &MappedRegion)
    requires
        old(rx).wf(),
        old(rx)@.in_flight == Set::<u16>::empty(),
        pool.fits(),
        pool.len >= old(rx)@.size * BUF_LEN,
    ensures
        final(rx).wf(),
        final(rx)@.in_flight.len() == old(rx)@.size,
        final(rx)@.free.len() == 0,
        forall|i: int|
            0 <= i < old(rx)@.size ==> #[trigger] final(rx)@.bufs[old(rx)@.free[i] as int] == (
                (pool.virt + i * BUF_LEN) as u64,
                BUF_LEN as u32,
            ),
        forall|i: int|
            0 <= i < old(rx)@.size ==> #[trigger] final(rx)@.descs[old(rx)@.free[i] as int] == (crate::virtio::queue::Desc {
                addr: (pool.phys + i * BUF_LEN) as u64,
                len: BUF_LEN as u32,
                flags: crate::virtio::queue::DESC_F_WRITE,
                next: 0,
            }),
        forall|i: int|
            0 <= i < old(rx)@.size ==> #[trigger] final(rx)@.descs[old(rx)@.free[i] as int].len >= NET_HDR_LEN
                + MAX_FRAME_LEN,
        final(rx)@.avail == stage_avail(old(rx)@.avail, old(rx)@.shadow, old(rx)@.size, old(rx)@.free),
        final(rx)@.shadow == wrap16(old(rx)@.shadow + old(rx)@.size),
        final(rx)@.published == old(rx)@.published,
        final(rx)@.size == old(rx)@.size,
        final(rx)@.last_used == old(rx)@.last_used,
{
    let ghost o = rx@;
    let size = rx.size();
    let mut i: u16 = 0;
    proof {
        rx.lemma_wf();
        assert(o.free.skip(0) =~= o.free);
        assert(o.free.take(0).to_set() =~= Set::<u16>::empty());
    }
    while i < size
        invariant
            rx.wf(),
            i <= size,
            size == o.size,
            o.free.len() == o.size,
            o.free.no_duplicates(),
            forall|k: int| 0 <= k < o.free.len() ==> #[trigger] o.free[k] < o.size,
            pool.fits(),
            pool.len >= o.size * BUF_LEN,
            rx@.size == o.size,
            rx@.free == o.free.skip(i as int),
            rx@.in_flight == o.free.take(i as int).to_set(),
            rx@.shadow == wrap16(o.shadow + i),
            rx@.published == o.published,
            rx@.last_used == o.last_used,
            rx@.avail == stage_avail(o.avail, o.shadow, o.size, o.free.take(i as int)),
            forall|j: int|
                0 <= j < i ==> #[trigger] rx@.bufs[o.free[j] as int] == (
                    (pool.virt + j * BUF_LEN) as u64,
                    BUF_LEN as u32,
                ),
            forall|j: int|
                0 <= j < i ==> #[trigger] rx@.descs[o.free[j] as int] == (crate::virtio::queue::Desc {
                    addr: (pool.phys + j * BUF_LEN) as u64,
                    len: BUF_LEN as u32,
                    flags: crate::virtio::queue::DESC_F_WRITE,
                    next: 0,
                }),
        decreases size - i,
    {
        proof {
            assert((i as int) * 2048 <= (size as int) * 2048 - 2048) by (nonlinear_arith)
                requires
                    i < size,
            ;
        }
        let (v, p) = pool.at(i as usize * BUF_LEN);
        proof {
            rx.lemma_wf();
        }
        let ghost before = rx@;
        let id = rx.rx_add(v, p, BUF_LEN as u32);
        proof {
            assert(id == o.free[i as int]);
            rx.lemma_wf();
            lemma_wrap16_succ(o.shadow + i);
            assert(o.free.skip(i + 1) =~= o.free.skip(i as int).drop_first());
            let t0 = o.free.take(i as int);
            let t1 = o.free.take(i + 1);
            assert forall|w: u16| t1.to_set().contains(w) <==> (t0.to_set().contains(w) || w == id) by {
                if t1.to_set().contains(w) {
                    let j = choose|j: int| 0 <= j < t1.len() && #[trigger] t1[j] == w;
                    if j < i {
                        assert(t0[j] == w);
                    }
                }
                if t0.to_set().contains(w) {
                    let j = choose|j: int| 0 <= j < t0.len() && #[trigger] t0[j] == w;
                    assert(t1[j] == w);
                }
                if w == id {
                    assert(t1[i as int] == w);
                }
            }
            assert(rx@.in_flight =~= t1.to_set());
            assert(t1.drop_last() =~= t0);
            assert(rx@.avail == stage_avail(o.avail, o.shadow, o.size, t1));
            rx.lemma_wf();
            assert forall|j: int| 0 <= j < i + 1 implies #[trigger] rx@.bufs[o.free[j] as int] == (
                (pool.virt + j * BUF_LEN) as u64,
                BUF_LEN as u32,
            ) by {
                if j < i {
                    assert(o.free[j] != id);
                    assert(before.bufs[o.free[j] as int] == ((pool.virt + j * BUF_LEN) as u64, BUF_LEN as u32));
                    assert(rx@.bufs[o.free[j] as int] == before.bufs[o.free[j] as int]);
                } else {
                    assert(v == (pool.virt + j * BUF_LEN) as u64);
                    assert(o.free[j] == id);
                    assert(rx@.bufs[id as int] == (v, BUF_LEN as u32));
                }
            }
            assert forall|j: int| 0 <= j < i + 1 implies #[trigger] rx@.descs[o.free[j] as int] == (crate::virtio::queue::Desc {
                addr: (pool.phys + j * BUF_LEN) as u64,
                len: BUF_LEN as u32,
                flags: crate::virtio::queue::DESC_F_WRITE,
                next: 0,
            }) by {
                if j < i {
                    assert(o.free[j] != id);
                    assert(before.descs[o.free[j] as int] == (crate::virtio::queue::Desc {
                        addr: (pool.phys + j * BUF_LEN) as u64,
                        len: BUF_LEN as u32,
                        flags: crate::virtio::queue::DESC_F_WRITE,
                        next: 0,
                    }));
                } else {
                    assert(p == (pool.phys + j * BUF_LEN) as u64);
                }
            }
        }
        i = i + 1;
    }
    proof {
        rx.lemma_wf();
    }
}


proof fn lemma_wrap16_succ(x: int)
    requires
        x >= 0,
    ensures
        wrap16(x).wrapping_add(1) == wrap16(x + 1),
{
}

/// A batch of TX buffers that are published together by `finish`.
pub struct TxBatch<'a> {
    pub queue: &'a mut VirtioNetQueue,
}

/// One TX pool buffer taken out of a batch; `submit` posts it.
pub struct TxBuffer<'a> {
    pub batch: &'a mut TxBatch<'a>,
    pub slot: u16,
    pub buf: u64,
}

impl VirtioNetQueue {
    /// Starts a TX batch, after reclaiming completed buffers (see `reclaim_tx`).
    pub fn tx_batch(&mut self, used_idx: u16, used: &[UsedElem]) -> (b: TxBatch<'_>)
        requires
            old(self).wf(),
        ensures
            b.queue.wf(),
            b.queue.held_buffers() == old(self).held_buffers(),
            reclaim_post(old(self)@, b.queue@, used_idx, used@),
            *final(b.queue) == *final(self),
    {
        self.reclaim_tx(used_idx, used);
        TxBatch { queue: self }
    }
}

impl<'a> TxBatch<'a> {
    /// The queue pair the batch works on, as it stands now.
    pub open spec fn current_queue(&self) -> &VirtioNetQueue {
        &*self.queue
    }

    /// Number of TX buffers that can still be allocated.
    pub fn available(&self) -> (r: usize)
        ensures
            r == self.current_queue()@.tx_free.len(),
    {
        self.queue.tx_available()
    }

    /// Takes one TX buffer out of the pool: the most recently freed slot.
    pub fn take_buffer(&'a mut self) -> (r: Option<TxBuffer<'a>>)
        requires
            old(self).queue.wf(),
        ensures
            old(self).queue@.tx_free.len() == 0 <==> r is None,
            r is None ==> *final(self) == *old(self),
            r matches Some(b) ==> {
                let free = old(self).queue@.tx_free;
                &&& b.wf()
                &&& b.slot() == free.last()
                &&& b.addr() == old(self).queue@.tx_pool.virt + free.last() * BUF_LEN
                &&& b.batch.queue@ == (NetQueueState { tx_free: free.drop_last(), ..old(self).queue@ })
                &&& b.batch.queue.held_buffers() == old(self).queue.held_buffers() + 1
                &&& *final(b.batch) == *final(self)
            },
    {
        if self.queue.tx_free.len() == 0 {
            return None;
        }
        let ghost before = self.queue@;
        let slot = self.queue.tx_free.pop().unwrap();
        proof {
            self.queue.tx_held@ = self.queue.tx_held@ + 1;
            let tf = before.tx_free;
            assert(self.queue.tx_free@ == tf.drop_last());
            assert(tf.contains(slot)) by {
                assert(tf[tf.len() - 1] == slot);
            }
            assert(slot < self.queue.tx@.size);
            assert((slot as int) * 2048 <= (self.queue.tx@.size as int) * 2048 - 2048) by (nonlinear_arith)
                requires
                    slot < self.queue.tx@.size,
            ;
            assert(!self.queue.tx_free@.contains(slot)) by {
                if self.queue.tx_free@.contains(slot) {
                    let j = choose|j: int| 0 <= j < self.queue.tx_free@.len() && self.queue.tx_free@[j] == slot;
                    assert(tf[j] == tf[tf.len() - 1]);
                }
            }
            assert forall|j: int| 0 <= j < self.queue.tx_free@.len() implies #[trigger] self.queue.tx_free@[j]
                < self.queue.tx@.size by {
                assert(self.queue.tx_free@[j] == tf[j]);
            }
            assert forall|id: u16| #[trigger] self.queue.tx_slots@.contains_key(id) implies {
                let t = self.queue.tx_slots@[id];
                &&& t < self.queue.tx@.size
                &&& !self.queue.tx_free@.contains(t)
                &&& self.queue.tx@.bufs[id as int].0 == self.queue.tx_pool.virt + t * BUF_LEN
            } by {
                let t = self.queue.tx_slots@[id];
                if self.queue.tx_free@.contains(t) {
                    let j = choose|j: int| 0 <= j < self.queue.tx_free@.len() && self.queue.tx_free@[j] == t;
                    assert(tf[j] == t);
                }
            }
            assert forall|id: u16| #[trigger] self.queue.tx_slots@.contains_key(id) implies self.queue.tx_slots@[id]
                != slot by {
                assert(!tf.contains(self.queue.tx_slots@[id]));
            }
        }
        let (buf, _phys) = self.queue.tx_pool.at(slot as usize * BUF_LEN);
        Some(TxBuffer { batch: self, slot, buf })
    }

    /// Publishes all packets added to this batch (both rings are flushed).
    pub fn finish(self) -> (r: (Option<u16>, Option<u16>))
        requires
            old(self.queue).wf(),
        ensures
            final(self.queue).wf(),
            r.0 == (if old(self.queue)@.rx.shadow == old(self.queue)@.rx.published {
                None
            } else {
                Some(old(self.queue)@.rx.published)
            }),
            r.1 == (if old(self.queue)@.tx.shadow == old(self.queue)@.tx.published {
                None
            } else {
                Some(old(self.queue)@.tx.published)
            }),
            final(self.queue)@ == (NetQueueState {
                rx: QueueState { published: old(self.queue)@.rx.shadow, ..old(self.queue)@.rx },
                tx: QueueState { published: old(self.queue)@.tx.shadow, ..old(self.queue)@.tx },
                ..old(self.queue)@
            }),
    {
        self.queue.flush()
    }
}

impl<'a> TxBuffer<'a> {
    /// The pool slot this buffer occupies.
    pub closed spec fn slot(&self) -> u16 {
        self.slot
    }

    /// The virtual address of the buffer.
    pub closed spec fn addr(&self) -> u64 {
        self.buf
    }

    /// The buffer is a held slot of the batch's pool.
    pub closed spec fn wf(&self) -> bool {
        &&& self.batch.queue.wf()
        &&& self.batch.queue.slot_held(self.slot)
        &&& self.buf == self.batch.queue@.tx_pool.virt + self.slot * BUF_LEN
    }

    /// Virtual address of `len` bytes at `offset` within the buffer, which
    /// the caller may fill with packet data.
    pub fn as_mut_slice(&self, offset: usize, len: usize) -> (r: u64)
        requires
            self.wf(),
            offset + len <= BUF_LEN,
        ensures
            r == self.addr() + offset,
    {
        proof {
            self.batch.queue.lemma_pool_bounds(self.slot);
        }
        self.buf + offset as u64
    }

    /// Posts the first `len` bytes of the buffer for transmission. The entry
    /// is staged until the batch is finished.
    pub fn submit(self, len: usize)
        requires
            self.wf(),
            len <= BUF_LEN,
        ensures
            final(self.batch).queue.wf(),
            final(self.batch).queue.held_buffers() == old(self.batch).queue.held_buffers() - 1,
            ({
                let q = old(self.batch).queue@;
                let after = final(self.batch).queue@;
                &&& add_post(
                    q.tx,
                    after.tx,
                    self.addr(),
                    (q.tx_pool.phys + self.slot() * BUF_LEN) as u64,
                    len as u32,
                    0,
                    q.tx.free[0],
                )
                &&& after == (NetQueueState { tx: after.tx, ..q })
            }),
    {
        let batch = self.batch;
        let slot = self.slot;
        let buf = self.buf;
        proof {
            batch.queue.lemma_pool_bounds(slot);
            batch.queue.tx.lemma_wf();
            assert(batch.queue.tx@.free.len() >= 1);
        }
        let (_virt, phys) = batch.queue.tx_pool.at(slot as usize * BUF_LEN);
        let ghost before = batch.queue@;
        let ghost before_slots = batch.queue.tx_slots@;
        let id = batch.queue.tx.tx_add(buf, phys, len as u32);
        proof {
            batch.queue.tx_slots@ = before_slots.insert(id, slot);
            batch.queue.tx_held@ = (batch.queue.tx_held@ - 1) as nat;
            assert(!before.tx.in_flight.contains(id)) by {
                assert(before.tx.free.contains(id));
            }
            assert(before.tx.in_flight.insert(id).len() == before.tx.in_flight.len() + 1);
            assert(batch.queue.tx_slots@.dom() =~= batch.queue@.tx.in_flight);
            assert forall|a: u16, b: u16|
                #![trigger batch.queue.tx_slots@[a], batch.queue.tx_slots@[b]]
                batch.queue.tx_slots@.contains_key(a) && batch.queue.tx_slots@.contains_key(b) && a != b
                    implies batch.queue.tx_slots@[a] != batch.queue.tx_slots@[b] by {
                if a == id {
                    assert(before_slots.contains_key(b));
                } else if b == id {
                    assert(before_slots.contains_key(a));
                }
            }
        }
    }
}

// ---- device bring-up decisions ----

/// The features to negotiate: those the driver wants that the device offers.
pub fn negotiate_features(device_features: u64) -> (r: u64)
    ensures
        r == DRIVER_FEATURES & device_features,
{
    DRIVER_FEATURES & device_features
}

/// The driver never asks for a feature the device does not offer, nor for
/// one it does not implement itself.
pub proof fn lemma_negotiated_features_offered(device_features: u64)
    ensures
        (DRIVER_FEATURES & device_features) & !device_features == 0,
        (DRIVER_FEATURES & device_features) & !DRIVER_FEATURES == 0,
{
    let d = DRIVER_FEATURES;
    assert((d & device_features) & !device_features == 0 && (d & device_features) & !d == 0) by (bit_vector);
}

/// The negotiated set includes modern virtio (VERSION_1), without which
/// the device cannot be driven.
pub fn supports_modern(wanted: u64) -> (r: bool)
    ensures
        r == (wanted & VIRTIO_F_VERSION_1 != 0),
{
    wanted & VIRTIO_F_VERSION_1 != 0
}

/// The negotiated set includes multiqueue.
pub fn has_multiqueue(wanted: u64) -> (r: bool)
    ensures
        r == (wanted & VIRTIO_NET_F_MQ != 0),
{
    wanted & VIRTIO_NET_F_MQ != 0
}

/// The negotiated set includes the control virtqueue.
pub fn has_ctrl_queue(wanted: u64) -> (r: bool)
    ensures
        r == (wanted & VIRTIO_NET_F_CTRL_VQ != 0),
{
    wanted & VIRTIO_NET_F_CTRL_VQ != 0
}

/// The number of queue pairs the device supports: the advertised
/// `max_virtqueue_pairs` with multiqueue, a single pair without.
pub fn max_queue_pairs(mq: bool, advertised: u16) -> (r: u16)
    ensures
        r == (if mq { advertised } else { 1 }),
{
    if mq {
        advertised
    } else {
        1
    }
}

/// The number of queue pairs to bring up: the request clamped to what the
/// device supports, and at least one.
pub fn queue_pair_count(requested: u16, max_pairs: u16) -> (r: u16)
    ensures
        r == (if requested == 0 || max_pairs == 0 {
            1
        } else if requested < max_pairs {
            requested
        } else {
            max_pairs
        }),
{
    let m = if requested < max_pairs { requested } else { max_pairs };
    if m < 1 {
        1
    } else {
        m
    }
}

/// Queue indices of pair `pair`: RX is `2 * pair`, TX is `2 * pair + 1`.
pub fn pair_queue_indices(pair: u16) -> (r: (u16, u16))
    requires
        pair < 0x8000,
    ensures
        r.0 == 2 * pair,
        r.1 == 2 * pair + 1,
{
    (2 * pair, 2 * pair + 1)
}

/// Queue index of the control queue: it follows all `max_pairs` pairs.
pub fn ctrl_queue_index(max_pairs: u16) -> (r: u16)
    requires
        max_pairs < 0x8000,
    ensures
        r == 2 * max_pairs,
{
    2 * max_pairs
}

/// Byte offset of a queue's doorbell within the notify region.
pub fn notify_offset(queue_notify_off: u16, multiplier: u32) -> (r: u64)
    ensures
        r == queue_notify_off * multiplier,
{
    assert(queue_notify_off * multiplier <= 0xFFFF * 0xFFFF_FFFF) by (nonlinear_arith);
    queue_notify_off as u64 * multiplier as u64
}

/// The queue-pair count must be sent to the device over the control queue.
pub fn needs_pair_setup(mq: bool, pairs: u16) -> (r: bool)
    ensures
        r == (mq && pairs > 1),
{
    mq && pairs > 1
}

// ---- the control queue ----

/// Size in bytes of the request that sets the number of queue pairs: a
/// `CtrlHdr` followed by a `CtrlMq`.
pub const CTRL_MQ_REQ_LEN: u32 = 4;

/// Offset, within the scratch region holding a control request, of the
/// byte the device writes its acknowledgement to.
pub const CTRL_ACK_OFFSET: u64 = 64;

/// The acknowledgement that reports success.
pub const VIRTIO_NET_OK: u8 = 0;

/// The request for the device to use `pairs` queue pairs, as it is laid out
/// in memory: class, command, then the pair count in little-endian order.
pub open spec fn mq_pairs_request_spec(pairs: u16) -> Seq<u8> {
    seq![VIRTIO_NET_CTRL_MQ, VIRTIO_NET_CTRL_MQ_VQ_PAIRS_SET, (pairs % 256) as u8, (pairs / 256) as u8]
}

/// The bytes of the request for the device to use `pairs` queue pairs.
pub fn mq_pairs_request(pairs: u16) -> (r: Vec<u8>)
    ensures
        r@ == mq_pairs_request_spec(pairs),
{
    let lo = (pairs % 256) as u8;
    let hi = (pairs / 256) as u8;
    let r = vec![VIRTIO_NET_CTRL_MQ, VIRTIO_NET_CTRL_MQ_VQ_PAIRS_SET, lo, hi];
    assert(r@ =~= mq_pairs_request_spec(pairs));
    r
}

/// The descriptor chain of a control request held in `scratch`: the request
/// itself, read by the device, then the acknowledgement byte it writes.
pub open spec fn ctrl_request_parts(scratch: MappedRegion) -> Seq<(u64, u64, u32, bool)> {
    seq![
        (scratch.virt, scratch.phys, CTRL_MQ_REQ_LEN, false),
        ((scratch.virt + CTRL_ACK_OFFSET) as u64, (scratch.phys + CTRL_ACK_OFFSET) as u64, 1u32, true),
    ]
}

/// Whether the device acknowledged a control request.
pub fn ctrl_ack_ok(ack: u8) -> (r: bool)
    ensures
        r == (ack == VIRTIO_NET_OK),
{
    ack == VIRTIO_NET_OK
}

// ---- the device ----

struct Queues {
    rx: VirtQueue,
    tx: VirtQueue,
}

/// A queue pair ready to be handed out: both queues well formed, nothing
/// transmitted yet, and pools large enough for one buffer per descriptor.
pub open spec fn pair_ready(rx: QueueState, tx: QueueState, rx_pool: MappedRegion, tx_pool: MappedRegion) -> bool {
    &&& tx.in_flight == Set::<u16>::empty()
    &&& tx_pool.fits()
    &&& tx_pool.len >= tx.size * BUF_LEN
    &&& rx_pool.fits()
    &&& rx_pool.len >= rx.size * BUF_LEN
}

/// The state of a device: for every negotiated queue pair, its queues (or
/// `None` once handed out) and its RX and TX pools.
pub ghost struct DeviceState {
    pub pairs: Seq<Option<(QueueState, QueueState)>>,
    pub rx_pools: Seq<MappedRegion>,
    pub tx_pools: Seq<MappedRegion>,
    pub features: u64,
    pub common: Common,
    pub device_cfg: u64,
    pub isr: u64,
    pub ctrl: Option<QueueState>,
    pub mac: [u8; 6],
}

/// Device-wide state: negotiated features, the queue pairs not yet handed
/// out, and the control queue. Queue pairs are handed to per-core workers
/// with `take_queue`; the device must outlive every queue taken from it.
pub struct VirtioNetPci {
    common: Common,
    device_cfg: u64,
    isr: u64,
    ctrl: Option<VirtQueue>,
    queues: Vec<Option<Queues>>,
    rx_bufs: Vec<MappedRegion>,
    tx_bufs: Vec<MappedRegion>,
    pub mac: [u8; 6],
    features: u64,
}

impl View for VirtioNetPci {
    type V = DeviceState;

    closed spec fn view(&self) -> DeviceState {
        DeviceState {
            pairs: self.queues@.map_values(
                |q: Option<Queues>|
                    match q {
                        Some(q) => Some((q.rx@, q.tx@)),
                        None => None,
                    },
            ),
            rx_pools: self.rx_bufs@,
            tx_pools: self.tx_bufs@,
            features: self.features,
            common: self.common,
            device_cfg: self.device_cfg,
            isr: self.isr,
            ctrl: match self.ctrl {
                Some(q) => Some(q@),
                None => None,
            },
            mac: self.mac,
        }
    }
}

impl VirtioNetPci {
    pub closed spec fn wf(&self) -> bool {
        &&& self.ctrl matches Some(q) ==> q.wf()
        &&& self.rx_bufs@.len() == self.queues@.len()
        &&& self.tx_bufs@.len() == self.queues@.len()
        &&& forall|i: int|
            0 <= i < self.queues@.len() ==> match #[trigger] self.queues@[i] {
                Some(q) => q.rx.wf() && q.tx.wf() && pair_ready(q.rx@, q.tx@, self.rx_bufs@[i], self.tx_bufs@[i]),
                None => true,
            }
    }

    /// A device with the given registers and negotiated features and no queue pairs yet.
    pub fn new(common: Common, device_cfg: u64, isr: u64, ctrl: Option<VirtQueue>, mac: [u8; 6], features: u64) -> (d: Self)
        requires
            ctrl matches Some(q) ==> q.wf(),
        ensures
            d.wf(),
            d@.pairs == Seq::<Option<(QueueState, QueueState)>>::empty(),
            d@.rx_pools == Seq::<MappedRegion>::empty(),
            d@.tx_pools == Seq::<MappedRegion>::empty(),
            d@.features == features,
            d@.common == common,
            d@.device_cfg == device_cfg,
            d@.isr == isr,
            d@.ctrl == (match ctrl {
                Some(q) => Some(q@),
                None => None::<QueueState>,
            }),
            d@.mac == mac,
    {
        let d = VirtioNetPci {
            common,
            device_cfg,
            isr,
            ctrl,
            queues: Vec::new(),
            rx_bufs: Vec::new(),
            tx_bufs: Vec::new(),
            mac,
            features,
        };
        proof {
            assert(d@.pairs =~= Seq::<Option<(QueueState, QueueState)>>::empty());
        }
        d
    }

    /// Records a queue pair brought up during initialization.
    pub fn add_queue_pair(&mut self, rx: VirtQueue, tx: VirtQueue, rx_pool: MappedRegion, tx_pool: MappedRegion)
        requires
            old(self).wf(),
            rx.wf(),
            tx.wf(),
            pair_ready(rx@, tx@, rx_pool, tx_pool),
        ensures
            final(self).wf(),
            final(self)@ == (DeviceState {
                pairs: old(self)@.pairs.push(Some((rx@, tx@))),
                rx_pools: old(self)@.rx_pools.push(rx_pool),
                tx_pools: old(self)@.tx_pools.push(tx_pool),
                ..old(self)@
            }),
    {
        let ghost old_pairs = self@.pairs;
        self.queues.push(Some(Queues { rx, tx }));
        self.rx_bufs.push(rx_pool);
        self.tx_bufs.push(tx_pool);
        proof {
            assert(self@.pairs =~= old_pairs.push(Some((rx@, tx@))));
            assert forall|i: int|
                0 <= i < self.queues@.len() implies match #[trigger] self.queues@[i] {
                    Some(q) => q.rx.wf() && q.tx.wf() && pair_ready(q.rx@, q.tx@, self.rx_bufs@[i], self.tx_bufs@[i]),
                    None => true,
                } by {
                if i < self.queues@.len() - 1 {
                    assert(self.queues@[i] == old(self).queues@[i]);
                    assert(self.rx_bufs@[i] == old(self).rx_bufs@[i]);
                    assert(self.tx_bufs@[i] == old(self).tx_bufs@[i]);
                }
            }
        }
    }

    /// Number of queue pairs brought up.
    pub fn num_queue_pairs(&self) -> (r: usize)
        ensures
            r == self@.pairs.len(),
    {
        self.queues.len()
    }

    /// Posts on the control queue the request for the device to use `pairs`
    /// queue pairs and publishes it. The caller has written the request
    /// (`mq_pairs_request`) at the start of `scratch` and a nonzero byte at
    /// `CTRL_ACK_OFFSET`; it then waits for the completion and checks the
    /// acknowledgement with `ctrl_ack_ok`. Returns the chain's head
    /// descriptor and the result of the flush.
    pub fn set_queue_pairs(&mut self, scratch: &MappedRegion) -> (r: (u16, Option<u16>))
        requires
            old(self).wf(),
            old(self)@.ctrl matches Some(q) && q.free.len() >= 2,
            scratch.fits(),
            scratch.len > CTRL_ACK_OFFSET,
        ensures
            final(self).wf(),
            final(self)@ == (DeviceState { ctrl: final(self)@.ctrl, ..old(self)@ }),
            final(self)@.ctrl is Some,
            ({
                let before = old(self)@.ctrl->0;
                let after = final(self)@.ctrl->0;
                &&& chain_post(before, QueueState { published: before.published, ..after }, ctrl_request_parts(*scratch), r.0)
                &&& after.published == after.shadow
                &&& r.1 == (if after.shadow == before.published { None } else { Some(before.published) })
            }),
    {
        let ghost old_self = *self;
        let parts = vec![
            (scratch.virt, scratch.phys, CTRL_MQ_REQ_LEN, false),
            (scratch.virt + CTRL_ACK_OFFSET, scratch.phys + CTRL_ACK_OFFSET, 1u32, true),
        ];
        assert(parts@ =~= ctrl_request_parts(*scratch));
        let mut ctrl = self.ctrl.take().unwrap();
        let head = ctrl.chain_add(&parts);
        let published = ctrl.flush();
        self.ctrl = Some(ctrl);
        proof {
            assert(self@.pairs =~= old_self@.pairs);
        }
        (head, published)
    }

    /// Whether queue pair `index` exists and has not been handed out yet.
    pub fn has_queue(&self, index: usize) -> (r: bool)
        requires
            self.wf(),
        ensures
            r == (index < self@.pairs.len() && self@.pairs[index as int] is Some),
    {
        index < self.queues.len() && self.queues[index].is_some()
    }

    /// The control queue, if the device has one.
    pub fn ctrl_queue(&self) -> (r: Option<&VirtQueue>)
        requires
            self.wf(),
        ensures
            r is Some <==> self@.ctrl is Some,
            r matches Some(q) ==> q.wf() && q@ == self@.ctrl->0,
    {
        match &self.ctrl {
            Some(q) => Some(q),
            None => None,
        }
    }

    /// Consumes one completion of the control queue; see
    /// `VirtQueue::pop_used`. `elem` is the used-ring element at the
    /// control queue's `used_slot()`.
    pub fn ctrl_pop_used(&mut self, used_idx: u16, elem: UsedElem) -> (r: Option<(u64, u32)>)
        requires
            old(self).wf(),
            old(self)@.ctrl is Some,
            used_idx != old(self)@.ctrl->0.last_used ==> (elem.id as u16) < old(self)@.ctrl->0.size,
        ensures
            final(self).wf(),
            final(self)@ == (DeviceState { ctrl: final(self)@.ctrl, ..old(self)@ }),
            final(self)@.ctrl is Some,
            pop_post(old(self)@.ctrl->0, final(self)@.ctrl->0, used_idx, elem, r),
    {
        let ghost old_self = *self;
        let mut ctrl = self.ctrl.take().unwrap();
        let r = ctrl.pop_used(used_idx, elem);
        self.ctrl = Some(ctrl);
        proof {
            assert(self@.pairs =~= old_self@.pairs);
        }
        r
    }

    /// Hands queue pair `index` over to the caller, with every TX pool slot free.
    pub fn take_queue(&mut self, index: usize) -> (q: VirtioNetQueue)
        requires
            old(self).wf(),
            index < old(self)@.pairs.len(),
            old(self)@.pairs[index as int] is Some,
        ensures
            final(self).wf(),
            final(self)@ == (DeviceState { pairs: old(self)@.pairs.update(index as int, None), ..old(self)@ }),
            q.wf(),
            q.held_buffers() == 0,
            q@ == (NetQueueState {
                rx: (old(self)@.pairs[index as int]->0).0,
                tx: (old(self)@.pairs[index as int]->0).1,
                rx_pool: old(self)@.rx_pools[index as int],
                tx_pool: old(self)@.tx_pools[index as int],
                tx_free: Seq::new((old(self)@.pairs[index as int]->0).1.size as nat, |i: int| i as u16),
            }),
    {
        let ghost old_queues = self.queues@;
        let mut taken: Option<Queues> = None;
        self.queues.set_and_swap(index, &mut taken);
        let Queues { rx, tx } = taken.unwrap();
        let q = VirtioNetQueue::new(rx, tx, self.rx_bufs[index], self.tx_bufs[index]);
        proof {
            assert(self@.pairs =~= old(self)@.pairs.update(index as int, None));
            assert forall|i: int|
                0 <= i < self.queues@.len() implies match #[trigger] self.queues@[i] {
                    Some(q) => q.rx.wf() && q.tx.wf() && pair_ready(q.rx@, q.tx@, self.rx_bufs@[i], self.tx_bufs@[i]),
                    None => true,
                } by {
                if i != index {
                    assert(self.queues@[i] == old_queues[i]);
                }
            }
        }
        q
    }
}

/// Before the used index is reached, the consumed count is below the number
/// of pending completions.
proof fn lemma_wrap_reaches(last: u16, used_idx: u16, k: int)
    requires
        0 <= k <= used_idx.wrapping_sub(last),
        wrap16(last + k) != used_idx,
    ensures
        k < used_idx.wrapping_sub(last),
{
}

/// The used index is reached exactly after consuming every pending completion.
proof fn lemma_wrap_done(last: u16, used_idx: u16, k: int)
    requires
        0 <= k <= used_idx.wrapping_sub(last),
        wrap16(last + k) == used_idx,
    ensures
        k == used_idx.wrapping_sub(last),
{
}

} // verus!
