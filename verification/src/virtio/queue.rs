//! Split virtqueue bookkeeping.
//!
//! The driver side of a split virtqueue consists of the descriptor table and
//! the available ring, which only the driver writes, and of the used ring,
//! which only the device writes. `VirtQueue` keeps an exact copy of everything
//! the driver has written (descriptor entries, available-ring entries and the
//! published available index) together with the free-descriptor list that is
//! threaded through the `next` fields of unused descriptors. Values that the
//! device writes (the used index, used-ring elements and the event index) are
//! handed to the methods that consume them.
//!
//! Buffers are posted one descriptor per packet; `flush` publishes every
//! staged entry at once so that the device is notified at most once per batch.

use vstd::prelude::*;

verus! {

/// Descriptor flag: the buffer continues in the descriptor named by `next`.
pub const DESC_F_NEXT: u16 = 1;

/// Descriptor flag: the buffer is written by the device (an RX buffer).
pub const DESC_F_WRITE: u16 = 2;

/// Bytes taken by one descriptor-table entry.
pub const DESC_BYTES: usize = 16;

/// Every ring is placed in its own page-aligned DMA region.
pub const RING_ALIGN: usize = 4096;

/// One entry of the descriptor table.
#[derive(Clone, Copy, Debug, PartialEq, Eq, Structural)]
pub struct Desc {
    pub addr: u64,
    pub len: u32,
    pub flags: u16,
    pub next: u16,
}

/// One element of the used ring, written by the device.
#[derive(Clone, Copy, Debug, PartialEq, Eq, Structural)]
pub struct UsedElem {
    pub id: u32,
    pub len: u32,
}

/// `x` is a power of two.
pub open spec fn is_pow2_usize(x: usize) -> bool {
    x != 0 && x & ((x - 1) as usize) == 0
}

/// `x` is a power of two.
pub open spec fn is_pow2_u16(x: u16) -> bool {
    x != 0 && x & ((x - 1) as u16) == 0
}

/// Rounds `x` up to the next multiple of the power of two `align`: the
/// result has no bits below `align` set and is the smallest such value that
/// is at least `x`.
pub fn round_up(x: usize, align: usize) -> (r: usize)
    requires
        is_pow2_usize(align),
        x + align - 1 <= usize::MAX,
    ensures
        r & ((align - 1) as usize) == 0,
        x <= r,
        r < x + align,
{
    let m: usize = align - 1;
    let y: usize = x + m;
    let r: usize = y & !m;
    assert(r & m == 0 && r <= y && y - r <= m) by (bit_vector)
        requires
            r == y & !m,
    ;
    r
}

/// For the ring alignment, clearing the low bits is the same as being a multiple.
proof fn lemma_ring_aligned(r: usize)
    requires
        r & 4095usize == 0,
    ensures
        r % RING_ALIGN == 0,
{
    assert(r & 4095usize == 0 ==> r % 4096usize == 0) by (bit_vector);
}

/// The driver-visible state of a split virtqueue.
pub ghost struct QueueState {
    /// Number of descriptors (and ring entries).
    pub size: u16,
    /// The descriptor table as last written by the driver.
    pub descs: Seq<Desc>,
    /// The available ring as last written by the driver.
    pub avail: Seq<u16>,
    /// The available index last published to the device.
    pub published: u16,
    /// The available index including entries staged but not yet published.
    pub shadow: u16,
    /// The used index up to which completions have been consumed.
    pub last_used: u16,
    /// Free descriptors, in the order in which they will be handed out.
    pub free: Seq<u16>,
    /// The head of the free list as stored by the driver (meaningful when `free` is non-empty).
    pub free_head: u16,
    /// Descriptors currently owned by the device (posted and not yet completed).
    pub in_flight: Set<u16>,
    /// For each descriptor, the (virtual address, length) of the buffer it last carried.
    pub bufs: Seq<(u64, u32)>,
    pub desc_phys: u64,
    pub avail_phys: u64,
    pub used_phys: u64,
    /// Address of the queue's doorbell register.
    pub notify_addr: u64,
    /// Index of the queue within the device.
    pub queue_index: u16,
}

pub struct VirtQueue {
    size: u16,
    mask: u16,
    desc: Vec<Desc>,
    avail_ring: Vec<u16>,
    avail_published: u16,
    free_head: u16,
    free_count: u16,
    avail_idx_shadow: u16,
    last_used_idx: u16,
    bufs: Vec<(u64, u32)>,
    desc_phys: u64,
    avail_phys: u64,
    used_phys: u64,
    /// Address of this queue's doorbell register.
    pub notify_addr: u64,
    /// Index of this queue within the device.
    pub queue_index: u16,
    /// Whether each descriptor is currently owned by the device.
    posted: Vec<bool>,
    free_ids: Ghost<Seq<u16>>,
    in_flight_ids: Ghost<Set<u16>>,
}

impl View for VirtQueue {
    type V = QueueState;

    closed spec fn view(&self) -> QueueState {
        QueueState {
            size: self.size,
            descs: self.desc@,
            avail: self.avail_ring@,
            published: self.avail_published,
            shadow: self.avail_idx_shadow,
            last_used: self.last_used_idx,
            free: self.free_ids@,
            free_head: self.free_head,
            in_flight: self.in_flight_ids@,
            bufs: self.bufs@,
            desc_phys: self.desc_phys,
            avail_phys: self.avail_phys,
            used_phys: self.used_phys,
            notify_addr: self.notify_addr,
            queue_index: self.queue_index,
        }
    }
}

/// Sets the `next` field of a descriptor.
pub open spec fn with_next(d: Desc, next: u16) -> Desc {
    Desc { addr: d.addr, len: d.len, flags: d.flags, next: next }
}

/// How posting one buffer changes the queue: the head of the free list
/// becomes `id`, carries the buffer, goes in flight and is staged in the
/// next available-ring slot.
pub open spec fn add_post(old: QueueState, new: QueueState, buf: u64, phys: u64, len: u32, flags: u16, id: u16) -> bool {
    &&& id == old.free[0]
    &&& new == (QueueState {
        descs: old.descs.update(id as int, Desc { addr: phys, len: len, flags: flags, next: 0 }),
        avail: old.avail.update(ring_slot(old.shadow, old.size) as int, id),
        shadow: old.shadow.wrapping_add(1),
        free: old.free.drop_first(),
        free_head: old.descs[id as int].next,
        in_flight: old.in_flight.insert(id),
        bufs: old.bufs.update(id as int, (buf, len)),
        ..old
    })
}

/// Where `id` stands in the free list.
pub open spec fn free_pos(q: QueueState, id: u16) -> int {
    choose|j: int| 0 <= j < q.free.len() && q.free[j] == id
}

/// The free list and descriptor table after the free descriptor `id` is
/// moved to the front of the free list: the descriptor before it is linked
/// to the one after it, and `id` is linked to the old head.
pub open spec fn to_front(old: QueueState, id: u16) -> QueueState {
    let j = free_pos(old, id);
    QueueState {
        descs: if j == 0 {
            old.descs
        } else {
            let p = old.free[j - 1];
            old.descs.update(p as int, with_next(old.descs[p as int], old.descs[id as int].next)).update(
                id as int,
                with_next(old.descs[id as int], old.free_head),
            )
        },
        free: seq![id] + old.free.remove(j),
        free_head: id,
        ..old
    }
}

/// How consuming one completion changes the queue. With no pending
/// completion nothing changes. Otherwise the completion is consumed, the
/// buffer that the completed descriptor carried is returned with the length
/// the device reported, and the descriptor is put back at the front of the
/// free list: a descriptor the device owned joins the free list, one that
/// was already free is moved to its front.
pub open spec fn pop_post(old: QueueState, new: QueueState, used_idx: u16, elem: UsedElem, r: Option<(u64, u32)>) -> bool {
    if used_idx == old.last_used {
        r is None && new == old
    } else {
        let id = elem.id as u16;
        &&& r == Some((old.bufs[id as int].0, elem.len))
        &&& if old.in_flight.contains(id) {
            new == (QueueState {
                descs: old.descs.update(id as int, with_next(old.descs[id as int], old.free_head)),
                free: seq![id] + old.free,
                free_head: id,
                in_flight: old.in_flight.remove(id),
                last_used: old.last_used.wrapping_add(1),
                ..old
            })
        } else {
            new == (QueueState { last_used: old.last_used.wrapping_add(1), ..to_front(old, id) })
        }
    }
}

/// A buffer comes back from the device exactly as it was posted: when the
/// device completes the descriptor a buffer was just posted on, consuming
/// that completion returns the buffer's address and frees the descriptor.
pub proof fn lemma_completion_returns_posted(
    q0: QueueState,
    q1: QueueState,
    q2: QueueState,
    buf: u64,
    phys: u64,
    len: u32,
    flags: u16,
    id: u16,
    used_idx: u16,
    elem: UsedElem,
    r: Option<(u64, u32)>,
)
    requires
        0 <= id < q0.bufs.len(),
        add_post(q0, q1, buf, phys, len, flags, id),
        used_idx != q1.last_used,
        elem.id as u16 == id,
        pop_post(q1, q2, used_idx, elem, r),
    ensures
        r == Some((buf, elem.len)),
        !q2.in_flight.contains(id),
        q2.free[0] == id,
{
}

/// The descriptor that `chain_add` writes for part `i` of a chain whose
/// descriptors are `ids`.
pub open spec fn chain_desc(parts: Seq<(u64, u64, u32, bool)>, ids: Seq<u16>, i: int) -> Desc {
    let has_next = i + 1 < ids.len();
    Desc {
        addr: parts[i].1,
        len: parts[i].2,
        flags: (if parts[i].3 { DESC_F_WRITE } else { 0u16 }) | (if has_next { DESC_F_NEXT } else { 0u16 }),
        next: if has_next { ids[i + 1] } else { 0u16 },
    }
}

/// How `chain_add` changes a queue: the first `parts.len()` free
/// descriptors carry the parts, linked in order, and the chain's head
/// `head` is staged in the available ring.
pub open spec fn chain_post(old: QueueState, new: QueueState, parts: Seq<(u64, u64, u32, bool)>, head: u16) -> bool {
    let n = parts.len() as int;
    let ids = old.free.take(n);
    &&& head == ids[0]
    &&& new.free == old.free.skip(n)
    &&& new.in_flight == old.in_flight.union(ids.to_set())
    &&& new.descs.len() == old.descs.len()
    &&& forall|i: int| 0 <= i < n ==> #[trigger] new.descs[ids[i] as int] == chain_desc(parts, ids, i)
    &&& forall|j: int| 0 <= j < old.descs.len() && !ids.contains(j as u16) ==> #[trigger] new.descs[j] == old.descs[j]
    &&& new.bufs.len() == old.bufs.len()
    &&& forall|i: int| 0 <= i < n ==> #[trigger] new.bufs[ids[i] as int] == (parts[i].0, parts[i].2)
    &&& forall|j: int| 0 <= j < old.bufs.len() && !ids.contains(j as u16) ==> #[trigger] new.bufs[j] == old.bufs[j]
    &&& new.avail == old.avail.update(ring_slot(old.shadow, old.size) as int, head)
    &&& new.shadow == old.shadow.wrapping_add(1)
    &&& new.free_head == old.descs[ids[n - 1] as int].next
    &&& new.size == old.size
    &&& new.published == old.published
    &&& new.last_used == old.last_used
    &&& new.desc_phys == old.desc_phys
    &&& new.avail_phys == old.avail_phys
    &&& new.used_phys == old.used_phys
    &&& new.notify_addr == old.notify_addr
    &&& new.queue_index == old.queue_index
}

/// The avail-ring slot that the next staged entry goes to.
pub open spec fn ring_slot(idx: u16, size: u16) -> u16 {
    idx & ((size - 1) as u16)
}

/// `x` taken modulo 2^16, the way the ring indices wrap.
pub open spec fn wrap16(x: int) -> u16 {
    (x % 0x1_0000) as u16
}

/// The descriptors the device has completed between `q.last_used` and
/// `used_idx`, in completion order, as recorded in the used ring `used`.
pub open spec fn pending_ids(q: QueueState, used_idx: u16, used: Seq<UsedElem>) -> Seq<u16> {
    Seq::new(
        used_idx.wrapping_sub(q.last_used) as nat,
        |k: int| used[ring_slot(wrap16(q.last_used + k), q.size) as int].id as u16,
    )
}

/// The completions recorded in `used` name distinct descriptors that are in flight.
pub open spec fn valid_completions(q: QueueState, used_idx: u16, used: Seq<UsedElem>) -> bool {
    let ids = pending_ids(q, used_idx, used);
    &&& used.len() == q.size
    &&& ids.no_duplicates()
    &&& forall|k: int| 0 <= k < ids.len() ==> q.in_flight.contains(#[trigger] ids[k])
}

/// The available ring `avail` after `ids` are staged in order from index
/// `shadow` on: `ids[k]` goes to the slot of index `shadow + k`.
pub open spec fn stage_avail(avail: Seq<u16>, shadow: u16, size: u16, ids: Seq<u16>) -> Seq<u16>
    decreases ids.len(),
{
    if ids.len() == 0 {
        avail
    } else {
        stage_avail(avail, shadow, size, ids.drop_last()).update(
            ring_slot(wrap16(shadow + ids.len() - 1), size) as int,
            ids.last(),
        )
    }
}

/// The virtio `vring_need_event` condition: the device asked to be notified
/// when the available index moves past `event`, and the entries published
/// between `old_idx` and `new_idx` (modulo 2^16) include `event`.
pub open spec fn event_in_window(event: u16, old_idx: u16, new_idx: u16) -> bool {
    event.wrapping_sub(old_idx) < new_idx.wrapping_sub(old_idx)
}

impl VirtQueue {
    /// Structural invariant: the free list is threaded through the `next`
    /// fields of exactly the descriptors that are not in flight.
    pub closed spec fn wf(&self) -> bool {
        &&& self.size > 0
        &&& self.mask == self.size - 1
        &&& self.desc@.len() == self.size
        &&& self.avail_ring@.len() == self.size
        &&& self.bufs@.len() == self.size
        &&& self.free_ids@.len() == self.free_count
        &&& self.free_ids@.no_duplicates()
        &&& forall|k: int| 0 <= k < self.free_ids@.len() ==> #[trigger] self.free_ids@[k] < self.size
        &&& self.in_flight_ids@.finite()
        &&& forall|v: u16| #[trigger]
            self.in_flight_ids@.contains(v) ==> v < self.size && !self.free_ids@.contains(v)
        &&& self.free_ids@.len() + self.in_flight_ids@.len() == self.size
        &&& forall|v: u16|
            #![trigger self.free_ids@.contains(v)]
            #![trigger self.in_flight_ids@.contains(v)]
            v < self.size ==> self.in_flight_ids@.contains(v) || self.free_ids@.contains(v)
        &&& self.posted@.len() == self.size
        &&& forall|i: int| 0 <= i < self.size ==> #[trigger] self.posted@[i] == self.in_flight_ids@.contains(i as u16)
        &&& self.free_count > 0 ==> self.free_head == self.free_ids@[0]
        &&& forall|k: int|
            0 <= k < self.free_ids@.len() - 1 ==> (#[trigger] self.desc@[self.free_ids@[k] as int]).next
                == self.free_ids@[k + 1]
    }

    /// What the invariant says about the abstract state.
    pub proof fn lemma_wf(&self)
        requires
            self.wf(),
        ensures
            self@.size > 0,
            self@.descs.len() == self@.size,
            self@.avail.len() == self@.size,
            self@.bufs.len() == self@.size,
            self@.free.no_duplicates(),
            forall|k: int| 0 <= k < self@.free.len() ==> #[trigger] self@.free[k] < self@.size,
            self@.in_flight.finite(),
            forall|v: u16| #[trigger]
                self@.in_flight.contains(v) ==> v < self@.size && !self@.free.contains(v),
            self@.free.len() + self@.in_flight.len() == self@.size,
            self@.free.len() > 0 ==> self@.free_head == self@.free[0],
            forall|v: u16|
                #![trigger self@.free.contains(v)]
                #![trigger self@.in_flight.contains(v)]
                v < self@.size ==> self@.in_flight.contains(v) || self@.free.contains(v),
    {
    }

    /// Sizes in bytes of the DMA regions for the descriptor table, the
    /// available ring and the used ring of a queue with `size` entries.
    pub fn region_sizes(size: u16) -> (r: (usize, usize, usize))
        ensures
            r.0 % RING_ALIGN == 0 && size * DESC_BYTES <= r.0 < size * DESC_BYTES + RING_ALIGN,
            r.1 % RING_ALIGN == 0 && 4 + size * 2 + 2 <= r.1 < 4 + size * 2 + 2 + RING_ALIGN,
            r.2 % RING_ALIGN == 0 && 4 + size * 8 + 2 <= r.2 < 4 + size * 8 + 2 + RING_ALIGN,
    {
        let n: usize = size as usize;
        assert(is_pow2_usize(4096usize)) by (bit_vector);
        let desc_bytes = round_up(n * DESC_BYTES, RING_ALIGN);
        let avail_bytes = round_up(4 + n * 2 + 2, RING_ALIGN);
        let used_bytes = round_up(4 + n * 8 + 2, RING_ALIGN);
        proof {
            lemma_ring_aligned(desc_bytes);
            lemma_ring_aligned(avail_bytes);
            lemma_ring_aligned(used_bytes);
        }
        (desc_bytes, avail_bytes, used_bytes)
    }

    /// Creates the bookkeeping for a queue whose rings live at the given
    /// physical addresses. All descriptors start out free, linked in index
    /// order; both rings start zeroed.
    pub fn new(
        queue_index: u16,
        size: u16,
        notify_addr: u64,
        desc_phys: u64,
        avail_phys: u64,
        used_phys: u64,
    ) -> (q: Self)
        requires
            is_pow2_u16(size),
        ensures
            q.wf(),
            q@.size == size,
            q@.free == Seq::new(size as nat, |i: int| i as u16),
            q@.in_flight == Set::<u16>::empty(),
            q@.descs == Seq::new(
                size as nat,
                |i: int| Desc { addr: 0, len: 0, flags: 0, next: (i + 1) as u16 },
            ),
            q@.avail == Seq::new(size as nat, |i: int| 0u16),
            q@.bufs == Seq::new(size as nat, |i: int| (0u64, 0u32)),
            q@.published == 0 && q@.shadow == 0 && q@.last_used == 0,
            q@.free_head == 0,
            q@.desc_phys == desc_phys && q@.avail_phys == avail_phys && q@.used_phys == used_phys,
            q@.notify_addr == notify_addr,
            q@.queue_index == queue_index,
    {
        let mut desc: Vec<Desc> = Vec::new();
        let mut avail_ring: Vec<u16> = Vec::new();
        let mut bufs: Vec<(u64, u32)> = Vec::new();
        let mut posted: Vec<bool> = Vec::new();
        let mut i: u16 = 0;
        while i < size
            invariant
                i <= size,
                desc@.len() == i,
                avail_ring@.len() == i,
                bufs@.len() == i,
                posted@.len() == i,
                forall|j: int| 0 <= j < i ==> !#[trigger] posted@[j],
                forall|j: int|
                    0 <= j < i ==> #[trigger] desc@[j] == (Desc {
                        addr: 0,
                        len: 0,
                        flags: 0,
                        next: (j + 1) as u16,
                    }),
                forall|j: int| 0 <= j < i ==> #[trigger] avail_ring@[j] == 0u16,
                forall|j: int| 0 <= j < i ==> #[trigger] bufs@[j] == (0u64, 0u32),
            decreases size - i,
        {
            desc.push(Desc { addr: 0, len: 0, flags: 0, next: i + 1 });
            avail_ring.push(0);
            bufs.push((0, 0));
            posted.push(false);
            i = i + 1;
        }
        let ghost free = Seq::new(size as nat, |i: int| i as u16);
        let q = VirtQueue {
            size,
            mask: size - 1,
            desc,
            avail_ring,
            avail_published: 0,
            free_head: 0,
            free_count: size,
            avail_idx_shadow: 0,
            last_used_idx: 0,
            bufs,
            desc_phys,
            avail_phys,
            used_phys,
            notify_addr,
            queue_index,
            posted,
            free_ids: Ghost(free),
            in_flight_ids: Ghost(Set::empty()),
        };
        proof {
            assert(free.no_duplicates());
            assert forall|v: u16| v < size implies #[trigger] free.contains(v) by {
                assert(free[v as int] == v);
            }
            assert forall|k: int| 0 <= k < free.len() - 1 implies (#[trigger] q.desc@[free[k] as int]).next
                == free[k + 1] by {}
            assert(q.desc@ =~= Seq::new(
                size as nat,
                |i: int| Desc { addr: 0, len: 0, flags: 0, next: (i + 1) as u16 },
            ));
            assert(q.avail_ring@ =~= Seq::new(size as nat, |i: int| 0u16));
            assert(q.bufs@ =~= Seq::new(size as nat, |i: int| (0u64, 0u32)));
        }
        q
    }

    pub fn size(&self) -> (r: u16)
        ensures
            r == self@.size,
    {
        self.size
    }

    pub fn desc_phys(&self) -> (r: u64)
        ensures
            r == self@.desc_phys,
    {
        self.desc_phys
    }

    pub fn avail_phys(&self) -> (r: u64)
        ensures
            r == self@.avail_phys,
    {
        self.avail_phys
    }

    pub fn used_phys(&self) -> (r: u64)
        ensures
            r == self@.used_phys,
    {
        self.used_phys
    }

    /// Number of descriptors that can still be posted.
    pub fn num_free(&self) -> (r: u16)
        requires
            self.wf(),
        ensures
            r == self@.free.len(),
    {
        self.free_count
    }

    /// Descriptor-table entry `id`, as the device must see it.
    pub fn desc_entry(&self, id: u16) -> (r: Desc)
        requires
            self.wf(),
            id < self@.size,
        ensures
            r == self@.descs[id as int],
    {
        self.desc[id as usize]
    }

    /// Available-ring entry `slot`, as the device must see it.
    pub fn avail_entry(&self, slot: u16) -> (r: u16)
        requires
            self.wf(),
            slot < self@.size,
        ensures
            r == self@.avail[slot as int],
    {
        self.avail_ring[slot as usize]
    }

    /// The available index that the device has been shown.
    pub fn published_idx(&self) -> (r: u16)
        ensures
            r == self@.published,
    {
        self.avail_published
    }

    /// The used index up to which completions have been consumed.
    pub fn last_used_idx(&self) -> (r: u16)
        ensures
            r == self@.last_used,
    {
        self.last_used_idx
    }

    /// Takes the head of the free list.
    fn alloc_desc(&mut self) -> (id: u16)
        requires
            old(self).wf(),
            old(self)@.free.len() > 0,
        ensures
            final(self).wf(),
            id == old(self)@.free[0],
            final(self)@ == (QueueState {
                free: old(self)@.free.drop_first(),
                free_head: old(self)@.descs[id as int].next,
                in_flight: old(self)@.in_flight.insert(id),
                ..old(self)@
            }),
    {
        let ghost old_free = self.free_ids@;
        let id = self.free_head;
        self.free_head = self.desc[id as usize].next;
        self.free_count = self.free_count - 1;
        proof {
            assert(old_free.contains(id));
        }
        self.posted.set(id as usize, true);
        proof {
            assert(old_free[0] == id);
            assert(!self.in_flight_ids@.contains(id)) by {
                assert(old_free.contains(id));
            }
            self.free_ids@ = old_free.drop_first();
            self.in_flight_ids@ = self.in_flight_ids@.insert(id);
            if old_free.len() > 1 {
                assert(self.desc@[old_free[0] as int].next == old_free[1]);
            }
            assert forall|k: int|
                0 <= k < self.free_ids@.len() - 1 implies (#[trigger] self.desc@[self.free_ids@[k] as int]).next
                == self.free_ids@[k + 1] by {
                assert(self.free_ids@[k] == old_free[k + 1]);
                assert(self.desc@[old_free[k + 1] as int].next == old_free[k + 2]);
            }
            assert forall|v: u16| #[trigger]
                self.in_flight_ids@.contains(v) implies v < self.size && !self.free_ids@.contains(v) by {
                if v == id {
                    if self.free_ids@.contains(v) {
                        let k = choose|k: int| 0 <= k < self.free_ids@.len() && self.free_ids@[k] == v;
                        assert(old_free[k + 1] == old_free[0]);
                    }
                } else {
                    if self.free_ids@.contains(v) {
                        let k = choose|k: int| 0 <= k < self.free_ids@.len() && self.free_ids@[k] == v;
                        assert(old_free[k + 1] == v);
                    }
                }
            }
            assert forall|k: int| 0 <= k < self.free_ids@.len() implies #[trigger] self.free_ids@[k]
                < self.size by {
                assert(old_free[k + 1] < self.size);
            }
            assert forall|v: u16| v < self.size implies self.in_flight_ids@.contains(v)
                || self.free_ids@.contains(v) by {
                if v != id && old_free.contains(v) {
                    let k = choose|k: int| 0 <= k < old_free.len() && old_free[k] == v;
                    assert(k > 0);
                    assert(self.free_ids@[k - 1] == v);
                }
            }
        }
        id
    }

    /// Returns descriptor `id` to the head of the free list.
    fn free_desc(&mut self, id: u16)
        requires
            old(self).wf(),
            old(self)@.in_flight.contains(id),
        ensures
            final(self).wf(),
            final(self)@ == (QueueState {
                descs: old(self)@.descs.update(
                    id as int,
                    with_next(old(self)@.descs[id as int], old(self)@.free_head),
                ),
                free: seq![id] + old(self)@.free,
                free_head: id,
                in_flight: old(self)@.in_flight.remove(id),
                ..old(self)@
            }),
    {
        let ghost old_free = self.free_ids@;
        let ghost old_desc = self.desc@;
        let d = self.desc[id as usize];
        self.desc.set(id as usize, Desc { addr: d.addr, len: d.len, flags: d.flags, next: self.free_head });
        self.free_head = id;
        self.posted.set(id as usize, false);
        assert(self.in_flight_ids@.len() >= 1) by {
            assert(self.in_flight_ids@.remove(id).len() == self.in_flight_ids@.len() - 1);
        }
        self.free_count = self.free_count + 1;
        proof {
            let new_free = seq![id] + old_free;
            self.free_ids@ = new_free;
            self.in_flight_ids@ = self.in_flight_ids@.remove(id);
            assert(new_free[0] == id);
            assert forall|k: int| 0 <= k < new_free.len() implies #[trigger] new_free[k] < self.size by {
                if k > 0 {
                    assert(new_free[k] == old_free[k - 1]);
                }
            }
            assert(new_free.no_duplicates()) by {
                assert forall|i: int, j: int|
                    0 <= i < new_free.len() && 0 <= j < new_free.len() && i != j implies new_free[i]
                    != new_free[j] by {
                    if i == 0 {
                        assert(new_free[j] == old_free[j - 1]);
                        assert(old_free.contains(new_free[j]));
                    } else if j == 0 {
                        assert(new_free[i] == old_free[i - 1]);
                        assert(old_free.contains(new_free[i]));
                    } else {
                        assert(new_free[i] == old_free[i - 1]);
                        assert(new_free[j] == old_free[j - 1]);
                    }
                }
            }
            assert forall|k: int|
                0 <= k < new_free.len() - 1 implies (#[trigger] self.desc@[new_free[k] as int]).next
                == new_free[k + 1] by {
                if k == 0 {
                    assert(new_free[1] == old_free[0]);
                } else {
                    assert(new_free[k] == old_free[k - 1]);
                    assert(new_free[k + 1] == old_free[k]);
                    assert(old_free.contains(old_free[k - 1]));
                    assert(old_free[k - 1] != id);
                    assert(old_desc[old_free[k - 1] as int].next == old_free[k]);
                }
            }
            assert forall|v: u16| v < self.size implies self.in_flight_ids@.contains(v)
                || new_free.contains(v) by {
                if v == id {
                    assert(new_free[0] == v);
                } else if old_free.contains(v) {
                    let k = choose|k: int| 0 <= k < old_free.len() && old_free[k] == v;
                    assert(new_free[k + 1] == v);
                }
            }
            assert forall|v: u16| #[trigger]
                self.in_flight_ids@.contains(v) implies v < self.size && !new_free.contains(v) by {
                assert(v != id);
                if new_free.contains(v) {
                    let k = choose|k: int| 0 <= k < new_free.len() && new_free[k] == v;
                    assert(k > 0);
                    assert(old_free[k - 1] == v);
                }
            }
            assert(self.desc@ =~= old_desc.update(id as int, with_next(old_desc[id as int], old(self)@.free_head)));
        }
    }

    /// Moves the free descriptor `id` to the front of the free list.
    fn move_to_front(&mut self, id: u16)
        requires
            old(self).wf(),
            id < old(self)@.size,
            !old(self)@.in_flight.contains(id),
        ensures
            final(self).wf(),
            final(self)@ == to_front(old(self)@, id),
    {
        let ghost old_free = self.free_ids@;
        let ghost old_desc = self.desc@;
        assert(old_free.contains(id));
        let ghost j = free_pos(self@, id);
        assert(0 <= j < old_free.len() && old_free[j] == id);
        if self.free_head == id {
            proof {
                assert(j == 0) by {
                    assert(old_free[0] == id);
                }
                assert(seq![id] + old_free.remove(0) =~= old_free);
            }
            return;
        }
        assert(j > 0);
        let mut prev = self.free_head;
        let ghost mut k: int = 0;
        while self.desc[prev as usize].next != id
            invariant
                self.wf(),
                self.free_ids@ == old_free,
                0 <= j < old_free.len(),
                old_free[j] == id,
                0 <= k < j,
                prev == old_free[k],
            decreases j - k,
        {
            proof {
                assert(self.desc@[old_free[k] as int].next == old_free[k + 1]);
                if k + 1 == j {
                    assert(false);
                }
            }
            prev = self.desc[prev as usize].next;
            proof {
                k = k + 1;
            }
        }
        proof {
            assert(self.desc@[old_free[k] as int].next == old_free[k + 1]);
            assert(k + 1 == j) by {
                if k + 1 != j {
                    assert(old_free[k + 1] == old_free[j]);
                }
            }
        }
        let after = self.desc[id as usize].next;
        let d = self.desc[prev as usize];
        self.desc.set(prev as usize, Desc { addr: d.addr, len: d.len, flags: d.flags, next: after });
        let e = self.desc[id as usize];
        self.desc.set(id as usize, Desc { addr: e.addr, len: e.len, flags: e.flags, next: self.free_head });
        self.free_head = id;
        proof {
            let rem = old_free.remove(j);
            let new_free = seq![id] + rem;
            self.free_ids@ = new_free;
            assert(prev != id);
            assert forall|t: int| 0 <= t < rem.len() implies #[trigger] rem[t] == (if t < j { old_free[t] } else {
                old_free[t + 1]
            }) by {}
            assert forall|a: int| 0 <= a < new_free.len() implies #[trigger] new_free[a] < self.size by {
                if a > 0 {
                    assert(new_free[a] == rem[a - 1]);
                }
            }
            assert(new_free.no_duplicates()) by {
                assert forall|a: int, b: int|
                    0 <= a < new_free.len() && 0 <= b < new_free.len() && a != b implies new_free[a]
                    != new_free[b] by {
                    if a == 0 {
                        assert(new_free[b] == rem[b - 1]);
                        if b - 1 < j {
                            assert(old_free[b - 1] != old_free[j]);
                        } else {
                            assert(old_free[b] != old_free[j]);
                        }
                    } else if b == 0 {
                        assert(new_free[a] == rem[a - 1]);
                        if a - 1 < j {
                            assert(old_free[a - 1] != old_free[j]);
                        } else {
                            assert(old_free[a] != old_free[j]);
                        }
                    } else {
                        assert(new_free[a] == rem[a - 1]);
                        assert(new_free[b] == rem[b - 1]);
                    }
                }
            }
            assert forall|a: int|
                0 <= a < new_free.len() - 1 implies (#[trigger] self.desc@[new_free[a] as int]).next
                == new_free[a + 1] by {
                if a == 0 {
                    assert(new_free[1] == rem[0]);
                    assert(rem[0] == old_free[0]);
                } else {
                    let t = a - 1;
                    assert(new_free[a] == rem[t]);
                    assert(new_free[a + 1] == rem[t + 1]);
                    if t + 1 < j {
                        assert(old_free[t] != prev) by {
                            assert(old_free[t] != old_free[j - 1]);
                        }
                        assert(old_free[t] != id) by {
                            assert(old_free[t] != old_free[j]);
                        }
                        assert(old_desc[old_free[t] as int].next == old_free[t + 1]);
                    } else if t + 1 == j {
                        assert(rem[t] == prev);
                        assert(old_desc[id as int].next == old_free[j + 1]);
                        assert(rem[t + 1] == old_free[j + 1]);
                    } else {
                        assert(old_free[t + 1] != prev) by {
                            assert(old_free[t + 1] != old_free[j - 1]);
                        }
                        assert(old_free[t + 1] != id) by {
                            assert(old_free[t + 1] != old_free[j]);
                        }
                        assert(old_desc[old_free[t + 1] as int].next == old_free[t + 2]);
                    }
                }
            }
            assert forall|v: u16| #[trigger]
                self.in_flight_ids@.contains(v) implies v < self.size && !new_free.contains(v) by {
                if new_free.contains(v) {
                    let a = choose|a: int| 0 <= a < new_free.len() && new_free[a] == v;
                    assert(a > 0);
                    assert(old_free.contains(rem[a - 1]));
                }
            }
            assert forall|v: u16| v < self.size implies self.in_flight_ids@.contains(v)
                || new_free.contains(v) by {
                if !self.in_flight_ids@.contains(v) {
                    assert(old_free.contains(v));
                    let a = choose|a: int| 0 <= a < old_free.len() && old_free[a] == v;
                    if a < j {
                        assert(new_free[a + 1] == v);
                    } else if a == j {
                        assert(new_free[0] == v);
                    } else {
                        assert(new_free[a] == v);
                    }
                }
            }
            assert(self.desc@ =~= old_desc.update(prev as int, with_next(old_desc[prev as int], old_desc[id as int].next)).update(
                id as int,
                with_next(old_desc[id as int], old(self)@.free_head),
            ));
            assert(prev == old_free[j - 1]);
        }
    }

    /// Stages `id` in the next free slot of the available ring.
    fn push_avail(&mut self, desc_id: u16)
        requires
            old(self).wf(),
        ensures
            final(self).wf(),
            final(self)@ == (QueueState {
                avail: old(self)@.avail.update(ring_slot(old(self)@.shadow, old(self)@.size) as int, desc_id),
                shadow: old(self)@.shadow.wrapping_add(1),
                ..old(self)@
            }),
    {
        let slot = self.avail_idx_shadow & self.mask;
        let m = self.mask;
        let s = self.avail_idx_shadow;
        assert(s & m <= m) by (bit_vector);
        self.avail_ring.set(slot as usize, desc_id);
        self.avail_idx_shadow = self.avail_idx_shadow.wrapping_add(1);
    }

    /// Posts a device-writable buffer at virtual address `buf` (physical
    /// address `phys`) of `len` bytes. The entry is staged until `flush`.
    pub fn rx_add(&mut self, buf: u64, phys: u64, len: u32) -> (id: u16)
        requires
            old(self).wf(),
            old(self)@.free.len() > 0,
        ensures
            final(self).wf(),
            add_post(old(self)@, final(self)@, buf, phys, len, DESC_F_WRITE, id),
    {
        self.add_single(buf, phys, len, DESC_F_WRITE)
    }

    /// Posts a device-readable buffer at virtual address `buf` (physical
    /// address `phys`) holding `len` bytes. The entry is staged until `flush`.
    pub fn tx_add(&mut self, buf: u64, phys: u64, len: u32) -> (id: u16)
        requires
            old(self).wf(),
            old(self)@.free.len() > 0,
        ensures
            final(self).wf(),
            add_post(old(self)@, final(self)@, buf, phys, len, 0, id),
    {
        self.add_single(buf, phys, len, 0)
    }

    fn add_single(&mut self, buf: u64, phys: u64, len: u32, flags: u16) -> (id: u16)
        requires
            old(self).wf(),
            old(self)@.free.len() > 0,
        ensures
            final(self).wf(),
            add_post(old(self)@, final(self)@, buf, phys, len, flags, id),
    {
        let id = self.alloc_desc();
        let ghost mid = self.free_ids@;
        self.desc.set(id as usize, Desc { addr: phys, len, flags, next: 0 });
        self.bufs.set(id as usize, (buf, len));
        proof {
            assert forall|k: int|
                0 <= k < mid.len() - 1 implies (#[trigger] self.desc@[mid[k] as int]).next == mid[k
                + 1] by {
                assert(mid[k] != id) by {
                    assert(mid.contains(mid[k]));
                }
            }
        }
        self.push_avail(id);
        id
    }

    /// Posts the buffers in `parts` as one descriptor chain and stages its
    /// head in the available ring. Each part is (virtual address, physical
    /// address, length, device-writable). Returns the head descriptor.
    pub fn chain_add(&mut self, parts: &[(u64, u64, u32, bool)]) -> (head: u16)
        requires
            old(self).wf(),
            1 <= parts@.len() <= old(self)@.free.len(),
        ensures
            final(self).wf(),
            chain_post(old(self)@, final(self)@, parts@, head),
    {
        let ghost old_view = self@;
        let n = parts.len();
        let mut ids: Vec<u16> = Vec::new();
        let mut i: usize = 0;
        assert(old_view.free.skip(0) =~= old_view.free);
        assert(old_view.free.take(0).to_set() =~= Set::<u16>::empty());
        assert(old_view.in_flight.union(Set::<u16>::empty()) =~= old_view.in_flight);
        while i < n
            invariant
                self.wf(),
                i <= n,
                n == parts@.len(),
                n <= old_view.free.len(),
                ids@ == old_view.free.take(i as int),
                self@ == (QueueState {
                    free: old_view.free.skip(i as int),
                    free_head: if i == 0 {
                        old_view.free_head
                    } else {
                        old_view.descs[old_view.free[i - 1] as int].next
                    },
                    in_flight: old_view.in_flight.union(old_view.free.take(i as int).to_set()),
                    ..old_view
                }),
            decreases n - i,
        {
            let ghost before = self@;
            assert(before.free[0] == old_view.free[i as int]);
            let id = self.alloc_desc();
            ids.push(id);
            proof {
                assert(old_view.free.take(i + 1) =~= old_view.free.take(i as int).push(id));
                assert(old_view.free.skip(i + 1) =~= old_view.free.skip(i as int).drop_first());
                let t0 = old_view.free.take(i as int);
                let t1 = old_view.free.take(i + 1);
                assert forall|v: u16| t1.to_set().contains(v) <==> (t0.to_set().contains(v) || v == id) by {
                    if t1.to_set().contains(v) {
                        let k = choose|k: int| 0 <= k < t1.len() && #[trigger] t1[k] == v;
                        if k < i {
                            assert(t0[k] == v);
                        }
                    }
                    if t0.to_set().contains(v) {
                        let k = choose|k: int| 0 <= k < t0.len() && #[trigger] t0[k] == v;
                        assert(t1[k] == v);
                    }
                    if v == id {
                        assert(t1[i as int] == v);
                    }
                }
                assert(old_view.in_flight.union(t1.to_set())
                    =~= old_view.in_flight.union(t0.to_set()).insert(id));
            }
            i = i + 1;
        }
        let ghost mid = self@;
        let ghost ids_s = ids@;
        assert(ids_s.no_duplicates()) by {
            assert forall|a: int, b: int| 0 <= a < ids_s.len() && 0 <= b < ids_s.len() && a != b implies ids_s[a]
                != ids_s[b] by {
                assert(ids_s[a] == old_view.free[a]);
                assert(ids_s[b] == old_view.free[b]);
            }
        }
        let mut j: usize = 0;
        while j < n
            invariant
                j <= n,
                n == parts@.len(),
                n >= 1,
                ids@ == ids_s,
                ids_s.len() == n,
                ids_s.no_duplicates(),
                ids_s == old_view.free.take(n as int),
                forall|k: int| 0 <= k < n ==> #[trigger] ids_s[k] < self.size,
                mid.free == old_view.free.skip(n as int),
                forall|k: int| 0 <= k < mid.free.len() ==> !ids_s.contains(#[trigger] mid.free[k]),
                self.size == old_view.size,
                self.mask == self.size - 1,
                self.desc@.len() == self.size,
                self.bufs@.len() == self.size,
                self.avail_ring@ == old_view.avail,
                self.avail_published == old_view.published,
                self.avail_idx_shadow == old_view.shadow,
                self.last_used_idx == old_view.last_used,
                self.free_ids@ == mid.free,
                self.free_head == mid.free_head,
                self.free_count == mid.free.len(),
                self.in_flight_ids@ == mid.in_flight,
                self.posted@.len() == self.size,
                forall|x: int| 0 <= x < self.size ==> #[trigger] self.posted@[x] == mid.in_flight.contains(x as u16),
                self.desc_phys == old_view.desc_phys,
                self.avail_phys == old_view.avail_phys,
                self.used_phys == old_view.used_phys,
                self.notify_addr == old_view.notify_addr,
                self.queue_index == old_view.queue_index,
                forall|k: int| 0 <= k < j ==> #[trigger] self.desc@[ids_s[k] as int] == chain_desc(parts@, ids_s, k),
                forall|k: int| 0 <= k < j ==> #[trigger] self.bufs@[ids_s[k] as int] == (parts@[k].0, parts@[k].2),
                forall|x: int|
                    0 <= x < self.size && !ids_s.subrange(0, j as int).contains(x as u16)
                        ==> #[trigger] self.desc@[x] == old_view.descs[x],
                forall|x: int|
                    0 <= x < self.size && !ids_s.subrange(0, j as int).contains(x as u16)
                        ==> #[trigger] self.bufs@[x] == old_view.bufs[x],
            decreases n - j,
        {
            let id = ids[j];
            let (buf, phys, len, write) = parts[j];
            let has_next = j + 1 < n;
            let next = if has_next { ids[j + 1] } else { 0 };
            let flags = (if write { DESC_F_WRITE } else { 0 }) | (if has_next { DESC_F_NEXT } else { 0 });
            let ghost before_d = self.desc@;
            let ghost before_b = self.bufs@;
            self.desc.set(id as usize, Desc { addr: phys, len, flags, next });
            self.bufs.set(id as usize, (buf, len));
            proof {
                assert forall|k: int| 0 <= k < j + 1 implies #[trigger] self.desc@[ids_s[k] as int] == chain_desc(parts@, ids_s, k) by {
                    if k < j {
                        assert(ids_s[k] != id);
                    }
                }
                assert forall|k: int| 0 <= k < j + 1 implies #[trigger] self.bufs@[ids_s[k] as int] == (parts@[k].0, parts@[k].2) by {
                    if k < j {
                        assert(ids_s[k] != id);
                    }
                }
                assert forall|x: int|
                    0 <= x < self.size && !ids_s.subrange(0, j + 1).contains(x as u16)
                    implies !(#[trigger] ids_s.subrange(0, j as int).contains(x as u16)) && x != id as int by {
                    assert(ids_s.subrange(0, j + 1)[j as int] == id);
                    if ids_s.subrange(0, j as int).contains(x as u16) {
                        let k = choose|k: int| 0 <= k < j && ids_s.subrange(0, j as int)[k] == x as u16;
                        assert(ids_s.subrange(0, j + 1)[k] == x as u16);
                    }
                }
                assert forall|x: int|
                    0 <= x < self.size && !ids_s.subrange(0, j + 1).contains(x as u16)
                    implies #[trigger] self.desc@[x] == old_view.descs[x] by {
                    if x == id as int {
                        assert(ids_s.subrange(0, j + 1)[j as int] == (x as u16));
                    }
                    assert(before_d[x] == self.desc@[x]);
                }
                assert forall|x: int|
                    0 <= x < self.size && !ids_s.subrange(0, j + 1).contains(x as u16)
                    implies #[trigger] self.bufs@[x] == old_view.bufs[x] by {
                    if x == id as int {
                        assert(ids_s.subrange(0, j + 1)[j as int] == (x as u16));
                    }
                    assert(before_b[x] == self.bufs@[x]);
                }
            }
            j = j + 1;
        }
        proof {
            assert(ids_s.subrange(0, n as int) =~= ids_s);
            assert forall|k: int| 0 <= k < self.free_ids@.len() - 1 implies (#[trigger] self.desc@[self.free_ids@[k] as int]).next
                == self.free_ids@[k + 1] by {
                let v = self.free_ids@[k];
                assert(!ids_s.contains(v));
                assert(mid.descs[v as int].next == mid.free[k + 1]);
            }
        }
        let head = ids[0];
        self.push_avail(head);
        head
    }

    /// Makes every staged entry visible to the device. Returns the previously
    /// published index when something was staged (the new published index is
    /// the staged one), and `None` when there was nothing to publish.
    pub fn flush(&mut self) -> (r: Option<u16>)
        requires
            old(self).wf(),
        ensures
            final(self).wf(),
            old(self)@.shadow == old(self)@.published ==> r is None && final(self)@ == old(self)@,
            old(self)@.shadow != old(self)@.published ==> r == Some(old(self)@.published)
                && final(self)@ == (QueueState { published: old(self)@.shadow, ..old(self)@ }),
    {
        let published_before = self.avail_published;
        if self.avail_idx_shadow == published_before {
            return None;
        }
        self.avail_published = self.avail_idx_shadow;
        Some(published_before)
    }

    /// Whether the device must be notified after publishing the entries
    /// between `old_idx` and the staged index, given the event index the
    /// device wrote into the used ring.
    pub fn needs_notify(&self, old_idx: u16, event: u16) -> (r: bool)
        ensures
            r == event_in_window(event, old_idx, self@.shadow),
    {
        let new_idx = self.avail_idx_shadow;
        let r = new_idx.wrapping_sub(event).wrapping_sub(1) < new_idx.wrapping_sub(old_idx);
        assert(r == (event.wrapping_sub(old_idx) < new_idx.wrapping_sub(old_idx))) by (bit_vector)
            requires
                r == (new_idx.wrapping_sub(event).wrapping_sub(1) < new_idx.wrapping_sub(old_idx)),
        ;
        r
    }

    /// The used-ring slot holding the next completion to consume.
    pub fn used_slot(&self) -> (r: u16)
        requires
            self.wf(),
        ensures
            r == ring_slot(self@.last_used, self@.size),
            r < self@.size,
    {
        let m = self.mask;
        let l = self.last_used_idx;
        assert(l & m <= m) by (bit_vector);
        self.last_used_idx & self.mask
    }

    /// Whether the completions the device reported after the last consumed
    /// one (`used_idx` is the device's used index and `used` the used ring)
    /// name distinct descriptors that the device owns.
    pub fn completions_valid(&self, used_idx: u16, used: &[UsedElem]) -> (r: bool)
        requires
            self.wf(),
        ensures
            r == valid_completions(self@, used_idx, used@),
    {
        if used.len() != self.size as usize {
            return false;
        }
        let ghost ids = pending_ids(self@, used_idx, used@);
        let n = used_idx.wrapping_sub(self.last_used_idx);
        let mut k: u16 = 0;
        while k < n
            invariant
                self.wf(),
                used@.len() == self@.size,
                ids == pending_ids(self@, used_idx, used@),
                n == ids.len(),
                k <= n,
                forall|a: int| 0 <= a < k ==> self@.in_flight.contains(#[trigger] ids[a]),
                forall|a: int, b: int| 0 <= a < b < k ==> #[trigger] ids[a] != #[trigger] ids[b],
            decreases n - k,
        {
            let id = used[self.ring_pos(k) as usize].id as u16;
            if id >= self.size || !self.posted[id as usize] {
                assert(!self@.in_flight.contains(ids[k as int]));
                return false;
            }
            let mut j: u16 = 0;
            while j < k
                invariant
                    self.wf(),
                    used@.len() == self@.size,
                    ids == pending_ids(self@, used_idx, used@),
                    n == ids.len(),
                    j <= k < n,
                    id == ids[k as int],
                    forall|a: int| 0 <= a < j ==> #[trigger] ids[a] != id,
                decreases k - j,
            {
                if used[self.ring_pos(j) as usize].id as u16 == id {
                    assert(ids[j as int] == ids[k as int]);
                    return false;
                }
                j = j + 1;
            }
            k = k + 1;
        }
        true
    }

    /// The ring slot of the completion `k` places after the last consumed one.
    fn ring_pos(&self, k: u16) -> (r: u16)
        requires
            self.wf(),
        ensures
            r == ring_slot(wrap16(self@.last_used + k), self@.size),
            r < self@.size,
    {
        let idx = self.last_used_idx.wrapping_add(k);
        let m = self.mask;
        assert(idx & m <= m) by (bit_vector);
        idx & m
    }

    /// Consumes one completion. `used_idx` is the device's used index and
    /// `elem` the used-ring element at `used_slot()`. When a completion is
    /// pending, its descriptor is put back at the front of the free list and
    /// the buffer it carried is returned together with the length the device
    /// reported. The completed descriptor must exist.
    pub fn pop_used(&mut self, used_idx: u16, elem: UsedElem) -> (r: Option<(u64, u32)>)
        requires
            old(self).wf(),
            used_idx != old(self)@.last_used ==> (elem.id as u16) < old(self)@.size,
        ensures
            final(self).wf(),
            pop_post(old(self)@, final(self)@, used_idx, elem, r),
    {
        if self.last_used_idx == used_idx {
            return None;
        }
        let id = elem.id as u16;
        let (buf, _cap) = self.bufs[id as usize];
        if self.posted[id as usize] {
            self.free_desc(id);
        } else {
            self.move_to_front(id);
        }
        self.last_used_idx = self.last_used_idx.wrapping_add(1);
        Some((buf, elem.len))
    }
}

} // verus!
