use vstd::prelude::*;
use vstd::string::StringExecFns;
use std::collections::VecDeque;

use crate::media::PixelFormatKind;

verus! {

/// One video frame waiting to be sent.
#[derive(Debug, Clone)]
pub struct VideoJob {
    pub width: u32,
    pub height: u32,
    pub stride: i32,
    pub rgba: Vec<u8>,
    pub pixel_format: PixelFormatKind,
    pub timecode: i64,
    pub fps_n: i32,
    pub fps_d: i32,
}

/// A drop counter after one more drop: it wraps around as an atomic `fetch_add` does.
pub open spec fn bump(d: u64) -> u64 {
    ((d + 1) % 0x1_0000_0000_0000_0000int) as u64
}

fn bump_exec(d: u64) -> (r: u64)
    ensures
        r == bump(d),
{
    d.wrapping_add(1)
}

/// A slot that holds at most the newest item: a push replaces what was there and counts it
/// as dropped.
#[derive(Debug)]
pub struct LatestSlot<T> {
    slot: Option<T>,
    drops: u64,
}

/// What a `LatestSlot` holds: the waiting item and how many items were replaced unread.
pub struct SlotView<T> {
    pub item: Option<T>,
    pub drops: u64,
}

impl<T> View for LatestSlot<T> {
    type V = SlotView<T>;

    closed spec fn view(&self) -> SlotView<T> {
        SlotView { item: self.slot, drops: self.drops }
    }
}

/// The slot after `item` was pushed into it.
pub open spec fn slot_after_push<T>(v: SlotView<T>, item: T) -> SlotView<T> {
    SlotView {
        item: Some(item),
        drops: if v.item is Some {
            bump(v.drops)
        } else {
            v.drops
        },
    }
}

impl<T> LatestSlot<T> {
    pub fn new() -> (r: Self)
        ensures
            r@.item is None,
            r@.drops == 0,
    {
        LatestSlot { slot: None, drops: 0 }
    }

    /// Puts `item` in the slot; an item still waiting there is dropped.
    pub fn push(&mut self, item: T)
        ensures
            final(self)@ == slot_after_push(old(self)@, item),
    {
        let previous = self.slot.take();
        self.slot = Some(item);
        if previous.is_some() {
            self.drops = bump_exec(self.drops);
        }
    }

    /// Takes the waiting item, if any, and leaves the slot empty.
    pub fn take(&mut self) -> (r: Option<T>)
        ensures
            r == old(self)@.item,
            final(self)@.item is None,
            final(self)@.drops == old(self)@.drops,
    {
        self.slot.take()
    }

    /// Empties the slot without counting a drop.
    pub fn clear(&mut self)
        ensures
            final(self)@.item is None,
            final(self)@.drops == old(self)@.drops,
    {
        let _ = self.take();
    }

    /// The number of waiting items: 0 or 1.
    pub fn len(&self) -> (r: usize)
        ensures
            r == (if self@.item is Some {
                1usize
            } else {
                0usize
            }),
    {
        if self.slot.is_some() {
            1
        } else {
            0
        }
    }

    pub fn is_empty(&self) -> (r: bool)
        ensures
            r == (self@.item is None),
    {
        self.len() == 0
    }

    /// How many items were replaced before anyone took them.
    pub fn drops(&self) -> (r: u64)
        ensures
            r == self@.drops,
    {
        self.drops
    }
}

impl<T> Default for LatestSlot<T> {
    fn default() -> (r: Self)
        ensures
            r@.item is None,
            r@.drops == 0,
    {
        Self::new()
    }
}

} // verus!

verus! {

/// A bounded queue of items for a worker: an item that finds the queue full, or its receiving
/// side gone, is dropped and counted, never waited for.
#[derive(Debug)]
pub struct DropSender<T> {
    queue: VecDeque<T>,
    capacity: usize,
    drops: u64,
    queued: usize,
    closed: bool,
}

/// What a `DropSender` holds: the queued items, oldest first, the most it queues, how many
/// items it refused, its count of accepted items, and whether the receiving side is gone.
pub struct QueueView<T> {
    pub items: Seq<T>,
    pub capacity: nat,
    pub drops: u64,
    pub queued: usize,
    pub closed: bool,
}

impl<T> View for DropSender<T> {
    type V = QueueView<T>;

    closed spec fn view(&self) -> QueueView<T> {
        QueueView {
            items: self.queue@,
            capacity: self.capacity as nat,
            drops: self.drops,
            queued: self.queued,
            closed: self.closed,
        }
    }
}

impl<T> DropSender<T> {
    #[verifier::type_invariant]
    spec fn within_capacity(&self) -> bool {
        &&& 1 <= self.capacity
        &&& self.queue@.len() <= self.capacity
        &&& self.closed ==> self.queue@.len() == 0
    }
}

/// What every queue satisfies: room for at least one item, never more items than its
/// capacity, and nothing left in it once its receiving side is gone.
pub open spec fn queue_wf<T>(v: QueueView<T>) -> bool {
    &&& 1 <= v.capacity
    &&& v.items.len() <= v.capacity
    &&& v.closed ==> v.items.len() == 0
}

/// The capacity of a channel asked for with `depth`: at least one.
pub open spec fn channel_capacity(depth: usize) -> nat {
    if depth < 1 {
        1
    } else {
        depth as nat
    }
}

/// A fresh channel asked for with `depth`.
pub open spec fn fresh_queue<T>(depth: usize) -> QueueView<T> {
    QueueView {
        items: Seq::empty(),
        capacity: channel_capacity(depth),
        drops: 0,
        queued: 0,
        closed: false,
    }
}

/// An accepted-items counter after one more item: it wraps around as an atomic `fetch_add` does.
pub open spec fn bump_count(q: usize) -> usize {
    ((q + 1) % (usize::MAX as int + 1)) as usize
}

/// An accepted-items counter after one item was taken off: it wraps around as an atomic
/// `fetch_sub` does.
pub open spec fn unbump_count(q: usize) -> usize {
    if q == 0 {
        usize::MAX
    } else {
        (q - 1) as usize
    }
}

/// Whether a send into `v` is accepted: the receiving side is there and the queue has room.
pub open spec fn accepts<T>(v: QueueView<T>) -> bool {
    !v.closed && v.items.len() < v.capacity
}

/// The queue after an attempt to send `item`: queued and counted as accepted where it is
/// accepted, else counted as dropped.
pub open spec fn queue_after_send<T>(v: QueueView<T>, item: T) -> QueueView<T> {
    if accepts(v) {
        QueueView { items: v.items.push(item), queued: bump_count(v.queued), ..v }
    } else {
        QueueView { drops: bump(v.drops), ..v }
    }
}

/// The queue after its oldest item, if any, was received.
pub open spec fn queue_after_recv<T>(v: QueueView<T>) -> QueueView<T> {
    if v.items.len() > 0 {
        QueueView { items: v.items.drop_first(), ..v }
    } else {
        v
    }
}

/// An empty channel that queues at most `max(depth, 1)` items, with its counts at zero.
pub fn drop_channel<T>(depth: usize) -> (r: DropSender<T>)
    ensures
        r@ == fresh_queue::<T>(depth),
        r@.capacity == (if depth < 1 {
            1nat
        } else {
            depth as nat
        }),
        r@.items.len() == 0,
        r@.drops == 0,
        r@.queued == 0,
        !r@.closed,
{
    let capacity: usize = if depth < 1 {
        1
    } else {
        depth
    };
    DropSender { queue: VecDeque::new(), capacity, drops: 0, queued: 0, closed: false }
}

fn bump_count_exec(q: usize) -> (r: usize)
    ensures
        r == bump_count(q),
{
    proof {
        let m: int = usize::MAX as int + 1;
        vstd::arithmetic::div_mod::lemma_mod_self_0(m);
        if q < usize::MAX {
            vstd::arithmetic::div_mod::lemma_small_mod((q + 1) as nat, m as nat);
        }
    }
    if q == usize::MAX {
        0
    } else {
        q + 1
    }
}

impl<T> DropSender<T> {
    /// Queues `item` where the receiving side is there and the queue has room, counts it as
    /// accepted and returns `true`; otherwise drops it, counts the drop and returns `false`.
    pub fn try_send(&mut self, item: T) -> (r: bool)
        ensures
            r == accepts(old(self)@),
            final(self)@ == queue_after_send(old(self)@, item),
            queue_wf(final(self)@),
    {
        proof {
            use_type_invariant(&*self);
        }
        if !self.closed && self.queue.len() < self.capacity {
            let mut queue = VecDeque::new();
            std::mem::swap(&mut queue, &mut self.queue);
            queue.push_back(item);
            self.queue = queue;
            self.queued = bump_count_exec(self.queued);
            true
        } else {
            self.drops = bump_exec(self.drops);
            false
        }
    }

    /// Takes the oldest queued item, if any. The accepted-items count is left as it is.
    pub fn try_recv(&mut self) -> (r: Option<T>)
        ensures
            r == (if old(self)@.items.len() > 0 {
                Some(old(self)@.items[0])
            } else {
                None
            }),
            final(self)@ == queue_after_recv(old(self)@),
            queue_wf(final(self)@),
    {
        proof {
            use_type_invariant(&*self);
        }
        let mut queue = VecDeque::new();
        std::mem::swap(&mut queue, &mut self.queue);
        let r = queue.pop_front();
        self.queue = queue;
        r
    }

    /// Lowers the accepted-items count by one, as the worker does for each item it took.
    pub fn note_received(&mut self)
        ensures
            final(self)@ == (QueueView { queued: unbump_count(old(self)@.queued), ..old(self)@ }),
            final(self)@.queued == ((old(self)@.queued + usize::MAX) % (usize::MAX as int
                + 1)) as usize,
            final(self)@.items == old(self)@.items,
            final(self)@.drops == old(self)@.drops,
    {
        proof {
            use_type_invariant(&*self);
            lemma_count_step_back(self.queued);
        }
        self.queued = if self.queued == 0 {
            usize::MAX
        } else {
            self.queued - 1
        };
    }

    /// The receiving side goes away: what waits is discarded, and every later send is dropped.
    pub fn close(&mut self)
        ensures
            final(self)@ == (QueueView { items: Seq::empty(), closed: true, ..old(self)@ }),
    {
        proof {
            use_type_invariant(&*self);
        }
        self.queue = VecDeque::new();
        self.closed = true;
    }

    /// How many items were refused.
    pub fn drops(&self) -> (r: u64)
        ensures
            r == self@.drops,
    {
        self.drops
    }

    /// The accepted-items count: raised by each accepted send, lowered by `note_received`.
    pub fn queued(&self) -> (r: usize)
        ensures
            r == self@.queued,
    {
        self.queued
    }

    /// How many items wait in the queue now.
    pub fn len(&self) -> (r: usize)
        ensures
            r == self@.items.len(),
            queue_wf(self@),
    {
        proof {
            use_type_invariant(self);
        }
        self.queue.len()
    }

    /// Whether the receiving side is gone.
    pub fn is_closed(&self) -> (r: bool)
        ensures
            r == self@.closed,
    {
        self.closed
    }
}

} // verus!

verus! {

/// The slot after each item of `xs` was pushed, first to last.
pub open spec fn slot_after_pushes<T>(v: SlotView<T>, xs: Seq<T>) -> SlotView<T>
    decreases xs.len(),
{
    if xs.len() == 0 {
        v
    } else {
        slot_after_push(slot_after_pushes(v, xs.drop_last()), xs.last())
    }
}

/// The queue after an attempt to send each item of `xs`, first to last.
pub open spec fn queue_after_sends<T>(v: QueueView<T>, xs: Seq<T>) -> QueueView<T>
    decreases xs.len(),
{
    if xs.len() == 0 {
        v
    } else {
        queue_after_send(queue_after_sends(v, xs.drop_last()), xs.last())
    }
}

proof fn lemma_mod_step(d: u64, k: nat)
    ensures
        bump(((d + k) % 0x1_0000_0000_0000_0000int) as u64) == ((d + k + 1)
            % 0x1_0000_0000_0000_0000int) as u64,
{
    let m: int = 0x1_0000_0000_0000_0000int;
    vstd::arithmetic::div_mod::lemma_add_mod_noop(d + k, 1, m);
    vstd::arithmetic::div_mod::lemma_small_mod(1, m as nat);
    vstd::arithmetic::div_mod::lemma_mod_bound(d + k, m);
}

/// The newest item wins: after pushes of the items `xs` into a slot, the slot holds the last
/// of them, and every other one, together with any item that was waiting, counts as dropped.
pub proof fn lemma_latest_wins<T>(v: SlotView<T>, xs: Seq<T>)
    requires
        xs.len() > 0,
    ensures
        slot_after_pushes(v, xs).item == Some(xs.last()),
        slot_after_pushes(v, xs).drops == ((v.drops + (if v.item is Some {
            xs.len()
        } else {
            (xs.len() - 1) as nat
        })) % 0x1_0000_0000_0000_0000int) as u64,
    decreases xs.len(),
{
    let m: int = 0x1_0000_0000_0000_0000int;
    let p = xs.drop_last();
    if p.len() == 0 {
        assert(slot_after_pushes(v, p) == v);
        vstd::arithmetic::div_mod::lemma_small_mod(v.drops as nat, m as nat);
        if v.item is Some {
            lemma_mod_step(v.drops, 0);
        }
    } else {
        lemma_latest_wins(v, p);
        let k: nat = if v.item is Some {
            p.len()
        } else {
            (p.len() - 1) as nat
        };
        lemma_mod_step(v.drops, k);
    }
}

proof fn lemma_count_mod_step(q: usize, k: nat)
    ensures
        bump_count(((q + k) % (usize::MAX as int + 1)) as usize) == ((q + k + 1) % (usize::MAX as int
            + 1)) as usize,
{
    let m: int = usize::MAX as int + 1;
    vstd::arithmetic::div_mod::lemma_add_mod_noop(q + k, 1, m);
    vstd::arithmetic::div_mod::lemma_small_mod(1, m as nat);
    vstd::arithmetic::div_mod::lemma_mod_bound(q + k, m);
}

/// A full queue refuses and a queue with room accepts: sending the items `xs` into a queue
/// whose receiving side is there queues the first ones that fit, in order, counts them as
/// accepted, and counts every other one as dropped.
pub proof fn lemma_sends_fill_then_drop<T>(v: QueueView<T>, xs: Seq<T>)
    requires
        queue_wf(v),
        !v.closed,
    ensures
        ({
            let room: nat = (v.capacity - v.items.len()) as nat;
            let k: nat = if xs.len() < room {
                xs.len()
            } else {
                room
            };
            let w = queue_after_sends(v, xs);
            &&& w.items == v.items + xs.take(k as int)
            &&& w.drops == ((v.drops + (xs.len() - k)) % 0x1_0000_0000_0000_0000int) as u64
            &&& w.queued == ((v.queued + k) % (usize::MAX as int + 1)) as usize
            &&& w.capacity == v.capacity
            &&& w.closed == v.closed
        }),
    decreases xs.len(),
{
    let m: int = 0x1_0000_0000_0000_0000int;
    let mq: int = usize::MAX as int + 1;
    let room: nat = (v.capacity - v.items.len()) as nat;
    if xs.len() == 0 {
        assert(v.items + xs.take(0) =~= v.items);
        vstd::arithmetic::div_mod::lemma_small_mod(v.drops as nat, m as nat);
        vstd::arithmetic::div_mod::lemma_small_mod(v.queued as nat, mq as nat);
    } else {
        let p = xs.drop_last();
        lemma_sends_fill_then_drop(v, p);
        let kp: nat = if p.len() < room {
            p.len()
        } else {
            room
        };
        if p.len() < room {
            assert(v.items + p.take(kp as int) + seq![xs.last()] =~= v.items + xs.take(
                xs.len() as int,
            ));
            vstd::arithmetic::div_mod::lemma_small_mod(v.drops as nat, m as nat);
            lemma_count_mod_step(v.queued, kp);
        } else {
            assert(p.take(room as int) =~= xs.take(room as int));
            lemma_mod_step(v.drops, (p.len() - kp) as nat);
        }
    }
}

/// A fresh channel asked for with `depth` accepts the first `max(depth, 1)` items sent into it
/// and drops every later one while nothing is received.
pub proof fn lemma_fresh_channel_fills<T>(depth: usize, xs: Seq<T>)
    ensures
        ({
            let c: nat = if depth < 1 {
                1
            } else {
                depth as nat
            };
            let k: nat = if xs.len() < c {
                xs.len()
            } else {
                c
            };
            let w = queue_after_sends(fresh_queue::<T>(depth), xs);
            &&& w.items == xs.take(k as int)
            &&& w.items.len() == k
            &&& w.queued == k
            &&& w.drops == ((xs.len() - k) % 0x1_0000_0000_0000_0000int) as u64
            &&& w.capacity == c
            &&& (xs.len() <= c ==> w.drops == 0 && w.items == xs)
        }),
{
    let f = fresh_queue::<T>(depth);
    lemma_sends_fill_then_drop(f, xs);
    let c: nat = channel_capacity(depth);
    let k: nat = if xs.len() < c {
        xs.len()
    } else {
        c
    };
    assert(f.items + xs.take(k as int) =~= xs.take(k as int));
    vstd::arithmetic::div_mod::lemma_small_mod(k, (usize::MAX as int + 1) as nat);
    if xs.len() <= c {
        assert(xs.take(k as int) =~= xs);
        vstd::arithmetic::div_mod::lemma_small_mod(0, 0x1_0000_0000_0000_0000nat);
    }
}

proof fn lemma_count_step_back(q: usize)
    ensures
        unbump_count(q) == ((q + usize::MAX) % (usize::MAX as int + 1)) as usize,
{
    let m: int = usize::MAX as int + 1;
    if q == 0 {
        vstd::arithmetic::div_mod::lemma_small_mod(usize::MAX as nat, m as nat);
    } else {
        vstd::arithmetic::div_mod::lemma_mod_add_multiples_vanish(q - 1, m);
        vstd::arithmetic::div_mod::lemma_small_mod((q - 1) as nat, m as nat);
        assert(q + usize::MAX == m + (q - 1));
    }
}

/// The accepted-items count moves by one each way: an accepted send raises it by one and a
/// noted receive lowers it by one, both wrapping at the ends of `usize`, so the one undoes the
/// other.
pub proof fn lemma_count_moves_by_one(q: usize)
    ensures
        bump_count(q) == (if q == usize::MAX {
            0
        } else {
            q + 1
        }),
        unbump_count(q) == (if q == 0 {
            usize::MAX
        } else {
            (q - 1) as usize
        }),
        unbump_count(q) == ((q + usize::MAX) % (usize::MAX as int + 1)) as usize,
        unbump_count(bump_count(q)) == q,
        bump_count(unbump_count(q)) == q,
{
    let m: int = usize::MAX as int + 1;
    vstd::arithmetic::div_mod::lemma_mod_self_0(m);
    if q < usize::MAX {
        vstd::arithmetic::div_mod::lemma_small_mod((q + 1) as nat, m as nat);
    }
    if q > 0 {
        vstd::arithmetic::div_mod::lemma_small_mod(q as nat, m as nat);
    }
    lemma_count_step_back(q);
}

/// For any queue, an accepted send followed by a noted receive leaves the accepted-items count
/// where it was, and a noted receive lowers a positive count by exactly one.
pub proof fn lemma_send_then_note_received<T>(v: QueueView<T>, x: T)
    requires
        accepts(v),
    ensures
        queue_after_send(v, x).queued == (if v.queued == usize::MAX {
            0
        } else {
            v.queued + 1
        }),
        unbump_count(queue_after_send(v, x).queued) == v.queued,
        v.queued > 0 ==> unbump_count(v.queued) == v.queued - 1,
{
    lemma_count_moves_by_one(v.queued);
}

/// One step that a sender or the receiver takes on a queue.
pub enum QueueOp<T> {
    Send(T),
    Recv,
}

/// The queue after one step.
pub open spec fn queue_after_op<T>(v: QueueView<T>, op: QueueOp<T>) -> QueueView<T> {
    match op {
        QueueOp::Send(x) => queue_after_send(v, x),
        QueueOp::Recv => queue_after_recv(v),
    }
}

/// The queue after each step of `ops`, first to last.
pub open spec fn queue_after_ops<T>(v: QueueView<T>, ops: Seq<QueueOp<T>>) -> QueueView<T>
    decreases ops.len(),
{
    if ops.len() == 0 {
        v
    } else {
        queue_after_op(queue_after_ops(v, ops.drop_last()), ops.last())
    }
}

/// The items of the sends in `ops` that the queue accepted, in the order they were sent.
pub open spec fn accepted_in<T>(v: QueueView<T>, ops: Seq<QueueOp<T>>) -> Seq<T>
    decreases ops.len(),
{
    if ops.len() == 0 {
        Seq::empty()
    } else {
        let p = ops.drop_last();
        let w = queue_after_ops(v, p);
        match ops.last() {
            QueueOp::Send(x) => if accepts(w) {
                accepted_in(v, p).push(x)
            } else {
                accepted_in(v, p)
            },
            QueueOp::Recv => accepted_in(v, p),
        }
    }
}

/// The items that the receives in `ops` gave, in the order they were received.
pub open spec fn received_in<T>(v: QueueView<T>, ops: Seq<QueueOp<T>>) -> Seq<T>
    decreases ops.len(),
{
    if ops.len() == 0 {
        Seq::empty()
    } else {
        let p = ops.drop_last();
        let w = queue_after_ops(v, p);
        match ops.last() {
            QueueOp::Send(x) => received_in(v, p),
            QueueOp::Recv => if w.items.len() > 0 {
                received_in(v, p).push(w.items[0])
            } else {
                received_in(v, p)
            },
        }
    }
}

/// How many sends in `ops` the queue refused.
pub open spec fn refused_in<T>(v: QueueView<T>, ops: Seq<QueueOp<T>>) -> nat
    decreases ops.len(),
{
    if ops.len() == 0 {
        0
    } else {
        let p = ops.drop_last();
        let w = queue_after_ops(v, p);
        match ops.last() {
            QueueOp::Send(x) => if accepts(w) {
                refused_in(v, p)
            } else {
                refused_in(v, p) + 1
            },
            QueueOp::Recv => refused_in(v, p),
        }
    }
}

/// How many sends `ops` holds.
pub open spec fn sends_in<T>(ops: Seq<QueueOp<T>>) -> nat
    decreases ops.len(),
{
    if ops.len() == 0 {
        0
    } else {
        match ops.last() {
            QueueOp::Send(x) => sends_in(ops.drop_last()) + 1,
            QueueOp::Recv => sends_in(ops.drop_last()),
        }
    }
}

/// Sends and receives in any mix: the receiver gets what was waiting and then exactly the
/// accepted items, each once, in the order they were sent, and never a refused one; every send
/// is either accepted or refused; the drop count grows by the refused sends and the
/// accepted-items count by the accepted ones, both wrapping as atomics do.
pub proof fn lemma_mixed_sends_and_receives<T>(v: QueueView<T>, ops: Seq<QueueOp<T>>)
    requires
        queue_wf(v),
    ensures
        ({
            let w = queue_after_ops(v, ops);
            &&& queue_wf(w)
            &&& w.capacity == v.capacity
            &&& w.closed == v.closed
            &&& received_in(v, ops) + w.items == v.items + accepted_in(v, ops)
            &&& w.drops == ((v.drops + refused_in(v, ops)) % 0x1_0000_0000_0000_0000int) as u64
            &&& w.queued == ((v.queued + accepted_in(v, ops).len()) % (usize::MAX as int
                + 1)) as usize
            &&& accepted_in(v, ops).len() + refused_in(v, ops) == sends_in(ops)
        }),
    decreases ops.len(),
{
    let m: int = 0x1_0000_0000_0000_0000int;
    let mq: int = usize::MAX as int + 1;
    if ops.len() == 0 {
        assert(Seq::<T>::empty() + v.items =~= v.items + Seq::<T>::empty());
        vstd::arithmetic::div_mod::lemma_small_mod(v.drops as nat, m as nat);
        vstd::arithmetic::div_mod::lemma_small_mod(v.queued as nat, mq as nat);
    } else {
        let p = ops.drop_last();
        lemma_mixed_sends_and_receives(v, p);
        let w = queue_after_ops(v, p);
        let r = received_in(v, p);
        let a = accepted_in(v, p);
        match ops.last() {
            QueueOp::Send(x) => {
                if accepts(w) {
                    assert(r + w.items.push(x) =~= (r + w.items).push(x));
                    assert((v.items + a).push(x) =~= v.items + a.push(x));
                    lemma_count_mod_step(v.queued, a.len());
                } else {
                    lemma_mod_step(v.drops, refused_in(v, p));
                }
            },
            QueueOp::Recv => {
                if w.items.len() > 0 {
                    assert(r.push(w.items[0]) + w.items.drop_first() =~= r + w.items);
                }
            },
        }
    }
}

} // verus!

verus! {

/// Whether the receivers put this source on program or preview.
#[derive(Debug, Clone, Copy, PartialEq, Eq, Structural)]
pub struct TallyState {
    pub on_program: bool,
    pub on_preview: bool,
}

/// What the monitor reports of a running session.
#[derive(Debug, Clone, Copy, PartialEq, Eq, Structural)]
pub struct LinkStatus {
    pub connections: u32,
    pub video_subscribed: bool,
    pub audio_subscribed: bool,
    pub tally_program: bool,
    pub tally_preview: bool,
    pub video_drops: u64,
    pub audio_drops: u64,
    pub queue_depth: usize,
    pub video_queued: usize,
}

/// One reading of the monitor: `connections` is the receiver count, `None` where the sender
/// could not tell it; `tally` is `None` where no tally came.
pub fn observe_link<V, A>(
    connections: Option<u32>,
    tally: Option<TallyState>,
    send_video: bool,
    send_audio: bool,
    video: &LatestSlot<V>,
    audio: &DropSender<A>,
) -> (r: LinkStatus)
    ensures
        r.connections == (match connections {
            Some(n) => n,
            None => 0,
        }),
        r.video_subscribed == (send_video && r.connections > 0),
        r.audio_subscribed == (send_audio && r.connections > 0),
        r.tally_program == (match tally {
            Some(t) => t.on_program,
            None => false,
        }),
        r.tally_preview == (match tally {
            Some(t) => t.on_preview,
            None => false,
        }),
        r.video_drops == video@.drops,
        r.audio_drops == audio@.drops,
        r.queue_depth == audio@.queued,
        r.video_queued == (if video@.item is Some {
            1usize
        } else {
            0usize
        }),
{
    let n: u32 = match connections {
        Some(n) => n,
        None => 0,
    };
    let connected = n > 0;
    let (tally_program, tally_preview) = match tally {
        Some(t) => (t.on_program, t.on_preview),
        None => (false, false),
    };
    LinkStatus {
        connections: n,
        video_subscribed: send_video && connected,
        audio_subscribed: send_audio && connected,
        tally_program,
        tally_preview,
        video_drops: video.drops(),
        audio_drops: audio.drops(),
        queue_depth: audio.queued(),
        video_queued: video.len(),
    }
}

/// What a send session is started with: the sender's options and the workers it runs beside
/// the monitor, which always runs.
#[derive(Debug)]
pub struct SessionPlan {
    pub source_name: String,
    pub groups: Option<String>,
    pub clock_video: bool,
    pub clock_audio: bool,
    pub video_worker: bool,
    pub audio_worker: bool,
}

/// The plan of a send session for `config`.
pub fn plan_session(config: &crate::config::PluginConfig) -> (r: SessionPlan)
    ensures
        r.source_name@ == config.source_name@,
        match r.groups {
            None => crate::text::trim(config.groups@).len() == 0,
            Some(g) => g@ == crate::text::trim(config.groups@) && g@.len() > 0,
        },
        r.clock_video == config.send_video,
        r.clock_audio == config.send_audio,
        r.video_worker == config.send_video,
        r.audio_worker == config.send_audio,
{
    let groups = match config.groups_opt() {
        Some(g) => Some(String::from_str(g)),
        None => None,
    };
    SessionPlan {
        source_name: config.source_name.clone(),
        groups,
        clock_video: config.send_video,
        clock_audio: config.send_audio,
        video_worker: config.send_video,
        audio_worker: config.send_audio,
    }
}

pub const NDI_DLL: &'static str = "Processing.NDI.Lib.x64.dll";
pub const PLUGIN_DATA_DIR: &'static str = "aviutl2_ndi_live_output";
pub const SDK_BIN_SUBDIR: &'static str = "Bin/x64";
pub const SDK_DIR_ENV: &'static str = "NDI_SDK_DIR";
pub const RUNTIME_DIR_ENV: &'static str = "NDI_RUNTIME_DIR_V6";
pub const DEFAULT_SDK_BIN_DIR: &'static str = "C:\\Program Files\\NDI\\NDI 6 SDK\\Bin\\x64";
pub const DEFAULT_RUNTIME_DIR: &'static str = "C:\\Program Files\\NDI\\NDI 6 Runtime\\v6";

/// A directory that may hold the NDI runtime DLL.
#[derive(Debug, Clone, Copy, PartialEq, Eq, Structural)]
pub enum RuntimeLocation {
    /// The directory of the plugin module.
    PluginDir,
    /// The plugin's data directory beside it.
    PluginDataDir,
    /// `Bin/x64` under the directory that `NDI_SDK_DIR` names.
    SdkBin,
    /// The directory that `NDI_RUNTIME_DIR_V6` names.
    RuntimeEnvDir,
    /// The default SDK install.
    DefaultSdkBin,
    /// The default runtime install.
    DefaultRuntime,
}

/// The places searched for the runtime, in order: those beside the plugin where its directory
/// is known, those named by the environment where set, then the default installs.
pub open spec fn search_order(
    has_plugin_dir: bool,
    has_sdk_dir: bool,
    has_runtime_dir: bool,
) -> Seq<RuntimeLocation> {
    (if has_plugin_dir {
        seq![RuntimeLocation::PluginDir, RuntimeLocation::PluginDataDir]
    } else {
        Seq::empty()
    }) + (if has_sdk_dir {
        seq![RuntimeLocation::SdkBin]
    } else {
        Seq::empty()
    }) + (if has_runtime_dir {
        seq![RuntimeLocation::RuntimeEnvDir]
    } else {
        Seq::empty()
    }) + seq![RuntimeLocation::DefaultSdkBin, RuntimeLocation::DefaultRuntime]
}

pub fn runtime_search_order(has_plugin_dir: bool, has_sdk_dir: bool, has_runtime_dir: bool) -> (r:
    Vec<RuntimeLocation>)
    ensures
        r@ == search_order(has_plugin_dir, has_sdk_dir, has_runtime_dir),
        r@.contains(RuntimeLocation::PluginDir) == has_plugin_dir,
        r@.contains(RuntimeLocation::PluginDataDir) == has_plugin_dir,
        r@.contains(RuntimeLocation::SdkBin) == has_sdk_dir,
        r@.contains(RuntimeLocation::RuntimeEnvDir) == has_runtime_dir,
        r@.contains(RuntimeLocation::DefaultSdkBin),
        r@.contains(RuntimeLocation::DefaultRuntime),
{
    proof {
        lemma_search_order_per_flag(has_plugin_dir, has_sdk_dir, has_runtime_dir);
    }
    let mut r: Vec<RuntimeLocation> = Vec::new();
    if has_plugin_dir {
        r.push(RuntimeLocation::PluginDir);
        r.push(RuntimeLocation::PluginDataDir);
    }
    if has_sdk_dir {
        r.push(RuntimeLocation::SdkBin);
    }
    if has_runtime_dir {
        r.push(RuntimeLocation::RuntimeEnvDir);
    }
    r.push(RuntimeLocation::DefaultSdkBin);
    r.push(RuntimeLocation::DefaultRuntime);
    assert(r@ =~= search_order(has_plugin_dir, has_sdk_dir, has_runtime_dir));
    r
}

/// The runtime search, flag by flag: the plugin's two directories are searched exactly when the
/// plugin's directory is known, and come first; `NDI_SDK_DIR`'s directory exactly when that
/// variable is set, and `NDI_RUNTIME_DIR_V6`'s exactly when that one is, whatever the other
/// holds, in that order; the default SDK and runtime installs always, last.
pub proof fn lemma_search_order_per_flag(p: bool, s: bool, r: bool)
    ensures
        ({
            let o = search_order(p, s, r);
            let ip: int = if p {
                2
            } else {
                0
            };
            let is: int = if s {
                1
            } else {
                0
            };
            let ir: int = if r {
                1
            } else {
                0
            };
            &&& o.len() == ip + is + ir + 2
            &&& o.contains(RuntimeLocation::PluginDir) == p
            &&& o.contains(RuntimeLocation::PluginDataDir) == p
            &&& o.contains(RuntimeLocation::SdkBin) == s
            &&& o.contains(RuntimeLocation::RuntimeEnvDir) == r
            &&& o.contains(RuntimeLocation::DefaultSdkBin)
            &&& o.contains(RuntimeLocation::DefaultRuntime)
            &&& (p ==> o[0] == RuntimeLocation::PluginDir && o[1] == RuntimeLocation::PluginDataDir)
            &&& (s ==> o[ip] == RuntimeLocation::SdkBin)
            &&& (r ==> o[ip + is] == RuntimeLocation::RuntimeEnvDir)
            &&& o[o.len() - 2] == RuntimeLocation::DefaultSdkBin
            &&& o[o.len() - 1] == RuntimeLocation::DefaultRuntime
        }),
{
    let o = search_order(p, s, r);
    let a: Seq<RuntimeLocation> = if p {
        seq![RuntimeLocation::PluginDir, RuntimeLocation::PluginDataDir]
    } else {
        Seq::empty()
    };
    let b: Seq<RuntimeLocation> = if s {
        seq![RuntimeLocation::SdkBin]
    } else {
        Seq::empty()
    };
    let c: Seq<RuntimeLocation> = if r {
        seq![RuntimeLocation::RuntimeEnvDir]
    } else {
        Seq::empty()
    };
    let d: Seq<RuntimeLocation> = seq![RuntimeLocation::DefaultSdkBin, RuntimeLocation::DefaultRuntime];
    assert(o =~= a + b + c + d);
    let n: int = o.len() as int;
    assert(o[n - 2] == RuntimeLocation::DefaultSdkBin);
    assert(o[n - 1] == RuntimeLocation::DefaultRuntime);
    if p {
        assert(o[0] == RuntimeLocation::PluginDir);
        assert(o[1] == RuntimeLocation::PluginDataDir);
    }
    let ip: int = if p {
        2
    } else {
        0
    };
    let is: int = if s {
        1
    } else {
        0
    };
    if s {
        assert(o[ip] == RuntimeLocation::SdkBin);
    }
    if r {
        assert(o[ip + is] == RuntimeLocation::RuntimeEnvDir);
    }
    assert forall|i: int| 0 <= i < n implies (o[i] == RuntimeLocation::PluginDir ==> p) && (o[i]
        == RuntimeLocation::PluginDataDir ==> p) && (o[i] == RuntimeLocation::SdkBin ==> s) && (
    o[i] == RuntimeLocation::RuntimeEnvDir ==> r) by {}
}

/// The first candidate whose directory holds the runtime DLL, `has_dll[i]` telling it of the
/// `i`-th one.
pub fn first_with_runtime(has_dll: &Vec<bool>) -> (r: Option<usize>)
    ensures
        match r {
            Some(i) => i < has_dll.len() && has_dll@[i as int] && forall|j: int|
                0 <= j < i ==> !has_dll@[j],
            None => forall|j: int| 0 <= j < has_dll.len() ==> !has_dll@[j],
        },
{
    let mut i: usize = 0;
    while i < has_dll.len()
        invariant
            i <= has_dll.len(),
            forall|j: int| 0 <= j < i ==> !has_dll@[j],
        decreases has_dll.len() - i,
    {
        if has_dll[i] {
            return Some(i);
        }
        i = i + 1;
    }
    None
}

} // verus!
