//! The receive queue: owns the receive descriptor ring, the parallel
//! buffer-in-use array, and the FIFO of reassembled frames.
//!
//! Each descriptor slot cycles through posted (buffer bound, awaiting the
//! device), completed (the device set its status bits), and reclaimed (the
//! full buffer removed, a fresh one bound, status reset). Draining walks the
//! ring from the cursor, gathering completed buffers into frames — a frame
//! ends at the buffer whose descriptor carries the end-of-frame flag — and
//! rebinding a spare buffer into every slot it passes, so the device is
//! never left pointing at a dangling address.

use crate::buffers::{QueueError, ReceiveBuffer, ReceivedFrame};
use crate::descriptor::{RxDescState, RxDescriptor};
use crate::ring::wrap_next;
use std::collections::VecDeque;
use vstd::prelude::*;

verus! {

/// Abstract state of a receive queue: its identity, the abstract state of
/// every descriptor slot, the cursor, the buffers currently bound to each
/// slot, the segments of the frame being gathered, the frames ready to be
/// popped, and the CPU-affinity hint.
pub struct RxState {
    /// Queue number.
    pub id: u8,
    /// Abstract state of each descriptor slot, in ring order.
    pub descs: Seq<RxDescState>,
    /// Next slot the drain will inspect.
    pub cur: int,
    /// The buffer bound to each slot; index `i` belongs to descriptor `i`.
    pub bufs: Seq<ReceiveBuffer>,
    /// Buffers gathered so far for a frame whose end has not arrived yet.
    pub partial: Seq<ReceiveBuffer>,
    /// Reassembled frames, oldest first.
    pub frames: Seq<Seq<ReceiveBuffer>>,
    /// CPU-affinity hint.
    pub cpu: u8,
}

/// Well-formedness of a receive-queue state: a nonempty ring short enough
/// for a `u16` cursor, the cursor in range, one bound buffer per descriptor,
/// and every descriptor holding exactly its buffer's address and capacity.
pub open spec fn rx_state_wf(m: RxState) -> bool {
    &&& 0 < m.descs.len() <= u16::MAX as int
    &&& m.bufs.len() == m.descs.len()
    &&& 0 <= m.cur < m.descs.len()
    &&& forall|i: int|
        0 <= i < m.descs.len() ==> (#[trigger] m.descs[i]).addr == m.bufs[i].paddr
            && m.descs[i].cap == m.bufs[i].length
}

/// The abstract state a descriptor is reset to when `spare` is bound into
/// its slot: address and capacity taken from the spare, status cleared.
pub open spec fn rx_rebound(spare: ReceiveBuffer) -> RxDescState {
    RxDescState { addr: spare.paddr, cap: spare.length, complete: false, eof: false, written: 0 }
}

/// Whether a drain can service the slot at the cursor: the device has
/// completed it and a spare buffer is on hand to rebind.
pub open spec fn rx_drain_enabled(m: RxState, spares: Seq<ReceiveBuffer>) -> bool {
    &&& 0 < m.descs.len()
    &&& 0 <= m.cur < m.descs.len()
    &&& m.descs[m.cur].complete
    &&& spares.len() > 0
}

/// The frame segment taken from the slot at the cursor: the buffer bound
/// there, its length cut down from the buffer's capacity to the number of
/// bytes the device actually wrote.
pub open spec fn rx_segment(m: RxState) -> ReceiveBuffer {
    ReceiveBuffer { paddr: m.bufs[m.cur].paddr, length: m.descs[m.cur].written }
}

/// Service the completed slot at the cursor: remove its buffer as the next
/// segment of the frame in progress (finishing the frame if the slot carries
/// the end-of-frame flag), bind `spare` in its place, reset the descriptor,
/// and advance the cursor.
pub open spec fn rx_drain_step(m: RxState, spare: ReceiveBuffer) -> RxState {
    let n = m.descs.len() as int;
    let segs = m.partial.push(rx_segment(m));
    RxState {
        descs: m.descs.update(m.cur, rx_rebound(spare)),
        cur: wrap_next(m.cur, n),
        bufs: m.bufs.update(m.cur, spare),
        partial: if m.descs[m.cur].eof {
            Seq::empty()
        } else {
            segs
        },
        frames: if m.descs[m.cur].eof {
            m.frames.push(segs)
        } else {
            m.frames
        },
        ..m
    }
}

/// The state a drain leaves the queue in: service slots from the cursor on,
/// newest spare first, until a slot is still owned by the device, the spares
/// run out, or `fuel` slots have been serviced.
pub open spec fn rx_drain(m: RxState, spares: Seq<ReceiveBuffer>, fuel: nat) -> RxState
    decreases fuel,
{
    if fuel == 0 || !rx_drain_enabled(m, spares) {
        m
    } else {
        rx_drain(rx_drain_step(m, spares.last()), spares.drop_last(), (fuel - 1) as nat)
    }
}

/// How many slots the drain of [`rx_drain`] services.
pub open spec fn rx_drain_count(m: RxState, spares: Seq<ReceiveBuffer>, fuel: nat) -> nat
    decreases fuel,
{
    if fuel == 0 || !rx_drain_enabled(m, spares) {
        0
    } else {
        1 + rx_drain_count(rx_drain_step(m, spares.last()), spares.drop_last(), (fuel - 1) as nat)
    }
}

/// The frame segments a drain takes from the `k` consecutive slots starting
/// at the cursor: slot `j`'s buffer, cut down to the bytes the device wrote
/// into it.
pub open spec fn rx_run_segments(m: RxState, k: int) -> Seq<ReceiveBuffer> {
    Seq::new(
        k as nat,
        |j: int|
            ReceiveBuffer {
                paddr: m.bufs[crate::ring::wrap_add(m.cur, j, m.descs.len() as int)].paddr,
                length: m.descs[crate::ring::wrap_add(m.cur, j, m.descs.len() as int)].written,
            },
    )
}

/// Servicing one slot keeps a receive-queue state well formed: the spare is
/// bound into the very slot whose descriptor is reset, before the cursor
/// moves on.
proof fn lemma_drain_step_wf(m: RxState, spare: ReceiveBuffer)
    requires
        rx_state_wf(m),
    ensures
        rx_state_wf(rx_drain_step(m, spare)),
{
    let m1 = rx_drain_step(m, spare);
    assert forall|i: int| 0 <= i < m1.descs.len() implies (#[trigger] m1.descs[i]).addr
        == m1.bufs[i].paddr && m1.descs[i].cap == m1.bufs[i].length by {
        if i != m.cur {
            assert(m1.descs[i] == m.descs[i]);
        }
    }
}

/// A drain keeps a receive-queue state well formed, however many slots it
/// services: the buffer array stays exactly as long as the descriptor ring,
/// and every slot the cursor moves past ends with a freshly bound buffer
/// whose address its descriptor holds.
pub proof fn lemma_drain_preserves_wf(m: RxState, spares: Seq<ReceiveBuffer>, fuel: nat)
    requires
        rx_state_wf(m),
    ensures
        rx_state_wf(rx_drain(m, spares, fuel)),
        rx_drain(m, spares, fuel).bufs.len() == m.descs.len(),
    decreases fuel,
{
    if !(fuel == 0 || !rx_drain_enabled(m, spares)) {
        lemma_drain_step_wf(m, spares.last());
        lemma_drain_preserves_wf(rx_drain_step(m, spares.last()), spares.drop_last(), (fuel - 1) as nat);
    }
}

/// Draining only appends to the frame queue: every frame already pending
/// stays, at its place and in its order, ahead of the newly reassembled
/// ones. Together with [`RxQueue::pop_frame`], which removes the front
/// frame, frames are popped in completion order, whatever the interleaving
/// of single- and multi-buffer frames.
pub proof fn lemma_drain_appends_frames(m: RxState, spares: Seq<ReceiveBuffer>, fuel: nat)
    ensures
        m.frames.len() <= rx_drain(m, spares, fuel).frames.len(),
        rx_drain(m, spares, fuel).frames.take(m.frames.len() as int) == m.frames,
    decreases fuel,
{
    if fuel == 0 || !rx_drain_enabled(m, spares) {
        assert(rx_drain(m, spares, fuel).frames.take(m.frames.len() as int) =~= m.frames);
    } else {
        let m1 = rx_drain_step(m, spares.last());
        lemma_drain_appends_frames(m1, spares.drop_last(), (fuel - 1) as nat);
        let mf = rx_drain(m, spares, fuel).frames;
        assert(m1.frames.take(m.frames.len() as int) =~= m.frames);
        assert(mf.take(m.frames.len() as int) =~= mf.take(m1.frames.len() as int).take(
            m.frames.len() as int,
        ));
        assert(mf.take(m1.frames.len() as int).take(m.frames.len() as int) =~= m.frames);
    }
}

/// Draining a run of `k` completed slots whose last — and only whose last —
/// slot carries the end-of-frame flag gathers, behind the partial frame
/// already in progress, exactly those `k` buffers, in ring order, into one
/// new frame, and leaves the cursor just past the run.
proof fn lemma_drain_gathers_run(m: RxState, spares: Seq<ReceiveBuffer>, k: nat, fuel: nat)
    requires
        rx_state_wf(m),
        1 <= k <= m.descs.len(),
        k <= fuel,
        spares.len() >= k,
        forall|j: int|
            0 <= j < k ==> (#[trigger] m.descs[crate::ring::wrap_add(
                m.cur,
                j,
                m.descs.len() as int,
            )]).complete,
        forall|j: int|
            0 <= j < k ==> ((#[trigger] m.descs[crate::ring::wrap_add(
                m.cur,
                j,
                m.descs.len() as int,
            )]).eof <==> j == k - 1),
        k < fuel ==> k < m.descs.len() && !m.descs[crate::ring::wrap_add(
            m.cur,
            k as int,
            m.descs.len() as int,
        )].complete,
    ensures
        ({
            let m2 = rx_drain(m, spares, fuel);
            &&& m2.frames == m.frames.push(m.partial + rx_run_segments(m, k as int))
            &&& m2.partial == Seq::<ReceiveBuffer>::empty()
            &&& m2.cur == crate::ring::wrap_add(m.cur, k as int, m.descs.len() as int)
        }),
    decreases k,
{
    let n = m.descs.len() as int;
    assert(crate::ring::wrap_add(m.cur, 0, n) == m.cur);
    let m1 = rx_drain_step(m, spares.last());
    lemma_drain_step_wf(m, spares.last());
    assert(rx_drain(m, spares, fuel) == rx_drain(m1, spares.drop_last(), (fuel - 1) as nat));
    if k == 1 {
        assert(m.partial + rx_run_segments(m, 1) =~= m.partial.push(rx_segment(m)));
        if fuel > 1 {
            assert(m1.descs[m1.cur] == m.descs[crate::ring::wrap_add(m.cur, 1, n)]);
            assert(!rx_drain_enabled(m1, spares.drop_last()));
        }
        assert(rx_drain(m1, spares.drop_last(), (fuel - 1) as nat) == m1);
    } else {
        assert forall|j: int|
            0 <= j < k - 1 implies (#[trigger] m1.descs[crate::ring::wrap_add(
            m1.cur,
            j,
            n,
        )]).complete && (m1.descs[crate::ring::wrap_add(m1.cur, j, n)].eof <==> j == k - 2) by {
            assert(crate::ring::wrap_add(m1.cur, j, n) == crate::ring::wrap_add(m.cur, j + 1, n));
            assert(m1.descs[crate::ring::wrap_add(m.cur, j + 1, n)] == m.descs[
                crate::ring::wrap_add(m.cur, j + 1, n)]);
        }
        if k < fuel {
            assert(crate::ring::wrap_add(m1.cur, k - 1, n) == crate::ring::wrap_add(
                m.cur,
                k as int,
                n,
            ));
            assert(m1.descs[crate::ring::wrap_add(m1.cur, k - 1, n)] == m.descs[
                crate::ring::wrap_add(m.cur, k as int, n)]);
        }
        lemma_drain_gathers_run(m1, spares.drop_last(), (k - 1) as nat, (fuel - 1) as nat);
        assert(m1.partial + rx_run_segments(m1, k - 1) =~= m.partial + rx_run_segments(m, k as int)) by {
            assert forall|j: int| 0 <= j < k - 1 implies #[trigger] rx_run_segments(m1, k - 1)[j]
                == rx_run_segments(m, k as int)[j + 1] by {
                assert(crate::ring::wrap_add(m1.cur, j, n) == crate::ring::wrap_add(
                    m.cur,
                    j + 1,
                    n,
                ));
                assert(m1.bufs[crate::ring::wrap_add(m.cur, j + 1, n)] == m.bufs[
                    crate::ring::wrap_add(m.cur, j + 1, n)]);
                assert(m1.descs[crate::ring::wrap_add(m.cur, j + 1, n)] == m.descs[
                    crate::ring::wrap_add(m.cur, j + 1, n)]);
            }
        }
        assert(crate::ring::wrap_add(m1.cur, k - 1, n) == crate::ring::wrap_add(m.cur, k as int, n));
    }
}

/// A frame completed across exactly `k` consecutive buffers — the
/// end-of-frame flag set only on the `k`-th — reassembles into exactly one
/// received frame holding those `k` buffers in arrival order.
pub proof fn lemma_frame_reassembly(m: RxState, spares: Seq<ReceiveBuffer>, k: nat)
    requires
        rx_state_wf(m),
        m.partial.len() == 0,
        1 <= k <= m.descs.len(),
        spares.len() >= k,
        forall|j: int|
            0 <= j < k ==> (#[trigger] m.descs[crate::ring::wrap_add(
                m.cur,
                j,
                m.descs.len() as int,
            )]).complete,
        forall|j: int|
            0 <= j < k ==> ((#[trigger] m.descs[crate::ring::wrap_add(
                m.cur,
                j,
                m.descs.len() as int,
            )]).eof <==> j == k - 1),
        k < m.descs.len() ==> !m.descs[crate::ring::wrap_add(
            m.cur,
            k as int,
            m.descs.len() as int,
        )].complete,
    ensures
        ({
            let m2 = rx_drain(m, spares, m.descs.len());
            &&& m2.frames == m.frames.push(rx_run_segments(m, k as int))
            &&& m2.frames.len() == m.frames.len() + 1
            &&& m2.frames.last() == rx_run_segments(m, k as int)
            &&& m2.partial == Seq::<ReceiveBuffer>::empty()
            &&& m2.cur == crate::ring::wrap_add(m.cur, k as int, m.descs.len() as int)
        }),
{
    lemma_drain_gathers_run(m, spares, k, m.descs.len());
    assert(m.partial + rx_run_segments(m, k as int) =~= rx_run_segments(m, k as int));
}

/// A struct that holds all information for one receive queue.
/// There should be one such object per queue.
#[derive(Debug)]
pub struct RxQueue<T: RxDescriptor> {
    /// The number of the queue, stored here for our convenience.
    pub id: u8,
    /// Receive descriptors, shared with the device.
    pub rx_descs: Vec<T>,
    /// Current receive descriptor index.
    pub rx_cur: u16,
    /// The list of rx buffers, in which the index in the vector corresponds
    /// to the index in `rx_descs`. For example, `rx_bufs_in_use[2]` is the
    /// receive buffer bound to descriptor `rx_descs[2]`.
    pub rx_bufs_in_use: Vec<ReceiveBuffer>,
    /// Buffers of the frame being gathered, when the last slot drained did
    /// not yet carry the end-of-frame flag.
    pub rx_partial_frame: Vec<ReceiveBuffer>,
    /// The queue of received Ethernet frames, ready for consumption by a
    /// higher layer: newly reassembled frames are pushed onto the back and
    /// frames are popped off of the front.
    pub received_frames: VecDeque<ReceivedFrame>,
    /// The cpu which this queue is mapped to.
    /// This in itself doesn't guarantee anything, but we use this value when
    /// setting the cpu id for interrupts and DCA.
    pub cpu_id: u8,
}

impl<T: RxDescriptor> View for RxQueue<T> {
    type V = RxState;

    open spec fn view(&self) -> RxState {
        RxState {
            id: self.id,
            descs: self.rx_descs@.map(|i: int, d: T| d.model()),
            cur: self.rx_cur as int,
            bufs: self.rx_bufs_in_use@,
            partial: self.rx_partial_frame@,
            frames: self.received_frames@.map(|i: int, f: ReceivedFrame| f@),
            cpu: self.cpu_id,
        }
    }
}

impl<T: RxDescriptor> RxQueue<T> {
    /// Well-formedness of this queue; established by [`RxQueue::new`] and
    /// preserved by every operation. Its clauses include the two structural
    /// invariants of the receive side: the buffer-in-use array is exactly as
    /// long as the descriptor ring, and every slot's descriptor holds the
    /// address of the buffer bound to that slot.
    pub open spec fn wf(&self) -> bool {
        rx_state_wf(self@)
    }

    /// Build a receive queue over a freshly mapped descriptor ring, binding
    /// one pre-allocated buffer into each slot.
    ///
    /// Fails with [`QueueError::MappingFailure`] exactly when the ring is
    /// unusable: empty, too long for a `u16` cursor, or not matched
    /// one-for-one by the supplied buffers.
    pub fn new(id: u8, rx_descs: Vec<T>, rx_bufs: Vec<ReceiveBuffer>, cpu_id: u8) -> (r: Result<
        RxQueue<T>,
        QueueError,
    >)
        ensures
            match r {
                Ok(q) => {
                    &&& q.wf()
                    &&& q@.id == id
                    &&& q@.cur == 0
                    &&& q@.bufs == rx_bufs@
                    &&& q@.partial == Seq::<ReceiveBuffer>::empty()
                    &&& q@.frames == Seq::<Seq<ReceiveBuffer>>::empty()
                    &&& q@.cpu == cpu_id
                    &&& q@.descs == Seq::new(rx_bufs@.len(), |i: int| rx_rebound(rx_bufs@[i]))
                    &&& 0 < rx_descs@.len() <= u16::MAX as int
                    &&& rx_descs@.len() == rx_bufs@.len()
                },
                Err(e) => {
                    &&& e == QueueError::MappingFailure
                    &&& !(0 < rx_descs@.len() <= u16::MAX as int && rx_descs@.len()
                        == rx_bufs@.len())
                },
            },
    {
        let mut rx_descs = rx_descs;
        if rx_descs.len() == 0 || rx_descs.len() > u16::MAX as usize || rx_descs.len()
            != rx_bufs.len() {
            return Err(QueueError::MappingFailure);
        }
        let n = rx_descs.len();
        let mut i: usize = 0;
        while i < n
            invariant
                i <= n,
                n == rx_descs@.len(),
                n == rx_bufs@.len(),
                forall|j: int|
                    0 <= j < i ==> (#[trigger] rx_descs@[j].model()) == rx_rebound(rx_bufs@[j]),
            decreases n - i,
        {
            let b = rx_bufs[i];
            rx_descs[i].set_buffer(b.paddr, b.length);
            i = i + 1;
        }
        let q = RxQueue {
            id,
            rx_descs,
            rx_cur: 0,
            rx_bufs_in_use: rx_bufs,
            rx_partial_frame: Vec::new(),
            received_frames: VecDeque::new(),
            cpu_id,
        };
        proof {
            assert(q@.descs =~= Seq::new(q@.bufs.len(), |i: int| rx_rebound(q@.bufs[i])));
        }
        Ok(q)
    }

    /// Non-blocking poll: service every slot the device has completed since
    /// the last call, gathering their buffers into frames and rebinding one
    /// spare buffer per serviced slot, newest spare first.
    ///
    /// Stops at the first slot still owned by the device, after one full
    /// ring traversal, or — surfacing
    /// [`QueueError::AllocationFailure`] — when a completed slot is waiting
    /// but no spare buffer is left to rebind; that slot keeps its full
    /// buffer and the cursor never moves past it. On success, returns how
    /// many slots were serviced.
    pub fn drain_ready_descriptors(&mut self, spares: &mut Vec<ReceiveBuffer>) -> (r: Result<
        usize,
        QueueError,
    >)
        requires
            old(self).wf(),
        ensures
            final(self).wf(),
            final(self)@ == rx_drain(old(self)@, old(spares)@, old(self)@.descs.len()),
            rx_drain_count(old(self)@, old(spares)@, old(self)@.descs.len()) <= old(spares)@.len(),
            final(spares)@ == old(spares)@.take(
                old(spares)@.len() - rx_drain_count(
                    old(self)@,
                    old(spares)@,
                    old(self)@.descs.len(),
                ),
            ),
            r == if final(self)@.descs[final(self)@.cur].complete && final(spares)@.len() == 0 {
                Err::<usize, QueueError>(QueueError::AllocationFailure)
            } else {
                Ok::<usize, QueueError>(
                    rx_drain_count(old(self)@, old(spares)@, old(self)@.descs.len()) as usize,
                )
            },
    {
        let n = self.rx_descs.len();
        let ghost m0 = self@;
        let ghost sp0 = spares@;
        let mut k: usize = 0;
        while k < n && spares.len() > 0 && self.rx_descs[self.rx_cur as usize].descriptor_done()
            invariant
                self.wf(),
                rx_state_wf(m0),
                n == self@.descs.len(),
                k <= n,
                k <= sp0.len(),
                spares@ == sp0.take(sp0.len() - k),
                rx_drain(m0, sp0, n as nat) == rx_drain(self@, spares@, (n - k) as nat),
                rx_drain_count(m0, sp0, n as nat) == k + rx_drain_count(
                    self@,
                    spares@,
                    (n - k) as nat,
                ),
            decreases n - k,
        {
            let ghost prev = self@;
            let ghost prev_sp = spares@;
            let cur = self.rx_cur as usize;
            let spare = spares.pop().unwrap();
            let eof = self.rx_descs[cur].end_of_frame();
            let written = self.rx_descs[cur].written_length();
            let seg = ReceiveBuffer { paddr: self.rx_bufs_in_use[cur].paddr, length: written };
            self.rx_bufs_in_use[cur] = spare;
            self.rx_descs[cur].set_buffer(spare.paddr, spare.length);
            self.rx_partial_frame.push(seg);
            if eof {
                let mut segs: Vec<ReceiveBuffer> = Vec::new();
                core::mem::swap(&mut segs, &mut self.rx_partial_frame);
                self.received_frames.push_back(ReceivedFrame(segs));
            }
            self.rx_cur = crate::ring::next_index(self.rx_cur, n);
            k = k + 1;
            proof {
                let stepped = rx_drain_step(prev, spare);
                assert(spares@ =~= prev_sp.drop_last());
                assert(self@.descs =~= stepped.descs);
                assert(self@.bufs =~= stepped.bufs);
                assert(self@.partial =~= stepped.partial);
                assert(self@.frames =~~= stepped.frames);
                assert(self@ == stepped);
                assert(spares@ =~= sp0.take(sp0.len() - k));
            }
        }
        let cur = self.rx_cur as usize;
        if self.rx_descs[cur].descriptor_done() && spares.len() == 0 {
            Err(QueueError::AllocationFailure)
        } else {
            Ok(k)
        }
    }

    /// Remove and return the oldest reassembled frame, or `None` when no
    /// frame is pending. Strict FIFO: frames come out in the order the
    /// device finished them.
    pub fn pop_frame(&mut self) -> (r: Option<ReceivedFrame>)
        requires
            old(self).wf(),
        ensures
            final(self).wf(),
            match r {
                Some(f) => {
                    &&& old(self)@.frames.len() > 0
                    &&& f@ == old(self)@.frames[0]
                    &&& final(self)@ == (RxState {
                        frames: old(self)@.frames.drop_first(),
                        ..old(self)@
                    })
                },
                None => {
                    &&& old(self)@.frames.len() == 0
                    &&& final(self)@ == old(self)@
                },
            },
    {
        let r = self.received_frames.pop_front();
        proof {
            if old(self)@.frames.len() > 0 {
                assert(self@.frames =~= old(self)@.frames.drop_first());
            } else {
                assert(self@.frames =~= old(self)@.frames);
            }
        }
        r
    }
}

} // verus!
