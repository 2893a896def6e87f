//! The transmit queue: posts outbound buffers into a descriptor ring and
//! reclaims slots the device has finished with.
//!
//! The ring is strict FIFO: `tx_cur` is the next slot to post into and
//! `tx_clean` the oldest posted slot not yet reclaimed, so the in-flight
//! slots are the `tx_in_flight` consecutive slots starting at `tx_clean`.
//! A slot may not be reposted while still in flight; `post` refuses with
//! [`QueueError::RingFull`] when every slot is in flight. Transmit buffers
//! themselves are owned and released by the caller after posting: this queue
//! does descriptor-slot bookkeeping only.

use crate::buffers::{QueueError, TransmitBuffer};
use crate::descriptor::{TxDescState, TxDescriptor};
use crate::ring::{wrap_add, wrap_next};
use vstd::prelude::*;

verus! {

/// Abstract state of a transmit queue: its identity, the abstract state of
/// every descriptor slot, the two cursors, the in-flight count, and the
/// CPU-affinity hint.
pub struct TxState {
    /// Queue number.
    pub id: u8,
    /// Abstract state of each descriptor slot, in ring order.
    pub descs: Seq<TxDescState>,
    /// Next slot to post into.
    pub cur: int,
    /// Oldest posted slot not yet reclaimed.
    pub clean: int,
    /// Number of consecutive slots, starting at `clean`, that are posted
    /// and not yet reclaimed.
    pub in_flight: nat,
    /// CPU-affinity hint.
    pub cpu: u8,
}

/// Well-formedness of a transmit-queue state: a nonempty ring short enough
/// for a `u16` cursor, both cursors in range, and the post cursor sitting
/// exactly `in_flight` slots past the clean cursor.
pub open spec fn tx_state_wf(m: TxState) -> bool {
    &&& 0 < m.descs.len() <= u16::MAX as int
    &&& 0 <= m.cur < m.descs.len()
    &&& 0 <= m.clean < m.descs.len()
    &&& m.in_flight <= m.descs.len()
    &&& m.cur == wrap_add(m.clean, m.in_flight as int, m.descs.len() as int)
}

/// How many slots a reclaim pass frees: the length of the longest run of
/// in-flight slots, starting at `clean`, whose completion bit is set.
pub open spec fn tx_reclaim_run(descs: Seq<TxDescState>, clean: int, in_flight: nat) -> nat
    decreases in_flight,
{
    let n = descs.len() as int;
    if in_flight == 0 || n <= 0 || !(0 <= clean < n) || !descs[clean].complete {
        0
    } else {
        1 + tx_reclaim_run(descs, wrap_next(clean, n), (in_flight - 1) as nat)
    }
}

/// A reclaim pass never frees more slots than are in flight.
pub proof fn lemma_reclaim_run_le(descs: Seq<TxDescState>, clean: int, in_flight: nat)
    ensures
        tx_reclaim_run(descs, clean, in_flight) <= in_flight,
    decreases in_flight,
{
    let n = descs.len() as int;
    if !(in_flight == 0 || n <= 0 || !(0 <= clean < n) || !descs[clean].complete) {
        lemma_reclaim_run_le(descs, wrap_next(clean, n), (in_flight - 1) as nat);
    }
}

/// The queue state a reclaim pass leaves behind: the clean cursor moves past
/// the freed slots, the in-flight count drops by as many, and the
/// descriptors themselves are untouched.
pub open spec fn tx_reclaim_result(m: TxState) -> TxState {
    let r = tx_reclaim_run(m.descs, m.clean, m.in_flight) as int;
    TxState {
        clean: wrap_add(m.clean, r, m.descs.len() as int),
        in_flight: (m.in_flight - r) as nat,
        ..m
    }
}

/// Whether a reclaim pass on state `m` marks slot `s` reusable.
pub open spec fn tx_reclaim_marks(m: TxState, s: int) -> bool {
    exists|j: int|
        0 <= j < tx_reclaim_run(m.descs, m.clean, m.in_flight) && s == wrap_add(
            m.clean,
            j,
            m.descs.len() as int,
        )
}

/// A slot is never marked reusable twice without an intervening post.
///
/// Run one reclaim pass on `m`; let the device then set completion bits as
/// it pleases (`descs2` is the descriptor state it leaves), and run a second
/// pass. No slot `s` is marked by both passes: the first pass moved the
/// in-flight window past every slot it marked, and only a post extends the
/// window again.
pub proof fn lemma_no_double_reclaim(m: TxState, descs2: Seq<TxDescState>, s: int)
    requires
        tx_state_wf(m),
        descs2.len() == m.descs.len(),
    ensures
        !(tx_reclaim_marks(m, s) && tx_reclaim_marks(
            TxState { descs: descs2, ..tx_reclaim_result(m) },
            s,
        )),
{
    let n = m.descs.len() as int;
    let r1 = tx_reclaim_run(m.descs, m.clean, m.in_flight) as int;
    let m2 = TxState { descs: descs2, ..tx_reclaim_result(m) };
    lemma_reclaim_run_le(m.descs, m.clean, m.in_flight);
    lemma_reclaim_run_le(descs2, m2.clean, m2.in_flight);
    if tx_reclaim_marks(m, s) && tx_reclaim_marks(m2, s) {
        let j1 = choose|j: int| 0 <= j < r1 && s == wrap_add(m.clean, j, n);
        let j2 = choose|j: int|
            0 <= j < tx_reclaim_run(m2.descs, m2.clean, m2.in_flight) && s == wrap_add(
                m2.clean,
                j,
                n,
            );
        assert(wrap_add(m.clean, j1, n) == wrap_add(m.clean, r1 + j2, n));
        assert(false);
    }
}

/// A struct that holds all information for a transmit queue.
/// There should be one such object per queue.
#[derive(Debug)]
pub struct TxQueue<T: TxDescriptor> {
    /// The number of the queue, stored here for our convenience.
    pub id: u8,
    /// Transmit descriptors, shared with the device.
    pub tx_descs: Vec<T>,
    /// Current transmit descriptor index: the next slot to post into.
    pub tx_cur: u16,
    /// The oldest posted descriptor index not yet reclaimed.
    pub tx_clean: u16,
    /// How many descriptors are posted and not yet reclaimed.
    pub tx_in_flight: u16,
    /// The cpu which this queue is mapped to.
    /// This in itself doesn't guarantee anything, but we use this value when
    /// setting the cpu id for interrupts and DCA.
    pub cpu_id: u8,
}

impl<T: TxDescriptor> View for TxQueue<T> {
    type V = TxState;

    open spec fn view(&self) -> TxState {
        TxState {
            id: self.id,
            descs: self.tx_descs@.map(|i: int, d: T| d.model()),
            cur: self.tx_cur as int,
            clean: self.tx_clean as int,
            in_flight: self.tx_in_flight as nat,
            cpu: self.cpu_id,
        }
    }
}

impl<T: TxDescriptor> TxQueue<T> {
    /// Well-formedness of this queue; established by [`TxQueue::new`] and
    /// preserved by every operation.
    pub open spec fn wf(&self) -> bool {
        tx_state_wf(self@)
    }

    /// Build a transmit queue over a freshly mapped descriptor ring.
    ///
    /// Fails with [`QueueError::MappingFailure`] exactly when the ring is
    /// unusable: empty, or too long for a `u16` cursor.
    pub fn new(id: u8, tx_descs: Vec<T>, cpu_id: u8) -> (r: Result<TxQueue<T>, QueueError>)
        ensures
            match r {
                Ok(q) => {
                    &&& q.wf()
                    &&& q@ == (TxState {
                        id: id,
                        descs: tx_descs@.map(|i: int, d: T| d.model()),
                        cur: 0,
                        clean: 0,
                        in_flight: 0,
                        cpu: cpu_id,
                    })
                    &&& 0 < tx_descs@.len() <= u16::MAX as int
                },
                Err(e) => {
                    &&& e == QueueError::MappingFailure
                    &&& !(0 < tx_descs@.len() <= u16::MAX as int)
                },
            },
    {
        if tx_descs.len() == 0 || tx_descs.len() > u16::MAX as usize {
            return Err(QueueError::MappingFailure);
        }
        Ok(TxQueue { id, tx_descs, tx_cur: 0, tx_clean: 0, tx_in_flight: 0, cpu_id })
    }

    /// Bind `buffer` into the descriptor at the current cursor, set its
    /// control bits (end-of-frame only on a frame's final segment), and
    /// advance the cursor modulo the ring length.
    ///
    /// Returns [`QueueError::RingFull`] and changes nothing exactly when
    /// every descriptor is still in flight: a slot is never overwritten
    /// while hardware may yet act on it.
    pub fn post(&mut self, buffer: TransmitBuffer, is_final_segment: bool) -> (r: Result<
        (),
        QueueError,
    >)
        requires
            old(self).wf(),
        ensures
            final(self).wf(),
            old(self)@.in_flight == old(self)@.descs.len() ==> r == Err::<(), QueueError>(
                QueueError::RingFull,
            ) && final(self)@ == old(self)@,
            old(self)@.in_flight < old(self)@.descs.len() ==> r == Ok::<(), QueueError>(())
                && final(self)@ == (TxState {
                descs: old(self)@.descs.update(
                    old(self)@.cur,
                    TxDescState {
                        addr: buffer.paddr,
                        len: buffer.length,
                        eof: is_final_segment,
                        complete: false,
                    },
                ),
                cur: wrap_next(old(self)@.cur, old(self)@.descs.len() as int),
                in_flight: old(self)@.in_flight + 1,
                ..old(self)@
            }),
    {
        let n = self.tx_descs.len();
        if self.tx_in_flight as usize == n {
            return Err(QueueError::RingFull);
        }
        let ghost prev = self@;
        let cur = self.tx_cur as usize;
        self.tx_descs[cur].post_buffer(buffer.paddr, buffer.length, is_final_segment);
        self.tx_cur = crate::ring::next_index(self.tx_cur, n);
        self.tx_in_flight = self.tx_in_flight + 1;
        proof {
            let rst = TxDescState {
                addr: buffer.paddr,
                len: buffer.length,
                eof: is_final_segment,
                complete: false,
            };
            assert(self@.descs =~= prev.descs.update(prev.cur, rst));
            assert(self@ == (TxState {
                descs: prev.descs.update(prev.cur, rst),
                cur: wrap_next(prev.cur, prev.descs.len() as int),
                in_flight: prev.in_flight + 1,
                ..prev
            }));
        }
        Ok(())
    }

    /// Scan forward from the oldest posted slot, marking each slot whose
    /// completion bit the device has set as reusable, and stop at the first
    /// slot still in flight. Returns how many slots were reclaimed.
    ///
    /// The reclaimed slots are exactly the longest completed run at the
    /// front of the in-flight window: every reclaimed slot had its
    /// completion bit set, and the scan never passes a slot whose bit is
    /// still clear.
    pub fn reclaim_completed(&mut self) -> (r: usize)
        requires
            old(self).wf(),
        ensures
            final(self).wf(),
            r == tx_reclaim_run(old(self)@.descs, old(self)@.clean, old(self)@.in_flight),
            r <= old(self)@.in_flight,
            final(self)@ == (TxState {
                clean: wrap_add(old(self)@.clean, r as int, old(self)@.descs.len() as int),
                in_flight: (old(self)@.in_flight - r) as nat,
                ..old(self)@
            }),
            forall|j: int|
                0 <= j < r ==> (#[trigger] old(self)@.descs[wrap_add(
                    old(self)@.clean,
                    j,
                    old(self)@.descs.len() as int,
                )]).complete,
            r < old(self)@.in_flight ==> !old(self)@.descs[wrap_add(
                old(self)@.clean,
                r as int,
                old(self)@.descs.len() as int,
            )].complete,
    {
        let n = self.tx_descs.len();
        let ghost m0 = self@;
        let mut r: usize = 0;
        while self.tx_in_flight > 0 && self.tx_descs[self.tx_clean as usize].descriptor_done()
            invariant
                self.wf(),
                tx_state_wf(m0),
                n == self@.descs.len(),
                self@.descs == m0.descs,
                self@.cur == m0.cur,
                self@.id == m0.id,
                self@.cpu == m0.cpu,
                r <= m0.in_flight,
                self@.in_flight == m0.in_flight - r,
                self@.clean == wrap_add(m0.clean, r as int, n as int),
                tx_reclaim_run(m0.descs, m0.clean, m0.in_flight) == r + tx_reclaim_run(
                    self@.descs,
                    self@.clean,
                    self@.in_flight,
                ),
                forall|j: int|
                    0 <= j < r ==> (#[trigger] m0.descs[wrap_add(m0.clean, j, n as int)]).complete,
            decreases self.tx_in_flight,
        {
            let ghost prev = self@;
            self.tx_clean = crate::ring::next_index(self.tx_clean, n);
            self.tx_in_flight = self.tx_in_flight - 1;
            r = r + 1;
            proof {
                assert(tx_reclaim_run(m0.descs, prev.clean, prev.in_flight) == 1 + tx_reclaim_run(
                    m0.descs,
                    wrap_next(prev.clean, n as int),
                    (prev.in_flight - 1) as nat,
                ));
            }
        }
        r
    }
}

} // verus!
