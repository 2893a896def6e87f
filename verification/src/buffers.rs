//! Buffers exchanged with the device, and the errors the queues report.
//!
//! A buffer is described to the ring logic by the two values hardware needs:
//! the physical address of its memory and its capacity in bytes. Obtaining
//! the backing memory (and keeping it mapped for the queue's lifetime) is the
//! job of the platform's DMA-mapping service, outside this crate.

use vstd::prelude::*;

verus! {

/// A DMA-capable buffer posted to a receive descriptor slot.
///
/// While a buffer sits in a queue's in-use array it is jointly referenced:
/// software keeps this record, hardware may write the memory behind `paddr`.
/// It returns to exclusive software ownership only as a segment of a
/// [`ReceivedFrame`], after hardware has signalled completion.
#[derive(Clone, Copy, PartialEq, Eq, Structural, Debug)]
pub struct ReceiveBuffer {
    /// Physical address of the buffer memory, as hardware will see it.
    pub paddr: u64,
    /// Meaningful bytes at that address: the buffer's capacity while it is
    /// posted to a slot, and the count hardware actually wrote once the
    /// buffer comes back as a frame segment.
    pub length: u16,
}

/// A buffer handed to the transmit queue for one descriptor slot.
///
/// The queue records its address and length into a descriptor; ownership of
/// the memory beyond that bookkeeping stays with the caller, who must keep it
/// alive until the slot has been reclaimed.
#[derive(Clone, Copy, PartialEq, Eq, Structural, Debug)]
pub struct TransmitBuffer {
    /// Physical address of the frame data, as hardware will see it.
    pub paddr: u64,
    /// Number of valid bytes to transmit from that address.
    pub length: u16,
}

/// One full link-layer frame, reassembled from one or more receive buffers.
///
/// A frame spans several buffers when its length exceeds a single buffer's
/// capacity; the segments appear in arrival order, the last one being the
/// buffer whose descriptor carried the end-of-frame flag.
#[derive(Debug)]
pub struct ReceivedFrame(pub Vec<ReceiveBuffer>);

impl View for ReceivedFrame {
    type V = Seq<ReceiveBuffer>;

    open spec fn view(&self) -> Seq<ReceiveBuffer> {
        self.0@
    }
}

impl ReceivedFrame {
    /// Number of buffer segments making up this frame.
    pub fn segment_count(&self) -> (r: usize)
        ensures
            r == self@.len(),
    {
        self.0.len()
    }
}

/// Everything that can go wrong in the queue subsystem.
#[derive(Clone, Copy, PartialEq, Eq, Structural, Debug)]
pub enum QueueError {
    /// No spare buffer was available to refill a drained receive slot.
    /// Recoverable: the caller may supply more buffers and drain again.
    AllocationFailure,
    /// Every transmit descriptor is still in flight; nothing was posted.
    /// Recoverable: the caller may reclaim completed slots and retry.
    RingFull,
    /// The ring or its buffers were not usable at construction
    /// (empty ring, too long for the cursor, or a buffer-count mismatch).
    /// Fatal for that queue: it was never built.
    MappingFailure,
}

} // verus!
