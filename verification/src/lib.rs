//! Receive and transmit queues that manage a ring of DMA descriptors shared
//! with a network interface card.
//!
//! Each queue owns the software side of one hardware descriptor ring: the
//! descriptors themselves, the cursor that tracks the next slot to service,
//! and (for the receive side) the buffers currently handed to hardware plus
//! the FIFO of fully reassembled frames. Descriptor binary layouts differ
//! between NIC families, so the ring logic is generic over a small
//! capability trait that each family's descriptor type implements.

pub mod buffers;
pub mod descriptor;
pub mod ring;
pub mod rx_queue;
pub mod tx_queue;
