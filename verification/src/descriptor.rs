//! The descriptor capability abstraction.
//!
//! A descriptor is a hardware-defined record describing one ring slot: the
//! bound buffer's physical address and length, and status bits that hardware
//! toggles on completion. Its binary layout differs between NIC families, so
//! the ring logic never touches a layout directly; it goes through the
//! [`RxDescriptor`] and [`TxDescriptor`] traits, whose contracts speak of an
//! abstract slot state ([`RxDescState`], [`TxDescState`]).
//!
//! One concrete pair of descriptor types lives here as well:
//! [`SimRxDescriptor`] and [`SimTxDescriptor`], a software-simulated family
//! whose "hardware" writes are ordinary method calls. They let the ring
//! logic run without a device and stand in for a real layout in tests.

use vstd::prelude::*;

verus! {

/// Abstract state of a receive descriptor slot.
#[derive(Clone, Copy, PartialEq, Eq, Structural, Debug)]
pub struct RxDescState {
    /// Physical address of the bound receive buffer.
    pub addr: u64,
    /// Capacity in bytes of the bound receive buffer.
    pub cap: u16,
    /// Whether hardware has marked this slot complete.
    pub complete: bool,
    /// Whether hardware flagged this buffer as the last of its frame.
    pub eof: bool,
    /// Number of valid bytes hardware wrote into the buffer.
    pub written: u16,
}

/// Abstract state of a transmit descriptor slot.
#[derive(Clone, Copy, PartialEq, Eq, Structural, Debug)]
pub struct TxDescState {
    /// Physical address of the bound transmit buffer.
    pub addr: u64,
    /// Number of bytes to send from that address.
    pub len: u16,
    /// Whether this buffer is the final segment of its frame.
    pub eof: bool,
    /// Whether hardware has marked this slot complete (sent).
    pub complete: bool,
}

/// Capability set a receive descriptor layout must provide.
///
/// The contracts are stated over [`RxDescState`]; an implementation for a
/// real NIC family maps its binary layout onto that state in `model`.
pub trait RxDescriptor: Sized {
    /// The abstract slot state this descriptor currently encodes.
    spec fn model(&self) -> RxDescState;

    /// Bind a fresh buffer's address and capacity into the slot and reset
    /// its status so hardware may write into it again.
    fn set_buffer(&mut self, paddr: u64, cap: u16)
        ensures
            final(self).model() == (RxDescState {
                addr: paddr,
                cap: cap,
                complete: false,
                eof: false,
                written: 0,
            }),
    ;

    /// Whether hardware has marked this slot complete.
    fn descriptor_done(&self) -> (r: bool)
        ensures
            r == self.model().complete,
    ;

    /// Whether hardware flagged this buffer as the last of its frame.
    fn end_of_frame(&self) -> (r: bool)
        ensures
            r == self.model().eof,
    ;

    /// Number of valid bytes hardware wrote into the buffer.
    fn written_length(&self) -> (r: u16)
        ensures
            r == self.model().written,
    ;
}

/// Capability set a transmit descriptor layout must provide.
pub trait TxDescriptor: Sized {
    /// The abstract slot state this descriptor currently encodes.
    spec fn model(&self) -> TxDescState;

    /// Bind an outbound buffer's address and length into the slot, set its
    /// control bits (end-of-frame only on a frame's final segment), and
    /// clear its status so hardware will process it.
    fn post_buffer(&mut self, paddr: u64, len: u16, eof: bool)
        ensures
            final(self).model() == (TxDescState { addr: paddr, len: len, eof: eof, complete: false }),
    ;

    /// Whether hardware has marked this slot complete.
    fn descriptor_done(&self) -> (r: bool)
        ensures
            r == self.model().complete,
    ;
}

/// A software-simulated receive descriptor.
///
/// The fields are public so that a test harness can play the part of the
/// device: an external agent that flips the status bits of a posted slot.
#[derive(Clone, Copy, PartialEq, Eq, Structural, Debug)]
pub struct SimRxDescriptor {
    /// Physical address of the bound receive buffer.
    pub addr: u64,
    /// Capacity in bytes of the bound receive buffer.
    pub cap: u16,
    /// Completion bit, set by the simulated device.
    pub complete: bool,
    /// End-of-frame bit, set by the simulated device.
    pub eof: bool,
    /// Valid byte count, set by the simulated device.
    pub written: u16,
}

impl SimRxDescriptor {
    /// An unbound slot: no buffer, no status.
    pub fn empty() -> (r: Self)
        ensures
            r.model() == (RxDescState { addr: 0, cap: 0, complete: false, eof: false, written: 0 }),
    {
        SimRxDescriptor { addr: 0, cap: 0, complete: false, eof: false, written: 0 }
    }

    /// Simulate the device completing this slot: it wrote `written` bytes
    /// and flagged the buffer as a frame's last segment iff `eof`.
    pub fn simulate_completion(&mut self, written: u16, eof: bool)
        ensures
            final(self).model() == (RxDescState {
                addr: old(self).model().addr,
                cap: old(self).model().cap,
                complete: true,
                eof: eof,
                written: written,
            }),
    {
        self.complete = true;
        self.eof = eof;
        self.written = written;
    }
}

impl RxDescriptor for SimRxDescriptor {
    open spec fn model(&self) -> RxDescState {
        RxDescState {
            addr: self.addr,
            cap: self.cap,
            complete: self.complete,
            eof: self.eof,
            written: self.written,
        }
    }

    fn set_buffer(&mut self, paddr: u64, cap: u16) {
        self.addr = paddr;
        self.cap = cap;
        self.complete = false;
        self.eof = false;
        self.written = 0;
    }

    fn descriptor_done(&self) -> bool {
        self.complete
    }

    fn end_of_frame(&self) -> bool {
        self.eof
    }

    fn written_length(&self) -> u16 {
        self.written
    }
}

/// A software-simulated transmit descriptor.
///
/// As with [`SimRxDescriptor`], the fields are public so that a test harness
/// can act as the device and mark posted slots complete.
#[derive(Clone, Copy, PartialEq, Eq, Structural, Debug)]
pub struct SimTxDescriptor {
    /// Physical address of the bound transmit buffer.
    pub addr: u64,
    /// Number of bytes to send from that address.
    pub len: u16,
    /// End-of-frame control bit, set by software on posting.
    pub eof: bool,
    /// Completion bit, set by the simulated device.
    pub complete: bool,
}

impl SimTxDescriptor {
    /// An unbound slot: no buffer, no status.
    pub fn empty() -> (r: Self)
        ensures
            r.model() == (TxDescState { addr: 0, len: 0, eof: false, complete: false }),
    {
        SimTxDescriptor { addr: 0, len: 0, eof: false, complete: false }
    }

    /// Simulate the device sending this slot's buffer and marking it done.
    pub fn simulate_completion(&mut self)
        ensures
            final(self).model() == (TxDescState {
                addr: old(self).model().addr,
                len: old(self).model().len,
                eof: old(self).model().eof,
                complete: true,
            }),
    {
        self.complete = true;
    }
}

impl TxDescriptor for SimTxDescriptor {
    open spec fn model(&self) -> TxDescState {
        TxDescState { addr: self.addr, len: self.len, eof: self.eof, complete: self.complete }
    }

    fn post_buffer(&mut self, paddr: u64, len: u16, eof: bool) {
        self.addr = paddr;
        self.len = len;
        self.eof = eof;
        self.complete = false;
    }

    fn descriptor_done(&self) -> bool {
        self.complete
    }
}

} // verus!
