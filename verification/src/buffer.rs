//! The buffer bridge: moving raw memory between the two sides' allocators
//! with zero copies and a single owner at any instant.
//!
//! A buffer is a contiguous byte region together with the address it lives
//! at. Handing a natively owned buffer to the foreign side moves the value —
//! the native side cannot keep using it — and records the transfer in a
//! ledger, whose release discipline is: exactly once per transferred region.
//! Importing a foreign buffer aliases the same region; an operation that
//! needs more than byte alignment must check for it first, and fails with
//! `BufferAlignmentError` rather than read a misaligned address.

use vstd::prelude::*;

use crate::errors::DataFusionError;

verus! {

/// A contiguous byte region: the address it lives at and its content.
#[derive(Debug, Clone, PartialEq, Eq)]
pub struct Buffer {
    /// The address of the region's first byte.
    pub addr: usize,
    /// The region's content.
    pub bytes: Vec<u8>,
}

/// A byte region held by the foreign side: same shape as a native buffer,
/// other side's allocator.
#[derive(Debug, Clone, PartialEq, Eq)]
pub struct ForeignBuffer {
    /// The address of the region's first byte.
    pub addr: usize,
    /// The region's content.
    pub bytes: Vec<u8>,
}

/// The mathematical value of a byte region, on either side.
#[verifier::ext_equal]
pub ghost struct BufferModel {
    pub addr: usize,
    pub bytes: Seq<u8>,
}

impl View for Buffer {
    type V = BufferModel;

    open spec fn view(&self) -> BufferModel {
        BufferModel { addr: self.addr, bytes: self.bytes@ }
    }
}

impl View for ForeignBuffer {
    type V = BufferModel;

    open spec fn view(&self) -> BufferModel {
        BufferModel { addr: self.addr, bytes: self.bytes@ }
    }
}

/// One transferred region: its address, its length, and whether the
/// receiving side has already invoked its release.
#[derive(Debug, Clone, Copy, PartialEq, Eq, Structural)]
pub struct TransferRecord {
    pub addr: usize,
    pub len: usize,
    pub released: bool,
}

/// The transfer ledger: one record per region handed to the foreign side.
///
/// The ledger makes the ownership protocol checkable: a region can be
/// transferred only once, and released only once after its transfer.
#[derive(Debug)]
pub struct TransferLedger {
    records: Vec<TransferRecord>,
}

impl View for TransferLedger {
    type V = Seq<TransferRecord>;

    closed spec fn view(&self) -> Seq<TransferRecord> {
        self.records@
    }
}

impl TransferLedger {
    /// No two records share an address.
    pub open spec fn wf(&self) -> bool {
        forall|i: int, j: int|
            0 <= i < j < self@.len() ==> self@[i].addr != self@[j].addr
    }

    /// Whether a region at `addr` was ever handed to the foreign side.
    pub open spec fn transferred(&self, addr: usize) -> bool {
        exists|i: int| 0 <= i < self@.len() && self@[i].addr == addr
    }

    /// Whether a region at `addr` was handed over and awaits its release.
    pub open spec fn live(&self, addr: usize) -> bool {
        exists|i: int| 0 <= i < self@.len() && self@[i].addr == addr && !self@[i].released
    }

    /// An empty ledger.
    pub fn new() -> (r: TransferLedger)
        ensures
            r@ == Seq::<TransferRecord>::empty(),
            r.wf(),
    {
        TransferLedger { records: Vec::new() }
    }

    /// Whether a region at `addr` was ever handed to the foreign side:
    /// the runtime test of `transferred`, so an embedding can check a
    /// buffer's freshness before it hands it over.
    pub fn is_transferred(&self, addr: usize) -> (r: bool)
        ensures
            r == self.transferred(addr),
    {
        let n: usize = self.records.len();
        let mut i: usize = 0;
        while i < n
            invariant
                i <= n,
                n == self@.len(),
                self.records@ == self@,
                forall|j: int| 0 <= j < i ==> self@[j].addr != addr,
            decreases n - i,
        {
            if self.records[i].addr == addr {
                proof {
                    assert(self@[i as int].addr == addr);
                }
                return true;
            }
            i = i + 1;
        }
        false
    }

    /// Whether a region at `addr` awaits its release: the runtime test of
    /// `live`.
    pub fn is_live(&self, addr: usize) -> (r: bool)
        ensures
            r == self.live(addr),
    {
        let n: usize = self.records.len();
        let mut i: usize = 0;
        while i < n
            invariant
                i <= n,
                n == self@.len(),
                self.records@ == self@,
                forall|j: int|
                    0 <= j < i ==> !(self@[j].addr == addr && !self@[j].released),
            decreases n - i,
        {
            if self.records[i].addr == addr && !self.records[i].released {
                proof {
                    assert(self@[i as int].addr == addr && !self@[i as int].released);
                }
                return true;
            }
            i = i + 1;
        }
        false
    }

    /// Hands a natively owned buffer to the foreign side: the same region,
    /// zero copy, and a record that its release is now owed. The native
    /// side gives the buffer up by moving it; transferring a region twice
    /// is a programming error, ruled out here rather than recovered from.
    pub fn transfer(&mut self, buffer: Buffer) -> (r: ForeignBuffer)
        requires
            old(self).wf(),
            !old(self).transferred(buffer.addr),
        ensures
            final(self).wf(),
            r@ == buffer@,
            final(self)@ == old(self)@.push(
                TransferRecord { addr: buffer.addr, len: buffer.bytes@.len() as usize, released: false },
            ),
            forall|a: usize|
                final(self).transferred(a) == (old(self).transferred(a) || a == buffer.addr),
            forall|a: usize| final(self).live(a) == (old(self).live(a) || a == buffer.addr),
    {
        let len: usize = buffer.bytes.len();
        self.records.push(TransferRecord { addr: buffer.addr, len, released: false });
        proof {
            assert forall|a: usize| self.transferred(a) == (old(self).transferred(a) || a
                == buffer.addr) by {
                if old(self).transferred(a) {
                    let i = choose|i: int|
                        0 <= i < old(self)@.len() && old(self)@[i].addr == a;
                    assert(self@[i].addr == a);
                }
                if a == buffer.addr {
                    assert(self@[self@.len() - 1].addr == a);
                }
                if self.transferred(a) {
                    let i = choose|i: int| 0 <= i < self@.len() && self@[i].addr == a;
                    if i < self@.len() - 1 {
                        assert(old(self)@[i].addr == a);
                    }
                }
            }
            assert forall|a: usize| self.live(a) == (old(self).live(a) || a == buffer.addr) by {
                if old(self).live(a) {
                    let i = choose|i: int|
                        0 <= i < old(self)@.len() && old(self)@[i].addr == a && !old(
                            self,
                        )@[i].released;
                    assert(self@[i].addr == a && !self@[i].released);
                }
                if a == buffer.addr {
                    assert(self@[self@.len() - 1].addr == a && !self@[self@.len() - 1].released);
                }
                if self.live(a) {
                    let i = choose|i: int|
                        0 <= i < self@.len() && self@[i].addr == a && !self@[i].released;
                    if i < self@.len() - 1 {
                        assert(old(self)@[i].addr == a && !old(self)@[i].released);
                    }
                }
            }
        }
        ForeignBuffer { addr: buffer.addr, bytes: buffer.bytes }
    }

    /// Invokes the release owed for a transferred region: exactly once per
    /// region. Releasing a region that is not awaiting release is a
    /// programming error, ruled out here rather than recovered from.
    pub fn release(&mut self, addr: usize)
        requires
            old(self).wf(),
            old(self).live(addr),
        ensures
            final(self).wf(),
            final(self)@.len() == old(self)@.len(),
            forall|a: usize| final(self).transferred(a) == old(self).transferred(a),
            !final(self).live(addr),
            forall|a: usize| a != addr ==> final(self).live(a) == old(self).live(a),
    {
        let n: usize = self.records.len();
        let mut i: usize = 0;
        while i < n
            invariant
                old(self).wf(),
                old(self).live(addr),
                n == self@.len(),
                i <= n,
                self@ == old(self)@,
                self.records@ == self@,
                forall|j: int| 0 <= j < i ==> self@[j].addr != addr,
            decreases n - i,
        {
            if self.records[i].addr == addr {
                let len: usize = self.records[i].len;
                self.records[i] = TransferRecord { addr, len, released: true };
                proof {
                    let ghost idx = i as int;
                    assert(self@ == old(self)@.update(
                        idx,
                        TransferRecord { addr, len, released: true },
                    ));
                    assert forall|a: usize| self.transferred(a) == old(self).transferred(a) by {
                        if old(self).transferred(a) {
                            let j = choose|j: int|
                                0 <= j < old(self)@.len() && old(self)@[j].addr == a;
                            assert(self@[j].addr == a);
                        }
                        if self.transferred(a) {
                            let j = choose|j: int| 0 <= j < self@.len() && self@[j].addr == a;
                            assert(old(self)@[j].addr == a);
                        }
                    }
                    assert forall|a: usize| a != addr implies self.live(a) == old(self).live(
                        a,
                    ) by {
                        if old(self).live(a) {
                            let j = choose|j: int|
                                0 <= j < old(self)@.len() && old(self)@[j].addr == a && !old(
                                    self,
                                )@[j].released;
                            assert(j != idx);
                            assert(self@[j].addr == a && !self@[j].released);
                        }
                        if self.live(a) {
                            let j = choose|j: int|
                                0 <= j < self@.len() && self@[j].addr == a && !self@[j].released;
                            assert(j != idx);
                            assert(old(self)@[j].addr == a && !old(self)@[j].released);
                        }
                    }
                    assert forall|j: int|
                        0 <= j < self@.len() && self@[j].addr == addr implies self@[j].released by {
                        assert(j == idx);
                    }
                }
                return ;
            }
            i = i + 1;
        }
        proof {
            let i = choose|i: int|
                0 <= i < old(self)@.len() && old(self)@[i].addr == addr && !old(self)@[i].released;
            assert(self@[i].addr != addr);
            assert(false);
        }
    }
}

/// Imports a foreign byte region as a native buffer aliasing the same
/// region, provided its address satisfies the alignment the caller needs;
/// addresses from the foreign side guarantee nothing beyond byte alignment,
/// so an operation that needs more must check, and gets
/// `BufferAlignmentError` where the source cannot guarantee it.
pub fn to_buffer(buffer: ForeignBuffer, align: usize) -> (r: Result<
    Buffer,
    DataFusionError,
>)
    requires
        align >= 1,
    ensures
        match r {
            Ok(b) => b@ == buffer@ && buffer.addr as int % align as int == 0,
            Err(e) => e == DataFusionError::BufferAlignmentError && buffer.addr as int
                % align as int != 0,
        },
{
    if buffer.addr % align == 0 {
        Ok(Buffer { addr: buffer.addr, bytes: buffer.bytes })
    } else {
        Err(DataFusionError::BufferAlignmentError)
    }
}

/// Imports a foreign byte region by defensive copy: a natively owned
/// duplicate of the content, at a region of the native side's own (whose
/// address the allocator decides, so it is the caller's to give). The copy
/// is for when the foreign object's lifetime cannot be proven to outlast
/// the use, or when its address cannot satisfy an alignment the aliasing
/// import would need.
pub fn copy_to_buffer(buffer: &ForeignBuffer, dest_addr: usize) -> (r: Buffer)
    ensures
        r.addr == dest_addr,
        r.bytes@ == buffer.bytes@,
{
    let mut bytes: Vec<u8> = Vec::new();
    let n: usize = buffer.bytes.len();
    let mut i: usize = 0;
    while i < n
        invariant
            i <= n,
            n == buffer.bytes@.len(),
            bytes@ == buffer.bytes@.subrange(0, i as int),
        decreases n - i,
    {
        bytes.push(buffer.bytes[i]);
        proof {
            assert(bytes@ =~= buffer.bytes@.subrange(0, i + 1));
        }
        i = i + 1;
    }
    proof {
        assert(bytes@ =~= buffer.bytes@);
    }
    Buffer { addr: dest_addr, bytes }
}

} // verus!
