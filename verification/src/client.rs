//! A model of the external compute client: the collaborator that owns
//! buffer allocation, reference tracking and launch execution. The model
//! keeps every device buffer as a vector of element values and a count of
//! live references, which is exactly what the aliasing decision needs to
//! consult; launches are executed synchronously by the operation families.

use vstd::prelude::*;

use crate::comptime::KernelKey;
use crate::descriptor::{layout_fits, TensorDesc};
use crate::grid::LaunchPlan;

verus! {

/// The compute client a device exposes: an allocator of device buffers
/// plus the uniqueness test backing the in-place aliasing decision.
pub struct ComputeClient {
    /// Identity of the device this client drives.
    pub device: usize,
    /// One value vector per allocated buffer, indexed by buffer handle.
    pub buffers: Vec<Vec<i64>>,
    /// Count of live references (descriptors handed out) per buffer.
    pub refs: Vec<usize>,
    /// Every launch submitted so far: the kernel identity the compilation
    /// cache is keyed by, and the grid it was dispatched over.
    pub launches: Vec<LaunchRecord>,
}

/// One kernel dispatch as the compute client sees it.
#[derive(Clone, Copy, PartialEq, Eq, Structural, Debug)]
pub struct LaunchRecord {
    pub key: KernelKey,
    pub plan: LaunchPlan,
}

impl ComputeClient {
    pub open spec fn well_formed(self) -> bool {
        self.refs@.len() == self.buffers@.len()
    }

    pub fn new(device: usize) -> (c: ComputeClient)
        ensures
            c.well_formed(),
            c.device == device,
            c.buffers@.len() == 0,
    {
        ComputeClient { device, buffers: Vec::new(), refs: Vec::new(), launches: Vec::new() }
    }

    /// Allocates a zero-filled buffer of `len` elements and hands back its
    /// handle, with one live reference (the caller's).
    pub fn allocate(&mut self, len: usize) -> (b: usize)
        requires
            old(self).well_formed(),
        ensures
            final(self).well_formed(),
            b == old(self).buffers@.len(),
            final(self).device == old(self).device,
            final(self).buffers@.len() == b + 1,
            final(self).buffers@[b as int]@ == Seq::new(len as nat, |i: int| 0i64),
            forall|k: int| 0 <= k < b ==> final(self).buffers@[k] == old(self).buffers@[k],
            final(self).refs@ == old(self).refs@.push(1),
            final(self).launches@ == old(self).launches@,
    {
        let b = self.buffers.len();
        let mut v: Vec<i64> = Vec::new();
        v.resize(len, 0i64);
        proof {
            assert(v@ =~= Seq::new(len as nat, |i: int| 0i64));
        }
        self.buffers.push(v);
        self.refs.push(1);
        b
    }

    /// Whether the caller holds the only live reference to `b`: the test
    /// behind every in-place aliasing decision.
    pub fn is_unique(&self, b: usize) -> (r: bool)
        requires
            b < self.refs@.len(),
        ensures
            r == (self.refs@[b as int] == 1),
    {
        self.refs[b] == 1
    }

    /// Records one more live reference to `b` (a new descriptor was built
    /// over the buffer).
    pub fn retain(&mut self, b: usize)
        requires
            old(self).well_formed(),
            b < old(self).refs@.len(),
            old(self).refs@[b as int] < usize::MAX,
        ensures
            final(self).well_formed(),
            final(self).device == old(self).device,
            final(self).buffers@ == old(self).buffers@,
            final(self).refs@ == old(self).refs@.update(
                b as int,
                (old(self).refs@[b as int] + 1) as usize,
            ),
            final(self).launches@ == old(self).launches@,
    {
        let n = self.refs[b];
        self.refs.set(b, n + 1);
    }

    /// Drops one live reference to `b` (a descriptor went away).
    pub fn release(&mut self, b: usize)
        requires
            old(self).well_formed(),
            b < old(self).refs@.len(),
            old(self).refs@[b as int] >= 1,
        ensures
            final(self).well_formed(),
            final(self).device == old(self).device,
            final(self).buffers@ == old(self).buffers@,
            final(self).refs@ == old(self).refs@.update(
                b as int,
                (old(self).refs@[b as int] - 1) as usize,
            ),
            final(self).launches@ == old(self).launches@,
    {
        let n = self.refs[b];
        self.refs.set(b, n - 1);
    }

    /// Read access to a buffer's contents.
    pub fn buffer(&self, b: usize) -> (r: &Vec<i64>)
        requires
            b < self.buffers@.len(),
        ensures
            r == self.buffers@[b as int],
    {
        &self.buffers[b]
    }

    /// Replaces the contents of buffer `b` (the result of a launch that
    /// wrote it, whether fresh or aliased).
    pub fn install(&mut self, b: usize, v: Vec<i64>)
        requires
            old(self).well_formed(),
            b < old(self).buffers@.len(),
        ensures
            final(self).well_formed(),
            final(self).device == old(self).device,
            final(self).refs@ == old(self).refs@,
            final(self).buffers@ == old(self).buffers@.update(b as int, v),
            final(self).launches@ == old(self).launches@,
    {
        self.buffers.set(b, v);
    }

    /// Accepts one kernel dispatch. The model records it; a real client
    /// compiles the kernel (or finds it in the cache under `rec.key`) and
    /// queues the asynchronous launch.
    pub fn submit(&mut self, rec: LaunchRecord)
        requires
            old(self).well_formed(),
        ensures
            final(self).well_formed(),
            final(self).device == old(self).device,
            final(self).buffers@ == old(self).buffers@,
            final(self).refs@ == old(self).refs@,
            final(self).launches@ == old(self).launches@.push(rec),
    {
        self.launches.push(rec);
    }
}

/// A descriptor is usable against a client: structurally well formed, its
/// buffer is one the client allocated on this device, and the layout never
/// addresses past the buffer's end.
pub open spec fn desc_valid(desc: TensorDesc, client: ComputeClient) -> bool {
    &&& desc.well_formed()
    &&& desc.buffer < client.buffers@.len()
    &&& desc.device == client.device
    &&& layout_fits(desc.shape@, desc.strides@, client.buffers@[desc.buffer as int]@.len() as int)
}

} // verus!
