//! The metadata binding shared by template kernels: one flat buffer of
//! scalars holding the rank, then the strides of every bound tensor, then
//! their shapes, in a fixed order every generated kernel can rely on.

use vstd::prelude::*;

use crate::comptime::KernelKey;
use crate::descriptor::TensorDesc;
use crate::grid::GroupSize;

verus! {

/// A kernel whose program text is written by hand rather than generated:
/// it renders its source and names the identity its compiled form is
/// cached under. Users of the core implement this for their template
/// kernels.
pub trait KernelSource {
    /// Renders the kernel's program text.
    fn source(&self) -> String;

    /// Identifier for the kernel, used for caching its compilation.
    fn id(&self) -> KernelKey;
}

/// A compiled template kernel as handed to the compute client.
pub struct CompiledKernel {
    pub source: String,
    pub group_size: GroupSize,
    pub shared_mem_bytes: usize,
}

/// Wraps a kernel source into a launchable task with a fixed group
/// geometry.
pub struct SourceKernel<K> {
    pub kernel_source: K,
    pub group_size: GroupSize,
}

impl<K: KernelSource> SourceKernel<K> {
    /// Renders the wrapped source into a compiled kernel; template kernels
    /// request no shared memory.
    pub fn compile(&self) -> (r: CompiledKernel)
        ensures
            r.group_size == self.group_size,
            r.shared_mem_bytes == 0,
    {
        let source = self.kernel_source.source();
        CompiledKernel { source, group_size: self.group_size, shared_mem_bytes: 0 }
    }

    /// The wrapped kernel's cache identity.
    pub fn id(&self) -> KernelKey {
        self.kernel_source.id()
    }
}

/// The info binding of `ts`, all of rank `rank`: index 0 holds the rank;
/// the strides of every tensor follow, then the shapes, each tensor's
/// dimensions in order, every value truncated to the scalar unit.
pub open spec fn spec_build_info(ts: Seq<&TensorDesc>, rank: int) -> Seq<u32> {
    Seq::new(
        (ts.len() * rank * 2 + 1) as nat,
        |k: int|
            if k == 0 {
                rank as u32
            } else if k <= ts.len() * rank {
                ts[(k - 1) / rank].strides@[(k - 1) % rank] as u32
            } else {
                ts[(k - 1 - ts.len() * rank) / rank].shape@[(k - 1 - ts.len() * rank) % rank]
                    as u32
            },
    )
}

/// Reading the info binding back: the stride and shape of tensor `t` along
/// dimension `d` sit at their fixed positions.
pub proof fn lemma_build_info_entry(ts: Seq<&TensorDesc>, rank: int, t: int, d: int)
    requires
        rank >= 1,
        0 <= t < ts.len(),
        0 <= d < rank,
    ensures
        spec_build_info(ts, rank)[1 + t * rank + d] == ts[t].strides@[d] as u32,
        spec_build_info(ts, rank)[1 + ts.len() * rank + t * rank + d] == ts[t].shape@[d] as u32,
{
    lemma_block_position(t, ts.len() as int, rank);
    let k = 1 + t * rank + d;
    assert((k - 1) / rank == t && (k - 1) % rank == d) by {
        vstd::arithmetic::div_mod::lemma_fundamental_div_mod_converse(t * rank + d, rank, t, d);
        vstd::arithmetic::mul::lemma_mul_is_commutative(t, rank);
    }
    let k2 = 1 + ts.len() * rank + t * rank + d;
    assert((k2 - 1 - ts.len() * rank) / rank == t && (k2 - 1 - ts.len() * rank) % rank == d) by {
        vstd::arithmetic::div_mod::lemma_fundamental_div_mod_converse(t * rank + d, rank, t, d);
        vstd::arithmetic::mul::lemma_mul_is_commutative(t, rank);
    }
}

/// Position facts of tensor `t`'s block inside the run of `count` blocks.
proof fn lemma_block_position(t: int, count: int, rank: int)
    requires
        0 <= t < count,
        1 <= rank,
    ensures
        (t + 1) * rank <= count * rank,
        0 <= t * rank,
        t * rank + rank == (t + 1) * rank,
        count * rank * 2 == count * rank + count * rank,
{
    vstd::arithmetic::mul::lemma_mul_inequality(t + 1, count, rank);
    vstd::arithmetic::mul::lemma_mul_nonnegative(t, rank);
    vstd::arithmetic::mul::lemma_mul_is_distributive_add_other_way(rank, t, 1);
}

/// Builds the info binding for `tensors`, all of rank `rank`.
pub fn build_info(tensors: &Vec<&TensorDesc>, rank: usize) -> (info: Vec<u32>)
    requires
        rank >= 1,
        rank <= 0xffff_ffff,
        forall|t: int|
            0 <= t < tensors@.len() ==> (#[trigger] tensors@[t].shape@).len() == rank
                && tensors@[t].strides@.len() == rank,
        tensors@.len() * rank * 2 + 1 <= usize::MAX,
    ensures
        info@ == spec_build_info(tensors@, rank as int),
{
    let ghost goal = spec_build_info(tensors@, rank as int);
    let count = tensors.len();
    let mut info: Vec<u32> = Vec::new();
    info.push(rank as u32);
    proof {
        assert(info@ =~= goal.take(1));
    }
    let mut t: usize = 0;
    while t < count
        invariant
            t <= count,
            count == tensors@.len(),
            rank >= 1,
            count * rank * 2 + 1 <= usize::MAX,
            goal == spec_build_info(tensors@, rank as int),
            forall|u: int|
                0 <= u < count ==> (#[trigger] tensors@[u].shape@).len() == rank
                    && tensors@[u].strides@.len() == rank,
            info@.len() == 1 + t * rank,
            info@ == goal.take(1 + t * rank),
        decreases count - t,
    {
        let mut d: usize = 0;
        proof {
            lemma_block_position(t as int, count as int, rank as int);
        }
        while d < rank
            invariant
                d <= rank,
                t < count,
                count == tensors@.len(),
                rank >= 1,
                count * rank * 2 + 1 <= usize::MAX,
                goal == spec_build_info(tensors@, rank as int),
                forall|u: int|
                    0 <= u < count ==> (#[trigger] tensors@[u].shape@).len() == rank
                        && tensors@[u].strides@.len() == rank,
                (t + 1) * rank <= count * rank,
                info@.len() == 1 + t * rank + d,
                info@ == goal.take(1 + t * rank + d),
            decreases rank - d,
        {
            proof {
                lemma_build_info_entry(tensors@, rank as int, t as int, d as int);
                lemma_block_position(t as int, count as int, rank as int);
            }
            #[verifier::truncate]
            let v = tensors[t].strides[d] as u32;
            info.push(v);
            proof {
                assert(info@ =~= goal.take(1 + t as int * rank as int + d as int + 1));
            }
            d = d + 1;
        }
        proof {
            lemma_block_position(t as int, count as int, rank as int);
        }
        t = t + 1;
    }
    let mut t2: usize = 0;
    while t2 < count
        invariant
            t2 <= count,
            count == tensors@.len(),
            rank >= 1,
            count * rank * 2 + 1 <= usize::MAX,
            goal == spec_build_info(tensors@, rank as int),
            forall|u: int|
                0 <= u < count ==> (#[trigger] tensors@[u].shape@).len() == rank
                    && tensors@[u].strides@.len() == rank,
            info@.len() == 1 + count * rank + t2 * rank,
            info@ == goal.take(1 + count * rank + t2 * rank),
        decreases count - t2,
    {
        let mut d: usize = 0;
        proof {
            lemma_block_position(t2 as int, count as int, rank as int);
        }
        while d < rank
            invariant
                d <= rank,
                t2 < count,
                count == tensors@.len(),
                rank >= 1,
                count * rank * 2 + 1 <= usize::MAX,
                goal == spec_build_info(tensors@, rank as int),
                forall|u: int|
                    0 <= u < count ==> (#[trigger] tensors@[u].shape@).len() == rank
                        && tensors@[u].strides@.len() == rank,
                (t2 + 1) * rank <= count * rank,
                count * rank * 2 == count * rank + count * rank,
                info@.len() == 1 + count * rank + t2 * rank + d,
                info@ == goal.take(1 + count * rank + t2 * rank + d),
            decreases rank - d,
        {
            proof {
                lemma_build_info_entry(tensors@, rank as int, t2 as int, d as int);
                lemma_block_position(t2 as int, count as int, rank as int);
            }
            #[verifier::truncate]
            let v = tensors[t2].shape[d] as u32;
            info.push(v);
            proof {
                assert(info@ =~= goal.take(
                    1 + count as int * rank as int + t2 as int * rank as int + d as int + 1,
                ));
            }
            d = d + 1;
        }
        proof {
            lemma_block_position(t2 as int, count as int, rank as int);
        }
        t2 = t2 + 1;
    }
    proof {
        lemma_block_position(0, if count >= 1 {
            count as int
        } else {
            1
        }, rank as int);
        assert(info@ =~= goal);
    }
    info
}

} // verus!
