//! Cast of a boolean-kind buffer to a numeric element kind. Boolean
//! buffers hold one machine word per element and, depending on how they
//! were produced, may hold any nonzero bit pattern for true; a naive
//! reinterpretation would not yield 0 or 1, so this kernel normalizes.

use vstd::prelude::*;

use crate::client::{desc_valid, ComputeClient, LaunchRecord};
use crate::comptime::KernelKey;
use crate::descriptor::{
    contiguous_strides, copy_dims, is_contiguous_layout, lemma_contiguous_max_index,
    lemma_suffix_product_positive, spec_numel, ElemKind, TensorDesc,
};
use crate::grid::{make_elemwise_plan, spec_elemwise_plan, MAX_LAUNCH_UNITS};

verus! {

/// What the cast writes: 1 for a true (at least 1) boolean word, 0
/// otherwise.
pub open spec fn spec_bool_cast_value(v: i64) -> i64 {
    if v >= 1 {
        1
    } else {
        0
    }
}

/// Casts a boolean-kind tensor to `target` kind: element `i` of the fresh
/// contiguous output is 1 where the input word is at least 1, else 0.
pub fn bool_cast(client: &mut ComputeClient, tensor: TensorDesc, target: ElemKind) -> (out:
    TensorDesc)
    requires
        old(client).well_formed(),
        desc_valid(tensor, *old(client)),
        spec_numel(tensor.shape@) <= old(client).buffers@[tensor.buffer as int]@.len(),
        spec_numel(tensor.shape@) <= MAX_LAUNCH_UNITS,
    ensures
        final(client).well_formed(),
        final(client).device == old(client).device,
        out.shape@ == tensor.shape@,
        out.device == tensor.device,
        out.elem == target,
        is_contiguous_layout(out.shape@, out.strides@),
        desc_valid(out, *final(client)),
        out.buffer == old(client).buffers@.len(),
        final(client).buffers@.len() == old(client).buffers@.len() + 1,
        final(client).refs@ == old(client).refs@.push(1),
        forall|k: int|
            0 <= k < old(client).buffers@.len() ==> final(client).buffers@[k] == old(
                client,
            ).buffers@[k],
        final(client).buffers@[out.buffer as int]@.len() == spec_numel(tensor.shape@),
        forall|i: int|
            0 <= i < spec_numel(tensor.shape@) ==> final(client).buffers@[out.buffer as int]@[i]
                == spec_bool_cast_value(old(client).buffers@[tensor.buffer as int]@[i]),
        final(client).launches@ == old(client).launches@.push(
            (LaunchRecord {
                key: KernelKey::BoolCast,
                plan: spec_elemwise_plan(spec_numel(tensor.shape@) as int, 1),
            }),
        ),
{
    let n = tensor.numel();
    let plan = make_elemwise_plan(n as u64, 1);
    let in_buf = client.buffer(tensor.buffer);
    let mut res: Vec<i64> = Vec::new();
    let mut i: usize = 0;
    while i < n
        invariant
            i <= n,
            n <= in_buf@.len(),
            res@.len() == i,
            forall|k: int| 0 <= k < i ==> res@[k] == spec_bool_cast_value(in_buf@[k]),
        decreases n - i,
    {
        if in_buf[i] >= 1 {
            res.push(1);
        } else {
            res.push(0);
        }
        i = i + 1;
    }
    let out_shape = copy_dims(&tensor.shape);
    let out_strides = contiguous_strides(&out_shape);
    let b = client.allocate(n);
    client.install(b, res);
    client.submit(LaunchRecord { key: KernelKey::BoolCast, plan });
    let out = TensorDesc {
        shape: out_shape,
        strides: out_strides,
        buffer: b,
        device: tensor.device,
        elem: target,
    };
    proof {
        if n > 0 {
            lemma_suffix_product_positive(out.shape@, 0);
            lemma_contiguous_max_index(out.shape@, out.strides@, 0);
        }
    }
    out
}

} // verus!
