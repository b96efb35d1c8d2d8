//! Kernel specialization identity: the record of structural parameters
//! baked into a specialized kernel. Two launches whose keys are equal may
//! reuse one compiled program at the compute client's cache; two launches
//! with different keys are different kernels even when the general-purpose
//! logic behind them is identical.

use vstd::prelude::*;

use crate::comparison::CmpOp;
use crate::pool::PoolKind;

verus! {

/// The comptime parameters of each operation family. A field of type
/// `Option<usize>` is a loop extent that is unrolled into straight-line
/// code when known at the call site (`Some`) and kept as a runtime-bounded
/// loop when not (`None`).
#[derive(Clone, Copy, PartialEq, Eq, Structural, Debug)]
pub enum KernelKey {
    /// Tensor-tensor comparison: the predicate, the rank, and whether each
    /// operand needs the index projection (a non-output layout).
    Cmp { op: CmpOp, rank: usize, project_lhs: bool, project_rhs: bool, vectorization: u8 },
    /// Tensor-scalar comparison.
    CmpScalar { op: CmpOp, vectorization: u8 },
    /// Cast of a boolean-kind buffer to a numeric element kind.
    BoolCast,
    /// 3-D convolution; each kernel-window extent unrolls when known.
    Conv3d {
        kernel_size_0: Option<usize>,
        kernel_size_1: Option<usize>,
        kernel_size_2: Option<usize>,
    },
    /// Gather along one axis.
    Select { dim: usize, rank: usize },
    /// Strided sub-range copy.
    Slice { rank: usize },
    /// Windowed pooling with a strategy and a fixed window.
    Pool2d { strategy: PoolKind, window_h: usize, window_w: usize },
    /// Adaptive average pooling (window sizes derived per output element).
    AdaptiveAvgPool2d,
}

} // verus!
