//! Work-grid sizing: mapping a total count of parallel work units to a
//! two-level launch geometry (units per group x number of groups), purely
//! as a function of the count and the device limits.

use vstd::prelude::*;

verus! {

/// Units of work one group executes, in up to three dimensions.
#[derive(Clone, Copy, PartialEq, Eq, Structural, Debug)]
pub struct GroupSize {
    pub x: u32,
    pub y: u32,
    pub z: u32,
}

impl GroupSize {
    /// The customary default geometry: a 16 x 16 plane of units.
    pub fn default_plane() -> (g: GroupSize)
        ensures
            g.x == 16 && g.y == 16 && g.z == 1,
    {
        GroupSize { x: 16, y: 16, z: 1 }
    }

    /// Total units per group.
    pub open spec fn spec_num_units(self) -> int {
        self.x * self.y * self.z
    }

    pub fn num_units(self) -> (n: u64)
        requires
            self.spec_num_units() <= u64::MAX,
        ensures
            n == self.spec_num_units(),
    {
        proof {
            assert(self.x as int * self.y as int <= 0xffff_ffff * 0xffff_ffff) by {
                vstd::arithmetic::mul::lemma_mul_upper_bound(
                    self.x as int,
                    0xffff_ffff,
                    self.y as int,
                    0xffff_ffff,
                );
            }
        }
        let xy = (self.x as u64) * (self.y as u64);
        if self.z == 0 {
            0
        } else {
            xy * (self.z as u64)
        }
    }
}

/// How many groups a launch dispatches, in up to three dimensions.
#[derive(Clone, Copy, PartialEq, Eq, Structural, Debug)]
pub struct GroupCount {
    pub x: u32,
    pub y: u32,
    pub z: u32,
}

impl GroupCount {
    pub open spec fn spec_num_groups(self) -> int {
        self.x * self.y * self.z
    }
}

/// The launch geometry of one kernel dispatch, derived deterministically
/// from the output element count and the device limits, recomputed per
/// call and never persisted.
#[derive(Clone, Copy, PartialEq, Eq, Structural, Debug)]
pub struct LaunchPlan {
    pub group_size: GroupSize,
    pub group_count: GroupCount,
    pub vectorization_factor: u8,
}

/// Ceiling division on nonnegative mathematical integers.
pub open spec fn spec_ceil_div(n: int, d: int) -> int {
    (n + d - 1) / d
}

/// `d * ceil(n / d)` covers `n`.
pub proof fn lemma_ceil_div_covers(n: int, d: int)
    requires
        0 <= n,
        1 <= d,
    ensures
        spec_ceil_div(n, d) >= 0,
        d * spec_ceil_div(n, d) >= n,
        // one fewer group would not cover n
        n > 0 ==> d * (spec_ceil_div(n, d) - 1) < n,
{
    let q = spec_ceil_div(n, d);
    assert(n + d - 1 == d * ((n + d - 1) / d) + (n + d - 1) % d) by {
        vstd::arithmetic::div_mod::lemma_fundamental_div_mod(n + d - 1, d);
    }
    assert(0 <= (n + d - 1) % d < d) by {
        vstd::arithmetic::div_mod::lemma_mod_bound(n + d - 1, d);
    }
    assert(q >= 0) by {
        vstd::arithmetic::div_mod::lemma_div_pos_is_pos(n + d - 1, d);
    }
    assert(d * (q - 1) == d * q - d) by {
        vstd::arithmetic::mul::lemma_mul_is_distributive_sub(d, q, 1);
    }
}

/// Executable ceiling division.
pub fn ceil_div(n: u64, d: u64) -> (q: u64)
    requires
        d >= 1,
    ensures
        q == spec_ceil_div(n as int, d as int),
{
    let q = n / d;
    let r = n % d;
    proof {
        vstd::arithmetic::div_mod::lemma_fundamental_div_mod(n as int, d as int);
        lemma_ceil_div_covers(n as int, d as int);
        if r == 0 {
            assert(n as int == d as int * q as int);
            assert((n as int + d as int - 1) / d as int == q as int) by {
                vstd::arithmetic::div_mod::lemma_hoist_over_denominator(
                    d as int - 1,
                    q as int,
                    d as nat,
                );
                assert((d as int - 1) / d as int == 0) by {
                    vstd::arithmetic::div_mod::lemma_basic_div(d as int - 1, d as int);
                }
                assert(q as int * d as int == d as int * q as int) by {
                    vstd::arithmetic::mul::lemma_mul_is_commutative(q as int, d as int);
                }
            }
        } else {
            assert((n as int + d as int - 1) / d as int == q as int + 1) by {
                vstd::arithmetic::div_mod::lemma_hoist_over_denominator(
                    r as int - 1,
                    q as int + 1,
                    d as nat,
                );
                assert((r as int - 1) / d as int == 0) by {
                    vstd::arithmetic::div_mod::lemma_basic_div(r as int - 1, d as int);
                }
                assert((q as int + 1) * d as int == d as int * q as int + d as int) by {
                    vstd::arithmetic::mul::lemma_mul_is_distributive_add_other_way(
                        d as int,
                        q as int,
                        1,
                    );
                    vstd::arithmetic::mul::lemma_mul_is_commutative(q as int + 1, d as int);
                }
            }
        }
    }
    if r == 0 {
        q
    } else {
        proof {
            // r != 0 rules out d == 1, so the quotient shrank and q + 1 fits.
            if n > 0 {
                vstd::arithmetic::div_mod::lemma_div_is_strictly_smaller(n as int, d as int);
            }
        }
        q + 1
    }
}

/// Largest group count a launch may use along one grid dimension.
pub const MAX_GROUPS_PER_DIM: u32 = 65535;

/// Largest work-unit count the default geometry can cover after folding
/// the group count over two grid dimensions.
pub const MAX_LAUNCH_UNITS: u64 = 256 * 65535 * 65535;

/// Any count up to `MAX_LAUNCH_UNITS` yields a group count that fits the
/// two foldable grid dimensions.
pub proof fn lemma_default_grid_capacity(n: int)
    requires
        0 <= n <= MAX_LAUNCH_UNITS,
    ensures
        spec_ceil_div(n, 256) <= 65535 * 65535,
{
    assert((n + 255) / 256 <= (255 + 65535int * 65535 * 256) / 256) by {
        vstd::arithmetic::div_mod::lemma_div_is_ordered(n + 255, 255 + 65535int * 65535 * 256, 256);
    }
    assert(255int / 256 + 65535int * 65535 == (255 + 65535int * 65535 * 256) / 256) by {
        vstd::arithmetic::div_mod::lemma_hoist_over_denominator(255, 65535int * 65535, 256nat);
    }
}

/// The plan an elementwise launch of `n_units` work units uses under the
/// default group geometry.
pub open spec fn spec_elemwise_plan(n_units: int, w: u8) -> LaunchPlan {
    let group = GroupSize { x: 16, y: 16, z: 1 };
    let (cx, cy) = spec_elemwise_grid(n_units, group, MAX_GROUPS_PER_DIM as int);
    LaunchPlan {
        group_size: group,
        group_count: GroupCount { x: cx as u32, y: cy as u32, z: 1 },
        vectorization_factor: w,
    }
}

/// Builds the launch plan for `n_units` independent work units with the
/// default group geometry, packing `w` elements per unit.
pub fn make_elemwise_plan(n_units: u64, w: u8) -> (p: LaunchPlan)
    requires
        n_units <= MAX_LAUNCH_UNITS,
    ensures
        p == spec_elemwise_plan(n_units as int, w),
        p.group_count.spec_num_groups() * p.group_size.spec_num_units() >= n_units,
{
    let group = GroupSize::default_plane();
    proof {
        lemma_default_grid_capacity(n_units as int);
    }
    let counts = elemwise_grid(n_units, group, MAX_GROUPS_PER_DIM);
    LaunchPlan { group_size: group, group_count: counts, vectorization_factor: w }
}

/// The group count an elementwise launch uses for `n` work units: groups of
/// `group.num_units()` units, the group count obtained by ceiling division
/// and folded into a second grid dimension wherever it would exceed the
/// device's per-dimension maximum.
pub open spec fn spec_elemwise_grid(n: int, group: GroupSize, max_per_dim: int) -> (int, int) {
    let groups = spec_ceil_div(n, group.spec_num_units());
    if groups <= max_per_dim {
        (groups, 1)
    } else {
        (max_per_dim, spec_ceil_div(groups, max_per_dim))
    }
}

/// Sizes the launch grid for `n` independent work units.
///
/// The result is a pure function of `n`, the group geometry and the device
/// limit, so a launch shape can never carry information of its own; the
/// coverage bound (`group units x group count >= n`) is what lets every
/// kernel guard over-provisioned units with a bounds check and exit them.
pub fn elemwise_grid(n: u64, group: GroupSize, max_per_dim: u32) -> (counts: GroupCount)
    requires
        group.spec_num_units() >= 1,
        group.spec_num_units() <= u64::MAX,
        max_per_dim >= 1,
        // the device must be able to cover n at all
        spec_ceil_div(n as int, group.spec_num_units()) <= max_per_dim as int * max_per_dim as int,
    ensures
        ({
            let (cx, cy) = spec_elemwise_grid(n as int, group, max_per_dim as int);
            &&& counts.x == cx
            &&& counts.y == cy
            &&& counts.z == 1
        }),
        counts.spec_num_groups() * group.spec_num_units() >= n,
{
    let units = group.num_units();
    let groups = ceil_div(n, units);
    proof {
        lemma_ceil_div_covers(n as int, units as int);
    }
    if groups <= max_per_dim as u64 {
        let counts = GroupCount { x: groups as u32, y: 1, z: 1 };
        proof {
            lemma_grid_covers(n as int, group, groups as int, 1);
        }
        counts
    } else {
        let folded = ceil_div(groups, max_per_dim as u64);
        proof {
            lemma_ceil_div_covers(groups as int, max_per_dim as int);
            assert(folded <= max_per_dim) by {
                lemma_fold_within_limit(groups as int, max_per_dim as int);
            }
            assert(max_per_dim as int * folded as int >= groups as int) by {
                vstd::arithmetic::mul::lemma_mul_is_commutative(max_per_dim as int, folded as int);
            }
            lemma_grid_covers(n as int, group, max_per_dim as int, folded as int);
        }
        GroupCount { x: max_per_dim, y: folded as u32, z: 1 }
    }
}

/// At most `m * m` groups fold into at most `m` rows of `m`.
proof fn lemma_fold_within_limit(groups: int, m: int)
    requires
        1 <= m,
        0 <= groups <= m * m,
    ensures
        spec_ceil_div(groups, m) <= m,
{
    assert(groups + m - 1 <= m - 1 + m * m);
    assert((groups + m - 1) / m <= (m - 1 + m * m) / m) by {
        vstd::arithmetic::div_mod::lemma_div_is_ordered(groups + m - 1, m - 1 + m * m, m);
    }
    assert((m - 1) / m == 0) by {
        vstd::arithmetic::div_mod::lemma_basic_div(m - 1, m);
    }
    assert((m - 1) / m + m == (m - 1 + m * m) / m) by {
        vstd::arithmetic::div_mod::lemma_hoist_over_denominator(m - 1, m, m as nat);
    }
}

/// If the grid holds at least `ceil(n / units)` groups in total, the grid
/// covers all `n` units.
proof fn lemma_grid_covers(n: int, group: GroupSize, cx: int, cy: int)
    requires
        0 <= n,
        1 <= group.spec_num_units(),
        0 <= cx,
        0 <= cy,
        cx * cy >= spec_ceil_div(n, group.spec_num_units()),
    ensures
        (cx * cy * 1) * group.spec_num_units() >= n,
{
    let u = group.spec_num_units();
    let q = spec_ceil_div(n, u);
    lemma_ceil_div_covers(n, u);
    assert(q * u <= (cx * cy) * u) by {
        vstd::arithmetic::mul::lemma_mul_inequality(q, cx * cy, u);
    }
    assert(q * u == u * q) by {
        vstd::arithmetic::mul::lemma_mul_is_commutative(q, u);
    }
}

} // verus!
