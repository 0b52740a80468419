//! Kernel launch shapes and kernel argument conversions.
use vstd::prelude::*;
use vstd::arithmetic::div_mod::{lemma_fundamental_div_mod, lemma_fundamental_div_mod_converse, lemma_mod_pos_bound};
use crate::saturate::sat_add_u32;

verus! {

/// Threads per block of the one-dimensional reduction and finalize kernels.
pub const REDUCE_BLOCK: u32 = 256;

/// Number of polynomial coefficients a kernel receives.
pub const MAX_DEGREE: usize = 32;

/// Grid and block dimensions of one kernel launch.
#[derive(Debug, Clone, Copy)]
pub struct LaunchShape {
    pub grid: (u32, u32, u32),
    pub block: (u32, u32, u32),
}

/// `ceil(n / d)`.
pub open spec fn spec_div_ceil(n: int, d: int) -> int {
    (n + d - 1) / d
}

/// Blocks of `block` threads for `n` items, computed as
/// `(n + block - 1) / block` with saturating `u32` arithmetic.
pub open spec fn spec_padded_blocks(n: int, block: int) -> int {
    (sat_add_u32(n, block) - 1) / block
}

/// `ceil(n / d)` in `u32`.
pub fn div_ceil_u32(n: u32, d: u32) -> (r: u32)
    requires
        d > 0,
    ensures
        r == spec_div_ceil(n as int, d as int),
{
    let q = n / d;
    let rem = n % d;
    proof {
        lemma_fundamental_div_mod(n as int, d as int);
        assert(n as int == q as int * d as int + rem as int) by (nonlinear_arith)
            requires n as int == d as int * q as int + rem as int;
        if rem == 0 {
            lemma_fundamental_div_mod_converse(n + d - 1, d as int, q as int, d - 1);
        } else {
            assert((q as int + 1) * d as int == q as int * d as int + d as int) by (nonlinear_arith);
            lemma_fundamental_div_mod_converse(n + d - 1, d as int, q + 1, rem - 1);
        }
    }
    if rem != 0 {
        assert(d >= 2);
        assert(q as int * d <= u32::MAX);
        assert(q < u32::MAX) by (nonlinear_arith)
            requires q as int * d as int <= u32::MAX, d >= 2, q >= 0;
        q + 1
    } else {
        q
    }
}

/// `ceil(n / d)` blocks cover the `n` items, and one block fewer would not.
pub proof fn lemma_div_ceil_covers(n: int, d: int)
    requires
        0 <= n,
        0 < d,
    ensures
        spec_div_ceil(n, d) * d >= n,
        n > 0 ==> (spec_div_ceil(n, d) - 1) * d < n,
{
    let q = (n + d - 1) / d;
    let r = (n + d - 1) % d;
    lemma_fundamental_div_mod(n + d - 1, d);
    lemma_mod_pos_bound(n + d - 1, d);
    assert(q * d >= n) by (nonlinear_arith)
        requires n + d - 1 == d * q + r, 0 <= r < d;
    if n > 0 {
        assert((q - 1) * d < n) by (nonlinear_arith)
            requires n + d - 1 == d * q + r, 0 <= r < d, n > 0;
    }
}

/// Blocks for `n` items with the padded, saturating formula.
pub fn padded_blocks(n: u32, block: u32) -> (r: u32)
    requires
        block > 0,
    ensures
        r == spec_padded_blocks(n as int, block as int),
{
    n.saturating_add(block).saturating_sub(1) / block
}

/// Without saturation the padded formula is `ceil(n / block)`.
pub proof fn lemma_padded_blocks_is_div_ceil(n: int, block: int)
    requires
        0 <= n,
        0 < block,
        n + block <= u32::MAX,
    ensures
        spec_padded_blocks(n, block) == spec_div_ceil(n, block),
{
}

/// Launch of the per-pixel kernels: 16 x 16 tiles covering the image.
pub fn tile_launch(width: u32, height: u32) -> (r: LaunchShape)
    ensures
        r.grid == (spec_div_ceil(width as int, 16) as u32, spec_div_ceil(height as int, 16) as u32, 1u32),
        r.block == (16u32, 16u32, 1u32),
{
    LaunchShape { grid: (div_ceil_u32(width, 16), div_ceil_u32(height, 16), 1), block: (16, 16, 1) }
}

/// Launch of the density kernel: 16 x 16 tiles over each XY slice, one
/// grid layer per Z slice.
pub fn density_launch(dims: [u32; 3]) -> (r: LaunchShape)
    ensures
        r.grid == (
            spec_padded_blocks(dims[0] as int, 16) as u32,
            spec_padded_blocks(dims[1] as int, 16) as u32,
            dims[2],
        ),
        r.block == (16u32, 16u32, 1u32),
{
    LaunchShape {
        grid: (padded_blocks(dims[0], 16), padded_blocks(dims[1], 16), dims[2]),
        block: (16, 16, 1),
    }
}

/// An element count as the `u32` the launch arithmetic uses; a negative
/// count becomes `u32::MAX`.
pub fn launch_count(element_count: i32) -> (r: u32)
    ensures
        r == (if element_count < 0 { u32::MAX as int } else { element_count as int }),
{
    if element_count < 0 {
        u32::MAX
    } else {
        element_count as u32
    }
}

/// Launch of the max-reduction pass: each block of 256 threads reduces
/// 512 elements; at least one block.
pub fn reduce_launch(element_count: i32) -> (r: LaunchShape)
    ensures
        ({
            let n = if element_count < 0 { u32::MAX as int } else { element_count as int };
            let b = spec_padded_blocks(n, 2 * REDUCE_BLOCK);
            r.grid == ((if b < 1 { 1 } else { b }) as u32, 1u32, 1u32)
        }),
        r.block == (REDUCE_BLOCK, 1u32, 1u32),
        r.grid.0 >= 1,
{
    let n = launch_count(element_count);
    let blocks = padded_blocks(n, REDUCE_BLOCK * 2);
    let blocks = if blocks < 1 { 1 } else { blocks };
    LaunchShape { grid: (blocks, 1, 1), block: (REDUCE_BLOCK, 1, 1) }
}

/// Launch of the finalize kernel: one thread per element.
pub fn finalize_launch(element_count: i32) -> (r: LaunchShape)
    ensures
        ({
            let n = if element_count < 0 { u32::MAX as int } else { element_count as int };
            r.grid == (spec_padded_blocks(n, REDUCE_BLOCK as int) as u32, 1u32, 1u32)
        }),
        r.block == (REDUCE_BLOCK, 1u32, 1u32),
{
    let n = launch_count(element_count);
    LaunchShape { grid: (padded_blocks(n, REDUCE_BLOCK), 1, 1), block: (REDUCE_BLOCK, 1, 1) }
}

/// A host element count as the `i32` a kernel receives, capped at `i32::MAX`.
pub fn element_count_i32(total: usize) -> (r: i32)
    ensures
        r == (if total > i32::MAX { i32::MAX as int } else { total as int }),
{
    if total > 2147483647usize {
        i32::MAX
    } else {
        total as i32
    }
}

/// An unsigned kernel argument (a grid dimension, a quantum number) as the
/// `i32` a kernel receives; a value beyond `i32::MAX` is passed as 0.
pub fn kernel_i32(value: u32) -> (r: i32)
    ensures
        r == (if value > i32::MAX { 0 } else { value as int }),
{
    if value > 2147483647u32 {
        0
    } else {
        value as i32
    }
}

/// Degree of a polynomial given by `len` coefficients, as the `i32` a kernel
/// receives (0 for no coefficients or a degree beyond `i32::MAX`).
pub fn degree_arg(len: usize) -> (r: i32)
    ensures
        r == (if len == 0 || len - 1 > i32::MAX { 0 } else { len - 1 }),
{
    let degree = len.saturating_sub(1);
    if degree > 2147483647usize {
        0
    } else {
        degree as i32
    }
}

/// The first `MAX_DEGREE` coefficients, padded with `zero`.
pub fn pad_coefficients<T: Copy>(coeffs: &Vec<T>, zero: T) -> (r: Vec<T>)
    ensures
        r@.len() == MAX_DEGREE,
        forall|i: int|
            0 <= i < MAX_DEGREE ==> #[trigger] r@[i] == (if i < coeffs@.len() { coeffs@[i] } else { zero }),
{
    let mut padded: Vec<T> = Vec::new();
    let mut i: usize = 0;
    while i < MAX_DEGREE
        invariant
            i <= MAX_DEGREE,
            padded@.len() == i,
            forall|j: int| 0 <= j < i ==> #[trigger] padded@[j] == (if j < coeffs@.len() { coeffs@[j] } else { zero }),
        decreases MAX_DEGREE - i,
    {
        if i < coeffs.len() {
            padded.push(coeffs[i]);
        } else {
            padded.push(zero);
        }
        i = i + 1;
    }
    padded
}

} // verus!
