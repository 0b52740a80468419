//! Voxel grid addressing and storage: voxels are stored linearly in Z-Y-X
//! order, `index = z * dims[1] * dims[0] + y * dims[0] + x`.
use vstd::prelude::*;
use vstd::arithmetic::div_mod::{lemma_fundamental_div_mod, lemma_fundamental_div_mod_converse, lemma_div_denominator};
use crate::saturate::{sat_add_u32, sat_mul_u32, sat_mul_usize, mul_u32_saturating, mul_usize_saturating};

verus! {

/// The linear slot of voxel `(x, y, z)` computed with saturating `u32`
/// arithmetic: `z * dims[1] * dims[0] + y * dims[0] + x`.
pub open spec fn spec_index(x: int, y: int, z: int, dims: [u32; 3]) -> int {
    sat_add_u32(
        sat_add_u32(
            sat_mul_u32(sat_mul_u32(z, dims[1] as int), dims[0] as int),
            sat_mul_u32(y, dims[0] as int),
        ),
        x,
    )
}

/// Number of voxels in a grid of size `dims`, as an integer.
pub open spec fn grid_volume(dims: [u32; 3]) -> int {
    dims[0] as int * dims[1] as int * dims[2] as int
}

/// Number of voxel slots allocated for a grid of size `dims`: the product of
/// the dimensions, saturating at `usize::MAX`.
pub open spec fn spec_voxel_count(dims: [u32; 3]) -> int {
    sat_mul_usize(sat_mul_usize(dims[0] as int, dims[1] as int), dims[2] as int)
}

/// The coordinate visited at step `k` of a Z-Y-X scan (x fastest).
pub open spec fn scan_coord(k: int, dims: [u32; 3]) -> (u32, u32, u32) {
    let d0 = dims[0] as int;
    let d1 = dims[1] as int;
    ((k % d0) as u32, ((k / d0) % d1) as u32, (k / (d0 * d1)) as u32)
}

/// The voxel slots after a Z-Y-X scan whose step `k` produced `outs[k]`:
/// each `Some(v)` is stored at the slot of its coordinate when that slot exists.
pub open spec fn apply_writes<V>(cells: Seq<V>, dims: [u32; 3], outs: Seq<Option<V>>) -> Seq<V>
    decreases outs.len(),
{
    if outs.len() == 0 {
        cells
    } else {
        let prev = apply_writes(cells, dims, outs.drop_last());
        let c = scan_coord(outs.len() - 1, dims);
        let i = spec_index(c.0 as int, c.1 as int, c.2 as int, dims);
        match outs.last() {
            Some(v) => if 0 <= i < prev.len() { prev.update(i, v) } else { prev },
            None => prev,
        }
    }
}

/// Linear slot of voxel `(coord_x, coord_y, coord_z)` in a grid of size `dims`.
pub fn index(coord_x: u32, coord_y: u32, coord_z: u32, dims: [u32; 3]) -> (r: usize)
    ensures
        r == spec_index(coord_x as int, coord_y as int, coord_z as int, dims),
{
    let plane = mul_u32_saturating(mul_u32_saturating(coord_z, dims[1]), dims[0]);
    let row = mul_u32_saturating(coord_y, dims[0]);
    let raw = plane.saturating_add(row).saturating_add(coord_x);
    raw as usize
}

/// Number of voxel slots for a grid of size `dims` (saturating product).
pub fn voxel_count(dims: [u32; 3]) -> (r: usize)
    ensures
        r == spec_voxel_count(dims),
{
    let dim0 = dims[0] as usize;
    let dim1 = dims[1] as usize;
    let dim2 = dims[2] as usize;
    mul_usize_saturating(mul_usize_saturating(dim0, dim1), dim2)
}

/// Number of voxels for a grid of size `dims` by a chain of checked
/// products `(dims[0] * dims[1]) * dims[2]`: `None` as soon as one product
/// does not fit in `usize` (so also when `dims[0] * dims[1]` overflows and
/// `dims[2]` is 0).
pub fn voxel_count_checked(dims: [u32; 3]) -> (r: Option<usize>)
    ensures
        r is Some <==> (dims[0] as int * dims[1] as int <= usize::MAX && grid_volume(dims) <= usize::MAX),
        r matches Some(n) ==> n == grid_volume(dims),
{
    let dim0 = dims[0] as usize;
    let dim1 = dims[1] as usize;
    let dim2 = dims[2] as usize;
    match dim0.checked_mul(dim1) {
        Some(plane) => plane.checked_mul(dim2),
        None => None,
    }
}

/// The saturating voxel count is the exact volume capped at `usize::MAX`.
pub proof fn lemma_voxel_count_is_capped_volume(dims: [u32; 3])
    ensures
        spec_voxel_count(dims) == (if grid_volume(dims) > usize::MAX {
            usize::MAX as int
        } else {
            grid_volume(dims)
        }),
{
    let d0 = dims[0] as int;
    let d1 = dims[1] as int;
    let d2 = dims[2] as int;
    if d0 * d1 > usize::MAX {
        if d2 == 0 {
            assert(d0 * d1 * d2 == 0) by (nonlinear_arith) requires d2 == 0;
            assert(usize::MAX as int * d2 == 0) by (nonlinear_arith) requires d2 == 0;
        } else {
            assert(d0 * d1 * d2 >= d0 * d1) by (nonlinear_arith) requires d2 >= 1, d0 >= 0, d1 >= 0;
            assert(usize::MAX as int * d2 >= usize::MAX) by (nonlinear_arith) requires d2 >= 1;
        }
    }
}

/// Decoding the scan step of `(x, y, z)` gives back `(x, y, z)`.
pub proof fn lemma_scan_coord(x: int, y: int, z: int, dims: [u32; 3])
    requires
        0 <= x < dims[0],
        0 <= y < dims[1],
        0 <= z,
    ensures
        scan_coord(z * (dims[0] as int * dims[1] as int) + y * dims[0] as int + x, dims)
            == (x as u32, y as u32, z as u32),
{
    let d0 = dims[0] as int;
    let d1 = dims[1] as int;
    let k = z * (d0 * d1) + y * d0 + x;
    assert(k == (z * d1 + y) * d0 + x) by (nonlinear_arith) requires k == z * (d0 * d1) + y * d0 + x;
    lemma_fundamental_div_mod_converse(k, d0, z * d1 + y, x);
    lemma_fundamental_div_mod_converse(z * d1 + y, d1, z, y);
    assert(y * d0 + x < d0 * d1) by (nonlinear_arith)
        requires 0 <= x < d0, 0 <= y < d1;
    assert(d0 * d1 > 0) by (nonlinear_arith) requires d0 > 0, d1 > 0;
    lemma_fundamental_div_mod_converse(k, d0 * d1, z, y * d0 + x);
}

/// Inside a grid of at most `u32::MAX + 1` voxels no step saturates: the
/// slot of `(x, y, z)` is exactly `z * dims[1] * dims[0] + y * dims[0] + x`,
/// which lies below the volume.
pub proof fn lemma_index_exact(x: int, y: int, z: int, dims: [u32; 3])
    requires
        0 <= x < dims[0],
        0 <= y < dims[1],
        0 <= z < dims[2],
        grid_volume(dims) <= u32::MAX + 1,
    ensures
        spec_index(x, y, z, dims) == z * dims[1] * dims[0] + y * dims[0] + x,
        spec_index(x, y, z, dims) < grid_volume(dims),
{
    let d0 = dims[0] as int;
    let d1 = dims[1] as int;
    let d2 = dims[2] as int;
    let total = z * d1 * d0 + y * d0 + x;
    assert(total < d0 * d1 * d2) by (nonlinear_arith)
        requires 0 <= x < d0, 0 <= y < d1, 0 <= z < d2, total == z * d1 * d0 + y * d0 + x;
    assert(z * d1 <= z * d1 * d0) by (nonlinear_arith) requires d0 >= 1, z >= 0, d1 >= 0;
    assert(z * d1 * d0 >= 0 && y * d0 >= 0) by (nonlinear_arith) requires d0 >= 0, z >= 0, d1 >= 0, y >= 0;
    assert(sat_mul_u32(z, d1) == z * d1);
    assert(sat_mul_u32(z * d1, d0) == z * d1 * d0);
    assert(sat_mul_u32(y, d0) == y * d0);
}

/// The saturating slot is the exact linear position capped at `u32::MAX`:
/// `spec_index == min(z * dims[1] * dims[0] + y * dims[0] + x, u32::MAX)`.
pub proof fn lemma_index_is_capped_position(x: int, y: int, z: int, dims: [u32; 3])
    requires
        0 <= x,
        0 <= y,
        0 <= z,
    ensures
        ({
            let exact = z * dims[1] * dims[0] + y * dims[0] + x;
            spec_index(x, y, z, dims) == (if exact > u32::MAX { u32::MAX as int } else { exact })
        }),
{
    let d0 = dims[0] as int;
    let d1 = dims[1] as int;
    assert(z * d1 >= 0 && y * d0 >= 0 && z * d1 * d0 >= 0) by (nonlinear_arith)
        requires z >= 0, y >= 0, d0 >= 0, d1 >= 0;
    if z * d1 > u32::MAX {
        if d0 == 0 {
            assert(z * d1 * d0 == 0 && u32::MAX as int * d0 == 0 && y * d0 == 0) by (nonlinear_arith)
                requires d0 == 0;
        } else {
            assert(z * d1 * d0 >= z * d1) by (nonlinear_arith) requires d0 >= 1, z * d1 >= 0;
            assert(u32::MAX as int * d0 >= u32::MAX) by (nonlinear_arith) requires d0 >= 1;
        }
    }
}

/// Distinct voxels inside a grid of at most `u32::MAX + 1` voxels have
/// distinct slots.
pub proof fn lemma_index_injective(
    x1: int, y1: int, z1: int,
    x2: int, y2: int, z2: int,
    dims: [u32; 3],
)
    requires
        0 <= x1 < dims[0], 0 <= y1 < dims[1], 0 <= z1 < dims[2],
        0 <= x2 < dims[0], 0 <= y2 < dims[1], 0 <= z2 < dims[2],
        grid_volume(dims) <= u32::MAX + 1,
        spec_index(x1, y1, z1, dims) == spec_index(x2, y2, z2, dims),
    ensures
        x1 == x2 && y1 == y2 && z1 == z2,
{
    let d0 = dims[0] as int;
    let d1 = dims[1] as int;
    lemma_index_exact(x1, y1, z1, dims);
    lemma_index_exact(x2, y2, z2, dims);
    lemma_scan_coord(x1, y1, z1, dims);
    lemma_scan_coord(x2, y2, z2, dims);
    assert(z1 * d1 * d0 == z1 * (d0 * d1)) by (nonlinear_arith);
    assert(z2 * d1 * d0 == z2 * (d0 * d1)) by (nonlinear_arith);
}

/// Every voxel inside a grid whose volume fits both in `u32` slots and in
/// `usize` has its own slot in storage of `voxel_count` slots, so a `set`
/// on an initialized grid always lands.
pub proof fn lemma_in_range_voxel_has_slot(x: int, y: int, z: int, dims: [u32; 3])
    requires
        0 <= x < dims[0],
        0 <= y < dims[1],
        0 <= z < dims[2],
        grid_volume(dims) <= u32::MAX + 1,
        grid_volume(dims) <= usize::MAX,
    ensures
        spec_index(x, y, z, dims) < spec_voxel_count(dims),
{
    lemma_index_exact(x, y, z, dims);
    lemma_voxel_count_is_capped_volume(dims);
}

/// Length of the slot sequence is unchanged by a scan.
pub proof fn lemma_apply_writes_len<V>(cells: Seq<V>, dims: [u32; 3], outs: Seq<Option<V>>)
    ensures
        apply_writes(cells, dims, outs).len() == cells.len(),
    decreases outs.len(),
{
    if outs.len() > 0 {
        lemma_apply_writes_len(cells, dims, outs.drop_last());
    }
}

/// When every scan step `k` addresses slot `k` (no saturation), slot `i`
/// holds the value produced at step `i`, or keeps its old value when that
/// step produced nothing.
pub proof fn lemma_apply_writes_exact<V>(cells: Seq<V>, dims: [u32; 3], outs: Seq<Option<V>>, i: int)
    requires
        0 <= i < cells.len(),
        forall|k: int|
            0 <= k < outs.len() ==> {
                let c = #[trigger] scan_coord(k, dims);
                spec_index(c.0 as int, c.1 as int, c.2 as int, dims) == k
            },
    ensures
        apply_writes(cells, dims, outs)[i] == (if i < outs.len() && outs[i] is Some {
            outs[i]->0
        } else {
            cells[i]
        }),
    decreases outs.len(),
{
    if outs.len() > 0 {
        let prefix = outs.drop_last();
        assert forall|k: int| 0 <= k < prefix.len() implies {
            let c = #[trigger] scan_coord(k, dims);
            spec_index(c.0 as int, c.1 as int, c.2 as int, dims) == k
        } by {
            let c = scan_coord(k, dims);
            assert(spec_index(c.0 as int, c.1 as int, c.2 as int, dims) == k);
        }
        lemma_apply_writes_exact(cells, dims, prefix, i);
        lemma_apply_writes_len(cells, dims, prefix);
        let last = outs.len() - 1;
        let c = scan_coord(last, dims);
        assert(spec_index(c.0 as int, c.1 as int, c.2 as int, dims) == last);
    }
}

/// In a grid of at most `u32::MAX + 1` voxels, scan step `k` addresses slot `k`.
pub proof fn lemma_scan_index_identity(k: int, dims: [u32; 3])
    requires
        0 <= k < grid_volume(dims),
        grid_volume(dims) <= u32::MAX + 1,
    ensures
        ({
            let c = scan_coord(k, dims);
            spec_index(c.0 as int, c.1 as int, c.2 as int, dims) == k
        }),
{
    let d0 = dims[0] as int;
    let d1 = dims[1] as int;
    let d2 = dims[2] as int;
    assert(d0 > 0 && d1 > 0 && d2 > 0) by (nonlinear_arith)
        requires 0 <= k < d0 * d1 * d2, d0 >= 0, d1 >= 0, d2 >= 0;
    let x = k % d0;
    let q = k / d0;
    let y = q % d1;
    let z = q / d1;
    lemma_fundamental_div_mod(k, d0);
    lemma_fundamental_div_mod(q, d1);
    lemma_div_denominator(k, d0, d1);
    assert(0 <= x < d0);
    assert(0 <= y < d1);
    assert(q >= 0) by (nonlinear_arith) requires k >= 0, d0 > 0, q == k / d0;
    assert(z >= 0) by (nonlinear_arith) requires q >= 0, d1 > 0, z == q / d1;
    assert(k == z * d1 * d0 + y * d0 + x) by (nonlinear_arith)
        requires k == d0 * q + x, q == d1 * z + y;
    assert(z < d2) by (nonlinear_arith)
        requires k == z * d1 * d0 + y * d0 + x, k < d0 * d1 * d2, 0 <= x, 0 <= y, d0 > 0, d1 > 0, z >= 0;
    assert(scan_coord(k, dims) == (x as u32, y as u32, z as u32));
    lemma_index_exact(x, y, z, dims);
}

/// In a grid of at most `u32::MAX + 1` voxels a full scan writes every slot
/// from its own coordinate only: slot `i` holds what the scan produced at
/// `i`, or keeps its old value when nothing was produced there.
pub proof fn lemma_fill_writes_own_coordinate<V>(cells: Seq<V>, dims: [u32; 3], outs: Seq<Option<V>>, i: int)
    requires
        grid_volume(dims) <= u32::MAX + 1,
        outs.len() == grid_volume(dims),
        0 <= i < cells.len(),
    ensures
        apply_writes(cells, dims, outs)[i] == (if i < outs.len() && outs[i] is Some {
            outs[i]->0
        } else {
            cells[i]
        }),
{
    assert forall|k: int| 0 <= k < outs.len() implies {
        let c = #[trigger] scan_coord(k, dims);
        spec_index(c.0 as int, c.1 as int, c.2 as int, dims) == k
    } by {
        lemma_scan_index_identity(k, dims);
    }
    lemma_apply_writes_exact(cells, dims, outs, i);
}

/// Scans the grid in Z-Y-X order (x fastest) and stores every value that
/// `produce(x, y, z)` returns at the slot of `(x, y, z)`, when that slot exists.
pub fn fill_voxels<V, F: Fn(u32, u32, u32) -> Option<V>>(voxels: &mut Vec<V>, dims: [u32; 3], produce: F)
    requires
        forall|x: u32, y: u32, z: u32| call_requires(produce, (x, y, z)),
    ensures
        exists|outs: Seq<Option<V>>|
            {
                &&& outs.len() == grid_volume(dims)
                &&& forall|k: int|
                    0 <= k < outs.len() ==> call_ensures(produce, scan_coord(k, dims), #[trigger] outs[k])
                &&& final(voxels)@ == apply_writes(old(voxels)@, dims, outs)
            },
{
    let ghost cells = voxels@;
    let ghost d0 = dims[0] as int;
    let ghost d1 = dims[1] as int;
    let ghost plane = d0 * d1;
    let ghost mut outs: Seq<Option<V>> = Seq::empty();
    proof {
        lemma_apply_writes_len(cells, dims, outs);
    }
    let mut coord_z: u32 = 0;
    while coord_z < dims[2]
        invariant
            forall|x: u32, y: u32, z: u32| call_requires(produce, (x, y, z)),
            coord_z <= dims[2],
            plane == d0 * d1,
            d0 == dims[0],
            d1 == dims[1],
            outs.len() == coord_z * plane,
            forall|k: int| 0 <= k < outs.len() ==> call_ensures(produce, scan_coord(k, dims), #[trigger] outs[k]),
            voxels@ == apply_writes(cells, dims, outs),
            voxels@.len() == cells.len(),
        decreases dims[2] - coord_z,
    {
        let mut coord_y: u32 = 0;
        while coord_y < dims[1]
            invariant
                forall|x: u32, y: u32, z: u32| call_requires(produce, (x, y, z)),
                coord_z < dims[2],
                coord_y <= dims[1],
                plane == d0 * d1,
                d0 == dims[0],
                d1 == dims[1],
                outs.len() == coord_z * plane + coord_y * d0,
                forall|k: int| 0 <= k < outs.len() ==> call_ensures(produce, scan_coord(k, dims), #[trigger] outs[k]),
                voxels@ == apply_writes(cells, dims, outs),
                voxels@.len() == cells.len(),
            decreases dims[1] - coord_y,
        {
            let mut coord_x: u32 = 0;
            while coord_x < dims[0]
                invariant
                    forall|x: u32, y: u32, z: u32| call_requires(produce, (x, y, z)),
                    coord_z < dims[2],
                    coord_y < dims[1],
                    coord_x <= dims[0],
                    plane == d0 * d1,
                    d0 == dims[0],
                    d1 == dims[1],
                    outs.len() == coord_z * plane + coord_y * d0 + coord_x,
                    forall|k: int| 0 <= k < outs.len() ==> call_ensures(produce, scan_coord(k, dims), #[trigger] outs[k]),
                    voxels@ == apply_writes(cells, dims, outs),
                    voxels@.len() == cells.len(),
                decreases dims[0] - coord_x,
            {
                let out = produce(coord_x, coord_y, coord_z);
                let ghost step = outs.len() as int;
                proof {
                    lemma_scan_coord(coord_x as int, coord_y as int, coord_z as int, dims);
                    assert(scan_coord(step, dims) == (coord_x, coord_y, coord_z));
                    let prev_outs = outs;
                    outs = outs.push(out);
                    assert(outs.drop_last() =~= prev_outs);
                    lemma_apply_writes_len(cells, dims, prev_outs);
                }
                match out {
                    Some(v) => {
                        let slot = index(coord_x, coord_y, coord_z, dims);
                        if slot < voxels.len() {
                            voxels.set(slot, v);
                        }
                    },
                    None => {},
                }
                coord_x = coord_x + 1;
            }
            proof {
                assert(coord_z * plane + coord_y * d0 + d0 == coord_z * plane + (coord_y + 1) * d0)
                    by (nonlinear_arith);
            }
            coord_y = coord_y + 1;
        }
        proof {
            assert(coord_z * plane + d1 * d0 == (coord_z + 1) * plane)
                by (nonlinear_arith) requires plane == d0 * d1;
        }
        coord_z = coord_z + 1;
    }
    proof {
        assert(outs.len() == grid_volume(dims)) by (nonlinear_arith)
            requires outs.len() == coord_z * plane, coord_z == dims[2], plane == d0 * d1,
                d0 == dims[0], d1 == dims[1];
    }
}

/// A voxel grid: `dimensions` voxels along X, Y and Z, stored linearly in
/// Z-Y-X order in `data`.
#[derive(Debug)]
pub struct Grid<V> {
    pub dimensions: [u32; 3],
    pub data: Vec<V>,
}

impl<V> Grid<V> {
    /// The storage holds one slot per voxel (capped at `usize::MAX`).
    pub open spec fn wf(&self) -> bool {
        self.data@.len() == spec_voxel_count(self.dimensions)
    }
}

impl<V> Default for Grid<V> {
    /// An empty grid of dimensions `[0, 0, 0]`.
    fn default() -> (g: Self)
        ensures
            g.dimensions[0] == 0 && g.dimensions[1] == 0 && g.dimensions[2] == 0,
            g.data@ == Seq::<V>::empty(),
            g.wf(),
    {
        Grid { dimensions: [0, 0, 0], data: Vec::new() }
    }
}

impl<V: Copy> Grid<V> {
    /// Resizes the grid to `dimensions`, every slot holding `blank`.
    pub fn init(&mut self, dimensions: [u32; 3], blank: V)
        ensures
            final(self).dimensions == dimensions,
            final(self).data@ == Seq::new(spec_voxel_count(dimensions) as nat, |i: int| blank),
            final(self).wf(),
    {
        let size = voxel_count(dimensions);
        let mut data: Vec<V> = Vec::new();
        while data.len() < size
            invariant
                data.len() <= size,
                forall|i: int| 0 <= i < data@.len() ==> data@[i] == blank,
            decreases size - data.len(),
        {
            data.push(blank);
        }
        assert(data@ =~= Seq::new(size as nat, |i: int| blank));
        self.dimensions = dimensions;
        self.data = data;
    }

    /// Stores `voxel` at `(coord_x, coord_y, coord_z)` when that slot exists;
    /// otherwise the grid is unchanged.
    pub fn set(&mut self, coord_x: u32, coord_y: u32, coord_z: u32, voxel: V)
        ensures
            final(self).dimensions == old(self).dimensions,
            ({
                let i = spec_index(coord_x as int, coord_y as int, coord_z as int, old(self).dimensions);
                final(self).data@ == if i < old(self).data@.len() {
                    old(self).data@.update(i, voxel)
                } else {
                    old(self).data@
                }
            }),
            old(self).wf() ==> final(self).wf(),
    {
        let slot = index(coord_x, coord_y, coord_z, self.dimensions);
        if slot < self.data.len() {
            self.data.set(slot, voxel);
        }
    }

    /// Scans the grid in Z-Y-X order and stores every value that
    /// `produce(x, y, z)` returns at that voxel (see [`fill_voxels`]).
    pub fn fill_with<F: Fn(u32, u32, u32) -> Option<V>>(&mut self, produce: F)
        requires
            forall|x: u32, y: u32, z: u32| call_requires(produce, (x, y, z)),
        ensures
            final(self).dimensions == old(self).dimensions,
            exists|outs: Seq<Option<V>>|
                {
                    &&& outs.len() == grid_volume(old(self).dimensions)
                    &&& forall|k: int|
                        0 <= k < outs.len() ==> call_ensures(
                            produce,
                            scan_coord(k, old(self).dimensions),
                            #[trigger] outs[k],
                        )
                    &&& final(self).data@ == apply_writes(old(self).data@, old(self).dimensions, outs)
                },
            old(self).wf() ==> final(self).wf(),
    {
        let dims = self.dimensions;
        fill_voxels(&mut self.data, dims, produce);
        proof {
            let outs = choose|outs: Seq<Option<V>>|
                {
                    &&& outs.len() == grid_volume(dims)
                    &&& forall|k: int|
                        0 <= k < outs.len() ==> call_ensures(produce, scan_coord(k, dims), #[trigger] outs[k])
                    &&& self.data@ == apply_writes(old(self).data@, dims, outs)
                };
            lemma_apply_writes_len(old(self).data@, dims, outs);
        }
    }
}

} // verus!
