use sss::grid::{fill_voxels, index, voxel_count, voxel_count_checked, Grid};
use sss::saturate::{clamp_to_u16, mul_u32_saturating, mul_usize_saturating};

#[test]
fn index_follows_z_y_x_order() {
    let dims = [4, 3, 2];
    assert_eq!(index(0, 0, 0, dims), 0);
    assert_eq!(index(1, 0, 0, dims), 1);
    assert_eq!(index(0, 1, 0, dims), 4);
    assert_eq!(index(0, 0, 1, dims), 12);
    assert_eq!(index(3, 2, 1, dims), 23);
}

#[test]
fn index_saturates_at_u32_max() {
    let dims = [u32::MAX, u32::MAX, u32::MAX];
    assert_eq!(index(0, 0, 2, dims), u32::MAX as usize);
    assert_eq!(index(5, 1, 0, [u32::MAX, 2, 1]), u32::MAX as usize);
    assert_eq!(index(u32::MAX, 0, 0, dims), u32::MAX as usize);
}

#[test]
fn index_scan_is_a_bijection_on_small_grids() {
    let dims = [3, 5, 2];
    let mut expected = 0usize;
    for z in 0..dims[2] {
        for y in 0..dims[1] {
            for x in 0..dims[0] {
                assert_eq!(index(x, y, z, dims), expected);
                expected += 1;
            }
        }
    }
    assert_eq!(expected, 30);
}

#[test]
fn voxel_count_is_capped_product() {
    assert_eq!(voxel_count([4, 3, 2]), 24);
    assert_eq!(voxel_count([0, u32::MAX, u32::MAX]), 0);
    assert_eq!(voxel_count([u32::MAX, u32::MAX, 0]), 0);
    if usize::BITS == 64 {
        assert_eq!(voxel_count([u32::MAX, u32::MAX, u32::MAX]), usize::MAX);
        assert_eq!(voxel_count([65536, 65536, 2]), 1usize << 33);
    }
}

#[test]
fn voxel_count_checked_reports_overflow() {
    assert_eq!(voxel_count_checked([4, 3, 2]), Some(24));
    if usize::BITS == 64 {
        assert_eq!(voxel_count_checked([u32::MAX, u32::MAX, 0]), Some(0));
        assert_eq!(voxel_count_checked([u32::MAX, u32::MAX, u32::MAX]), None);
        assert_eq!(voxel_count_checked([u32::MAX, u32::MAX, 1]), Some((u32::MAX as usize) * (u32::MAX as usize)));
    } else {
        assert_eq!(voxel_count_checked([65536, 65536, 0]), None);
    }
}

#[test]
fn saturating_helpers() {
    assert_eq!(mul_u32_saturating(70000, 70000), u32::MAX);
    assert_eq!(mul_u32_saturating(7, 6), 42);
    assert_eq!(mul_usize_saturating(usize::MAX, 2), usize::MAX);
    assert_eq!(mul_usize_saturating(3, 5), 15);
    assert_eq!(clamp_to_u16(70000), u16::MAX);
    assert_eq!(clamp_to_u16(1234), 1234);
}

#[test]
fn default_grid_is_empty() {
    let grid: Grid<u8> = Grid::default();
    assert_eq!(grid.dimensions, [0, 0, 0]);
    assert!(grid.data.is_empty());
}

#[test]
fn init_fills_with_blank() {
    let mut grid: Grid<i16> = Grid::default();
    grid.init([2, 3, 4], -1);
    assert_eq!(grid.dimensions, [2, 3, 4]);
    assert_eq!(grid.data.len(), 24);
    assert!(grid.data.iter().all(|&v| v == -1));
    grid.init([1, 1, 1], 5);
    assert_eq!(grid.data, vec![5]);
}

#[test]
fn set_then_slot_holds_value() {
    let mut grid: Grid<u32> = Grid::default();
    grid.init([4, 3, 2], 0);
    grid.set(3, 2, 1, 99);
    assert_eq!(grid.data[23], 99);
    grid.set(1, 1, 0, 7);
    assert_eq!(grid.data[5], 7);
    assert_eq!(grid.data.iter().filter(|&&v| v != 0).count(), 2);
}

#[test]
fn set_out_of_range_changes_nothing() {
    let mut grid: Grid<u32> = Grid::default();
    grid.init([2, 2, 2], 0);
    grid.set(0, 0, 2, 9);
    grid.set(7, 7, 7, 9);
    assert_eq!(grid.data, vec![0; 8]);
    assert_eq!(grid.dimensions, [2, 2, 2]);
}

#[test]
fn fill_writes_each_voxel_from_its_own_coordinate() {
    let mut grid: Grid<u32> = Grid::default();
    grid.init([3, 2, 2], 0);
    grid.fill_with(|x, y, z| if x == 1 { None } else { Some(100 * z + 10 * y + x) });
    assert_eq!(grid.data, vec![0, 0, 2, 10, 0, 12, 100, 0, 102, 110, 0, 112]);
}

#[test]
fn fill_on_empty_grid_calls_nothing() {
    let mut voxels: Vec<u8> = vec![1, 2, 3];
    fill_voxels(&mut voxels, [0, 5, 5], |_, _, _| Some(0));
    assert_eq!(voxels, vec![1, 2, 3]);
}

#[test]
fn fill_ignores_slots_past_the_storage() {
    let mut voxels: Vec<u8> = vec![0; 4];
    fill_voxels(&mut voxels, [2, 2, 2], |x, y, z| Some((x + 2 * y + 4 * z) as u8 + 1));
    assert_eq!(voxels, vec![1, 2, 3, 4]);
}

#[test]
fn cube_falloff_scenario() {
    let mut grid: Grid<u8> = Grid::default();
    grid.init([4, 4, 4], 0);
    grid.fill_with(|x, y, z| {
        let inside = |c: u32| (1..=2).contains(&c);
        if inside(x) && inside(y) && inside(z) { Some(1) } else { None }
    });
    assert_eq!(grid.data.iter().filter(|&&v| v == 1).count(), 8);
    assert_eq!(grid.data[index(1, 1, 1, [4, 4, 4])], 1);
    assert_eq!(grid.data[index(0, 1, 1, [4, 4, 4])], 0);
}
