use sss::framebuffer::{first_not_below, pack_rgba, pixel_count, texture_row_bytes, BufferError};
use sss::launch::{
    degree_arg, density_launch, div_ceil_u32, element_count_i32, finalize_launch, kernel_i32, launch_count,
    pad_coefficients, padded_blocks, reduce_launch, tile_launch, MAX_DEGREE,
};
use sss::orbital::{laguerre_terms, normalization_factorials, unsigned_abs, FactorialTerm};
use sss::scene::{scene_kind, scene_relative_path, SceneError, SceneKind};

#[test]
fn pixel_count_multiplies() {
    assert_eq!(pixel_count(640, 480), Ok(307200));
    assert_eq!(pixel_count(0, 480), Ok(0));
    if usize::BITS == 32 {
        assert_eq!(pixel_count(u32::MAX, 2), Err(BufferError::PixelCountOverflow));
    } else {
        assert_eq!(pixel_count(u32::MAX, u32::MAX), Ok((u32::MAX as usize) * (u32::MAX as usize)));
    }
}

#[test]
fn row_bytes_of_float_texture() {
    assert_eq!(texture_row_bytes(64), 256);
    assert_eq!(texture_row_bytes(usize::MAX), usize::MAX);
}

#[test]
fn rgba_packing_appends_opaque_alpha() {
    let px = vec![[1u8, 2, 3], [250, 0, 17]];
    assert_eq!(pack_rgba(&px), Ok(vec![1, 2, 3, 255, 250, 0, 17, 255]));
    let empty: Vec<[u8; 3]> = Vec::new();
    assert_eq!(pack_rgba(&empty), Ok(Vec::new()));
}

fn quantize(value: f32) -> u8 {
    first_not_below(|m: u8| f32::from(m) < value)
}

#[test]
fn threshold_search_rounds_up() {
    assert_eq!(quantize(0.5), 1);
    assert_eq!(quantize(1.0), 1);
    assert_eq!(quantize(127.2), 128);
    assert_eq!(quantize(254.01), 255);
    assert_eq!(quantize(-3.0), 0);
    assert_eq!(quantize(1000.0), 255);
}

#[test]
fn threshold_search_agrees_with_linear_scan() {
    for t in 0u16..=256 {
        let r = first_not_below(|m: u8| u16::from(m) < t);
        let expected = (0u8..=255).find(|&m| u16::from(m) >= t).unwrap_or(255);
        assert_eq!(r, expected);
    }
}

#[test]
fn ceil_division() {
    assert_eq!(div_ceil_u32(0, 16), 0);
    assert_eq!(div_ceil_u32(1, 16), 1);
    assert_eq!(div_ceil_u32(16, 16), 1);
    assert_eq!(div_ceil_u32(17, 16), 2);
    assert_eq!(div_ceil_u32(u32::MAX, 16), 268435456);
    assert_eq!(div_ceil_u32(u32::MAX, 1), u32::MAX);
}

#[test]
fn padded_blocks_saturate() {
    assert_eq!(padded_blocks(17, 16), 2);
    assert_eq!(padded_blocks(0, 16), 0);
    assert_eq!(padded_blocks(u32::MAX, 16), (u32::MAX - 1) / 16);
}

#[test]
fn tile_and_density_launches() {
    let t = tile_launch(800, 600);
    assert_eq!(t.grid, (50, 38, 1));
    assert_eq!(t.block, (16, 16, 1));
    let d = density_launch([100, 33, 7]);
    assert_eq!(d.grid, (7, 3, 7));
    assert_eq!(d.block, (16, 16, 1));
}

#[test]
fn reduction_launches() {
    assert_eq!(launch_count(-5), u32::MAX);
    assert_eq!(launch_count(12), 12);
    assert_eq!(reduce_launch(0).grid, (1, 1, 1));
    assert_eq!(reduce_launch(512).grid, (1, 1, 1));
    assert_eq!(reduce_launch(513).grid, (2, 1, 1));
    assert_eq!(reduce_launch(513).block, (256, 1, 1));
    assert_eq!(finalize_launch(0).grid, (0, 1, 1));
    assert_eq!(finalize_launch(257).grid, (2, 1, 1));
    assert_eq!(finalize_launch(-1).grid, ((u32::MAX - 1) / 256, 1, 1));
}

#[test]
fn kernel_integer_arguments() {
    assert_eq!(element_count_i32(10), 10);
    assert_eq!(element_count_i32(usize::MAX), i32::MAX);
    assert_eq!(kernel_i32(64), 64);
    assert_eq!(kernel_i32(u32::MAX), 0);
    assert_eq!(degree_arg(0), 0);
    assert_eq!(degree_arg(5), 4);
}

#[test]
fn coefficients_are_padded() {
    let p = pad_coefficients(&vec![3, 4, 5], 0);
    assert_eq!(p.len(), MAX_DEGREE);
    assert_eq!(&p[..4], &[3, 4, 5, 0]);
    let long: Vec<u32> = (0..40).collect();
    let p = pad_coefficients(&long, 0);
    assert_eq!(p, (0..32).collect::<Vec<u32>>());
}

#[test]
fn scene_names_select_generators() {
    assert_eq!(scene_kind("atom"), Ok(SceneKind::Atom));
    assert_eq!(scene_kind("cube"), Ok(SceneKind::Cube));
    assert_eq!(scene_kind("Cube"), Err(SceneError::UnknownScene));
    assert_eq!(scene_kind(""), Err(SceneError::UnknownScene));
}

#[test]
fn scene_paths() {
    assert_eq!(scene_relative_path("atom"), "src/scenes/atom/atom.yaml");
    assert_eq!(scene_relative_path("cube"), "src/scenes/cube/cube.yaml");
}

#[test]
fn laguerre_for_two_s() {
    // n = 2, l = 0: degree 1, order 1 -> 2!/(1! 1!)/0! - 2!/(0! 2!)/1! x
    let t = laguerre_terms(2, 0);
    assert_eq!(
        t,
        vec![
            FactorialTerm { numerator: 2, lower: 1, upper: 1, index: 0, negative: false },
            FactorialTerm { numerator: 2, lower: 0, upper: 2, index: 1, negative: true },
        ]
    );
}

#[test]
fn laguerre_degenerate_is_one() {
    let one = vec![FactorialTerm { numerator: 0, lower: 0, upper: 0, index: 0, negative: false }];
    assert_eq!(laguerre_terms(1, 1), one);
    assert_eq!(laguerre_terms(0, 0), one);
    assert_eq!(laguerre_terms(3, 7), one);
}

#[test]
fn laguerre_lengths() {
    assert_eq!(laguerre_terms(4, 1).len(), 3);
    assert_eq!(laguerre_terms(4, 1)[2], FactorialTerm { numerator: 5, lower: 0, upper: 5, index: 2, negative: false });
}

#[test]
fn normalization_arguments() {
    assert_eq!(normalization_factorials(3, 1, -1), (1, 4, 0, 2));
    assert_eq!(normalization_factorials(1, 2, 0), (0, 3, 2, 2));
    assert_eq!(unsigned_abs(i32::MIN), 2147483648);
    assert_eq!(unsigned_abs(-7), 7);
}

use sss::orbital::{legendre_factors, legendre_seed_factor, odd_factor};

#[test]
fn legendre_integer_factors() {
    assert_eq!(legendre_factors(5, 2), (9, 6, 3));
    assert_eq!(legendre_factors(0, 0), (u16::MAX, u16::MAX, 0));
    assert_eq!(legendre_factors(2, 5), (3, 6, u16::MAX));
    assert_eq!(legendre_factors(u32::MAX, 0), (u16::MAX, u16::MAX, u16::MAX));
    assert_eq!(legendre_seed_factor(3), 7);
    assert_eq!(legendre_seed_factor(u32::MAX), u16::MAX);
    assert_eq!(odd_factor(0), 0);
    assert_eq!(odd_factor(1), 1);
    assert_eq!(odd_factor(4), 7);
    assert_eq!(odd_factor(u32::MAX), u16::MAX);
}
