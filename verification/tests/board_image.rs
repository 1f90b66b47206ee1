use arm_backend::board_image::{crop, crop_print_margin, dark_bounds, mask_bounds, GrayRaster};
use arm_backend::depth_image::fill_masked_depth;

/// A white raster with the given dark pixels.
fn raster(width: u32, height: u32, dark: &[(u32, u32)]) -> GrayRaster {
    let mut pixels = vec![255u8; (width * height) as usize];
    for (x, y) in dark {
        pixels[(y * width + x) as usize] = 0;
    }
    GrayRaster { width, height, pixels }
}

#[test]
fn print_margin_is_cropped_to_the_dark_pixels() {
    let board = raster(8, 6, &[(2, 1), (5, 4), (3, 2)]);
    assert_eq!(dark_bounds(&board), Some((2, 1, 5, 4)));
    let cropped = crop_print_margin(&board);
    assert!(cropped.width < board.width);
    assert!(cropped.height < board.height);
    assert_eq!((cropped.width, cropped.height), (4, 4));
    assert_eq!(cropped.pixels.len(), 16);
    assert_eq!(cropped.pixels[0], 0);
    assert_eq!(cropped.pixels[3 * 4 + 3], 0);
    assert_eq!(cropped.pixels[1 * 4 + 1], 0);
    assert_eq!(cropped.pixels[1], 255);
}

#[test]
fn mid_gray_counts_as_margin_and_darker_as_print() {
    let mut board = raster(4, 4, &[]);
    board.pixels[5] = 128;
    assert_eq!(dark_bounds(&board), None);
    board.pixels[5] = 127;
    assert_eq!(dark_bounds(&board), Some((1, 1, 1, 1)));
}

#[test]
fn an_image_without_print_is_returned_whole() {
    let blank = raster(3, 2, &[]);
    let same = crop_print_margin(&blank);
    assert_eq!((same.width, same.height), (3, 2));
    assert_eq!(same.pixels, blank.pixels);
}

#[test]
fn crop_copies_the_inclusive_rectangle() {
    let image = GrayRaster {
        width: 3,
        height: 3,
        pixels: vec![1, 2, 3, 4, 5, 6, 7, 8, 9],
    };
    let part = crop(&image, 1, 1, 2, 2);
    assert_eq!((part.width, part.height), (2, 2));
    assert_eq!(part.pixels, vec![5, 6, 8, 9]);
}

#[test]
fn mask_bounds_cover_the_set_pixels() {
    let mut mask = GrayRaster { width: 4, height: 3, pixels: vec![0; 12] };
    assert_eq!(mask_bounds(&mask), None);
    mask.pixels[1 * 4 + 2] = 1;
    mask.pixels[2 * 4 + 0] = 255;
    assert_eq!(mask_bounds(&mask), Some((0, 1, 2, 2)));
}

#[test]
fn masked_depth_ramps_from_near_to_far_down_the_mask() {
    let mut mask = GrayRaster { width: 3, height: 4, pixels: vec![0; 12] };
    for (x, y) in [(1, 1), (1, 2), (2, 3)] {
        mask.pixels[y * 3 + x] = 255;
    }
    let mut depth = vec![7u16; 13];
    fill_masked_depth(&mut depth, &mask, 1000, 1200);
    assert_eq!(depth[1 * 3 + 1], 1000);
    assert_eq!(depth[2 * 3 + 1], 1100);
    assert_eq!(depth[3 * 3 + 2], 1200);
    assert_eq!(depth[0], 7);
    assert_eq!(depth[12], 7);
}

#[test]
fn a_single_row_mask_is_drawn_at_near_depth() {
    let mask = GrayRaster { width: 2, height: 1, pixels: vec![1, 1] };
    let mut depth = vec![0u16; 2];
    fill_masked_depth(&mut depth, &mask, 500, 900);
    assert_eq!(depth, vec![500, 500]);
}
