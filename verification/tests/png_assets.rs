use arm_backend::image_planes::ImagePlane;
use arm_backend::overlay::{segmentation_overlay, OverlayError, OverlayInstance};
use arm_backend::png_codec::{color_png, depth_preview, depth_preview_png, AssetError};

fn gray_png(width: u32, height: u32, pixels: Vec<u8>) -> Vec<u8> {
    let image = image::GrayImage::from_raw(width, height, pixels).unwrap();
    let mut out = std::io::Cursor::new(Vec::new());
    image::DynamicImage::ImageLuma8(image)
        .write_to(&mut out, image::ImageFormat::Png)
        .unwrap();
    out.into_inner()
}

fn rgb_plane(width: u32, height: u32, pixel: [u8; 3]) -> ImagePlane {
    ImagePlane {
        width,
        height,
        stride_bytes: width * 3,
        pixel_format: "rgb8".into(),
        data: pixel.repeat((width * height) as usize),
    }
}

#[test]
fn depth_preview_scales_against_the_farthest_value() {
    assert_eq!(depth_preview(&vec![0, 500, 1000, 250]), vec![0, 127, 255, 63]);
    assert_eq!(depth_preview(&vec![0, 0]), vec![0, 0]);
    assert!(depth_preview(&vec![]).is_empty());
}

#[test]
fn depth_preview_png_decodes_to_the_preview() {
    let png = depth_preview_png(2, 1, &vec![100, 200]).ok().unwrap();
    let decoded = image::load_from_memory(&png).unwrap().into_luma8();
    assert_eq!(decoded.dimensions(), (2, 1));
    assert_eq!(decoded.into_raw(), vec![127, 255]);
}

#[test]
fn depth_preview_png_needs_a_value_per_pixel() {
    let err = depth_preview_png(2, 2, &vec![1, 2, 3]).err().unwrap();
    assert!(matches!(err, AssetError::DepthSizeMismatch));
    assert_eq!(err.message(), "深度图尺寸与数据长度不一致");
}

#[test]
fn an_empty_image_is_refused_by_the_encoder() {
    let err = depth_preview_png(0, 0, &vec![]).err().unwrap();
    assert!(matches!(err, AssetError::Codec(_)));
}

#[test]
fn color_png_holds_the_rgb_pixels() {
    let plane = ImagePlane {
        width: 1,
        height: 1,
        stride_bytes: 3,
        pixel_format: "bgr8".into(),
        data: vec![1, 2, 3],
    };
    let png = color_png(&plane).ok().unwrap();
    let decoded = image::load_from_memory(&png).unwrap().into_rgb8();
    assert_eq!(decoded.into_raw(), vec![3, 2, 1]);
}

#[test]
fn overlay_tints_masks_and_outlines_boxes() {
    let source = rgb_plane(4, 3, [10, 20, 30]);
    let mut mask = vec![0u8; 12];
    mask[2 * 4 + 3] = 255;
    let instances = vec![OverlayInstance {
        mask_png: gray_png(4, 3, mask),
        rounded_box: (1, 0, 2, 1),
    }];
    let out = segmentation_overlay(&source, &instances).ok().unwrap();
    assert_eq!((out.width, out.height, out.stride_bytes), (4, 3, 12));
    assert_eq!(out.pixel_format, "rgb8");
    let at = |x: usize, y: usize| -> [u8; 3] {
        let i = 3 * (y * 4 + x);
        [out.data[i], out.data[i + 1], out.data[i + 2]]
    };
    // The outline of the box takes the first palette color.
    assert_eq!(at(1, 0), [255, 72, 72]);
    assert_eq!(at(2, 1), [255, 72, 72]);
    // The masked pixel outside the box moves a third of the way to it.
    assert_eq!(at(3, 2), [91, 37, 44]);
    // Other pixels are untouched.
    assert_eq!(at(0, 2), [10, 20, 30]);
    assert_eq!(at(3, 0), [10, 20, 30]);
}

#[test]
fn overlay_clamps_boxes_into_the_image_and_cycles_colors() {
    let source = rgb_plane(2, 2, [0, 0, 0]);
    let empty = gray_png(2, 2, vec![0; 4]);
    let instances: Vec<OverlayInstance> = (0..5)
        .map(|_| OverlayInstance {
            mask_png: empty.clone(),
            rounded_box: (-5, -5, 0, 0),
        })
        .collect();
    let out = segmentation_overlay(&source, &instances).ok().unwrap();
    // Only pixel (0, 0) is outlined; the fifth instance uses the first color again.
    assert_eq!(&out.data[0..3], &[255, 72, 72]);
    assert_eq!(&out.data[3..6], &[0, 0, 0]);
}

#[test]
fn overlay_refuses_masks_it_cannot_use() {
    let source = rgb_plane(2, 2, [0, 0, 0]);
    let wrong_size = vec![OverlayInstance {
        mask_png: gray_png(3, 2, vec![0; 6]),
        rounded_box: (0, 0, 1, 1),
    }];
    let err = segmentation_overlay(&source, &wrong_size).err().unwrap();
    assert!(matches!(err, OverlayError::MaskSizeMismatch));
    assert_eq!(err.message(), "实例分割掩码尺寸与彩色图不一致");
    let garbage = vec![OverlayInstance {
        mask_png: vec![1, 2, 3],
        rounded_box: (0, 0, 1, 1),
    }];
    assert!(matches!(
        segmentation_overlay(&source, &garbage).err().unwrap(),
        OverlayError::MaskUnreadable(_)
    ));
}
