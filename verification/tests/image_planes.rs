use arm_backend::image_planes::{color_rgb, decode_depth, ImagePlane, PlaneError};
use arm_backend::simulated_camera::depth_le_bytes;

fn plane(width: u32, height: u32, stride_bytes: u32, pixel_format: &str, data: Vec<u8>) -> ImagePlane {
    ImagePlane {
        width,
        height,
        stride_bytes,
        pixel_format: pixel_format.into(),
        data,
    }
}

#[test]
fn little_and_big_endian_depth_decode() {
    let le = plane(2, 1, 4, "z16le", vec![0xe8, 0x03, 0x01, 0x02]);
    assert_eq!(decode_depth(&le).ok().unwrap(), vec![1000, 0x0201]);
    let be = plane(2, 1, 4, "z16be", vec![0x03, 0xe8, 0x01, 0x02]);
    assert_eq!(decode_depth(&be).ok().unwrap(), vec![1000, 0x0102]);
}

#[test]
fn depth_rows_skip_their_padding_and_a_partial_row() {
    // Two values per row, rows padded to six bytes, and two stray bytes at the end.
    let data = vec![1, 0, 2, 0, 9, 9, 3, 0, 4, 0, 9, 9, 7, 7];
    let padded = plane(2, 2, 6, "z16le", data);
    assert_eq!(decode_depth(&padded).ok().unwrap(), vec![1, 2, 3, 4]);
}

#[test]
fn unsupported_depth_encoding_is_named() {
    let err = decode_depth(&plane(1, 1, 2, "mono16", vec![0, 0])).err().unwrap();
    assert!(matches!(err, PlaneError::UnsupportedDepthEncoding(_)));
    assert_eq!(err.message(), "不支持的深度编码 mono16");
}

#[test]
fn encoded_depth_decodes_to_the_same_values() {
    let values = vec![0u16, 1, 1000, 65535, 256, 4097];
    let bytes = depth_le_bytes(&values);
    let encoded = plane(3, 2, 6, "z16le", bytes);
    assert_eq!(decode_depth(&encoded).ok().unwrap(), values);
}

#[test]
fn color_encodings_become_rgb() {
    let rgb = plane(1, 1, 3, "rgb8", vec![10, 20, 30]);
    assert_eq!(color_rgb(&rgb).ok().unwrap(), vec![10, 20, 30]);
    let bgr = plane(1, 1, 3, "bgr8", vec![10, 20, 30]);
    assert_eq!(color_rgb(&bgr).ok().unwrap(), vec![30, 20, 10]);
    let rgba = plane(1, 1, 4, "rgba8", vec![10, 20, 30, 40]);
    assert_eq!(color_rgb(&rgba).ok().unwrap(), vec![10, 20, 30]);
    let bgra = plane(1, 1, 4, "bgra8", vec![10, 20, 30, 40]);
    assert_eq!(color_rgb(&bgra).ok().unwrap(), vec![30, 20, 10]);
    let gray = plane(2, 1, 2, "y8", vec![7, 8]);
    assert_eq!(color_rgb(&gray).ok().unwrap(), vec![7, 7, 7, 8, 8, 8]);
}

#[test]
fn color_rows_drop_padding_and_missing_rows_stay_black() {
    let padded = plane(1, 3, 4, "rgb8", vec![1, 2, 3, 0, 4, 5, 6, 0]);
    assert_eq!(color_rgb(&padded).ok().unwrap(), vec![1, 2, 3, 4, 5, 6, 0, 0, 0]);
}

#[test]
fn color_errors_are_reported() {
    let short = plane(2, 1, 5, "rgb8", vec![0; 6]);
    let err = color_rgb(&short).err().unwrap();
    assert!(matches!(err, PlaneError::StrideShorterThanRow));
    assert_eq!(err.message(), "图像 stride 小于像素行宽");
    let unknown = color_rgb(&plane(1, 1, 2, "yuyv", vec![0, 0])).err().unwrap();
    assert_eq!(unknown.message(), "不支持的彩色图编码 yuyv");
}
