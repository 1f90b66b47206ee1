use arm_backend::base64_text::{decode_masks, png_base64};

#[test]
fn png_text_uses_the_padded_standard_alphabet() {
    assert_eq!(png_base64(&vec![]), "");
    assert_eq!(png_base64(&b"Man".to_vec()), "TWFu");
    assert_eq!(png_base64(&b"Ma".to_vec()), "TWE=");
    assert_eq!(png_base64(&b"M".to_vec()), "TQ==");
    assert_eq!(png_base64(&vec![0xfb, 0xff, 0xbf]), "+/+/");
    assert_eq!(png_base64(&b"hello world".to_vec()), "aGVsbG8gd29ybGQ=");
}

#[test]
fn reply_masks_decode_in_order() {
    let masks = decode_masks(&vec!["TWFu".to_string(), "TQ==".to_string(), String::new()]).ok().unwrap();
    assert_eq!(masks, vec![b"Man".to_vec(), b"M".to_vec(), vec![]]);
}

#[test]
fn the_first_mask_that_is_not_base64_refuses_the_reply() {
    let texts = vec!["TWFu".to_string(), "TR==".to_string(), "!!".to_string()];
    match decode_masks(&texts) {
        Err(e) => assert_eq!(e.index, 1),
        Ok(_) => panic!("set trailing bits accepted"),
    }
    match decode_masks(&vec!["TWE".to_string()]) {
        Err(e) => assert_eq!(e.index, 0),
        Ok(_) => panic!("missing padding accepted"),
    }
}

#[test]
fn encoded_png_decodes_to_itself() {
    let png = vec![0x89, b'P', b'N', b'G', 13, 10, 26, 10, 0, 7];
    let text = png_base64(&png);
    assert_eq!(decode_masks(&vec![text]).ok().unwrap(), vec![png]);
}
