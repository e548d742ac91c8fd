use segment_table::icon::decode_icon;

const TWO_PIXELS: [u8; 74] = [
    137, 80, 78, 71, 13, 10, 26, 10, 0, 0, 0, 13, 73, 72, 68, 82, 0, 0, 0, 2, 0, 0, 0, 1, 8, 6, 0,
    0, 0, 244, 34, 127, 138, 0, 0, 0, 17, 73, 68, 65, 84, 120, 156, 99, 248, 207, 192, 240, 159,
    161, 225, 191, 3, 0, 16, 186, 3, 190, 71, 150, 32, 160, 0, 0, 0, 0, 73, 69, 78, 68, 174, 66,
    96, 130,
];

#[test]
fn icon_is_decoded_to_pixels() {
    let icon = decode_icon(Some(&TWO_PIXELS)).unwrap();
    assert_eq!(icon.width, 2);
    assert_eq!(icon.height, 1);
    assert_eq!(icon.rgba, vec![255, 0, 0, 255, 0, 128, 255, 64]);
}

#[test]
fn no_bytes_and_bad_bytes_give_no_icon() {
    assert!(decode_icon(None).is_none());
    assert!(decode_icon(Some(&[])).is_none());
    assert!(decode_icon(Some(&[1, 2, 3, 4])).is_none());
    assert!(decode_icon(Some(&TWO_PIXELS[..40])).is_none());
}
