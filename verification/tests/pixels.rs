use rooq::pixels::rgb_to_rgba;

#[test]
fn adds_opaque_alpha_to_each_triple() {
    let rgb: [u8; 6] = [255, 0, 0, 0, 255, 0];
    assert_eq!(rgb_to_rgba(&rgb), vec![255, 0, 0, 255, 0, 255, 0, 255]);
}

#[test]
fn trailing_partial_triple_is_dropped() {
    let rgb: [u8; 5] = [1, 2, 3, 4, 5];
    assert_eq!(rgb_to_rgba(&rgb), vec![1, 2, 3, 255]);
}

#[test]
fn empty_input_gives_empty_output() {
    assert!(rgb_to_rgba(&[]).is_empty());
}
