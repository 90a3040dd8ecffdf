use musicthing::metadata::cover::can_encode;

#[test]
fn small_images_can_be_encoded() {
    assert!(can_encode(0));
    assert!(can_encode(3));
    assert!(can_encode(1_000_000));
}

#[test]
fn an_image_near_the_address_space_cannot_be_encoded() {
    assert!(!can_encode(usize::MAX));
    assert!(!can_encode(usize::MAX / 4 * 3));
}
