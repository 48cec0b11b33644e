use bird_boxes::HashAbleVec2;

fn key(x: f32, y: f32) -> HashAbleVec2 {
    HashAbleVec2::from((x.to_bits(), y.to_bits()))
}

#[test]
fn from_decodes_both_coordinates() {
    let h = key(1.0, -0.5);
    assert_eq!(h.x, (0x80_0000, -23, 1));
    assert_eq!(h.y, (0x80_0000, -24, -1));
    assert_eq!(h.key(), ((0x80_0000, -23, 1), (0x80_0000, -24, -1)));
}

#[test]
fn equal_coordinates_give_equal_keys() {
    assert_eq!(key(0.25, 7.0), key(0.25, 7.0));
    assert_eq!(key(0.1 + 0.2, 0.0), key(0.1 + 0.2, 0.0));
}

#[test]
fn keys_differ_as_soon_as_one_bit_differs() {
    assert_ne!(key(1.0, 0.0), key(1.0000001, 0.0));
    assert_ne!(key(0.0, 1.0), key(0.0, 1.0000001));
    assert_ne!(key(0.0, 1.0), key(1.0, 0.0));
    assert_ne!(key(0.0, 0.0), key(-0.0, 0.0));
    assert_ne!(key(0.0, f32::from_bits(1)), key(0.0, f32::from_bits(2)));
}

#[test]
fn no_tolerance_is_applied() {
    let a: f32 = 0.1 + 0.2;
    let b: f32 = 0.3;
    if a.to_bits() != b.to_bits() {
        assert_ne!(key(a, 0.0), key(b, 0.0));
    } else {
        assert_eq!(key(a, 0.0), key(b, 0.0));
    }
    assert_ne!(key(0.3, 0.0), key(f32::from_bits(0.3f32.to_bits() + 1), 0.0));
}
