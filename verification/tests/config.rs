use bird_boxes::{ChunkSize, IsoDistance, IsoLevel};

#[test]
fn chunk_size_defaults_to_two_by_two() {
    let size = ChunkSize::default();
    assert_eq!(size, ChunkSize(2, 2));
    assert_eq!(size.x(), 2);
    assert_eq!(size.y(), 2);
    assert_eq!(size.get(), (2, 2));
}

#[test]
fn chunk_size_getters_read_width_then_height() {
    let size = ChunkSize(7, 3);
    assert_eq!(size.x(), 7);
    assert_eq!(size.y(), 3);
    assert_eq!(size.get(), (7, 3));
}

#[test]
fn iso_level_defaults_to_one() {
    assert_eq!(f32::from_bits(IsoLevel::default().0), 1.0);
}

#[test]
fn iso_distance_defaults_to_one() {
    assert_eq!(f32::from_bits(IsoDistance::default().0), 1.0);
}
