use bevy_aabb_instancing::index_buffer::NUM_CUBE_INDICES;
use bevy_aabb_instancing::CuboidsIndexBuffer;

const FIRST_CUBOID: [u32; 18] = [
    0b00_000, 0b00_010, 0b00_001, 0b00_010, 0b00_011, 0b00_001, 0b01_101, 0b01_100, 0b01_001,
    0b01_001, 0b01_100, 0b01_000, 0b10_000, 0b10_100, 0b10_110, 0b10_000, 0b10_110, 0b10_010,
];

#[test]
fn new_buffer_is_empty() {
    let b = CuboidsIndexBuffer::new();
    assert_eq!(b.capacity(), 0);
    assert!(b.indices().is_empty());
    assert!(b.prepare_asset().is_empty());
}

#[test]
fn entries_encode_corner_face_and_cuboid() {
    let mut b = CuboidsIndexBuffer::new();
    assert!(b.ensure_capacity(3));
    assert_eq!(NUM_CUBE_INDICES, 18);
    assert_eq!(b.indices().len(), 54);
    assert_eq!(&b.indices()[0..18], &FIRST_CUBOID);
    for c in 0..3usize {
        for j in 0..18 {
            assert_eq!(b.indices()[18 * c + j], FIRST_CUBOID[j] + ((c as u32) << 5));
        }
    }
}

#[test]
fn capacity_is_the_largest_request_and_never_shrinks() {
    let mut b = CuboidsIndexBuffer::new();
    let requests = [5usize, 2, 9, 9, 1, 7];
    let mut most = 0;
    for r in requests {
        let before = b.capacity();
        let grew = b.ensure_capacity(r);
        most = most.max(r);
        assert_eq!(b.capacity(), most);
        assert!(b.capacity() >= before);
        assert_eq!(grew, r > before);
        assert_eq!(b.indices().len(), 18 * most);
    }
    assert_eq!(b.capacity(), 9);
}

#[test]
fn growth_keeps_existing_entries() {
    let mut b = CuboidsIndexBuffer::new();
    b.ensure_capacity(2);
    let first: Vec<u32> = b.indices().clone();
    b.ensure_capacity(4);
    assert_eq!(&b.indices()[0..36], first.as_slice());
    assert_eq!(b.indices()[36], 2 << 5);
}

#[test]
fn upload_bytes_are_little_endian_entries() {
    let mut b = CuboidsIndexBuffer::new();
    b.ensure_capacity(2);
    let bytes = b.prepare_asset();
    assert_eq!(bytes.len(), 2 * 18 * 4);
    assert_eq!(&bytes[4..8], &[0b00_010, 0, 0, 0]);
    // The first entry of the second cuboid is 32.
    assert_eq!(&bytes[72..76], &[32, 0, 0, 0]);
}
