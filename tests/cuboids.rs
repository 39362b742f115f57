use bevy_aabb_instancing::cuboids::{cuboids_le_bytes, CUBOID_SIZE};
use bevy_aabb_instancing::{Cuboid, Cuboids};

fn bits(v: [f32; 3]) -> [u32; 3] {
    [v[0].to_bits(), v[1].to_bits(), v[2].to_bits()]
}

fn sample() -> Cuboid {
    Cuboid::new(bits([0.0, 1.0, 2.0]), bits([3.0, 4.0, 5.0]), 0xAABBCCDD)
}

#[test]
fn new_cuboid_is_visible_plain_and_unbiased() {
    let c = sample();
    assert_eq!(c.meta_bits, 0);
    assert!(c.is_visible());
    assert!(!c.is_emissive());
    assert_eq!(c.depth_bias(), 0);
    assert_eq!(c.color, 0xAABBCCDD);
    assert_eq!(f32::from_bits(c.maximum[2]), 5.0);
}

#[test]
fn meta_bits_round_trip_for_all_flags_and_biases() {
    let biases: [u16; 6] = [0, 1, 2, 255, 0x1234, u16::MAX];
    for visible in [false, true] {
        for emissive in [false, true] {
            for bias in biases {
                let mut c = sample();
                if visible {
                    c.make_visible();
                } else {
                    c.make_invisible();
                }
                if emissive {
                    c.make_emissive();
                } else {
                    c.make_non_emissive();
                }
                c.set_depth_bias(bias);
                assert_eq!(c.is_visible(), visible);
                assert_eq!(c.is_emissive(), emissive);
                assert_eq!(c.depth_bias(), bias);
            }
        }
    }
}

#[test]
fn meta_bits_layout() {
    let mut c = sample();
    c.make_invisible();
    assert_eq!(c.meta_bits, 1);
    c.make_emissive();
    assert_eq!(c.meta_bits, 3);
    c.set_depth_bias(0xABCD);
    assert_eq!(c.meta_bits, 0xABCD_0003);
    c.make_visible();
    assert_eq!(c.meta_bits, 0xABCD_0002);
    c.make_non_emissive();
    assert_eq!(c.meta_bits, 0xABCD_0000);
    c.set_depth_bias(7);
    assert_eq!(c.meta_bits, 0x0007_0000);
}

#[test]
fn set_depth_bias_keeps_low_bits() {
    let mut c = sample();
    c.meta_bits = 0xFFFF_00F3;
    c.set_depth_bias(0x0102);
    assert_eq!(c.meta_bits, 0x0102_00F3);
}

#[test]
fn record_is_32_little_endian_bytes_in_layout_order() {
    let mut c = Cuboid::new([1, 2, 3], [5, 6, 7], 8);
    c.meta_bits = 0x0403_0201;
    let mut out = Vec::new();
    c.write_le_bytes(&mut out);
    assert_eq!(out.len(), CUBOID_SIZE);
    assert_eq!(&out[0..4], &[1, 0, 0, 0]);
    assert_eq!(&out[4..8], &[2, 0, 0, 0]);
    assert_eq!(&out[8..12], &[3, 0, 0, 0]);
    assert_eq!(&out[12..16], &[1, 2, 3, 4]);
    assert_eq!(&out[16..20], &[5, 0, 0, 0]);
    assert_eq!(&out[28..32], &[8, 0, 0, 0]);
    let f = sample();
    let mut fb = Vec::new();
    f.write_le_bytes(&mut fb);
    assert_eq!(&fb[4..8], &1.0f32.to_le_bytes());
}

#[test]
fn record_bytes_round_trip() {
    let mut c = sample();
    c.make_emissive();
    c.set_depth_bias(999);
    let mut out = Vec::new();
    c.write_le_bytes(&mut out);
    let back = Cuboid::from_le_bytes(&out).unwrap();
    assert_eq!(back.minimum, c.minimum);
    assert_eq!(back.maximum, c.maximum);
    assert_eq!(back.meta_bits, c.meta_bits);
    assert_eq!(back.color, c.color);
}

#[test]
fn record_of_wrong_size_is_rejected() {
    assert!(Cuboid::from_le_bytes(&[0u8; 31]).is_none());
    assert!(Cuboid::from_le_bytes(&[0u8; 33]).is_none());
    assert!(Cuboid::from_le_bytes(&[]).is_none());
}

#[test]
fn instance_list_bytes_concatenate_records() {
    let a = Cuboid::new([1, 1, 1], [2, 2, 2], 3);
    let b = Cuboid::new([4, 4, 4], [5, 5, 5], 6);
    let cs = Cuboids::new(vec![a, b]);
    let bytes = cuboids_le_bytes(&cs.instances);
    assert_eq!(bytes.len(), 64);
    assert_eq!(&bytes[32..36], &[4, 0, 0, 0]);
    assert_eq!(&bytes[60..64], &[6, 0, 0, 0]);
    assert!(cuboids_le_bytes(&Vec::new()).is_empty());
}
