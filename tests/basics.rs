use ml::bits::{f32_bits_le, f32_bits_lt, f32_bits_max};
use ml::color::{ColorRGB, ColorRGBA};
use ml::mouse::is_down;
use ml::number::{le_slice_to_i16, le_slice_to_u16, le_slice_to_u32};
use ml::random::Random;
use ml::text::same_text;

#[test]
fn mouse() {
    println!("{}", is_down(0));
    println!("{}", is_down(12222));
    println!("{}", is_down(1000));
    assert!(!is_down(0));
    assert!(!is_down(12222));
    assert!(!is_down(1000));
}

#[test]
fn color_constructors() {
    let c = ColorRGBA::new();
    assert_eq!((c.r, c.g, c.b, c.a), (0, 0, 0, 0));
    let w = ColorRGBA::white();
    assert_eq!((w.r, w.g, w.b, w.a), (255, 255, 255, 255));
    let rgb = ColorRGB { r: 1, g: 2, b: 3 };
    assert_eq!(rgb.b, 3);
}

#[test]
fn color_packs_red_lowest() {
    let c = ColorRGBA { r: 1, g: 2, b: 3, a: 4 };
    assert_eq!(c.to_u32(), 0x0403_0201);
    assert_eq!(ColorRGBA::white().to_u32(), 0xFFFF_FFFF);
    assert_eq!(ColorRGBA::new().to_u32(), 0);
}

#[test]
fn random_sequence_from_zero() {
    let mut r = Random::new(0);
    assert_eq!(r.next_int(), 1177861218);
    assert_eq!(r.seed, 1831565813);
    assert_eq!(r.next_int(), 2128789699);
    assert_eq!(r.seed, -631835670);
    assert_eq!(r.next_int(), 1378772885);
}

#[test]
fn little_endian_reads() {
    assert_eq!(le_slice_to_u16(&[0x34, 0x12]), 0x1234);
    assert_eq!(le_slice_to_u16(&[0xFF, 0xFF, 0x00]), 0xFFFF);
    assert_eq!(le_slice_to_i16(&[0xFF, 0xFF]), -1);
    assert_eq!(le_slice_to_i16(&[0x00, 0x80]), i16::MIN);
    assert_eq!(le_slice_to_i16(&[0xFF, 0x7F]), i16::MAX);
    assert_eq!(le_slice_to_u32(&[0x78, 0x56, 0x34, 0x12]), 0x1234_5678);
    assert_eq!(le_slice_to_u32(&1.5f32.to_le_bytes()), 1.5f32.to_bits());
}

#[test]
fn float_bits_order_like_floats() {
    let vals = [-3.5f32, -1.0, -0.0, 0.0, 0.25, 1.0, 2.0, f32::INFINITY, f32::NEG_INFINITY];
    for a in vals {
        for b in vals {
            assert_eq!(f32_bits_lt(a.to_bits(), b.to_bits()), a < b, "{} < {}", a, b);
            assert_eq!(f32_bits_le(a.to_bits(), b.to_bits()), a <= b, "{} <= {}", a, b);
        }
    }
}

#[test]
fn float_bits_nan_is_unordered() {
    let nan = f32::NAN.to_bits();
    let one = 1.0f32.to_bits();
    assert!(!f32_bits_lt(nan, one));
    assert!(!f32_bits_lt(one, nan));
    assert!(!f32_bits_le(nan, nan));
    assert_eq!(f32_bits_max(nan, one), one);
    assert_eq!(f32_bits_max(one, nan), one);
}

#[test]
fn float_bits_max_picks_larger() {
    assert_eq!(f32_bits_max(1.0f32.to_bits(), 2.0f32.to_bits()), 2.0f32.to_bits());
    assert_eq!(f32_bits_max(2.0f32.to_bits(), (-7.0f32).to_bits()), 2.0f32.to_bits());
    assert_eq!(f32_bits_max((-1.0f32).to_bits(), (-7.0f32).to_bits()), (-1.0f32).to_bits());
}

#[test]
fn text_comparison() {
    assert!(same_text("Hip", "Hip"));
    assert!(!same_text("Hip", "Hips"));
    assert!(!same_text("Hip", "hip"));
    assert!(same_text("", ""));
    assert!(same_text("é", "é"));
}
