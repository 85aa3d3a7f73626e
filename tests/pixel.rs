use raytracer::pixel::{channel_byte, pack_rgb, to_rgb};

#[test]
fn to_rgb_splits_channels() {
    assert_eq!(to_rgb(0x00FF_8001), [0xFF, 0x80, 0x01]);
    assert_eq!(to_rgb(0x0012_3456), [0x12, 0x34, 0x56]);
}

#[test]
fn to_rgb_ignores_top_byte() {
    assert_eq!(to_rgb(0xAB12_3456), [0x12, 0x34, 0x56]);
}

#[test]
fn black_round_trips_to_zero_bytes() {
    assert_eq!(to_rgb(pack_rgb(0, 0, 0)), [0, 0, 0]);
    assert_eq!(pack_rgb(0, 0, 0), 0);
}

#[test]
fn pack_places_channels() {
    assert_eq!(pack_rgb(0x12, 0x34, 0x56), 0x0012_3456);
    assert_eq!(pack_rgb(255, 255, 255), 0x00FF_FFFF);
}

#[test]
fn pack_then_unpack_round_trip() {
    for (r, g, b) in [(1u8, 2u8, 3u8), (255, 0, 128), (7, 255, 0)] {
        assert_eq!(to_rgb(pack_rgb(r, g, b)), [r, g, b]);
    }
}

#[test]
fn channel_byte_saturates_at_255() {
    assert_eq!(channel_byte(0), 0);
    assert_eq!(channel_byte(254), 254);
    assert_eq!(channel_byte(255), 255);
    assert_eq!(channel_byte(256), 255);
    assert_eq!(channel_byte(u32::MAX), 255);
}

#[test]
fn quantized_ceiling_never_reaches_256() {
    // The largest channel after the 0.999 ceiling quantizes to 255.
    let q = (256.0 * 0.999f64) as u32;
    assert_eq!(q, 255);
    assert_eq!(to_rgb(pack_rgb(channel_byte(q), channel_byte(q), channel_byte(q))), [255, 255, 255]);
}
