use funnel_web::color::Pixel32;
use funnel_web::constants::{PCM_SAMPLE_SIZE_BYTES, XBOX_ADPCM_BLOCK_SAMPLE_COUNT, XBOX_ADPCM_BLOCK_SIZE_BYTES};
use funnel_web::fake_utf8::{UTF8Replacer, UTF8ReplacerMode};
use funnel_web::float::FloatBits;
use funnel_web::vector::{
    CompressedFloat, CompressedVector2D, CompressedVector3D, Plane2D, Plane3D, Vector2D, Vector2DInt, Vector3D,
};

#[test]
fn pixel_from_channels() {
    assert_eq!(Pixel32::from_channels(0xFF, 0x80, 0x40, 0x20), Pixel32(0xFF80_4020));
    assert_eq!(Pixel32::from_channels(0, 0, 0, 0), Pixel32(0));
    assert_eq!(Pixel32::from_channels(255, 255, 255, 255), Pixel32(0xFFFF_FFFF));
    assert_eq!(Pixel32::from_channels(1, 2, 3, 4), Pixel32(0x0102_0304));
    assert_eq!(Pixel32::default(), Pixel32(0));
}

#[test]
fn sizes() {
    assert_eq!(XBOX_ADPCM_BLOCK_SIZE_BYTES, 36);
    assert_eq!(XBOX_ADPCM_BLOCK_SAMPLE_COUNT, 64);
    assert_eq!(PCM_SAMPLE_SIZE_BYTES, 2);
}

#[test]
fn replacer_text_by_mode() {
    let replacer = UTF8Replacer::make("\u{2265}", ">=");
    assert_eq!(replacer.text(UTF8ReplacerMode::UTF8), "\u{2265}");
    assert_eq!(replacer.text(UTF8ReplacerMode::ASCII), ">=");
    assert_eq!(UTF8ReplacerMode::default(), UTF8ReplacerMode::UTF8);
}

#[test]
fn replacers_that_come_with_the_library() {
    assert_eq!(UTF8Replacer::degrees().text(UTF8ReplacerMode::UTF8), "\u{2da}");
    assert_eq!(UTF8Replacer::degrees().text(UTF8ReplacerMode::ASCII), "deg");
    assert_eq!(UTF8Replacer::greater_than_or_equal_to().text(UTF8ReplacerMode::UTF8), "\u{2265}");
    assert_eq!(UTF8Replacer::greater_than_or_equal_to().text(UTF8ReplacerMode::ASCII), ">=");
    assert_eq!(UTF8Replacer::less_than_or_equal_to().text(UTF8ReplacerMode::UTF8), "\u{2264}");
    assert_eq!(UTF8Replacer::less_than_or_equal_to().text(UTF8ReplacerMode::ASCII), "<=");
}

#[test]
fn records_start_at_zero() {
    let zero = FloatBits(0.0f32.to_bits());
    assert_eq!(Vector2D::default(), Vector2D { x: zero, y: zero });
    assert_eq!(Vector3D::default(), Vector3D { x: zero, y: zero, z: zero });
    assert_eq!(Plane2D::default(), Plane2D { offset: zero, vector: Vector2D::default() });
    assert_eq!(Plane3D::default(), Plane3D { vector: Vector3D::default(), offset: zero });
    assert_eq!(Vector2DInt::default(), Vector2DInt { x: 0, y: 0 });
    assert_eq!(CompressedFloat::default(), CompressedFloat(0));
    assert_eq!(CompressedVector2D::default(), CompressedVector2D(0));
    assert_eq!(CompressedVector3D::default(), CompressedVector3D(0));
}
