use rooq::dispatcher::InMemoryImageKind;
use rooq::image::{decode, expand_samples_to_rgba8, expand_to_rgba8, ImageProviderError};
use zune_core::colorspace::ColorSpace;

const RED_RGB_PNG_1X1: [u8; 69] = [
    0x89, 0x50, 0x4E, 0x47, 0x0D, 0x0A, 0x1A, 0x0A, 0x00, 0x00, 0x00, 0x0D, 0x49, 0x48, 0x44,
    0x52, 0x00, 0x00, 0x00, 0x01, 0x00, 0x00, 0x00, 0x01, 0x08, 0x02, 0x00, 0x00, 0x00, 0x90,
    0x77, 0x53, 0xDE, 0x00, 0x00, 0x00, 0x0C, 0x49, 0x44, 0x41, 0x54, 0x78, 0x9C, 0x63, 0xF8,
    0xCF, 0xC0, 0x00, 0x00, 0x03, 0x01, 0x01, 0x00, 0xC9, 0xFE, 0x92, 0xEF, 0x00, 0x00, 0x00,
    0x00, 0x49, 0x45, 0x4E, 0x44, 0xAE, 0x42, 0x60, 0x82,
];

const GREY16_PNG_1X1: [u8; 68] = [
    0x89, 0x50, 0x4E, 0x47, 0x0D, 0x0A, 0x1A, 0x0A, 0x00, 0x00, 0x00, 0x0D, 0x49, 0x48, 0x44,
    0x52, 0x00, 0x00, 0x00, 0x01, 0x00, 0x00, 0x00, 0x01, 0x10, 0x00, 0x00, 0x00, 0x00, 0x6A,
    0xEE, 0x47, 0x16, 0x00, 0x00, 0x00, 0x0B, 0x49, 0x44, 0x41, 0x54, 0x78, 0x9C, 0x63, 0x10,
    0x32, 0x01, 0x00, 0x00, 0x5B, 0x00, 0x47, 0x96, 0xFB, 0x1B, 0x65, 0x00, 0x00, 0x00, 0x00,
    0x49, 0x45, 0x4E, 0x44, 0xAE, 0x42, 0x60, 0x82,
];

const GREY8_PNG_2X1: [u8; 68] = [
    0x89, 0x50, 0x4E, 0x47, 0x0D, 0x0A, 0x1A, 0x0A, 0x00, 0x00, 0x00, 0x0D, 0x49, 0x48, 0x44,
    0x52, 0x00, 0x00, 0x00, 0x02, 0x00, 0x00, 0x00, 0x01, 0x08, 0x00, 0x00, 0x00, 0x00, 0xD1,
    0x49, 0x20, 0x56, 0x00, 0x00, 0x00, 0x0B, 0x49, 0x44, 0x41, 0x54, 0x78, 0x9C, 0x63, 0xE0,
    0x3A, 0x01, 0x00, 0x00, 0xDF, 0x00, 0xD3, 0x4B, 0x21, 0xA5, 0x49, 0x00, 0x00, 0x00, 0x00,
    0x49, 0x45, 0x4E, 0x44, 0xAE, 0x42, 0x60, 0x82,
];

const RED_GIF_1X1: [u8; 35] = [
    0x47, 0x49, 0x46, 0x38, 0x39, 0x61, 0x01, 0x00, 0x01, 0x00, 0x80, 0x00, 0x00, 0xFF, 0x00,
    0x00, 0x00, 0x00, 0x00, 0x2C, 0x00, 0x00, 0x00, 0x00, 0x01, 0x00, 0x01, 0x00, 0x00, 0x02,
    0x02, 0x44, 0x01, 0x00, 0x3B,
];

const SMALL_JPEG_16X16: [u8; 543] = [
    0xFF, 0xD8, 0xFF, 0xE0, 0x00, 0x10, 0x4A, 0x46, 0x49, 0x46, 0x00, 0x01, 0x01, 0x01, 0x00, 0x01,
    0x00, 0x01, 0x00, 0x00, 0xFF, 0xDB, 0x00, 0x43, 0x00, 0x03, 0x02, 0x02, 0x02, 0x02, 0x02, 0x03,
    0x02, 0x02, 0x02, 0x03, 0x03, 0x03, 0x03, 0x04, 0x06, 0x04, 0x04, 0x04, 0x04, 0x04, 0x08, 0x06,
    0x06, 0x05, 0x06, 0x09, 0x08, 0x0A, 0x0A, 0x09, 0x08, 0x09, 0x09, 0x0A, 0x0C, 0x0F, 0x0C, 0x0A,
    0x0B, 0x0E, 0x0B, 0x09, 0x09, 0x0D, 0x11, 0x0D, 0x0E, 0x0F, 0x10, 0x10, 0x11, 0x10, 0x0A, 0x0C,
    0x12, 0x13, 0x12, 0x10, 0x13, 0x0F, 0x10, 0x10, 0x10, 0xFF, 0xDB, 0x00, 0x43, 0x01, 0x03, 0x03,
    0x03, 0x04, 0x03, 0x04, 0x08, 0x04, 0x04, 0x08, 0x10, 0x0B, 0x09, 0x0B, 0x10, 0x10, 0x10, 0x10,
    0x10, 0x10, 0x10, 0x10, 0x10, 0x10, 0x10, 0x10, 0x10, 0x10, 0x10, 0x10, 0x10, 0x10, 0x10, 0x10,
    0x10, 0x10, 0x10, 0x10, 0x10, 0x10, 0x10, 0x10, 0x10, 0x10, 0x10, 0x10, 0x10, 0x10, 0x10, 0x10,
    0x10, 0x10, 0x10, 0x10, 0x10, 0x10, 0x10, 0x10, 0x10, 0x10, 0x10, 0x10, 0x10, 0x10, 0xFF, 0xC0,
    0x00, 0x11, 0x08, 0x00, 0x10, 0x00, 0x10, 0x03, 0x01, 0x22, 0x00, 0x02, 0x11, 0x01, 0x03, 0x11,
    0x01, 0xFF, 0xC4, 0x00, 0x16, 0x00, 0x01, 0x01, 0x01, 0x00, 0x00, 0x00, 0x00, 0x00, 0x00, 0x00,
    0x00, 0x00, 0x00, 0x00, 0x00, 0x00, 0x07, 0x04, 0x05, 0xFF, 0xC4, 0x00, 0x24, 0x10, 0x00, 0x01,
    0x04, 0x01, 0x04, 0x02, 0x02, 0x03, 0x00, 0x00, 0x00, 0x00, 0x00, 0x00, 0x00, 0x00, 0x01, 0x02,
    0x03, 0x04, 0x06, 0x05, 0x07, 0x08, 0x12, 0x13, 0x11, 0x22, 0x00, 0x14, 0x09, 0x31, 0x32, 0xFF,
    0xC4, 0x00, 0x15, 0x01, 0x01, 0x01, 0x00, 0x00, 0x00, 0x00, 0x00, 0x00, 0x00, 0x00, 0x00, 0x00,
    0x00, 0x00, 0x00, 0x00, 0x00, 0x06, 0xFF, 0xC4, 0x00, 0x23, 0x11, 0x00, 0x01, 0x02, 0x05, 0x03,
    0x05, 0x00, 0x00, 0x00, 0x00, 0x00, 0x00, 0x00, 0x00, 0x00, 0x00, 0x01, 0x02, 0x11, 0x03, 0x04,
    0x05, 0x06, 0x21, 0x00, 0x12, 0x31, 0x15, 0x16, 0x61, 0x81, 0xE1, 0xFF, 0xDA, 0x00, 0x0C, 0x03,
    0x01, 0x00, 0x02, 0x11, 0x03, 0x11, 0x00, 0x3F, 0x00, 0x14, 0xA6, 0xD2, 0x6A, 0x1B, 0x73, 0xC1,
    0xE6, 0x13, 0x12, 0xD4, 0x95, 0x1C, 0xF3, 0x11, 0x63, 0xE4, 0x25, 0x65, 0xBE, 0xBA, 0x5A, 0xEC,
    0x69, 0x45, 0x40, 0xB1, 0xE5, 0x20, 0xB2, 0x54, 0xA5, 0x1F, 0xD2, 0xCA, 0xB8, 0xFA, 0xF2, 0x20,
    0xAB, 0x96, 0x3D, 0x97, 0x6C, 0x93, 0x35, 0xE6, 0x9B, 0x77, 0xD7, 0xE6, 0x6D, 0xA7, 0x17, 0x81,
    0xA5, 0x57, 0x1C, 0x7F, 0x1C, 0xEA, 0x71, 0xE2, 0x4B, 0x39, 0xD7, 0xE3, 0x22, 0x53, 0xF2, 0x1A,
    0x69, 0xDE, 0xD4, 0x71, 0x4A, 0x38, 0xB4, 0x82, 0xE8, 0x4B, 0x89, 0x2A, 0x71, 0x69, 0x1E, 0xCD,
    0x2D, 0x21, 0x3B, 0xF1, 0xEF, 0xB9, 0x1A, 0x74, 0xAC, 0xEE, 0xA1, 0x5A, 0x75, 0x8E, 0xD5, 0x48,
    0xAC, 0x65, 0x5B, 0x85, 0x8B, 0x81, 0x85, 0x7B, 0x21, 0x29, 0x98, 0x67, 0xA9, 0x6B, 0x94, 0xB9,
    0x49, 0x65, 0x4F, 0xB9, 0xC8, 0x85, 0x29, 0x11, 0x4B, 0x81, 0x2A, 0xF0, 0x7A, 0xD9, 0xF2, 0x3C,
    0x80, 0x7E, 0x55, 0xBE, 0x0D, 0xF6, 0x62, 0xA1, 0x40, 0xCC, 0xE8, 0xE6, 0x9A, 0x3D, 0x5C, 0xB7,
    0x43, 0xB3, 0xD7, 0x7A, 0x65, 0x58, 0xB1, 0xD9, 0x51, 0x21, 0x88, 0xBF, 0x64, 0xB8, 0xD3, 0xF1,
    0xC3, 0x68, 0x04, 0x29, 0xC0, 0xD0, 0xFE, 0xBB, 0x3C, 0x02, 0xE0, 0x3C, 0x54, 0x07, 0xB4, 0xBD,
    0xD9, 0x7B, 0x54, 0xE6, 0x27, 0xFB, 0x6E, 0xDF, 0x94, 0x60, 0x14, 0x82, 0x62, 0x13, 0x8D, 0xB8,
    0x52, 0x98, 0x28, 0x37, 0x05, 0x89, 0x72, 0x79, 0x60, 0xE4, 0x32, 0x89, 0x6F, 0xC3, 0x82, 0x8E,
    0xA7, 0x52, 0x8C, 0xEA, 0x20, 0x8D, 0xBE, 0x78, 0x19, 0x1F, 0x07, 0xAD, 0x7F, 0xFF, 0xD9,
];

#[test]
fn decodes_minimal_rgb_png_to_rgba() {
    let result = decode(&RED_RGB_PNG_1X1, InMemoryImageKind::Png).unwrap();
    assert_eq!(result.frames.len(), 1);
    assert!(!result.is_animated());
    assert_eq!(result.frames[0].width, 1);
    assert_eq!(result.frames[0].height, 1);
    assert_eq!(result.frames[0].rgba8, vec![255, 0, 0, 255]);
}

#[test]
fn luma_expansion_produces_correct_rgba() {
    let luma_samples: [u8; 2] = [10, 200];
    let out = expand_to_rgba8(&luma_samples, ColorSpace::Luma).unwrap();
    assert_eq!(out, vec![10, 10, 10, 255, 200, 200, 200, 255]);
}

#[test]
fn luma_alpha_expansion_preserves_alpha() {
    let luma_alpha_samples: [u8; 4] = [10, 128, 200, 64];
    let out = expand_to_rgba8(&luma_alpha_samples, ColorSpace::LumaA).unwrap();
    assert_eq!(out, vec![10, 10, 10, 128, 200, 200, 200, 64]);
}

#[test]
fn rgb_expansion_adds_opaque_alpha() {
    let rgb_samples: [u8; 6] = [255, 0, 0, 0, 255, 0];
    let out = expand_to_rgba8(&rgb_samples, ColorSpace::RGB).unwrap();
    assert_eq!(out, vec![255, 0, 0, 255, 0, 255, 0, 255]);
}

#[test]
fn rgba_samples_are_kept_as_they_are() {
    let rgba: [u8; 4] = [1, 2, 3, 4];
    assert_eq!(expand_to_rgba8(&rgba, ColorSpace::RGBA).unwrap(), vec![1, 2, 3, 4]);
}

#[test]
fn unknown_colorspace_is_a_png_decode_error() {
    match expand_to_rgba8(&[1, 2, 3], ColorSpace::Unknown) {
        Err(ImageProviderError::PngDecode(msg)) => {
            assert_eq!(msg, "unexpected component count: 0")
        }
        other => panic!("unexpected result: {:?}", other.map(|v| v.len())),
    }
    match expand_samples_to_rgba8(&[1, 2, 3], 12) {
        Err(ImageProviderError::PngDecode(msg)) => {
            assert_eq!(msg, "unexpected component count: 12")
        }
        other => panic!("unexpected result: {:?}", other.map(|v| v.len())),
    }
}

#[test]
fn odd_luma_alpha_sample_is_dropped() {
    let out = expand_samples_to_rgba8(&[7, 8, 9], 2).unwrap();
    assert_eq!(out, vec![7, 7, 7, 8]);
}

#[test]
fn grey_png_is_expanded_to_rgba() {
    let img = decode(&GREY8_PNG_2X1, InMemoryImageKind::Png).unwrap();
    assert_eq!(img.frames.len(), 1);
    assert_eq!(img.frames[0].width, 2);
    assert_eq!(img.frames[0].height, 1);
    assert_eq!(img.frames[0].rgba8, vec![10, 10, 10, 255, 200, 200, 200, 255]);
}

#[test]
fn sixteen_bit_png_is_rejected() {
    assert!(matches!(
        decode(&GREY16_PNG_1X1, InMemoryImageKind::Png),
        Err(ImageProviderError::UnsupportedBitDepth)
    ));
}

#[test]
fn garbage_is_a_decode_error_for_each_kind() {
    let junk = [0u8, 1, 2, 3, 4, 5];
    assert!(matches!(decode(&junk, InMemoryImageKind::Png), Err(ImageProviderError::PngDecode(_))));
    assert!(matches!(decode(&junk, InMemoryImageKind::Jpeg), Err(ImageProviderError::JpegDecode(_))));
    assert!(matches!(decode(&junk, InMemoryImageKind::Gif), Err(ImageProviderError::GifDecode(_))));
}

#[test]
fn single_frame_gif_is_a_still_image() {
    let img = decode(&RED_GIF_1X1, InMemoryImageKind::Gif).unwrap();
    assert_eq!(img.frames.len(), 1);
    assert!(!img.is_animated());
    assert_eq!(img.frames[0].width, 1);
    assert_eq!(img.frames[0].height, 1);
    assert_eq!(img.frames[0].rgba8, vec![255, 0, 0, 255]);
    assert!(img.frames[0].delay.is_none());
}

#[test]
fn jpeg_decodes_to_rgba_of_its_dimensions() {
    let img = decode(&SMALL_JPEG_16X16, InMemoryImageKind::Jpeg).unwrap();
    assert_eq!(img.frames.len(), 1);
    assert_eq!(img.frames[0].width, 16);
    assert_eq!(img.frames[0].height, 16);
    assert_eq!(img.frames[0].rgba8.len(), 16 * 16 * 4);
    assert!(img.frames[0].rgba8.chunks(4).all(|px| px[3] == 255));
    assert!(img.frames[0].delay.is_none());
}

const TWO_FRAME_GIF: [u8; 66] = [
    0x47, 0x49, 0x46, 0x38, 0x39, 0x61, 0x01, 0x00, 0x01, 0x00, 0x80, 0x00, 0x00, 0xFF, 0x00,
    0x00, 0x00, 0x00, 0xFF, 0x21, 0xF9, 0x04, 0x00, 0x0A, 0x00, 0x00, 0x00, 0x2C, 0x00, 0x00,
    0x00, 0x00, 0x01, 0x00, 0x01, 0x00, 0x00, 0x02, 0x02, 0x44, 0x01, 0x00, 0x21, 0xF9, 0x04,
    0x00, 0x14, 0x00, 0x00, 0x00, 0x2C, 0x00, 0x00, 0x00, 0x00, 0x01, 0x00, 0x01, 0x00, 0x00,
    0x02, 0x02, 0x4C, 0x01, 0x00, 0x3B,
];

#[test]
fn animated_gif_keeps_every_frame_and_delay() {
    let img = decode(&TWO_FRAME_GIF, InMemoryImageKind::Gif).unwrap();
    assert!(img.is_animated());
    assert_eq!(img.frames.len(), 2);
    assert_eq!(img.frames[0].rgba8, vec![255, 0, 0, 255]);
    assert_eq!(img.frames[1].rgba8, vec![0, 0, 255, 255]);
    assert_eq!(img.frames[0].delay, Some(std::time::Duration::from_millis(100)));
    assert_eq!(img.frames[1].delay, Some(std::time::Duration::from_millis(200)));
}

