//! In-memory image decoding for jpg/png/gif.
//!
//! jpg/png use zune-jpeg/zune-png, gif uses the `image` crate. Every decoder
//! normalises to RGBA8 so the UI layer does not need to care about the
//! source format or colour space. webp/avif and video thumbnails arrive here
//! as a temporary PNG produced by an external tool.

use vstd::prelude::*;
use std::time::Duration;
use image::AnimationDecoder;
use zune_core::colorspace::ColorSpace;
use crate::dispatcher::InMemoryImageKind;
use crate::pixels::{lemma_quad_index, rgb_to_rgba, rgba_from_rgb};
use crate::text_ops::{decimal, decimal_string};

verus! {

/// The `image` crate's error type, carried opaquely inside
/// `ImageProviderError::GifDecode`.
#[verifier::external_type_specification]
#[verifier::external_body]
pub struct ExImageError(image::ImageError);

/// zune-core's colour space enum, carried opaquely; its channel count is
/// asked of zune-core.
#[verifier::external_type_specification]
#[verifier::external_body]
pub struct ExColorSpace(ColorSpace);

#[derive(Debug)]
pub enum ImageProviderError {
    Io(std::io::Error),
    JpegDecode(String),
    PngDecode(String),
    GifDecode(image::ImageError),
    NoFrames,
    UnsupportedBitDepth,
}

/// One decoded frame: dimensions plus packed RGBA8 pixels, and for an
/// animation the time the frame stays on screen.
pub struct DecodedFrame {
    pub width: u32,
    pub height: u32,
    pub rgba8: Vec<u8>,
    pub delay: Option<Duration>,
}

pub struct DecodedImage {
    pub frames: Vec<DecodedFrame>,
}

/// Width, height, pixels and delay of a frame.
pub type FrameView = (u32, u32, Seq<u8>, Option<Duration>);

impl View for DecodedFrame {
    type V = FrameView;

    open spec fn view(&self) -> FrameView {
        (self.width, self.height, self.rgba8@, self.delay)
    }
}

impl View for DecodedImage {
    type V = Seq<FrameView>;

    open spec fn view(&self) -> Seq<FrameView> {
        self.frames@.map_values(|f: DecodedFrame| f@)
    }
}

impl DecodedImage {
    pub fn is_animated(&self) -> (animated: bool)
        ensures
            animated == (self@.len() > 1),
    {
        self.frames.len() > 1
    }
}

/// Byte `j` of the RGBA8 image for grey samples: the grey level three
/// times, then an opaque alpha.
pub open spec fn rgba_byte_from_luma(samples: Seq<u8>, j: int) -> u8 {
    if j % 4 == 3 {
        255u8
    } else {
        samples[j / 4]
    }
}

/// Byte `j` of the RGBA8 image for grey+alpha sample pairs.
pub open spec fn rgba_byte_from_luma_alpha(samples: Seq<u8>, j: int) -> u8 {
    if j % 4 == 3 {
        samples[(j / 4) * 2 + 1]
    } else {
        samples[(j / 4) * 2]
    }
}

/// RGBA8 pixels for samples with `components` channels each (grey,
/// grey+alpha, RGB or RGBA; a trailing partial pixel is dropped), or `None`
/// for any other channel count.
pub open spec fn expanded_rgba(samples: Seq<u8>, components: nat) -> Option<Seq<u8>> {
    if components == 1 {
        Some(Seq::new(samples.len() * 4, |j: int| rgba_byte_from_luma(samples, j)))
    } else if components == 2 {
        Some(Seq::new((samples.len() / 2) * 4, |j: int| rgba_byte_from_luma_alpha(samples, j)))
    } else if components == 3 {
        Some(rgba_from_rgb(samples))
    } else if components == 4 {
        Some(samples)
    } else {
        None
    }
}

/// Grey, grey+alpha and RGB samples expand to exactly four bytes (RGBA)
/// per complete input pixel; RGBA samples are passed through unchanged.
pub proof fn lemma_four_bytes_per_pixel(samples: Seq<u8>, components: nat)
    requires
        1 <= components <= 4,
    ensures
        expanded_rgba(samples, components) is Some,
        components < 4 ==> expanded_rgba(samples, components)->0.len() == (samples.len()
            / components) * 4,
        components == 4 ==> expanded_rgba(samples, components)->0 == samples,
{
}

/// Widening to RGBA works pixel by pixel: pixel `i` of a grey image is its
/// grey level three times with an opaque alpha, of a grey+alpha image its
/// grey level three times with its own alpha, of an RGB image its three
/// colours in order with an opaque alpha, and RGBA samples are kept as they
/// are; every complete input pixel gives exactly four bytes.
pub proof fn lemma_rgba_pixels(samples: Seq<u8>, components: nat, i: int)
    requires
        1 <= components <= 4,
        0 <= i < samples.len() / components,
    ensures
        ({
            let out = expanded_rgba(samples, components)->0;
            &&& components < 4 ==> out.len() == (samples.len() / components) * 4
            &&& components == 4 ==> out == samples
            &&& components == 1 ==> out[4 * i] == samples[i] && out[4 * i + 1] == samples[i]
                && out[4 * i + 2] == samples[i] && out[4 * i + 3] == 255
            &&& components == 2 ==> out[4 * i] == samples[2 * i] && out[4 * i + 1] == samples[2
                * i] && out[4 * i + 2] == samples[2 * i] && out[4 * i + 3] == samples[2 * i + 1]
            &&& components == 3 ==> out[4 * i] == samples[3 * i] && out[4 * i + 1] == samples[3
                * i + 1] && out[4 * i + 2] == samples[3 * i + 2] && out[4 * i + 3] == 255
        }),
{
    lemma_four_bytes_per_pixel(samples, components);
    lemma_quad_index(i, 0);
    lemma_quad_index(i, 1);
    lemma_quad_index(i, 2);
    lemma_quad_index(i, 3);
    let n = samples.len() / components;
    assert(4 * i + 3 < n * 4);
}

/// The message for a channel count that cannot be expanded to RGBA8.
pub open spec fn component_count_message(components: nat) -> Seq<char> {
    "unexpected component count: "@ + decimal(components)
}

/// The number of channels of a zune colour space.
pub uninterp spec fn components_of(colorspace: ColorSpace) -> usize;

/// Calls `zune_core::colorspace::ColorSpace::num_components`; the contract
/// only names the count (1 for grey, 2 for grey+alpha, 3 for RGB-like and 4
/// for RGBA-like spaces in zune-core's table).
#[verifier::external_body]
fn color_components(colorspace: ColorSpace) -> (n: usize)
    ensures
        n == components_of(colorspace),
{
    colorspace.num_components()
}

fn luma_to_rgba(samples: &[u8]) -> (out: Vec<u8>)
    ensures
        out@ == expanded_rgba(samples@, 1)->0,
{
    let len = samples.len();
    let mut out: Vec<u8> = Vec::new();
    let mut i: usize = 0;
    while i < len
        invariant
            len == samples@.len(),
            i <= len,
            out@.len() == 4 * i,
            forall|j: int| 0 <= j < out@.len() ==> out@[j] == rgba_byte_from_luma(samples@, j),
        decreases len - i,
    {
        let l = samples[i];
        out.push(l);
        out.push(l);
        out.push(l);
        out.push(255u8);
        proof {
            lemma_quad_index(i as int, 0);
            lemma_quad_index(i as int, 1);
            lemma_quad_index(i as int, 2);
            lemma_quad_index(i as int, 3);
        }
        i = i + 1;
    }
    assert(out@ =~= expanded_rgba(samples@, 1)->0);
    out
}

fn luma_alpha_to_rgba(samples: &[u8]) -> (out: Vec<u8>)
    ensures
        out@ == expanded_rgba(samples@, 2)->0,
{
    let len = samples.len();
    let pairs = len / 2;
    let mut out: Vec<u8> = Vec::new();
    let mut i: usize = 0;
    while i < pairs
        invariant
            len == samples@.len(),
            pairs == len / 2,
            2 * pairs <= len,
            i <= pairs,
            out@.len() == 4 * i,
            forall|j: int|
                0 <= j < out@.len() ==> out@[j] == rgba_byte_from_luma_alpha(samples@, j),
        decreases pairs - i,
    {
        let l = samples[2 * i];
        let a = samples[2 * i + 1];
        out.push(l);
        out.push(l);
        out.push(l);
        out.push(a);
        proof {
            lemma_quad_index(i as int, 0);
            lemma_quad_index(i as int, 1);
            lemma_quad_index(i as int, 2);
            lemma_quad_index(i as int, 3);
        }
        i = i + 1;
    }
    assert(out@ =~= expanded_rgba(samples@, 2)->0);
    out
}

/// Expands samples with `components` channels per pixel to RGBA8.
pub fn expand_samples_to_rgba8(samples: &[u8], components: usize) -> (out: Result<
    Vec<u8>,
    ImageProviderError,
>)
    ensures
        match expanded_rgba(samples@, components as nat) {
            Some(px) => out matches Ok(v) && v@ == px,
            None => out matches Err(ImageProviderError::PngDecode(msg)) && msg@
                == component_count_message(components as nat),
        },
{
    if components == 1 {
        Ok(luma_to_rgba(samples))
    } else if components == 2 {
        Ok(luma_alpha_to_rgba(samples))
    } else if components == 3 {
        Ok(rgb_to_rgba(samples))
    } else if components == 4 {
        Ok(vstd::slice::slice_to_vec(samples))
    } else {
        let mut msg = String::from_str("unexpected component count: ");
        let count = decimal_string(components as u64);
        msg.append(count.as_str());
        Err(ImageProviderError::PngDecode(msg))
    }
}

/// Expands samples in the given zune colour space to RGBA8.
pub fn expand_to_rgba8(samples: &[u8], colorspace: ColorSpace) -> (out: Result<
    Vec<u8>,
    ImageProviderError,
>)
    ensures
        match expanded_rgba(samples@, components_of(colorspace) as nat) {
            Some(px) => out matches Ok(v) && v@ == px,
            None => out matches Err(ImageProviderError::PngDecode(msg)) && msg@
                == component_count_message(components_of(colorspace) as nat),
        },
{
    let n = color_components(colorspace);
    expand_samples_to_rgba8(samples, n)
}

/// What zune-jpeg makes of `bytes` when asked for RGBA output: the
/// dimensions it reports after decoding, or the message of its error. The
/// pixel values themselves are not named: zune-jpeg picks SIMD or scalar
/// colour conversion and upsampling by the machine it runs on.
pub uninterp spec fn jpeg_decoding(bytes: Seq<u8>) -> Result<Option<(u16, u16)>, Seq<char>>;

/// Runs `zune_jpeg::JpegDecoder::decode` on `bytes` with RGBA output, then
/// reads `JpegDecoder::info` for the dimensions. On success the pixel buffer
/// holds four bytes per pixel (`decode` allocates width × height × the
/// output colour space's four components); of the pixel values nothing is
/// stated.
#[verifier::external_body]
fn run_jpeg_decoder(bytes: &[u8]) -> (out: Result<(Vec<u8>, Option<(u16, u16)>), String>)
    ensures
        match out {
            Ok((px, dims)) => {
                &&& jpeg_decoding(bytes@) == Ok::<_, Seq<char>>(dims)
                &&& dims matches Some((w, h)) ==> px@.len() == 4 * w * h
            },
            Err(msg) => jpeg_decoding(bytes@) == Err::<Option<(u16, u16)>, _>(msg@),
        },
{
    let options = zune_core::options::DecoderOptions::default().jpeg_set_out_colorspace(
        ColorSpace::RGBA,
    );
    let mut decoder = zune_jpeg::JpegDecoder::new_with_options(
        zune_core::bytestream::ZCursor::new(bytes),
        options,
    );
    match decoder.decode() {
        Ok(pixels) => Ok((pixels, decoder.info().map(|info| (info.width, info.height)))),
        Err(e) => Err(e.to_string()),
    }
}

/// What zune-png reports after decoding: 8-bit samples (`None` when the
/// samples are wider), the colour space and the dimensions.
struct PngOutput {
    pub samples: Option<Vec<u8>>,
    pub colorspace: Option<ColorSpace>,
    pub dimensions: Option<(usize, usize)>,
}

/// What zune-png makes of `bytes`, or the message of its error.
pub uninterp spec fn png_decoding(bytes: Seq<u8>) -> Result<
    (Option<Seq<u8>>, Option<ColorSpace>, Option<(usize, usize)>),
    Seq<char>,
>;

/// Runs `zune_png::PngDecoder::decode` on `bytes`, then reads
/// `PngDecoder::colorspace` and `PngDecoder::info`. The dimensions are read
/// from the 32-bit fields of the header, and 8-bit output holds width ×
/// height × the colour space's channel count samples (`decode` allocates
/// exactly that).
#[verifier::external_body]
fn run_png_decoder(bytes: &[u8]) -> (out: Result<PngOutput, String>)
    ensures
        out matches Ok(o) ==> (o.dimensions matches Some((w, h)) ==> w <= u32::MAX && h
            <= u32::MAX),
        out matches Ok(o) ==> (o.samples matches Some(v) ==> o.colorspace matches Some(cs)
            && o.dimensions matches Some((w, h)) && v@.len() == w * h * components_of(cs)),
        match (out, png_decoding(bytes@)) {
            (Ok(o), Ok((ss, scs, sdims))) => {
                &&& match (o.samples, ss) {
                    (Some(v), Some(sv)) => v@ == sv,
                    (None, None) => true,
                    _ => false,
                }
                &&& o.colorspace == scs
                &&& o.dimensions == sdims
            },
            (Err(msg), Err(smsg)) => msg@ == smsg,
            _ => false,
        },
{
    let mut decoder = zune_png::PngDecoder::new(zune_core::bytestream::ZCursor::new(bytes));
    match decoder.decode() {
        Ok(result) => Ok(PngOutput {
            samples: match result {
                zune_core::result::DecodingResult::U8(px) => Some(px),
                _ => None,
            },
            colorspace: decoder.colorspace(),
            dimensions: decoder.info().map(|info| (info.width, info.height)),
        }),
        Err(e) => Err(e.to_string()),
    }
}

/// The frames the `image` crate's GIF decoder yields for `bytes` (RGBA8,
/// with each frame's delay), or `None` when it fails.
pub uninterp spec fn gif_decoding(bytes: Seq<u8>) -> Option<Seq<FrameView>>;

/// Runs `image::codecs::gif::GifDecoder` over `bytes` and collects every
/// frame of `AnimationDecoder::into_frames` as RGBA8 plus its delay. Every
/// frame carries its delay, and its buffer holds four bytes per pixel (the
/// decoder composes each frame into an RGBA buffer of exactly its size).
#[verifier::external_body]
fn run_gif_decoder(bytes: &[u8]) -> (out: Result<Vec<DecodedFrame>, image::ImageError>)
    ensures
        out matches Ok(frames) ==> forall|i: int|
            0 <= i < frames@.len() ==> (#[trigger] frames@[i]).delay is Some
                && frames@[i].rgba8@.len() == 4 * frames@[i].width * frames@[i].height,
        match out {
            Ok(frames) => gif_decoding(bytes@) == Some(frames@.map_values(|f: DecodedFrame| f@)),
            Err(_) => gif_decoding(bytes@) is None,
        },
{
    let decoder = image::codecs::gif::GifDecoder::new(std::io::Cursor::new(bytes))?;
    let mut frames = Vec::new();
    for frame in decoder.into_frames() {
        let frame = frame?;
        let delay: Duration = frame.delay().into();
        let buffer = frame.into_buffer();
        frames.push(DecodedFrame {
            width: buffer.width(),
            height: buffer.height(),
            rgba8: buffer.into_raw(),
            delay: Some(delay),
        });
    }
    Ok(frames)
}

/// The single-frame image that a still decoder produces.
pub open spec fn still_image(width: u32, height: u32, rgba8: Seq<u8>) -> Seq<FrameView> {
    seq![(width, height, rgba8, None)]
}

/// The outcome of decoding a JPEG, over zune-jpeg's outcome: one still
/// frame of the reported size with four bytes per pixel.
pub open spec fn jpeg_result(
    decoded: Result<Option<(u16, u16)>, Seq<char>>,
    out: Result<DecodedImage, ImageProviderError>,
) -> bool {
    match decoded {
        Err(msg) => out matches Err(ImageProviderError::JpegDecode(m)) && m@ == msg,
        Ok(None) => out matches Err(ImageProviderError::JpegDecode(m)) && m@
            == "could not read image dimensions"@,
        Ok(Some((w, h))) => out matches Ok(img) && img@.len() == 1 && img@[0].0 == w as u32
            && img@[0].1 == h as u32 && img@[0].2.len() == 4 * w * h && img@[0].3 is None,
    }
}

/// Every frame holds four bytes (RGBA) per pixel of its size.
pub open spec fn rgba_frames(frames: Seq<FrameView>) -> bool {
    forall|i: int|
        0 <= i < frames.len() ==> (#[trigger] frames[i]).2.len() == 4 * frames[i].0 * frames[i].1
}

/// Every frame of an animation carries its delay; a still image has none.
pub open spec fn delays_set(frames: Seq<FrameView>) -> bool {
    &&& frames.len() == 1 ==> frames[0].3 is None
    &&& frames.len() > 1 ==> forall|i: int| 0 <= i < frames.len() ==> (#[trigger] frames[i]).3 is Some
}

/// The outcome of decoding a PNG, over zune-png's outcome: decoder errors,
/// then a missing colour space, then missing dimensions, then samples wider
/// than 8 bits, then a channel count that cannot be expanded.
pub open spec fn png_result(
    decoded: Result<(Option<Seq<u8>>, Option<ColorSpace>, Option<(usize, usize)>), Seq<char>>,
    out: Result<DecodedImage, ImageProviderError>,
) -> bool {
    match decoded {
        Err(msg) => out matches Err(ImageProviderError::PngDecode(m)) && m@ == msg,
        Ok((samples, colorspace, dims)) => match colorspace {
            None => out matches Err(ImageProviderError::PngDecode(m)) && m@
                == "could not read color space"@,
            Some(cs) => match dims {
                None => out matches Err(ImageProviderError::PngDecode(m)) && m@
                    == "could not read image dimensions"@,
                Some((w, h)) => match samples {
                    None => out matches Err(ImageProviderError::UnsupportedBitDepth),
                    Some(px) => match expanded_rgba(px, components_of(cs) as nat) {
                        None => out matches Err(ImageProviderError::PngDecode(m)) && m@
                            == component_count_message(components_of(cs) as nat),
                        Some(rgba) => out matches Ok(img) && img@ == still_image(
                            w as u32,
                            h as u32,
                            rgba,
                        ),
                    },
                },
            },
        },
    }
}

/// The outcome of decoding a GIF, over the frames the gif decoder yields:
/// no frame is an error, and a lone frame is a still image without delay.
pub open spec fn gif_result(
    decoded: Option<Seq<FrameView>>,
    out: Result<DecodedImage, ImageProviderError>,
) -> bool {
    match decoded {
        None => out matches Err(ImageProviderError::GifDecode(_)),
        Some(frames) => if frames.len() == 0 {
            out matches Err(ImageProviderError::NoFrames)
        } else if frames.len() == 1 {
            out matches Ok(img) && img@ == still_image(frames[0].0, frames[0].1, frames[0].2)
        } else {
            out matches Ok(img) && img@ == frames
        },
    }
}

/// A decoded JPEG is one still frame exactly as zune-jpeg reports it:
/// its width is the reported width and its height the reported height,
/// with four bytes per pixel and no delay; zune-jpeg's failure is reported
/// with its message, and a missing size is an error too.
pub proof fn lemma_jpeg_frame_is_reported_size(
    decoded: Result<Option<(u16, u16)>, Seq<char>>,
    out: Result<DecodedImage, ImageProviderError>,
)
    requires
        jpeg_result(decoded, out),
    ensures
        decoded matches Ok(Some((w, h))) ==> {
            &&& out is Ok
            &&& out->Ok_0@.len() == 1
            &&& out->Ok_0@[0].0 == w as u32
            &&& out->Ok_0@[0].1 == h as u32
            &&& out->Ok_0@[0].2.len() == 4 * (w as int) * (h as int)
            &&& out->Ok_0@[0].3 is None
        },
        decoded matches Err(msg) ==> (out matches Err(ImageProviderError::JpegDecode(m)) && m@
            == msg),
        decoded matches Ok(None) ==> out matches Err(ImageProviderError::JpegDecode(_)),
{
}

/// A decoded PNG with 8-bit samples, a colour space of one to four
/// channels and a size is one still frame of that size whose pixels are the
/// samples widened to RGBA (grey repeated into red, green and blue, opaque
/// alpha where the samples have none).
pub proof fn lemma_png_frame_is_reported_size(
    px: Seq<u8>,
    cs: ColorSpace,
    w: usize,
    h: usize,
    out: Result<DecodedImage, ImageProviderError>,
)
    requires
        png_result(Ok((Some(px), Some(cs), Some((w, h)))), out),
        1 <= components_of(cs) <= 4,
    ensures
        out is Ok,
        out->Ok_0@.len() == 1,
        out->Ok_0@[0].0 == w as u32,
        out->Ok_0@[0].1 == h as u32,
        out->Ok_0@[0].3 is None,
        components_of(cs) == 4 ==> out->Ok_0@[0].2 == px,
        components_of(cs) == 3 ==> out->Ok_0@[0].2 == rgba_from_rgb(px),
        components_of(cs) == 1 ==> out->Ok_0@[0].2.len() == 4 * px.len(),
        forall|i: int|
            #![trigger px[i]]
            0 <= i < px.len() && components_of(cs) == 1 ==> out->Ok_0@[0].2[4 * i] == px[i]
                && out->Ok_0@[0].2[4 * i + 1] == px[i] && out->Ok_0@[0].2[4 * i + 2] == px[i]
                && out->Ok_0@[0].2[4 * i + 3] == 255,
{
    if components_of(cs) == 1 {
        assert forall|i: int| 0 <= i < px.len() implies #[trigger] px[i] == px[i] && out->Ok_0@[0].2[4
            * i] == px[i] && out->Ok_0@[0].2[4 * i + 1] == px[i] && out->Ok_0@[0].2[4 * i + 2]
            == px[i] && out->Ok_0@[0].2[4 * i + 3] == 255 by {
            lemma_quad_index(i, 0);
            lemma_quad_index(i, 1);
            lemma_quad_index(i, 2);
            lemma_quad_index(i, 3);
        }
    }
}

/// PNG samples wider than 8 bits are refused, and zune-png's failure is
/// reported with its message.
pub proof fn lemma_png_refusals(
    decoded: Result<(Option<Seq<u8>>, Option<ColorSpace>, Option<(usize, usize)>), Seq<char>>,
    out: Result<DecodedImage, ImageProviderError>,
)
    requires
        png_result(decoded, out),
    ensures
        decoded matches Ok((None, Some(_), Some(_))) ==> out matches Err(
            ImageProviderError::UnsupportedBitDepth,
        ),
        decoded matches Err(msg) ==> (out matches Err(ImageProviderError::PngDecode(m)) && m@
            == msg),
{
}

/// A decoded GIF keeps the frames the decoder yields: several frames are
/// passed on as they are, in order and with their delays; a lone frame is a
/// still image of the same size and pixels without delay; no frame at all
/// is an error.
pub proof fn lemma_gif_keeps_frames(frames: Seq<FrameView>, out: Result<DecodedImage, ImageProviderError>)
    requires
        gif_result(Some(frames), out),
    ensures
        frames.len() > 1 ==> out is Ok && out->Ok_0@ == frames,
        frames.len() == 1 ==> {
            &&& out is Ok
            &&& out->Ok_0@.len() == 1
            &&& out->Ok_0@[0].0 == frames[0].0
            &&& out->Ok_0@[0].1 == frames[0].1
            &&& out->Ok_0@[0].2 == frames[0].2
            &&& out->Ok_0@[0].3 is None
        },
        frames.len() == 0 ==> out matches Err(ImageProviderError::NoFrames),
{
}

/// A failing GIF decoder is reported as a GIF decoding error.
pub proof fn lemma_gif_failure(out: Result<DecodedImage, ImageProviderError>)
    requires
        gif_result(None, out),
    ensures
        out matches Err(ImageProviderError::GifDecode(_)),
{
}

fn decode_jpeg(bytes: &[u8]) -> (out: Result<DecodedImage, ImageProviderError>)
    ensures
        jpeg_result(jpeg_decoding(bytes@), out),
        out matches Ok(img) ==> img@.len() >= 1 && rgba_frames(img@) && delays_set(img@),
{
    match run_jpeg_decoder(bytes) {
        Err(msg) => Err(ImageProviderError::JpegDecode(msg)),
        Ok((_, None)) => Err(
            ImageProviderError::JpegDecode(String::from_str("could not read image dimensions")),
        ),
        Ok((pixels, Some((width, height)))) => {
            let frame = DecodedFrame {
                width: width as u32,
                height: height as u32,
                rgba8: pixels,
                delay: None,
            };
            let mut frames: Vec<DecodedFrame> = Vec::new();
            frames.push(frame);
            let img = DecodedImage { frames };
            assert(img@ =~= still_image(width as u32, height as u32, img.frames@[0].rgba8@));
            Ok(img)
        },
    }
}

fn decode_png(bytes: &[u8]) -> (out: Result<DecodedImage, ImageProviderError>)
    ensures
        png_result(png_decoding(bytes@), out),
        out matches Ok(img) ==> img@.len() >= 1 && rgba_frames(img@) && delays_set(img@),
{
    let output = match run_png_decoder(bytes) {
        Err(msg) => return Err(ImageProviderError::PngDecode(msg)),
        Ok(o) => o,
    };
    let colorspace = match output.colorspace {
        None => return Err(
            ImageProviderError::PngDecode(String::from_str("could not read color space")),
        ),
        Some(cs) => cs,
    };
    let (width, height) = match output.dimensions {
        None => return Err(
            ImageProviderError::PngDecode(String::from_str("could not read image dimensions")),
        ),
        Some(dims) => dims,
    };
    let samples = match output.samples {
        None => return Err(ImageProviderError::UnsupportedBitDepth),
        Some(px) => px,
    };
    let rgba8 = match expand_to_rgba8(samples.as_slice(), colorspace) {
        Err(e) => return Err(e),
        Ok(px) => px,
    };
    proof {
        let c = components_of(colorspace) as int;
        let wh = width * height;
        assert(1 <= c <= 4) by {
            if !(1 <= c <= 4) {
                assert(expanded_rgba(samples@, c as nat) is None);
            }
        }
        lemma_four_bytes_per_pixel(samples@, c as nat);
        assert(samples@.len() == wh * c);
        assert((c * wh) / c == wh) by {
            vstd::arithmetic::div_mod::lemma_div_multiples_vanish(wh, c);
        }
        assert(wh * c == c * wh) by (nonlinear_arith);
        assert(rgba8@.len() == 4 * wh);
        assert(width as u32 == width && height as u32 == height);
        let (wu, hu) = (width as u32, height as u32);
        assert(4 * wu * hu == 4 * wh) by (nonlinear_arith)
            requires
                wu == width,
                hu == height,
                wh == width * height,
        ;
    }
    let frame = DecodedFrame { width: width as u32, height: height as u32, rgba8, delay: None };
    let mut frames: Vec<DecodedFrame> = Vec::new();
    frames.push(frame);
    let img = DecodedImage { frames };
    assert(img@ =~= still_image(width as u32, height as u32, img.frames@[0].rgba8@));
    Ok(img)
}

fn decode_gif(bytes: &[u8]) -> (out: Result<DecodedImage, ImageProviderError>)
    ensures
        gif_result(gif_decoding(bytes@), out),
        out matches Ok(img) ==> img@.len() >= 1 && rgba_frames(img@) && delays_set(img@),
{
    let mut frames = match run_gif_decoder(bytes) {
        Err(e) => return Err(ImageProviderError::GifDecode(e)),
        Ok(frames) => frames,
    };
    let ghost decoded = frames@.map_values(|f: DecodedFrame| f@);
    if frames.len() == 0 {
        return Err(ImageProviderError::NoFrames);
    }
    if frames.len() == 1 {
        let mut only = frames.pop().unwrap();
        only.delay = None;
        frames.push(only);
        let img = DecodedImage { frames };
        assert(img@ =~= still_image(decoded[0].0, decoded[0].1, decoded[0].2));
        return Ok(img);
    }
    let img = DecodedImage { frames };
    assert(img@ =~= decoded);
    Ok(img)
}

/// The outcome of decoding `bytes` as an image of the given kind.
pub open spec fn decode_result(
    bytes: Seq<u8>,
    kind: InMemoryImageKind,
    out: Result<DecodedImage, ImageProviderError>,
) -> bool {
    match kind {
        InMemoryImageKind::Jpeg => jpeg_result(jpeg_decoding(bytes), out),
        InMemoryImageKind::Png => png_result(png_decoding(bytes), out),
        InMemoryImageKind::Gif => gif_result(gif_decoding(bytes), out),
    }
}

/// Each kind is decoded by its own decoder: JPEG by zune-jpeg, PNG by
/// zune-png, GIF by the `image` crate's GIF decoder.
pub proof fn lemma_decoder_by_kind(bytes: Seq<u8>, out: Result<DecodedImage, ImageProviderError>)
    ensures
        decode_result(bytes, InMemoryImageKind::Jpeg, out) == jpeg_result(jpeg_decoding(bytes), out),
        decode_result(bytes, InMemoryImageKind::Png, out) == png_result(png_decoding(bytes), out),
        decode_result(bytes, InMemoryImageKind::Gif, out) == gif_result(gif_decoding(bytes), out),
{
}

/// Decodes the contents of an image file of the given kind to RGBA8 frames:
/// at least one frame, each with four bytes per pixel; a still image has no
/// delay and every frame of an animation has one.
pub fn decode(bytes: &[u8], kind: InMemoryImageKind) -> (out: Result<
    DecodedImage,
    ImageProviderError,
>)
    ensures
        decode_result(bytes@, kind, out),
        out matches Ok(img) ==> img@.len() >= 1 && rgba_frames(img@) && delays_set(img@),
{
    match kind {
        InMemoryImageKind::Jpeg => decode_jpeg(bytes),
        InMemoryImageKind::Png => decode_png(bytes),
        InMemoryImageKind::Gif => decode_gif(bytes),
    }
}

} // verus!
