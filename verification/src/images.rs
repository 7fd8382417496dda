//! Decoded textures and interface sprites.

use crate::error::{malformation, malformed, BlockResourceError, Failure};
use crate::json::bytes_view;
use vstd::arithmetic::div_mod::*;
use vstd::arithmetic::mul::*;
use vstd::prelude::*;

verus! {

/// What the header of a PNG image says: its size, and the number of bytes that
/// its pixels take, where that many can be addressed.
#[derive(Clone, Copy, Debug, PartialEq, Eq, Structural)]
pub struct PngHeader {
    pub width: u32,
    pub height: u32,
    pub size: Option<usize>,
}

#[derive(Clone, Copy, Debug, PartialEq, Eq, Structural)]
pub enum ColorFormat {
    Rgba,
    Rgb,
    GrayscaleAlpha,
    Grayscale,
    Indexed,
}

/// The pixels of a PNG image, row by row, a byte for each sample.
#[derive(Clone, Debug)]
pub struct PngFrame {
    pub width: u32,
    pub height: u32,
    pub format: ColorFormat,
    pub pixels: Vec<u8>,
}

pub struct FrameModel {
    pub width: u32,
    pub height: u32,
    pub format: ColorFormat,
    pub pixels: Seq<u8>,
}

impl View for PngFrame {
    type V = FrameModel;

    open spec fn view(&self) -> FrameModel {
        FrameModel {
            width: self.width,
            height: self.height,
            format: self.format,
            pixels: self.pixels@,
        }
    }
}

/// What `png::Decoder::read_info` reads from the header of an image, or the
/// message of its error, on a machine that addresses `limit` bytes.
pub uninterp spec fn png_header(bytes: Seq<u8>, limit: int) -> Result<PngHeader, Seq<char>>;

/// What `png::Reader::next_frame` decodes of an image, or the message of its
/// error, on a machine that addresses `limit` bytes.
pub uninterp spec fn png_frame(bytes: Seq<u8>, limit: int) -> Result<FrameModel, Seq<char>>;

/// Reads the header of an image with `png::Decoder::read_info`, with palettes
/// expanded and samples cut to eight bits. The result depends on the bytes and
/// on how much the machine addresses.
#[verifier::external_body]
fn read_header(bytes: &[u8]) -> (result: Result<PngHeader, String>)
    ensures
        match result {
            Ok(header) => png_header(bytes@, isize::MAX as int) == Ok::<PngHeader, Seq<char>>(
                header,
            ),
            Err(message) => png_header(bytes@, isize::MAX as int) == Err::<PngHeader, Seq<char>>(
                message@,
            ),
        },
{
    let mut decoder = png::Decoder::new(std::io::Cursor::new(bytes));
    decoder.set_transformations(png::Transformations::EXPAND | png::Transformations::STRIP_16);
    let reader = decoder.read_info().map_err(|error| error.to_string())?;
    let (width, height) = reader.info().size();
    Ok(PngHeader { width, height, size: reader.output_buffer_size() })
}

/// Decodes the first frame of an image whose header was read, with
/// `png::Reader::next_frame`. The result depends on the bytes and on how much the
/// machine addresses. A decoded frame is not empty.
#[verifier::external_body]
fn read_frame(bytes: &[u8]) -> (result: Result<PngFrame, String>)
    requires
        png_header(bytes@, isize::MAX as int) matches Ok(header) && header.size matches Some(size)
            && size <= 64 * 1024 * 1024,
    ensures
        match result {
            Ok(frame) => png_frame(bytes@, isize::MAX as int) == Ok::<FrameModel, Seq<char>>(
                frame@,
            ) && frame.width > 0 && frame.height > 0,
            Err(message) => png_frame(bytes@, isize::MAX as int) == Err::<FrameModel, Seq<char>>(
                message@,
            ),
        },
{
    let mut decoder = png::Decoder::new(std::io::Cursor::new(bytes));
    decoder.set_transformations(png::Transformations::EXPAND | png::Transformations::STRIP_16);
    let mut reader = decoder.read_info().map_err(|error| error.to_string())?;
    let mut pixels = vec![0; reader.output_buffer_size().unwrap_or(0)];
    let frame = reader.next_frame(&mut pixels).map_err(|error| error.to_string())?;
    pixels.truncate(frame.buffer_size());
    let format = match frame.color_type {
        png::ColorType::Rgba => ColorFormat::Rgba,
        png::ColorType::Rgb => ColorFormat::Rgb,
        png::ColorType::GrayscaleAlpha => ColorFormat::GrayscaleAlpha,
        png::ColorType::Grayscale => ColorFormat::Grayscale,
        png::ColorType::Indexed => ColorFormat::Indexed,
    };
    Ok(PngFrame { width: frame.width, height: frame.height, format, pixels })
}

/// The number of samples of a pixel, where the format is supported.
pub open spec fn samples(format: ColorFormat) -> Option<int> {
    match format {
        ColorFormat::Rgba => Some(4),
        ColorFormat::Rgb => Some(3),
        ColorFormat::GrayscaleAlpha => Some(2),
        ColorFormat::Grayscale => Some(1),
        ColorFormat::Indexed => None,
    }
}

/// A component of a pixel: of red, green, blue and alpha. Grey stands for all
/// three colours, and a pixel without alpha is opaque.
pub open spec fn component(pixels: Seq<u8>, channels: int, pixel: int, c: int) -> u8 {
    if channels == 4 {
        pixels[pixel * 4 + c]
    } else if channels == 3 {
        if c < 3 {
            pixels[pixel * 3 + c]
        } else {
            255
        }
    } else if channels == 2 {
        if c < 3 {
            pixels[pixel * 2]
        } else {
            pixels[pixel * 2 + 1]
        }
    } else {
        if c < 3 {
            pixels[pixel]
        } else {
            255
        }
    }
}

/// The whole pixels as red, green, blue and alpha.
pub open spec fn expanded(pixels: Seq<u8>, channels: int) -> Seq<u8> {
    Seq::new(
        ((pixels.len() / (channels as nat)) * 4) as nat,
        |k: int| component(pixels, channels, k / 4, k % 4),
    )
}

proof fn lemma_pixel_bound(length: int, channels: int, pixel: int)
    requires
        1 <= channels <= 4,
        0 <= pixel < length / channels,
    ensures
        0 <= pixel * channels,
        pixel * channels + channels <= length,
{
    assert(pixel * channels + channels <= length) by (nonlinear_arith)
        requires
            1 <= channels <= 4,
            0 <= pixel < length / channels,
    ;
    assert(0 <= pixel * channels) by (nonlinear_arith)
        requires
            1 <= channels,
            0 <= pixel,
    ;
}

/// Expands the pixels of a frame.
fn expand_pixels(pixels: &Vec<u8>, channels: usize) -> (rgba: Vec<u8>)
    requires
        1 <= channels <= 4,
    ensures
        rgba@ == expanded(pixels@, channels as int),
{
    let length: usize = pixels.len();
    let count: usize = length / channels;
    let mut rgba: Vec<u8> = Vec::new();
    let mut i: usize = 0;
    while i < count
        invariant
            i <= count,
            1 <= channels <= 4,
            length == pixels@.len(),
            count == length as int / channels as int,
            rgba@.len() == 4 * i,
            forall|k: int|
                0 <= k < rgba@.len() ==> #[trigger] rgba@[k] == component(
                    pixels@,
                    channels as int,
                    k / 4,
                    k % 4,
                ),
        decreases count - i,
    {
        proof {
            lemma_pixel_bound(pixels@.len() as int, channels as int, i as int);
        }
        let at: usize = i * channels;
        let ghost before = rgba@;
        if channels == 4 {
            rgba.push(pixels[at]);
            rgba.push(pixels[at + 1]);
            rgba.push(pixels[at + 2]);
            rgba.push(pixels[at + 3]);
        } else if channels == 3 {
            rgba.push(pixels[at]);
            rgba.push(pixels[at + 1]);
            rgba.push(pixels[at + 2]);
            rgba.push(255);
        } else if channels == 2 {
            rgba.push(pixels[at]);
            rgba.push(pixels[at]);
            rgba.push(pixels[at]);
            rgba.push(pixels[at + 1]);
        } else {
            rgba.push(pixels[at]);
            rgba.push(pixels[at]);
            rgba.push(pixels[at]);
            rgba.push(255);
        }
        assert forall|k: int| 0 <= k < rgba@.len() implies #[trigger] rgba@[k] == component(
            pixels@,
            channels as int,
            k / 4,
            k % 4,
        ) by {
            if k < before.len() {
                assert(rgba@[k] == before[k]);
            } else {
                assert(k / 4 == i);
                assert(k == 4 * i || k == 4 * i + 1 || k == 4 * i + 2 || k == 4 * i + 3);
            }
        }
        i += 1;
    }
    assert(rgba@ =~= expanded(pixels@, channels as int));
    rgba
}

#[derive(Clone, Copy, Debug, PartialEq, Eq, Structural)]
pub struct AnimationStep {
    pub frame: usize,
    pub ticks: u32,
}

#[derive(Clone, Debug)]
pub struct DecodedAnimation {
    pub sequence: Vec<AnimationStep>,
    pub interpolate: bool,
}

/// A texture: its first frame, all its frames, and whether any texel of the
/// first is not opaque.
#[derive(Clone, Debug)]
pub struct DecodedImage {
    pub width: u32,
    pub height: u32,
    pub rgba: Vec<u8>,
    pub cutout: bool,
    pub frames: Vec<Vec<u8>>,
    pub animation: Option<DecodedAnimation>,
}

pub struct ImageModel {
    pub width: u32,
    pub height: u32,
    pub rgba: Seq<u8>,
    pub cutout: bool,
    pub frames: Seq<Seq<u8>>,
}

pub open spec fn frame_views(frames: Seq<Vec<u8>>) -> Seq<Seq<u8>> {
    frames.map_values(|frame: Vec<u8>| frame@)
}

impl View for DecodedImage {
    type V = ImageModel;

    open spec fn view(&self) -> ImageModel {
        ImageModel {
            width: self.width,
            height: self.height,
            rgba: self.rgba@,
            cutout: self.cutout,
            frames: frame_views(self.frames@),
        }
    }
}

fn copy_bytes(bytes: &Vec<u8>, from: usize, to: usize) -> (copy: Vec<u8>)
    requires
        from <= to <= bytes@.len(),
    ensures
        copy@ == bytes@.subrange(from as int, to as int),
{
    let mut copy: Vec<u8> = Vec::new();
    let mut i: usize = from;
    while i < to
        invariant
            from <= i <= to <= bytes@.len(),
            copy@ == bytes@.subrange(from as int, i as int),
        decreases to - i,
    {
        copy.push(bytes[i]);
        assert(bytes@.subrange(from as int, i + 1) =~= bytes@.subrange(from as int, i as int).push(
            bytes@[i as int],
        ));
        i += 1;
    }
    copy
}

impl DecodedImage {
    /// A texture of one frame.
    pub fn static_frame(width: u32, height: u32, rgba: Vec<u8>, cutout: bool) -> (image: Self)
        ensures
            image@ == (ImageModel { width, height, rgba: rgba@, cutout, frames: seq![rgba@] }),
            image.animation is None,
    {
        let copy: Vec<u8> = copy_bytes(&rgba, 0, rgba.len());
        assert(copy@ =~= rgba@);
        let mut frames: Vec<Vec<u8>> = Vec::new();
        frames.push(copy);
        assert(frame_views(frames@) =~= seq![rgba@]);
        DecodedImage { width, height, rgba, cutout, frames, animation: None }
    }
}

/// Whether any whole pixel is not opaque.
pub open spec fn has_transparency(rgba: Seq<u8>) -> bool {
    exists|i: int| 0 <= i < rgba.len() / 4 && #[trigger] rgba[i * 4 + 3] < 255
}

fn find_transparency(rgba: &Vec<u8>) -> (yes: bool)
    ensures
        yes == has_transparency(rgba@),
{
    let length: usize = rgba.len();
    let count: usize = length / 4;
    let mut i: usize = 0;
    while i < count
        invariant
            i <= count,
            length == rgba@.len(),
            count == length / 4,
            forall|k: int| 0 <= k < i ==> #[trigger] rgba@[k * 4 + 3] == 255,
        decreases count - i,
    {
        if rgba[i * 4 + 3] < 255 {
            assert(rgba@[i as int * 4 + 3] < 255);
            return true;
        }
        i += 1;
    }
    false
}

pub open spec fn lesser(a: int, b: int) -> int {
    if a <= b {
        a
    } else {
        b
    }
}

/// The product in `u32`, or the largest `u32` where it is larger.
pub open spec fn saturating_product(a: int, b: int) -> int {
    lesser(a * b, u32::MAX as int)
}

fn saturating_mul(a: u32, b: u32) -> (product: u32)
    ensures
        product == saturating_product(a as int, b as int),
{
    assert(0 <= a * b <= 0xffff_ffff * 0xffff_ffff) by (nonlinear_arith)
        requires
            0 <= a <= 0xffff_ffff,
            0 <= b <= 0xffff_ffff,
    ;
    let product: u64 = a as u64 * b as u64;
    if product > 0xffff_ffff {
        0xffff_ffff
    } else {
        product as u32
    }
}

/// The number of bytes of an image of a size.
pub open spec fn image_bytes(width: int, height: int) -> int {
    saturating_product(saturating_product(width, height), 4)
}

/// The whole frames of a strip of pixels.
pub open spec fn strip_frames(rgba: Seq<u8>, frame_bytes: int) -> Seq<Seq<u8>> {
    Seq::new(
        (rgba.len() / (frame_bytes as nat)) as nat,
        |i: int| rgba.subrange(i * frame_bytes, i * frame_bytes + frame_bytes),
    )
}

pub open spec fn texture_failure(reason: Seq<char>) -> Failure {
    malformation("texture"@, "png"@, reason)
}

/// The texture that a decoded image holds: a strip of square frames, or one
/// frame where it is wider than high.
pub open spec fn texture_of(frame: FrameModel) -> Result<ImageModel, Failure> {
    let frame_height = lesser(frame.width as int, frame.height as int);
    match samples(frame.format) {
        _ if frame.height as int % frame_height != 0 => Err(
            texture_failure("animated texture height is not a multiple of its frame height"@),
        ),
        None => Err(texture_failure("unsupported color format"@)),
        Some(channels) => {
            let frames = strip_frames(
                expanded(frame.pixels, channels),
                image_bytes(frame.width as int, frame_height),
            );
            if frames.len() == 0 {
                Err(texture_failure("texture contains no frames"@))
            } else {
                Ok(
                    ImageModel {
                        width: frame.width,
                        height: frame_height as u32,
                        rgba: frames[0],
                        cutout: has_transparency(frames[0]),
                        frames,
                    },
                )
            }
        },
    }
}

fn split_frames(rgba: &Vec<u8>, frame_bytes: usize) -> (frames: Vec<Vec<u8>>)
    requires
        frame_bytes > 0,
    ensures
        frame_views(frames@) == strip_frames(rgba@, frame_bytes as int),
{
    let length: usize = rgba.len();
    let count: usize = length / frame_bytes;
    let mut frames: Vec<Vec<u8>> = Vec::new();
    let mut i: usize = 0;
    while i < count
        invariant
            i <= count,
            frame_bytes > 0,
            length == rgba@.len(),
            count == length as int / frame_bytes as int,
            frames@.len() == i,
            forall|k: int|
                0 <= k < i ==> #[trigger] frames@[k]@ == rgba@.subrange(
                    k * frame_bytes,
                    k * frame_bytes + frame_bytes,
                ),
        decreases count - i,
    {
        proof {
            let n = rgba@.len() as int;
            let f = frame_bytes as int;
            assert(i * f + f <= n && 0 <= i * f) by (nonlinear_arith)
                requires
                    f > 0,
                    0 <= i < n / f,
            ;
        }
        let from: usize = i * frame_bytes;
        frames.push(copy_bytes(rgba, from, from + frame_bytes));
        i += 1;
    }
    assert(frame_views(frames@) =~= strip_frames(rgba@, frame_bytes as int));
    frames
}

proof fn lemma_image_bytes_positive(width: int, height: int)
    requires
        width > 0,
        height > 0,
    ensures
        image_bytes(width, height) > 0,
{
    assert(width * height > 0) by (nonlinear_arith)
        requires
            width > 0,
            height > 0,
    ;
}

/// Makes a texture of a decoded image.
pub fn texture_from_frame(frame: PngFrame) -> (result: Result<DecodedImage, BlockResourceError>)
    requires
        frame.width > 0,
        frame.height > 0,
    ensures
        match (result, texture_of(frame@)) {
            (Ok(image), Ok(model)) => image@ == model && image.animation is None,
            (Err(error), Err(failure)) => error@ == failure,
            _ => false,
        },
{
    let frame_height: u32 = if frame.width <= frame.height {
        frame.width
    } else {
        frame.height
    };
    if frame.height % frame_height != 0 {
        return Err(
            malformed(
                "texture",
                "png",
                "animated texture height is not a multiple of its frame height",
            ),
        );
    }
    let channels: usize = match frame.format {
        ColorFormat::Rgba => 4,
        ColorFormat::Rgb => 3,
        ColorFormat::GrayscaleAlpha => 2,
        ColorFormat::Grayscale => 1,
        ColorFormat::Indexed => return Err(
            malformed("texture", "png", "unsupported color format"),
        ),
    };
    let decoded: Vec<u8> = expand_pixels(&frame.pixels, channels);
    proof {
        lemma_image_bytes_positive(frame.width as int, frame_height as int);
    }
    let frame_bytes: usize = saturating_mul(saturating_mul(frame.width, frame_height), 4) as usize;
    let frames: Vec<Vec<u8>> = split_frames(&decoded, frame_bytes);
    if frames.len() == 0 {
        return Err(malformed("texture", "png", "texture contains no frames"));
    }
    let rgba: Vec<u8> = copy_bytes(&frames[0], 0, frames[0].len());
    assert(rgba@ =~= frames@[0]@);
    assert(frame_views(frames@)[0] == frames@[0]@);
    let cutout: bool = find_transparency(&rgba);
    Ok(
        DecodedImage {
            width: frame.width,
            height: frame_height,
            rgba,
            cutout,
            frames,
            animation: None,
        },
    )
}

/// What is wrong with the header of an image for a use, if anything.
pub open spec fn header_failure(
    header: PngHeader,
    kind: Seq<char>,
    max_width: int,
    max_height: int,
) -> Option<Failure> {
    if header.width == 0 || header.height == 0 || header.width > max_width || header.height
        > max_height {
        Some(malformation(kind, "png"@, "dimensions exceed limits"@))
    } else {
        match header.size {
            None => Some(malformation(kind, "png"@, "decoded size overflow"@)),
            Some(size) => if size > 64 * 1024 * 1024 {
                Some(malformation(kind, "png"@, "decoded image exceeds limit"@))
            } else {
                None
            },
        }
    }
}

/// Checks the header of an image against the size limits of a use and the limit
/// of 64 MiB.
pub fn check_header(
    header: PngHeader,
    kind: &'static str,
    max_width: u32,
    max_height: u32,
) -> (result: Result<(), BlockResourceError>)
    ensures
        match result {
            Ok(()) => header_failure(header, kind@, max_width as int, max_height as int) is None,
            Err(error) => header_failure(header, kind@, max_width as int, max_height as int)
                == Some(error@),
        },
{
    if header.width == 0 || header.height == 0 || header.width > max_width || header.height
        > max_height {
        return Err(malformed(kind, "png", "dimensions exceed limits"));
    }
    match header.size {
        None => Err(malformed(kind, "png", "decoded size overflow")),
        Some(size) => if size > 64 * 1024 * 1024 {
            Err(malformed(kind, "png", "decoded image exceeds limit"))
        } else {
            Ok(())
        },
    }
}

/// The texture in the bytes of an image of at most 1024 by 16384 pixels.
pub open spec fn decoded_texture(bytes: Seq<u8>) -> Result<ImageModel, Failure> {
    match png_header(bytes, isize::MAX as int) {
        Err(message) => Err(texture_failure(message)),
        Ok(header) => match header_failure(header, "texture"@, 1024, 16384) {
            Some(failure) => Err(failure),
            None => match png_frame(bytes, isize::MAX as int) {
                Err(message) => Err(texture_failure(message)),
                Ok(frame) => texture_of(frame),
            },
        },
    }
}

pub fn decode_png(bytes: &[u8]) -> (result: Result<DecodedImage, BlockResourceError>)
    ensures
        match (result, decoded_texture(bytes@)) {
            (Ok(image), Ok(model)) => image@ == model && image.animation is None,
            (Err(error), Err(failure)) => error@ == failure,
            _ => false,
        },
{
    let header: PngHeader = match read_header(bytes) {
        Ok(header) => header,
        Err(message) => return Err(malformed("texture", "png", message.as_str())),
    };
    match check_header(header, "texture", 1024, 16384) {
        Ok(()) => {},
        Err(error) => return Err(error),
    }
    match read_frame(bytes) {
        Ok(frame) => texture_from_frame(frame),
        Err(message) => Err(malformed("texture", "png", message.as_str())),
    }
}

/// A bounded interface sprite. It is kept apart from the terrain atlas, so that
/// the interface keeps the sprite's own identity.
#[derive(Clone, Debug, PartialEq, Eq)]
pub struct GuiSpriteData {
    pub width: u32,
    pub height: u32,
    pub rgba: Vec<u8>,
}

pub struct SpriteModel {
    pub width: u32,
    pub height: u32,
    pub rgba: Seq<u8>,
}

impl View for GuiSpriteData {
    type V = SpriteModel;

    open spec fn view(&self) -> SpriteModel {
        SpriteModel { width: self.width, height: self.height, rgba: self.rgba@ }
    }
}

pub open spec fn sprite_failure(reason: Seq<char>) -> Failure {
    malformation("GUI sprite"@, "png"@, reason)
}

/// The sprite that a decoded image holds.
pub open spec fn sprite_of(frame: FrameModel) -> Result<SpriteModel, Failure> {
    match samples(frame.format) {
        None => Err(sprite_failure("unsupported color format"@)),
        Some(channels) => {
            let rgba = expanded(frame.pixels, channels);
            if rgba.len() != image_bytes(frame.width as int, frame.height as int) {
                Err(sprite_failure("decoded pixel count mismatch"@))
            } else {
                Ok(SpriteModel { width: frame.width, height: frame.height, rgba })
            }
        },
    }
}

/// Makes an interface sprite of a decoded image.
pub fn sprite_from_frame(frame: PngFrame) -> (result: Result<GuiSpriteData, BlockResourceError>)
    ensures
        match (result, sprite_of(frame@)) {
            (Ok(sprite), Ok(model)) => sprite@ == model,
            (Err(error), Err(failure)) => error@ == failure,
            _ => false,
        },
{
    let channels: usize = match frame.format {
        ColorFormat::Rgba => 4,
        ColorFormat::Rgb => 3,
        ColorFormat::GrayscaleAlpha => 2,
        ColorFormat::Grayscale => 1,
        ColorFormat::Indexed => return Err(
            malformed("GUI sprite", "png", "unsupported color format"),
        ),
    };
    let rgba: Vec<u8> = expand_pixels(&frame.pixels, channels);
    let capacity: usize = saturating_mul(saturating_mul(frame.width, frame.height), 4) as usize;
    if rgba.len() != capacity {
        return Err(malformed("GUI sprite", "png", "decoded pixel count mismatch"));
    }
    Ok(GuiSpriteData { width: frame.width, height: frame.height, rgba })
}

/// The sprite in the bytes of an image of at most 4096 by 4096 pixels.
pub open spec fn decoded_sprite(bytes: Seq<u8>) -> Result<SpriteModel, Failure> {
    match png_header(bytes, isize::MAX as int) {
        Err(message) => Err(sprite_failure(message)),
        Ok(header) => match header_failure(header, "GUI sprite"@, 4096, 4096) {
            Some(failure) => Err(failure),
            None => match png_frame(bytes, isize::MAX as int) {
                Err(message) => Err(sprite_failure(message)),
                Ok(frame) => sprite_of(frame),
            },
        },
    }
}

pub fn decode_gui_png(bytes: &[u8]) -> (result: Result<GuiSpriteData, BlockResourceError>)
    ensures
        match (result, decoded_sprite(bytes@)) {
            (Ok(sprite), Ok(model)) => sprite@ == model,
            (Err(error), Err(failure)) => error@ == failure,
            _ => false,
        },
{
    let header: PngHeader = match read_header(bytes) {
        Ok(header) => header,
        Err(message) => return Err(malformed("GUI sprite", "png", message.as_str())),
    };
    match check_header(header, "GUI sprite", 4096, 4096) {
        Ok(()) => {},
        Err(error) => return Err(error),
    }
    match read_frame(bytes) {
        Ok(frame) => sprite_from_frame(frame),
        Err(message) => Err(malformed("GUI sprite", "png", message.as_str())),
    }
}

/// The colour of a pixel without its alpha.
pub open spec fn pixel_color(rgba: Seq<u8>, pixel: int) -> u32 {
    (rgba[pixel * 4] * 0x1_0000 + rgba[pixel * 4 + 1] * 0x100 + rgba[pixel * 4 + 2]) as u32
}

/// The colours of a colour map, which is 256 by 256 pixels.
pub open spec fn colormap_of(image: ImageModel, name: Seq<char>) -> Result<Seq<u32>, Failure> {
    if image.width != 256 || image.height != 256 {
        Err(malformation("colormap"@, name, "expected a 256 by 256 image"@))
    } else {
        Ok(
            Seq::new(
                (image.rgba.len() / 4) as nat,
                |pixel: int| pixel_color(image.rgba, pixel),
            ),
        )
    }
}

/// Takes the colours of a colour map from its texture.
pub fn colormap_from_image(image: &DecodedImage, name: &str) -> (result: Result<
    Vec<u32>,
    BlockResourceError,
>)
    ensures
        match (result, colormap_of(image@, name@)) {
            (Ok(colors), Ok(model)) => colors@ == model,
            (Err(error), Err(failure)) => error@ == failure,
            _ => false,
        },
{
    if image.width != 256 || image.height != 256 {
        return Err(malformed("colormap", name, "expected a 256 by 256 image"));
    }
    let length: usize = image.rgba.len();
    let count: usize = length / 4;
    let mut colors: Vec<u32> = Vec::new();
    let mut i: usize = 0;
    while i < count
        invariant
            i <= count,
            length == image.rgba@.len(),
            count == length / 4,
            colors@.len() == i,
            forall|k: int| 0 <= k < i ==> #[trigger] colors@[k] == pixel_color(image.rgba@, k),
        decreases count - i,
    {
        let r: u32 = image.rgba[i * 4] as u32;
        let g: u32 = image.rgba[i * 4 + 1] as u32;
        let b: u32 = image.rgba[i * 4 + 2] as u32;
        colors.push(r * 0x1_0000 + g * 0x100 + b);
        i += 1;
    }
    assert(colors@ =~= colormap_of(image@, name@)->Ok_0);
    Ok(colors)
}

/// The colours of a colour map, from the bytes of its image.
pub open spec fn colormap_from(bytes: Option<Seq<u8>>, name: Seq<char>) -> Result<
    Seq<u32>,
    Failure,
> {
    match bytes {
        None => Err(malformation("colormap"@, name, "resource is missing"@)),
        Some(bytes) => match decoded_texture(bytes) {
            Err(failure) => Err(failure),
            Ok(image) => colormap_of(image, name),
        },
    }
}

/// Reads a colour map from the bytes of its image, if there are any.
pub fn load_colormap(bytes: Option<&[u8]>, name: &str) -> (result: Result<
    Vec<u32>,
    BlockResourceError,
>)
    ensures
        match (result, colormap_from(bytes_view(bytes), name@)) {
            (Ok(colors), Ok(model)) => colors@ == model,
            (Err(error), Err(failure)) => error@ == failure,
            _ => false,
        },
{
    match bytes {
        None => Err(malformed("colormap", name, "resource is missing")),
        Some(bytes) => match decode_png(bytes) {
            Ok(image) => colormap_from_image(&image, name),
            Err(error) => Err(error),
        },
    }
}

/// Reads a sprite of the interface from the bytes of its image, if there are any.
pub fn load_gui_sprite(bytes: Option<&[u8]>, name: &str) -> (result: Result<
    GuiSpriteData,
    BlockResourceError,
>)
    ensures
        match bytes {
            None => result matches Err(error) && error@ == malformation(
                "GUI sprite"@,
                name@,
                "resource is missing"@,
            ),
            Some(bytes) => match (result, decoded_sprite(bytes@)) {
                (Ok(sprite), Ok(model)) => sprite@ == model,
                (Err(error), Err(failure)) => error@ == failure,
                _ => false,
            },
        },
{
    match bytes {
        None => Err(malformed("GUI sprite", name, "resource is missing")),
        Some(bytes) => decode_gui_png(bytes),
    }
}

/// A component of the texture that stands for a missing one: a chequer of four
/// by four texels in magenta and near black.
pub open spec fn missing_component(k: int) -> u8 {
    let x = (k / 4) % 16;
    let y = (k / 4) / 16;
    let bright = (x / 4 + y / 4) % 2 == 0;
    if k % 4 == 1 {
        0
    } else if k % 4 == 3 || bright {
        255
    } else {
        20
    }
}

pub open spec fn missing_pixels() -> Seq<u8> {
    Seq::new(1024, |k: int| missing_component(k))
}

pub fn missing_texture() -> (image: DecodedImage)
    ensures
        image@ == (ImageModel {
            width: 16,
            height: 16,
            rgba: missing_pixels(),
            cutout: false,
            frames: seq![missing_pixels()],
        }),
        image.animation is None,
{
    let mut rgba: Vec<u8> = Vec::new();
    let mut p: usize = 0;
    while p < 256
        invariant
            p <= 256,
            rgba@.len() == 4 * p,
            forall|k: int| 0 <= k < rgba@.len() ==> #[trigger] rgba@[k] == missing_component(k),
        decreases 256 - p,
    {
        let x: usize = p % 16;
        let y: usize = p / 16;
        let bright: u8 = if (x / 4 + y / 4) % 2 == 0 {
            255
        } else {
            20
        };
        let ghost before = rgba@;
        rgba.push(bright);
        rgba.push(0);
        rgba.push(bright);
        rgba.push(255);
        assert forall|k: int| 0 <= k < rgba@.len() implies #[trigger] rgba@[k]
            == missing_component(k) by {
            if k < before.len() {
                assert(rgba@[k] == before[k]);
            } else {
                assert(k / 4 == p);
            }
        }
        p += 1;
    }
    assert(rgba@ =~= missing_pixels());
    DecodedImage::static_frame(16, 16, rgba, false)
}

/// Every whole frame of a strip has the size of its first frame, and a texture
/// has at least one.
pub proof fn lemma_texture_has_equal_frames(frame: FrameModel)
    requires
        frame.width > 0,
        frame.height > 0,
    ensures
        texture_of(frame) matches Ok(image) ==> {
            &&& image.frames.len() > 0
            &&& image.rgba == image.frames[0]
            &&& forall|i: int|
                0 <= i < image.frames.len() ==> (#[trigger] image.frames[i]).len() == image_bytes(
                    image.width as int,
                    image.height as int,
                )
        },
{
    if let Ok(image) = texture_of(frame) {
        let channels = samples(frame.format)->0;
        let rgba = expanded(frame.pixels, channels);
        let size = image_bytes(frame.width as int, image.height as int);
        lemma_image_bytes_positive(frame.width as int, image.height as int);
        assert forall|i: int| 0 <= i < image.frames.len() implies (#[trigger] image.frames[i]).len()
            == size by {
            assert(0 <= i * size && i * size + size <= rgba.len()) by (nonlinear_arith)
                requires
                    size > 0,
                    0 <= i < rgba.len() as int / size,
            ;
        }
    }
}

/// The colours of an image come through whatever its format: with four samples as they
/// are, with three as opaque, with one as opaque gray, and with two as gray with alpha.
pub proof fn lemma_colors_come_through(pixels: Seq<u8>, format: ColorFormat, p: int)
    requires
        0 <= p,
    ensures
        match format {
            ColorFormat::Rgba => 4 * p + 3 < pixels.len() ==> {
                &&& samples(format) == Some(4int)
                &&& expanded(pixels, 4).subrange(4 * p, 4 * p + 4) == pixels.subrange(
                    4 * p,
                    4 * p + 4,
                )
            },
            ColorFormat::Rgb => 3 * p + 2 < pixels.len() ==> {
                &&& samples(format) == Some(3int)
                &&& expanded(pixels, 3).subrange(4 * p, 4 * p + 4) == pixels.subrange(
                    3 * p,
                    3 * p + 3,
                ).push(255)
            },
            ColorFormat::GrayscaleAlpha => 2 * p + 1 < pixels.len() ==> {
                let (gray, alpha) = (pixels[2 * p], pixels[2 * p + 1]);
                &&& samples(format) == Some(2int)
                &&& expanded(pixels, 2).subrange(4 * p, 4 * p + 4) == seq![gray, gray, gray, alpha]
            },
            ColorFormat::Grayscale => p < pixels.len() ==> {
                let gray = pixels[p];
                &&& samples(format) == Some(1int)
                &&& expanded(pixels, 1).subrange(4 * p, 4 * p + 4) == seq![gray, gray, gray, 255]
            },
            ColorFormat::Indexed => samples(format) is None,
        },
{
    if format is Rgba && 4 * p + 3 < pixels.len() {
        lemma_expanded_pixel(pixels, 4, p);
        assert(expanded(pixels, 4).subrange(4 * p, 4 * p + 4) =~= pixels.subrange(
            4 * p,
            4 * p + 4,
        ));
    }
    if format is Rgb && 3 * p + 2 < pixels.len() {
        lemma_expanded_pixel(pixels, 3, p);
        assert(expanded(pixels, 3).subrange(4 * p, 4 * p + 4) =~= pixels.subrange(
            3 * p,
            3 * p + 3,
        ).push(255));
    }
    if format is GrayscaleAlpha && 2 * p + 1 < pixels.len() {
        lemma_expanded_pixel(pixels, 2, p);
    }
    if format is Grayscale && p < pixels.len() {
        lemma_expanded_pixel(pixels, 1, p);
    }
}

proof fn lemma_expanded_pixel(pixels: Seq<u8>, channels: int, p: int)
    requires
        0 <= p,
        1 <= channels <= 4,
        channels * p + channels <= pixels.len(),
    ensures
        4 * p + 4 <= expanded(pixels, channels).len(),
        expanded(pixels, channels).subrange(4 * p, 4 * p + 4) == seq![
            component(pixels, channels, p, 0),
            component(pixels, channels, p, 1),
            component(pixels, channels, p, 2),
            component(pixels, channels, p, 3),
        ],
{
    let count = pixels.len() as int / channels;
    assert(p < count) by (nonlinear_arith)
        requires
            count == pixels.len() as int / channels,
            channels * p + channels <= pixels.len(),
            1 <= channels,
    ;
    let all = expanded(pixels, channels);
    assert(all.len() == 4 * count);
    assert(all[4 * p] == component(pixels, channels, (4 * p) / 4, (4 * p) % 4));
    assert(all[4 * p + 1] == component(pixels, channels, (4 * p + 1) / 4, (4 * p + 1) % 4));
    assert(all[4 * p + 2] == component(pixels, channels, (4 * p + 2) / 4, (4 * p + 2) % 4));
    assert(all[4 * p + 3] == component(pixels, channels, (4 * p + 3) / 4, (4 * p + 3) % 4));
    assert(all.subrange(4 * p, 4 * p + 4) =~= seq![
        component(pixels, channels, p, 0),
        component(pixels, channels, p, 1),
        component(pixels, channels, p, 2),
        component(pixels, channels, p, 3),
    ]);
}

/// A texture that is taller than wide is a strip of square frames, from top to bottom;
/// any other is one frame. The first frame is shown, and it is cut out where any of its
/// pixels is not opaque.
pub proof fn lemma_tall_textures_are_strips(frame: FrameModel, channels: int)
    requires
        0 < frame.width <= 1024,
        0 < frame.height <= 16384,
        samples(frame.format) == Some(channels),
        frame.pixels.len() == frame.width * frame.height * channels,
        frame.height > frame.width ==> frame.height as int % frame.width as int == 0,
    ensures
        ({
            let rgba = expanded(frame.pixels, channels);
            &&& texture_of(frame) matches Ok(image)
            &&& image.width == frame.width
            &&& frame.height > frame.width ==> image.height == frame.width
            &&& frame.height <= frame.width ==> image.height == frame.height
            &&& image.frames.len() * image.height == frame.height
            &&& image.rgba == image.frames[0]
            &&& forall|i: int, k: int|
                0 <= i < image.frames.len() && 0 <= k < image.width * image.height * 4
                    ==> #[trigger] image.frames[i][k] == rgba[i * (image.width * image.height * 4)
                    + k]
            &&& image.cutout <==> exists|p: int|
                0 <= p < image.width * image.height && #[trigger] image.rgba[4 * p + 3] != 255
        }),
{
    let (w, h) = (frame.width as int, frame.height as int);
    let side = lesser(w, h);
    let rgba = expanded(frame.pixels, channels);
    assert(0 < w * h <= 1024 * 16384) by (nonlinear_arith)
        requires
            0 < w <= 1024,
            0 < h <= 16384,
    ;
    assert(0 < w * side <= 1024 * 1024) by (nonlinear_arith)
        requires
            0 < w <= 1024,
            0 < side <= w,
    ;
    let bytes = w * side * 4;
    assert(image_bytes(w, side) == bytes);
    assert(w * h * channels / channels == w * h) by (nonlinear_arith)
        requires
            channels > 0,
    ;
    assert(rgba.len() == w * h * 4);
    let count = h / side;
    assert(h % side == 0) by {
        if h <= w {
            assert(h % h == 0);
        }
    }
    assert(h == side * count) by {
        vstd::arithmetic::div_mod::lemma_fundamental_div_mod(h, side);
    }
    assert(rgba.len() == count * bytes) by (nonlinear_arith)
        requires
            rgba.len() == w * h * 4,
            h == side * count,
            bytes == w * side * 4,
    ;
    assert(count > 0) by (nonlinear_arith)
        requires
            h == side * count,
            h > 0,
            side > 0,
    ;
    assert((count * bytes) / bytes == count) by (nonlinear_arith)
        requires
            bytes > 0,
    ;
    let frames = strip_frames(rgba, bytes);
    assert(frames.len() == count);
    assert forall|i: int, k: int| 0 <= i < frames.len() && 0 <= k < bytes implies
        #[trigger] frames[i][k] == rgba[i * bytes + k] by {
        assert(i * bytes + bytes <= count * bytes) by (nonlinear_arith)
            requires
                0 <= i < count,
                bytes > 0,
        ;
    }
    assert(frames[0].len() == bytes) by {
        assert(0 * bytes + bytes <= count * bytes) by (nonlinear_arith)
            requires
                0 < count,
                bytes > 0,
        ;
    }
    assert(side * count == count * side) by (nonlinear_arith);
    let image = texture_of(frame)->Ok_0;
    if image.cutout {
        let i = choose|i: int|
            0 <= i < frames[0].len() / 4 && #[trigger] frames[0][i * 4 + 3] < 255;
        assert(image.rgba[4 * i + 3] != 255);
    }
    if exists|p: int| 0 <= p < w * side && #[trigger] image.rgba[4 * p + 3] != 255 {
        let p = choose|p: int| 0 <= p < w * side && #[trigger] image.rgba[4 * p + 3] != 255;
        assert(frames[0][p * 4 + 3] < 255);
    }
}

/// An image is decoded only where both sides are there and within their limits and its
/// pixels take no more than 64 mebibytes.
pub proof fn lemma_images_are_limited(
    header: PngHeader,
    kind: Seq<char>,
    max_width: int,
    max_height: int,
)
    ensures
        header_failure(header, kind, max_width, max_height) is None <==> {
            &&& 1 <= header.width <= max_width
            &&& 1 <= header.height <= max_height
            &&& header.size matches Some(size) && size <= 0x400_0000
        },
{
}

/// A colour map has a colour for every pixel, in their order, of its red, its green and
/// its blue from the highest byte down.
pub proof fn lemma_colormap_holds_its_pixels(image: ImageModel, name: Seq<char>, p: int)
    requires
        image.width == 256,
        image.height == 256,
        0 <= p < image.rgba.len() / 4,
    ensures
        ({
            &&& colormap_of(image, name) matches Ok(colors)
            &&& colors.len() == image.rgba.len() / 4
            &&& colors[p] as int / 0x1_0000 == image.rgba[4 * p]
            &&& colors[p] as int / 0x100 % 256 == image.rgba[4 * p + 1]
            &&& colors[p] as int % 256 == image.rgba[4 * p + 2]
        }),
{
}

/// A sprite is kept only where it has four bytes for every pixel.
pub proof fn lemma_sprites_have_all_their_pixels(frame: FrameModel)
    requires
        frame.width <= 4096,
        frame.height <= 4096,
    ensures
        sprite_of(frame) matches Ok(sprite) ==> sprite.width == frame.width && sprite.height
            == frame.height && sprite.rgba.len() == frame.width * frame.height * 4,
{
    let (w, h) = (frame.width as int, frame.height as int);
    assert(0 <= w * h <= 4096 * 4096) by (nonlinear_arith)
        requires
            0 <= w <= 4096,
            0 <= h <= 4096,
    ;
}

/// The missing texture is a board of squares of four pixels, by turns bright and dark
/// magenta, with no green in it and opaque throughout.
pub proof fn lemma_missing_texture_is_a_board(x: int, y: int)
    requires
        0 <= x < 16,
        0 <= y < 16,
    ensures
        ({
            let at = |x: int, y: int, c: int| missing_pixels()[(y * 16 + x) * 4 + c];
            &&& at(x, y, 0) == at(x, y, 2)
            &&& at(x, y, 0) == 255 || at(x, y, 0) == 20
            &&& at(x, y, 1) == 0
            &&& at(x, y, 3) == 255
            &&& at(x, y, 0) == at(x / 4 * 4, y / 4 * 4, 0)
            &&& x + 4 < 16 ==> at(x + 4, y, 0) != at(x, y, 0)
            &&& y + 4 < 16 ==> at(x, y + 4, 0) != at(x, y, 0)
            &&& at(0, 0, 0) == 255
        }),
{
    lemma_missing_pixel(x, y, 0);
    lemma_missing_pixel(x, y, 1);
    lemma_missing_pixel(x, y, 2);
    lemma_missing_pixel(x, y, 3);
    lemma_missing_pixel(0, 0, 0);
    let (left, top) = (x / 4 * 4, y / 4 * 4);
    assert(left / 4 == x / 4 && top / 4 == y / 4);
    lemma_missing_pixel(left, top, 0);
    if x + 4 < 16 {
        assert((x + 4) / 4 == x / 4 + 1);
        lemma_missing_pixel(x + 4, y, 0);
    }
    if y + 4 < 16 {
        assert((y + 4) / 4 == y / 4 + 1);
        lemma_missing_pixel(x, y + 4, 0);
    }
}

proof fn lemma_missing_pixel(x: int, y: int, c: int)
    requires
        0 <= x < 16,
        0 <= y < 16,
        0 <= c < 4,
    ensures
        missing_pixels()[(y * 16 + x) * 4 + c] == (if c == 1 {
            0u8
        } else if c == 3 || (x / 4 + y / 4) % 2 == 0 {
            255
        } else {
            20
        }),
{
    let k = (y * 16 + x) * 4 + c;
    assert(k / 4 == y * 16 + x);
    assert(k % 4 == c);
    assert((y * 16 + x) % 16 == x);
    assert((y * 16 + x) / 16 == y);
}

} // verus!
