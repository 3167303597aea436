//! Stills: where they go, and how their pixels are encoded.

use image::codecs::jpeg::JpegEncoder;
use image::codecs::png::PngEncoder;
use image::{ExtendedColorType, ImageBuffer, ImageEncoder, ImageError, Rgb};
use vstd::prelude::*;

use crate::text::{push_decimal, same_chars};
use crate::text;
use crate::unicode;
use crate::unicode::lower_text;

verus! {

broadcast use vstd::string::group_string_axioms;

#[verifier::external_type_specification]
#[verifier::external_body]
pub struct ExImageError(ImageError);

/// How many samples an RGB image has.
pub open spec fn sample_count(width: int, height: int) -> int {
    3 * (width * height)
}

/// Whether a side of an image can stand in a JPEG header.
pub open spec fn jpeg_side(side: int) -> bool {
    1 <= side <= 65_535
}

/// The JPEG file of an 8-bit RGB image.
pub uninterp spec fn jpeg_bytes(pixels: Seq<u8>, width: int, height: int, quality: int) -> Seq<u8>;

/// The PNG file of an 8-bit RGB image.
pub uninterp spec fn png_bytes(pixels: Seq<u8>, width: int, height: int) -> Seq<u8>;

/// The PNG file of a 16-bit RGB image.
pub uninterp spec fn deep_png_bytes(samples: Seq<u16>, width: int, height: int) -> Seq<u8>;

/// `JpegEncoder::write_image` on 8-bit RGB pixels, into memory: it succeeds
/// exactly where both sides fit in a JPEG header, and the file is a function of
/// the pixels, the size and the quality.
#[verifier::external_body]
pub(crate) fn write_jpeg(pixels: &[u8], width: u32, height: u32, quality: u8) -> (r: Result<
    Vec<u8>,
    ImageError,
>)
    requires
        pixels@.len() == sample_count(width as int, height as int),
    ensures
        (r is Ok) == (jpeg_side(width as int) && jpeg_side(height as int)),
        r matches Ok(bytes) ==> bytes@ == jpeg_bytes(
            pixels@,
            width as int,
            height as int,
            quality as int,
        ),
{
    let mut bytes = Vec::new();
    JpegEncoder::new_with_quality(&mut bytes, quality)
        .write_image(pixels, width, height, ExtendedColorType::Rgb8)
        .map(|_| bytes)
}

/// `PngEncoder::write_image` on 8-bit RGB pixels, into memory: it succeeds
/// exactly where the image has pixels, and the file is a function of the pixels
/// and the size.
#[verifier::external_body]
fn write_png(pixels: &[u8], width: u32, height: u32) -> (r: Result<
    Vec<u8>,
    ImageError,
>)
    requires
        pixels@.len() == sample_count(width as int, height as int),
    ensures
        (r is Ok) == (width > 0 && height > 0),
        r matches Ok(bytes) ==> bytes@ == png_bytes(pixels@, width as int, height as int),
{
    let mut bytes = Vec::new();
    PngEncoder::new(&mut bytes)
        .write_image(pixels, width, height, ExtendedColorType::Rgb8)
        .map(|_| bytes)
}

/// `ImageBuffer::from_raw` and `write_with_encoder` with a `PngEncoder`, on
/// 16-bit RGB samples, into memory: it succeeds exactly where the image has
/// pixels, and the file is a function of the samples and the size. Memory is taken
/// to suffice, as it is of every allocation; here alone a lack of it would come
/// back as an error.
#[verifier::external_body]
fn write_deep_png(samples: Vec<u16>, width: u32, height: u32) -> (r: Result<
    Vec<u8>,
    ImageError,
>)
    requires
        samples@.len() == sample_count(width as int, height as int),
    ensures
        (r is Ok) == (width > 0 && height > 0),
        r matches Ok(bytes) ==> bytes@ == deep_png_bytes(samples@, width as int, height as int),
{
    let mut bytes = Vec::new();
    let image: ImageBuffer<Rgb<u16>, Vec<u16>> = ImageBuffer::from_raw(width, height, samples)
        .expect("the samples fill the image");
    image.write_with_encoder(PngEncoder::new(&mut bytes)).map(|_| bytes)
}

/// How a still is encoded.
#[derive(Clone, Copy, Debug, PartialEq, Eq, Structural)]
pub enum StillFormat {
    Jpeg,
    Png,
}

/// The pixels of a still.
#[derive(Debug, PartialEq, Eq)]
pub enum StillPixels {
    Rgb8(Vec<u8>),
    Rgb16(Vec<u16>),
}

impl StillPixels {
    pub open spec fn count(self) -> nat {
        match self {
            StillPixels::Rgb8(pixels) => pixels@.len(),
            StillPixels::Rgb16(samples) => samples@.len(),
        }
    }
}

/// Why a still was not encoded.
#[derive(Debug)]
pub enum StillError {
    /// The output extension must be `.jpg`, `.jpeg` or `.png`.
    Extension,
    /// JPEG holds no 16-bit samples.
    DeepJpeg,
    Jpeg(ImageError),
    Png(ImageError),
}

/// The format that a file extension stands for, in any ASCII case.
pub open spec fn format_of(extension: Seq<char>) -> Option<StillFormat> {
    let lowered = unicode::lower(extension);
    if lowered == "jpg"@ || lowered == "jpeg"@ {
        Some(StillFormat::Jpeg)
    } else if lowered == "png"@ {
        Some(StillFormat::Png)
    } else {
        None
    }
}

pub fn still_format(extension: &str) -> (r: Option<StillFormat>)
    ensures
        r == format_of(extension@),
{
    let lowered = lower_text(extension);
    let jpg = text::chars_of("jpg");
    let jpeg = text::chars_of("jpeg");
    let png = text::chars_of("png");
    if same_chars(lowered.as_slice(), jpg.as_slice()) || same_chars(
        lowered.as_slice(),
        jpeg.as_slice(),
    ) {
        Some(StillFormat::Jpeg)
    } else if same_chars(lowered.as_slice(), png.as_slice()) {
        Some(StillFormat::Png)
    } else {
        None
    }
}

/// What a still's encoder answers with, once it has a format.
pub open spec fn is_encoding(
    r: Result<Vec<u8>, StillError>,
    pixels: StillPixels,
    width: u32,
    height: u32,
    quality: u8,
    format: StillFormat,
) -> bool {
    match (format, pixels) {
        (StillFormat::Jpeg, StillPixels::Rgb8(pixels)) => if jpeg_side(width as int) && jpeg_side(
            height as int,
        ) {
            r matches Ok(bytes) && bytes@ == jpeg_bytes(
                pixels@,
                width as int,
                height as int,
                quality as int,
            )
        } else {
            r matches Err(StillError::Jpeg(_))
        },
        (StillFormat::Jpeg, StillPixels::Rgb16(_)) => r matches Err(StillError::DeepJpeg),
        (StillFormat::Png, StillPixels::Rgb8(pixels)) => if width > 0 && height > 0 {
            r matches Ok(bytes) && bytes@ == png_bytes(pixels@, width as int, height as int)
        } else {
            r matches Err(StillError::Png(_))
        },
        (StillFormat::Png, StillPixels::Rgb16(samples)) => if width > 0 && height > 0 {
            r matches Ok(bytes) && bytes@ == deep_png_bytes(samples@, width as int, height as int)
        } else {
            r matches Err(StillError::Png(_))
        },
    }
}

/// Encode a still as its file extension asks.
pub fn encode_still(
    pixels: StillPixels,
    width: u32,
    height: u32,
    quality: u8,
    extension: &str,
) -> (r: Result<Vec<u8>, StillError>)
    requires
        pixels.count() == sample_count(width as int, height as int),
    ensures
        match format_of(extension@) {
            None => r matches Err(StillError::Extension),
            Some(format) => is_encoding(r, pixels, width, height, quality, format),
        },
{
    let format = match still_format(extension) {
        Some(format) => format,
        None => {
            return Err(StillError::Extension);
        },
    };
    match (format, pixels) {
        (StillFormat::Jpeg, StillPixels::Rgb8(pixels)) => {
            match write_jpeg(pixels.as_slice(), width, height, quality) {
                Ok(bytes) => Ok(bytes),
                Err(error) => Err(StillError::Jpeg(error)),
            }
        },
        (StillFormat::Jpeg, StillPixels::Rgb16(_)) => Err(StillError::DeepJpeg),
        (StillFormat::Png, StillPixels::Rgb8(pixels)) => {
            match write_png(pixels.as_slice(), width, height) {
                Ok(bytes) => Ok(bytes),
                Err(error) => Err(StillError::Png(error)),
            }
        },
        (StillFormat::Png, StillPixels::Rgb16(samples)) => {
            match write_deep_png(samples, width, height) {
                Ok(bytes) => Ok(bytes),
                Err(error) => Err(StillError::Png(error)),
            }
        },
    }
}

/// The name of the file that an artifact is written to before it is published:
/// hidden, and told apart by process and by a counter.
pub open spec fn temporary_name(file_name: Seq<char>, process_id: nat, sequence: nat) -> Seq<char> {
    seq!['.'] + file_name + seq!['.'] + text::decimal(process_id) + seq!['.'] + text::decimal(
        sequence,
    ) + ".partial"@
}

pub fn temporary_artifact_name(file_name: &str, process_id: u32, sequence: u64) -> (r: String)
    ensures
        r@ == temporary_name(file_name@, process_id as nat, sequence as nat),
{
    let mut name = String::new();
    name.push('.');
    name.append(file_name);
    name.push('.');
    push_decimal(&mut name, process_id as u64);
    name.push('.');
    push_decimal(&mut name, sequence);
    name.append(".partial");
    assert(name@ =~= temporary_name(file_name@, process_id as nat, sequence as nat));
    name
}

/// Two temporary names of one artifact differ where the process or the counter
/// does.
pub proof fn law_temporary_names_differ(
    file_name: Seq<char>,
    process_a: nat,
    sequence_a: nat,
    process_b: nat,
    sequence_b: nat,
)
    requires
        temporary_name(file_name, process_a, sequence_a) == temporary_name(
            file_name,
            process_b,
            sequence_b,
        ),
    ensures
        process_a == process_b,
        sequence_a == sequence_b,
{
    let head = seq!['.'] + file_name + seq!['.'];
    let tail = ".partial"@;
    let name = temporary_name(file_name, process_a, sequence_a);
    let parts_a = seq![text::decimal(process_a), text::decimal(sequence_a)];
    let parts_b = seq![text::decimal(process_b), text::decimal(sequence_b)];
    text::lemma_decimal(process_a);
    text::lemma_decimal(sequence_a);
    text::lemma_decimal(process_b);
    text::lemma_decimal(sequence_b);
    lemma_two_parts(parts_a[0], parts_a[1]);
    lemma_two_parts(parts_b[0], parts_b[1]);
    assert(name =~= head + text::joined(parts_a, '.') + tail);
    assert(name =~= head + text::joined(parts_b, '.') + tail);
    let middle = name.subrange(head.len() as int, name.len() - tail.len());
    assert(middle =~= text::joined(parts_a, '.'));
    assert(middle =~= text::joined(parts_b, '.'));
    text::lemma_joined_unique(parts_a, parts_b, '.');
    assert(parts_a[0] == parts_b[0]);
    assert(parts_a[1] == parts_b[1]);
}

proof fn lemma_two_parts(a: Seq<char>, b: Seq<char>)
    ensures
        text::joined(seq![a, b], '.') == a + seq!['.'] + b,
{
    reveal_with_fuel(text::joined, 3);
    assert(text::joined(seq![a, b], '.') =~= a + seq!['.'] + b);
}

/// Whether a JPEG quality is accepted.
pub fn check_jpeg_quality(quality: u8) -> (r: bool)
    ensures
        r == (1 <= quality <= 100),
{
    1 <= quality && quality <= 100
}

/// Gray pixels as RGB: each sample three times.
pub open spec fn rgb_of_gray(gray: Seq<u8>) -> Seq<u8> {
    Seq::new(3 * gray.len(), |i: int| gray[i / 3])
}

pub fn gray_to_rgb(gray: &Vec<u8>) -> (r: Vec<u8>)
    ensures
        r@ == rgb_of_gray(gray@),
{
    let mut rgb: Vec<u8> = Vec::new();
    let mut i: usize = 0;
    while i < gray.len()
        invariant
            i <= gray.len(),
            rgb@ == rgb_of_gray(gray@.take(i as int)),
        decreases gray.len() - i,
    {
        let value: u8 = gray[i];
        rgb.push(value);
        rgb.push(value);
        rgb.push(value);
        assert(rgb@ =~= rgb_of_gray(gray@.take(i + 1)));
        i = i + 1;
    }
    assert(gray@.take(i as int) =~= gray@);
    rgb
}

/// Whether two texts are the same but for the case of ASCII letters.
pub open spec fn same_but_for_case(a: Seq<char>, b: Seq<char>) -> bool {
    &&& a.len() == b.len()
    &&& forall|i: int|
        0 <= i < a.len() ==> #[trigger] a[i] == b[i] || (65 <= (a[i] as int) <= 90 && b[i] as int
            == a[i] as int + 32)
}

proof fn lemma_lowered(a: Seq<char>, b: Seq<char>)
    requires
        forall|i: int| 0 <= i < b.len() ==> 97 <= (#[trigger] b[i] as int) <= 122,
    ensures
        unicode::lower(a) == b <==> same_but_for_case(a, b),
{
    if unicode::lower(a) == b {
        assert forall|i: int| 0 <= i < a.len() implies #[trigger] a[i] == b[i] || (65 <= (
        a[i] as int) <= 90 && b[i] as int == a[i] as int + 32) by {
            assert(unicode::lower(a)[i] == b[i]);
        }
    }
    if same_but_for_case(a, b) {
        assert forall|i: int| 0 <= i < a.len() implies unicode::lower(a)[i] == b[i] by {
            assert(97 <= (b[i] as int) <= 122);
            assert(a[i] == b[i] || (65 <= (a[i] as int) <= 90 && b[i] as int == a[i] as int + 32));
        }
        assert(unicode::lower(a) =~= b);
    }
}

/// A still is a JPEG where its extension is `jpg` or `jpeg`, a PNG where it is `png`, in
/// any case, and nothing otherwise.
pub proof fn law_extension_decides_the_format(extension: &str, r: Option<StillFormat>)
    requires
        call_ensures(still_format, (extension,), r),
    ensures
        r == Some(StillFormat::Jpeg) <==> same_but_for_case(extension@, "jpg"@)
            || same_but_for_case(extension@, "jpeg"@),
        r == Some(StillFormat::Png) <==> same_but_for_case(extension@, "png"@),
{
    reveal_strlit("jpg");
    reveal_strlit("jpeg");
    reveal_strlit("png");
    lemma_lowered(extension@, "jpg"@);
    lemma_lowered(extension@, "jpeg"@);
    lemma_lowered(extension@, "png"@);
    if same_but_for_case(extension@, "png"@) {
        assert("jpg"@[0] != "png"@[0]);
    }
}

/// A still is encoded as its extension asks: as a JPEG of the quality given, which has
/// no sixteen-bit samples, or as a PNG of either depth.
pub proof fn law_still_is_encoded_as_asked(
    pixels: StillPixels,
    width: u32,
    height: u32,
    quality: u8,
    extension: &str,
    format: Option<StillFormat>,
    r: Result<Vec<u8>, StillError>,
)
    requires
        call_ensures(encode_still, (pixels, width, height, quality, extension), r),
        call_ensures(still_format, (extension,), format),
    ensures
        r matches Err(StillError::Extension) <==> format is None,
        r matches Err(StillError::DeepJpeg) <==> format == Some(StillFormat::Jpeg) && pixels
            is Rgb16,
        r matches Err(StillError::Png(_)) <==> format == Some(StillFormat::Png) && (width == 0
            || height == 0),
        r matches Err(StillError::Jpeg(_)) <==> format == Some(StillFormat::Jpeg) && pixels is Rgb8
            && (width == 0 || width > 65_535 || height == 0 || height > 65_535),
        r matches Ok(bytes) ==> (pixels matches StillPixels::Rgb8(rgb) ==> {
            &&& format == Some(StillFormat::Jpeg) ==> bytes@ == jpeg_bytes(
                rgb@,
                width as int,
                height as int,
                quality as int,
            )
            &&& format == Some(StillFormat::Png) ==> bytes@ == png_bytes(
                rgb@,
                width as int,
                height as int,
            )
        }),
        r matches Ok(bytes) ==> (pixels matches StillPixels::Rgb16(samples) ==> bytes@
            == deep_png_bytes(samples@, width as int, height as int)),
{
}

/// A temporary file is hidden, is named after the artifact, the process and the counter,
/// and is marked as partial.
pub proof fn law_temporary_file_is_hidden_and_partial(
    file_name: &str,
    process_id: u32,
    sequence: u64,
    r: String,
)
    requires
        call_ensures(temporary_artifact_name, (file_name, process_id, sequence), r),
    ensures
        r@ == seq!['.'] + file_name@ + seq!['.'] + text::decimal(process_id as nat) + seq!['.']
            + text::decimal(sequence as nat) + ".partial"@,
        r@[0] == '.',
{
}

/// A quality is accepted from one to a hundred.
pub proof fn law_quality_is_a_percentage(quality: u8, r: bool)
    requires
        call_ensures(check_jpeg_quality, (quality,), r),
    ensures
        r <==> 1 <= quality && quality <= 100,
{
}

/// A gray pixel becomes three equal samples.
pub proof fn law_gray_is_spread_over_the_colours(gray: &Vec<u8>, r: Vec<u8>, i: int)
    requires
        call_ensures(gray_to_rgb, (gray,), r),
        0 <= i < gray@.len(),
    ensures
        r@.len() == 3 * gray@.len(),
        r@[3 * i] == gray@[i],
        r@[3 * i + 1] == gray@[i],
        r@[3 * i + 2] == gray@[i],
{
}

} // verus!
