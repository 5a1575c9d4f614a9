//! The calls this library makes into std and into outside crates. Each item
//! here is trusted: its contract is read from the called crate's source and
//! documentation, not proved.

use vstd::prelude::*;
use base64::Engine;
use crate::system::uuid_v4_text;

verus! {

/// The standard (padded) base64 text of a byte sequence.
pub uninterp spec fn base64_encoding(bytes: Seq<u8>) -> Seq<char>;

/// The bytes that the standard base64 engine decodes from a text, or `None`
/// where the text is not valid standard base64.
pub uninterp spec fn base64_decoding(text: Seq<char>) -> Option<Seq<u8>>;

/// The path that `Path::join` builds from a base path and a further part,
/// with the separator of the platform the library is built for.
pub uninterp spec fn joined_path(base: Seq<char>, part: Seq<char>) -> Seq<char>;

/// The path that `Path::with_file_name` builds by replacing the last
/// component, under the path rules of the platform the library is built for.
pub uninterp spec fn renamed_path(path: Seq<char>, file_name: Seq<char>) -> Seq<char>;

/// What `Path::extension` returns for a path: the part of the file name after
/// its last dot, under the path rules of the platform the library is built for.
pub uninterp spec fn path_extension_of(path: Seq<char>) -> Option<Seq<char>>;

/// What `str::to_lowercase` returns (Unicode lowercase mapping).
pub uninterp spec fn lowercase(s: Seq<char>) -> Seq<char>;

/// The image that `image::load_from_memory_with_format(.., ImageFormat::Png)`
/// decodes from the bytes, or `None` where it refuses them.
pub uninterp spec fn decoded_png(bytes: Seq<u8>) -> Option<image::DynamicImage>;

/// The image that `DynamicImage::resize_exact(size, size, FilterType::Lanczos3)`
/// makes of an image.
pub uninterp spec fn resized_square(img: image::DynamicImage, size: u32) -> image::DynamicImage;

/// The bytes of the ICO file that `DynamicImage::write_to(.., ImageFormat::Ico)`
/// writes for an image.
pub uninterp spec fn ico_file(img: image::DynamicImage) -> Seq<u8>;

/// The width and height of an image's pixel grid, as
/// `DynamicImage::dimensions` gives them.
pub uninterp spec fn image_size(img: image::DynamicImage) -> (u32, u32);

/// Whether an image's samples are integers of 8 or 16 bits (the colour types
/// `L8`, `La8`, `Rgb8`, `Rgba8`, `L16`, `La16`, `Rgb16`, `Rgba16`, which the
/// crate's PNG encoder takes), as `DynamicImage::color` tells.
pub uninterp spec fn integer_samples(img: image::DynamicImage) -> bool;

#[verifier::external_type_specification]
#[verifier::external_body]
pub struct ExDecodeError(base64::DecodeError);

#[verifier::external_type_specification]
#[verifier::external_body]
pub struct ExDynamicImage(image::DynamicImage);

#[verifier::external_type_specification]
#[verifier::external_body]
pub struct ExImageError(image::ImageError);

#[verifier::external_type_specification]
#[verifier::external_body]
pub struct ExSystemTime(std::time::SystemTime);

#[verifier::external_type_specification]
#[verifier::external_body]
pub struct ExSystemTimeError(std::time::SystemTimeError);

/// `base64::engine::general_purpose::STANDARD.encode`: the padded standard
/// base64 text of the bytes. The crate computes the output length with
/// checked arithmetic and panics on overflow, which the bound excludes.
/// Decoding that text with the same engine gives the bytes back.
#[verifier::external_body]
pub(crate) fn base64_encode(bytes: &[u8]) -> (text: String)
    requires
        bytes@.len() / 3 * 4 + 4 <= usize::MAX,
    ensures
        text@ == base64_encoding(bytes@),
        base64_decoding(text@) == Some(bytes@),
{
    base64::engine::general_purpose::STANDARD.encode(bytes)
}

/// `base64::engine::general_purpose::STANDARD.decode`: the decoded bytes, or
/// the crate's error where the text is not valid standard base64.
#[verifier::external_body]
pub(crate) fn base64_decode(text: &str) -> (r: Result<Vec<u8>, base64::DecodeError>)
    ensures
        match r {
            Ok(bytes) => base64_decoding(text@) == Some(bytes@),
            Err(_) => base64_decoding(text@) is None,
        },
{
    base64::engine::general_purpose::STANDARD.decode(text)
}

/// The `Display` text of a base64 decoding error. Nothing is stated of it.
#[verifier::external_body]
pub(crate) fn decode_error_text(e: &base64::DecodeError) -> String {
    format!("{}", e)
}

/// `uuid::Uuid::new_v4().to_string()`: a random version-4 identifier in the
/// lowercase hyphenated form. The crate masks the random bits so that the
/// version digit is `4` and the variant digit one of `8`, `9`, `a`, `b`
/// (`v4.rs`), and writes lowercase hex with hyphens (`fmt.rs`); which of
/// those identifiers comes out is chance. The crate panics where the system
/// offers no random bytes; that cannot be ruled out here.
#[verifier::external_body]
pub(crate) fn new_uuid_v4() -> (id: String)
    ensures
        uuid_v4_text(id@),
{
    uuid::Uuid::new_v4().to_string()
}

/// `dirs::data_local_dir`: the user's local data directory, where the
/// platform has one, as text (the library holds paths as `String`, so a path
/// that is not valid Unicode comes out with replacement characters). It
/// depends on the environment, so nothing more is stated.
#[verifier::external_body]
pub(crate) fn local_data_dir() -> Option<String> {
    dirs::data_local_dir().map(|p| p.to_string_lossy().into_owned())
}

/// `dirs::home_dir`: the user's home directory, where one is known, as text
/// (a path that is not valid Unicode comes out with replacement characters).
/// It depends on the environment, so nothing more is stated.
#[verifier::external_body]
pub(crate) fn user_home_dir() -> Option<String> {
    dirs::home_dir().map(|p| p.to_string_lossy().into_owned())
}

/// `Path::join` on two UTF-8 paths.
#[verifier::external_body]
pub(crate) fn path_join(base: &str, part: &str) -> (r: String)
    ensures
        r@ == joined_path(base@, part@),
{
    std::path::Path::new(base).join(part).to_string_lossy().into_owned()
}

/// `Path::with_file_name` on a UTF-8 path.
#[verifier::external_body]
pub(crate) fn path_with_file_name(path: &str, file_name: &str) -> (r: String)
    ensures
        r@ == renamed_path(path@, file_name@),
{
    std::path::Path::new(path).with_file_name(file_name).to_string_lossy().into_owned()
}

/// `Path::extension` on a UTF-8 path; the extension of a UTF-8 path is UTF-8.
#[verifier::external_body]
pub(crate) fn path_extension(path: &str) -> (r: Option<String>)
    ensures
        match r {
            Some(e) => path_extension_of(path@) == Some(e@),
            None => path_extension_of(path@) is None,
        },
{
    std::path::Path::new(path).extension().map(|e| e.to_string_lossy().into_owned())
}

/// `str::to_lowercase`.
#[verifier::external_body]
pub(crate) fn to_lowercase(s: &str) -> (r: String)
    ensures
        r@ == lowercase(s@),
{
    s.to_lowercase()
}

/// `SystemTime::now`: the current system time; nothing is stated of it.
#[verifier::external_body]
pub(crate) fn system_time_now() -> std::time::SystemTime {
    std::time::SystemTime::now()
}

/// `SystemTime::duration_since(UNIX_EPOCH)`: the time elapsed since the Unix
/// epoch, or an error where the time lies before it.
#[verifier::external_body]
pub(crate) fn since_unix_epoch(t: &std::time::SystemTime) -> Result<std::time::Duration, std::time::SystemTimeError> {
    t.duration_since(std::time::UNIX_EPOCH)
}

/// `Duration::as_secs`: the whole seconds of a duration.
#[verifier::external_body]
pub(crate) fn duration_secs(d: &std::time::Duration) -> u64 {
    d.as_secs()
}

/// `image::load_from_memory_with_format(bytes, ImageFormat::Png)`: the
/// decoded image, or the crate's error where it refuses the bytes. The PNG decoder expands every PNG to 8 or 16 bits per
/// channel and refuses what it cannot (`codecs/png.rs`), so a decoded image
/// has integer samples.
#[verifier::external_body]
pub(crate) fn decode_png(bytes: &[u8]) -> (r: Result<image::DynamicImage, image::ImageError>)
    ensures
        match r {
            Ok(img) => decoded_png(bytes@) == Some(img) && integer_samples(img),
            Err(_) => decoded_png(bytes@) is None,
        },
{
    image::load_from_memory_with_format(bytes, image::ImageFormat::Png)
}

/// `DynamicImage::resize_exact(size, size, FilterType::Lanczos3)`: the image
/// scaled to a square of `size` pixels with the Lanczos filter, in the same
/// colour type (the crate maps each variant to itself). The pixels that the
/// filter computes are not stated.
#[verifier::external_body]
pub(crate) fn resize_square(img: &image::DynamicImage, size: u32) -> (r: image::DynamicImage)
    ensures
        r == resized_square(*img, size),
        image_size(r) == (size, size),
        integer_samples(r) == integer_samples(*img),
{
    img.resize_exact(size, size, image::imageops::FilterType::Lanczos3)
}

/// `DynamicImage::write_to(.., ImageFormat::Ico)` into an in-memory buffer:
/// the ICO file bytes, or the crate's error. The ICO encoder stores the image
/// as one PNG layer; it refuses only a side outside `1..=256`
/// (`IcoFrame::with_encoded`) and a colour type the PNG encoder does not take,
/// and writing to memory does not fail, so an image with integer samples and
/// such sides is encoded, to the bytes `ico_file` names.
#[verifier::external_body]
pub(crate) fn encode_ico(img: &image::DynamicImage) -> (r: Result<Vec<u8>, image::ImageError>)
    ensures
        r matches Ok(b) ==> b@ == ico_file(*img),
        integer_samples(*img) && 1 <= image_size(*img).0 <= 256 && 1 <= image_size(*img).1 <= 256 ==> r is Ok,
{
    let mut out = std::io::Cursor::new(Vec::new());
    img.write_to(&mut out, image::ImageFormat::Ico).map(|_| out.into_inner())
}

/// The `Display` text of an image error. Nothing is stated of it.
#[verifier::external_body]
pub(crate) fn image_error_text(e: &image::ImageError) -> String {
    format!("{}", e)
}

} // verus!
