//! Cover images: where they are stored, and whether what a server sent is an
//! image that can be read.
use vstd::prelude::*;
use vstd::string::{StringExecFns, StringSliceAdditionalSpecFns};

use crate::util::radix::{radix_string, radix_text};
use crate::util::stream::LimitedReadResult;
use crate::detect::text::lower_code;

verus! {

/// The 128-bit XXH3 hash of a byte sequence.
pub uninterp spec fn xxh3_128_of(bytes: Seq<u8>) -> u128;

/// `xxhash_rust::xxh3::xxh3_128`: the 128-bit XXH3 hash of `bytes` with the
/// default seed and secret. The contract only names the result: the same
/// bytes give the same hash.
#[verifier::external_body]
fn xxh3_128(bytes: &[u8]) -> (r: u128)
    ensures
        r == xxh3_128_of(bytes@),
{
    xxhash_rust::xxh3::xxh3_128(bytes)
}

/// The hash an image is cached under: that of its source's address.
#[derive(Copy, Clone, Debug, PartialEq, Eq, Structural, Hash)]
pub struct Hash(pub u128);

impl Hash {
    /// The hash of `bytes`.
    pub fn new(bytes: &[u8]) -> (r: Self)
        ensures
            r.0 == xxh3_128_of(bytes@),
    {
        Hash(xxh3_128(bytes))
    }

    /// The hash of an address's text.
    pub fn of_text(text: &str) -> (r: Self)
        ensures
            r.0 == xxh3_128_of(text.spec_bytes()),
    {
        Self::new(text.as_bytes())
    }

    /// The file name an image is stored under: the hash in lower-case
    /// hexadecimal.
    pub fn storage_name(&self) -> (r: String)
        ensures
            r@ == radix_text(self.0 as nat, 16),
    {
        radix_string(self.0, 16)
    }
}

/// Why an image could not be had. The errors of the image decoder, the disk
/// and the HTTP client are carried as their messages.
#[derive(Debug)]
pub enum Error {
    ImageError(String),
    Io(String),
    UrlFetchFailed(u16),
    UrlFetchIncomplete(String),
    UrlFetchTooLarge { max_size_bytes: usize },
    UrlNotImage,
    UnsupportedInferredFormat { inferred_extension: &'static str },
    TaskFailed,
    Reqwest(String),
}

/// How many bytes the buffer for a fetched image starts with.
pub const INITIAL_URL_FETCH_CAPACITY: usize = 131072;

/// A reply status that reports success (`200..=299`).
pub open spec fn is_success(status: u16) -> bool {
    200 <= status <= 299
}

/// A reply must report success before its body is read.
pub fn check_status(status: u16) -> (r: Result<(), Error>)
    ensures
        is_success(status) ==> r is Ok,
        !is_success(status) ==> (r matches Err(Error::UrlFetchFailed(s)) && s == status),
{
    if 200 <= status && status <= 299 {
        Ok(())
    } else {
        Err(Error::UrlFetchFailed(status))
    }
}

/// The body of a reply read up to `max_size_bytes`: a body cut short at the
/// limit cannot be a whole image.
pub fn limited_body(read: LimitedReadResult<Vec<u8>>, max_size_bytes: usize) -> (r: Result<
    Vec<u8>,
    Error,
>)
    ensures
        match read {
            LimitedReadResult::UnderLimit(b) => r matches Ok(body) && body@ == b@,
            LimitedReadResult::Limited(_) => r matches Err(Error::UrlFetchTooLarge { max_size_bytes: m })
                && m == max_size_bytes,
        },
{
    match read {
        LimitedReadResult::UnderLimit(bytes) => Ok(bytes),
        LimitedReadResult::Limited(_) => Err(Error::UrlFetchTooLarge { max_size_bytes }),
    }
}

/// What `infer` finds the bytes to start with: whether it is an image, and
/// the file extension of the kind found.
pub uninterp spec fn inferred_kind(bytes: Seq<u8>) -> Option<(bool, Seq<char>)>;

/// `infer::get`: the kind of file the bytes start with, if `infer` knows it,
/// as whether it is an image and its usual file extension. The contract
/// only names the result: the same bytes give the same kind.
#[verifier::external_body]
fn infer_kind(bytes: &[u8]) -> (r: Option<(bool, &'static str)>)
    ensures
        match r {
            Some((image, ext)) => inferred_kind(bytes@) == Some((image, ext@)),
            None => inferred_kind(bytes@) is None,
        },
{
    infer::get(bytes).map(|t| (t.matcher_type() == infer::MatcherType::Image, t.extension()))
}

/// An image file format of the `image` crate, carried through unopened.
#[verifier::external_type_specification]
#[verifier::external_body]
pub struct ExImageFormat(image::ImageFormat);

/// The image format `image` reads files with the given extension as.
pub uninterp spec fn format_for_extension(ext: Seq<char>) -> Option<image::ImageFormat>;

/// The file extensions, in lower case, that the `image` crate names a
/// format for.
pub open spec fn image_extensions() -> Seq<Seq<char>> {
    seq![
        "avif"@, "jpg"@, "jpeg"@, "jfif"@, "png"@, "apng"@, "gif"@, "webp"@, "tif"@, "tiff"@,
        "tga"@, "dds"@, "bmp"@, "ico"@, "hdr"@, "exr"@, "pbm"@, "pam"@, "ppm"@, "pgm"@, "pnm"@,
        "ff"@, "qoi"@,
    ]
}

/// `ext`, with ASCII letters lower-cased, is one of `image_extensions()`.
pub open spec fn known_image_extension(ext: Seq<char>) -> bool {
    exists|i: int|
        0 <= i < image_extensions().len() && (#[trigger] image_extensions()[i]).len() == ext.len()
            && forall|k: int| 0 <= k < ext.len() ==> lower_code(ext[k]) == image_extensions()[i][k] as u32
}

/// `image::ImageFormat::from_extension`: the image format of a file
/// extension, if the `image` crate knows one. The contract names the result
/// and states when there is one: the extension, lower-cased, is in the
/// crate's fixed list; which format each extension gives is left unsaid.
#[verifier::external_body]
fn image_format_from_extension(ext: &str) -> (r: Option<image::ImageFormat>)
    ensures
        r == format_for_extension(ext@),
        r is Some <==> known_image_extension(ext@),
{
    image::ImageFormat::from_extension(ext)
}

/// The format to read fetched bytes in: they must start like an image, of
/// a kind the `image` crate reads.
pub fn fetched_image_format(bytes: &[u8]) -> (r: Result<image::ImageFormat, Error>)
    ensures
        match inferred_kind(bytes@) {
            Some((true, ext)) => match format_for_extension(ext) {
                Some(f) => r matches Ok(g) && g == f,
                None => r matches Err(Error::UnsupportedInferredFormat { inferred_extension: e })
                    && e@ == ext,
            },
            _ => r matches Err(Error::UrlNotImage),
        },
        inferred_kind(bytes@) matches Some((true, ext)) ==> (r is Ok <==> known_image_extension(ext)),
{
    let inferred_extension = match infer_kind(bytes) {
        Some((true, ext)) => ext,
        _ => {
            return Err(Error::UrlNotImage);
        },
    };
    match image_format_from_extension(inferred_extension) {
        Some(format) => Ok(format),
        None => Err(Error::UnsupportedInferredFormat { inferred_extension }),
    }
}

/// An image decoded by the `image` crate, carried through unopened.
#[verifier::external_type_specification]
#[verifier::external_body]
pub struct ExDynamicImage(image::DynamicImage);

/// What the `image` crate decodes `bytes` into when read in `format`: the
/// image, or the message of the decoding error.
pub uninterp spec fn decoded_image(bytes: Seq<u8>, format: image::ImageFormat) -> Result<
    image::DynamicImage,
    Seq<char>,
>;

/// `image::load_from_memory_with_format`: decode `bytes` as an image in
/// `format`, the error taken as its message. The contract only names the
/// result: the same bytes and format give the same image or error.
#[verifier::external_body]
fn decode_image(bytes: &[u8], format: image::ImageFormat) -> (r: Result<image::DynamicImage, String>)
    ensures
        match r {
            Ok(img) => decoded_image(bytes@, format) == Ok::<image::DynamicImage, Seq<char>>(img),
            Err(msg) => decoded_image(bytes@, format) == Err::<image::DynamicImage, Seq<char>>(
                msg@,
            ),
        },
{
    image::load_from_memory_with_format(bytes, format).map_err(|err| err.to_string())
}

/// The image in a fetched body: the body must be whole (within
/// `max_size_bytes`) and start like an image of a kind the `image` crate
/// reads; it is then decoded in that format.
pub fn decode_fetched(read: LimitedReadResult<Vec<u8>>, max_size_bytes: usize) -> (r: Result<
    (image::DynamicImage, image::ImageFormat),
    Error,
>)
    ensures
        match read {
            LimitedReadResult::Limited(_) => r matches Err(
                Error::UrlFetchTooLarge { max_size_bytes: m },
            ) && m == max_size_bytes,
            LimitedReadResult::UnderLimit(b) => match inferred_kind(b@) {
                Some((true, ext)) => match format_for_extension(ext) {
                    Some(f) => match decoded_image(b@, f) {
                        Ok(img) => r matches Ok((i, g)) && i == img && g == f,
                        Err(msg) => r matches Err(Error::ImageError(m)) && m@ == msg,
                    },
                    None => r matches Err(
                        Error::UnsupportedInferredFormat { inferred_extension: e },
                    ) && e@ == ext,
                },
                _ => r matches Err(Error::UrlNotImage),
            },
        },
{
    let bytes = limited_body(read, max_size_bytes)?;
    let format = fetched_image_format(bytes.as_slice())?;
    match decode_image(bytes.as_slice(), format) {
        Ok(image) => Ok((image, format)),
        Err(message) => Err(Error::ImageError(message)),
    }
}

/// The path an image is stored at under `storage_dir`: the directory, then
/// the hash's storage name (with a separator unless the directory is empty
/// or already ends in one).
pub open spec fn storage_path_text(storage_dir: Seq<char>, hash: Hash) -> Seq<char> {
    if storage_dir.len() == 0 || storage_dir.last() == '/' {
        storage_dir + radix_text(hash.0 as nat, 16)
    } else {
        storage_dir + "/"@ + radix_text(hash.0 as nat, 16)
    }
}

/// The path an image with this hash is stored at under `storage_dir`.
pub fn storage_path(storage_dir: &str, hash: Hash) -> (r: String)
    ensures
        r@ == storage_path_text(storage_dir@, hash),
{
    let mut path = storage_dir.to_string();
    let n = storage_dir.unicode_len();
    if n > 0 && storage_dir.get_char(n - 1) != '/' {
        path.append("/");
    }
    let name = hash.storage_name();
    path.append(name.as_str());
    path
}

} // verus!
