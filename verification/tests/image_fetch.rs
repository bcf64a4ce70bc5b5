use anup::image_cache::{
    check_status, decode_fetched, fetched_image_format, limited_body, storage_path, Error,
};
use anup::util::stream::LimitedReadResult;

const PNG_START: &[u8] = &[0x89, b'P', b'N', b'G', 0x0d, 0x0a, 0x1a, 0x0a, 0, 0, 0, 0x0d];

#[test]
fn only_successful_replies_are_read() {
    assert!(check_status(200).is_ok());
    assert!(check_status(299).is_ok());
    assert!(matches!(check_status(404), Err(Error::UrlFetchFailed(404))));
    assert!(matches!(check_status(199), Err(Error::UrlFetchFailed(199))));
    assert!(matches!(check_status(300), Err(Error::UrlFetchFailed(300))));
}

#[test]
fn a_body_cut_at_the_limit_is_too_large() {
    assert_eq!(
        limited_body(LimitedReadResult::UnderLimit(vec![1, 2]), 10).unwrap(),
        vec![1, 2]
    );
    assert!(matches!(
        limited_body(LimitedReadResult::Limited(vec![1, 2]), 10),
        Err(Error::UrlFetchTooLarge { max_size_bytes: 10 })
    ));
}

#[test]
fn fetched_bytes_must_start_like_a_readable_image() {
    assert_eq!(fetched_image_format(PNG_START).unwrap(), image::ImageFormat::Png);
    assert!(matches!(fetched_image_format(b"%PDF-1.7 not an image"), Err(Error::UrlNotImage)));
    assert!(matches!(fetched_image_format(b""), Err(Error::UrlNotImage)));
    // a Photoshop file is an image, but not one the decoder reads
    assert!(matches!(
        fetched_image_format(b"8BPS\x00\x01"),
        Err(Error::UnsupportedInferredFormat { inferred_extension: "psd" })
    ));
}

#[test]
fn images_are_stored_under_their_hash() {
    let hash = anup::image_cache::Hash::of_text("https://example.com/a.png");
    let name = format!("{:x}", hash.0);
    assert_eq!(storage_path("/cache/img", hash), format!("/cache/img/{name}"));
    assert_eq!(storage_path("/cache/img/", hash), format!("/cache/img/{name}"));
    assert_eq!(storage_path("", hash), name);
}

fn png_bytes(width: u32, height: u32) -> Vec<u8> {
    let img = image::RgbImage::new(width, height);
    let mut out = std::io::Cursor::new(Vec::new());
    img.write_to(&mut out, image::ImageFormat::Png).unwrap();
    out.into_inner()
}

#[test]
fn fetched_images_are_decoded_in_their_format() {
    let (img, format) =
        decode_fetched(LimitedReadResult::UnderLimit(png_bytes(3, 2)), 1 << 20).unwrap();
    assert_eq!(format, image::ImageFormat::Png);
    assert_eq!((img.width(), img.height()), (3, 2));
    // starts like a PNG, but is not one
    assert!(matches!(
        decode_fetched(LimitedReadResult::UnderLimit(PNG_START.to_vec()), 1 << 20),
        Err(Error::ImageError(_))
    ));
    assert!(matches!(
        decode_fetched(LimitedReadResult::Limited(png_bytes(3, 2)), 10),
        Err(Error::UrlFetchTooLarge { max_size_bytes: 10 })
    ));
    assert!(matches!(
        decode_fetched(LimitedReadResult::UnderLimit(b"%PDF-1.7".to_vec()), 1 << 20),
        Err(Error::UrlNotImage)
    ));
}

