use base64::Engine;
use pos_desktop::media::{normalize_photo, photo, thumbnail, MediaError};

#[test]
fn thumbnail_is_bounded_and_rejects_invalid_data() {
    let source = image::DynamicImage::new_rgb8(800, 600);
    let mut bytes = std::io::Cursor::new(Vec::new());
    source.write_to(&mut bytes, image::ImageFormat::Png).unwrap();
    let input = format!("data:image/png;base64,{}", base64::engine::general_purpose::STANDARD.encode(bytes.into_inner()));
    let output = thumbnail(&input).unwrap();
    let image = image::load_from_memory(
        &base64::engine::general_purpose::STANDARD.decode(output.split_once(',').unwrap().1).unwrap(),
    )
    .unwrap();
    assert_eq!((image.width(), image.height()), (320, 240));
    assert!(thumbnail("invalid").is_err());
    assert!(thumbnail("data:image/png;base64,YmFk").is_err());
}

#[test]
fn thumbnail_errors_name_their_cause() {
    assert_eq!(thumbnail("invalid"), Err(MediaError::InvalidImage));
    assert_eq!(thumbnail("data:x,@@@"), Err(MediaError::InvalidBase64));
    assert_eq!(thumbnail("data:image/png;base64,YmFk"), Err(MediaError::Undecodable));
    let big = format!("data:,{}", "A".repeat(5_000_004));
    assert_eq!(thumbnail(&big), Err(MediaError::Oversized));
}

#[test]
fn photo_normalization_bounds_dimensions_and_rejects_invalid_bytes() {
    assert!(normalize_photo(b"not an image").is_err());
    let mut bytes = std::io::Cursor::new(Vec::new());
    image::DynamicImage::new_rgb8(1200, 800).write_to(&mut bytes, image::ImageFormat::Png).unwrap();
    let result = normalize_photo(bytes.get_ref()).unwrap();
    let decoded = image::load_from_memory(&result).unwrap();
    assert_eq!((decoded.width(), decoded.height()), (600, 400));
}

#[test]
fn oversized_photos_are_refused() {
    let big = vec![0u8; 12 * 1024 * 1024 + 1];
    assert_eq!(normalize_photo(&big), Err(MediaError::PhotoTooLarge));
}

#[test]
fn stored_photos_become_data_urls() {
    assert_eq!(photo(None), None);
    assert_eq!(photo(Some(" \n ")), None);
    assert_eq!(photo(Some("iVBOR w0\nKGgo")).unwrap(), "data:image/png;base64,iVBORw0KGgo");
    assert_eq!(photo(Some("/9j/4AA")).unwrap(), "data:image/jpeg;base64,/9j/4AA");
    assert_eq!(photo(Some("UklGR")).unwrap(), "data:image/webp;base64,UklGR");
}
