use base64::Engine;
use wallpapy::image::{
    encode_avif, measure_picture, picture_from_bytes, picture_from_payload, thumbnail_rgba,
    PayloadError, Picture,
};

fn png_bytes(width: u32, height: u32, pixel: [u8; 4]) -> Vec<u8> {
    let img = image::RgbaImage::from_pixel(width, height, image::Rgba(pixel));
    let mut buf = Vec::new();
    img.write_to(&mut std::io::Cursor::new(&mut buf), image::ImageFormat::Png).unwrap();
    buf
}

#[test]
fn pictures_decode_from_bytes() {
    let picture = picture_from_bytes(&png_bytes(3, 2, [10, 20, 30, 255])).ok().unwrap();
    assert_eq!((picture.width, picture.height), (3, 2));
    assert_eq!(picture.rgba.len(), 24);
    assert_eq!(&picture.rgba[..4], &[10, 20, 30, 255]);
    assert!(matches!(picture_from_bytes(b"nope"), Err(PayloadError::NotPicture)));
}

#[test]
fn pictures_decode_from_the_answer() {
    let encoded = base64::engine::general_purpose::STANDARD.encode(png_bytes(5, 4, [0, 0, 0, 255]));
    let picture = picture_from_payload(&[encoded]).ok().unwrap();
    assert_eq!((picture.width, picture.height), (5, 4));
    assert!(matches!(picture_from_payload(&[]), Err(PayloadError::Missing)));
    assert!(matches!(picture_from_payload(&["!!".to_string()]), Err(PayloadError::NotBase64)));
    assert!(matches!(
        picture_from_payload(&["aGVsbG8=".to_string()]),
        Err(PayloadError::NotPicture)
    ));
}

#[test]
fn thumbnails_fit_within_the_bound() {
    let big = Picture { width: 64, height: 40, rgba: vec![128; 64 * 40 * 4] };
    let t = thumbnail_rgba(&big, 32);
    assert_eq!((t.width, t.height), (32, 20));
    assert_eq!(t.rgba.len(), 32 * 20 * 4);
    let tall = Picture { width: 1, height: 90, rgba: vec![0; 90 * 4] };
    let t = thumbnail_rgba(&tall, 32);
    assert_eq!((t.width, t.height), (1, 32));
}

#[test]
fn avif_files_are_made() {
    let picture = Picture { width: 8, height: 8, rgba: vec![200; 8 * 8 * 4] };
    let bytes = encode_avif(&picture).unwrap();
    assert_eq!(&bytes[4..8], b"ftyp");
}

#[test]
fn measurements_come_from_the_picture() {
    let white = Picture { width: 2, height: 1, rgba: vec![255; 8] };
    let m = measure_picture(&white);
    assert_eq!((m.width, m.height, m.level), (2, 1, 255));
    let black = Picture { width: 1, height: 1, rgba: vec![0, 0, 0, 255] };
    assert_eq!(measure_picture(&black).level, 0);
}
