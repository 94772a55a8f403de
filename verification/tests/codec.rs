use api_runtime::codec::{
    can_encode, data_url, data_url_image, data_url_of, image_ext, read_data_url, split_data_url,
};

#[test]
fn data_urls_give_their_image_back() {
    for bytes in [&b""[..], b"h", b"he", b"hel", &[0, 255, 128, 7]] {
        let url = data_url("image/png", bytes);
        assert_eq!(read_data_url(&url), Some(Ok(bytes.to_vec())));
    }
    assert_eq!(data_url("image/png", b"hello"), "data:image/png;base64,aGVsbG8=");
    assert_eq!(data_url_of("image/gif", "AAAA"), "data:image/gif;base64,AAAA");
}

#[test]
fn other_urls_are_downloaded() {
    assert_eq!(read_data_url("https://example.com/a,b.png"), None);
    assert_eq!(read_data_url("data:image/png;base64"), None);
    assert_eq!(read_data_url("xdata:,AAAA"), None);
    assert_eq!(split_data_url("data:a,b,c"), Some("b,c"));
    assert_eq!(split_data_url("data:,"), Some(""));
}

#[test]
fn broken_data_urls_are_told_of() {
    let outcome = read_data_url("data:image/png;base64,@@@@").unwrap();
    let message = outcome.unwrap_err();
    assert!(message.starts_with("decode data URL image: "), "{message}");
    assert!(message.len() > "decode data URL image: ".len());
    assert_eq!(
        data_url_image(Err("bad".to_string())),
        Err("decode data URL image: bad".to_string())
    );
    assert_eq!(data_url_image(Ok(vec![1])), Ok(vec![1]));
}

#[test]
fn formats_are_known_by_their_signature() {
    assert_eq!(image_ext(b"\x89PNG\r\n\x1a\n...."), "png");
    assert_eq!(image_ext(&[0xff, 0xd8, 0xff, 0xe0]), "jpg");
    assert_eq!(image_ext(b"RIFF\x01\x02\x03\x04WEBPVP8 "), "webp");
    assert_eq!(image_ext(b"GIF87a.."), "gif");
    assert_eq!(image_ext(b"GIF89a.."), "gif");
    assert_eq!(image_ext(b"BM...."), "bmp");
    assert_eq!(image_ext(b"II*\x00...."), "tiff");
    assert_eq!(image_ext(b"MM\x00*...."), "tiff");
    assert_eq!(image_ext(b"\x00\x00\x00\x20ftypavif"), "avif");
}

#[test]
fn unknown_formats_count_as_png() {
    assert_eq!(image_ext(b""), "png");
    assert_eq!(image_ext(b"RIFF\x01\x02\x03\x04WAVE"), "png");
    assert_eq!(image_ext(b"\xff\xd8"), "png");
    assert_eq!(image_ext(b"P6 1 1 255"), "png");
    assert_eq!(image_ext(b"\x00\x00\x01\x00ftypavif"), "png");
    assert_eq!(image_ext(b"\x00\x00\x00\x20ftypheic"), "png");
    assert_eq!(image_ext(b"farbfeld"), "png");
}

#[test]
fn encodable_lengths_are_known() {
    assert!(can_encode(0));
    assert!(can_encode(1_000_000));
    assert!(can_encode(isize::MAX as usize / 4 * 3));
    assert!(!can_encode(isize::MAX as usize / 4 * 3 + 1));
    assert!(!can_encode(usize::MAX));
}
