use rantang::sniff::{classify, extension_of, ImageKind};

const PNG_MAGIC: [u8; 8] = [0x89, 0x50, 0x4e, 0x47, 0x0d, 0x0a, 0x1a, 0x0a];
const JPEG_MAGIC: [u8; 3] = [0xff, 0xd8, 0xff];

fn with_padding(magic: &[u8], len: usize) -> Vec<u8> {
    let mut v = magic.to_vec();
    while v.len() < len {
        v.push(0);
    }
    v
}

#[test]
fn png_magic_classifies_as_png() {
    let head = with_padding(&PNG_MAGIC, 10);
    assert_eq!(classify(&head), Some(ImageKind::Png));
}

#[test]
fn jpeg_magic_classifies_as_jpeg() {
    let head = with_padding(&JPEG_MAGIC, 10);
    assert_eq!(classify(&head), Some(ImageKind::Jpeg));
}

#[test]
fn unknown_magic_is_rejected() {
    assert_eq!(classify(b"this is text"), None);
    assert_eq!(classify(&[0u8; 10]), None);
}

#[test]
fn recognized_but_unaccepted_format_is_rejected() {
    // A GIF signature is a real image format, but not an accepted one.
    let head = with_padding(b"GIF89a", 10);
    assert_eq!(classify(&head), None);
}

#[test]
fn short_input_is_rejected_even_with_a_valid_magic() {
    assert_eq!(classify(&JPEG_MAGIC), None);
    let nine = with_padding(&PNG_MAGIC, 9);
    assert_eq!(classify(&nine), None);
    assert_eq!(classify(&[]), None);
}

#[test]
fn extensions_are_canonical() {
    assert_eq!(extension_of(ImageKind::Png), "png");
    assert_eq!(extension_of(ImageKind::Jpeg), "jpg");
}
