//! Image format sniffing.
//!
//! An upload is accepted only when its leading bytes carry the magic
//! number of one of the two accepted raster formats. Classification asks
//! for at least ten leading bytes; anything shorter is rejected rather
//! than guessed at.

use vstd::prelude::*;

verus! {

/// The accepted image formats.
#[derive(Clone, Copy, Debug, PartialEq, Eq, Structural)]
pub enum ImageKind {
    /// A PNG container.
    Png,
    /// A JPEG container.
    Jpeg,
}

/// `s` begins with the bytes of `p`.
pub open spec fn starts_with(s: Seq<u8>, p: Seq<u8>) -> bool {
    p.len() <= s.len() && s.take(p.len() as int) == p
}

/// The eight-byte PNG magic number.
pub open spec fn png_magic() -> Seq<u8> {
    seq![0x89u8, 0x50u8, 0x4eu8, 0x47u8, 0x0du8, 0x0au8, 0x1au8, 0x0au8]
}

/// The three-byte JPEG (JFIF) magic number.
pub open spec fn jpeg_magic() -> Seq<u8> {
    seq![0xffu8, 0xd8u8, 0xffu8]
}

/// The classification of a stream from its leading bytes: an accepted
/// format when the magic number of one is present and at least ten bytes
/// were supplied, nothing otherwise.
pub open spec fn classify_spec(head: Seq<u8>) -> Option<ImageKind> {
    if head.len() < 10 {
        None
    } else if starts_with(head, png_magic()) {
        Some(ImageKind::Png)
    } else if starts_with(head, jpeg_magic()) {
        Some(ImageKind::Jpeg)
    } else {
        None
    }
}

/// Relies on `image::guess_format`: it scans a fixed table of magic
/// numbers and returns the format of the first that prefixes the buffer.
/// The PNG entry is first in that table, and no other entry's magic shares
/// a first byte with PNG's or JPEG's, so each of the two accepted formats
/// is returned exactly when its own magic number leads the buffer.
#[verifier::external_body]
fn guess_accepted_format(head: &[u8]) -> (r: Option<ImageKind>)
    ensures
        (r == Some(ImageKind::Png)) <==> starts_with(head@, png_magic()),
        (r == Some(ImageKind::Jpeg)) <==> starts_with(head@, jpeg_magic()),
{
    match image::guess_format(head) {
        Ok(image::ImageFormat::Png) => Some(ImageKind::Png),
        Ok(image::ImageFormat::Jpeg) => Some(ImageKind::Jpeg),
        _ => None,
    }
}

/// Classifies a stream from its leading bytes. At least ten bytes must be
/// supplied for a classification to be attempted; shorter input is
/// rejected outright.
pub fn classify(head: &[u8]) -> (r: Option<ImageKind>)
    ensures
        r == classify_spec(head@),
{
    if head.len() < 10 {
        None
    } else {
        let g = guess_accepted_format(head);
        proof {
            assert(g is Some ==> g->0 == ImageKind::Png || g->0 == ImageKind::Jpeg);
            assert((g == Some(ImageKind::Png)) <==> starts_with(head@, png_magic()));
            assert((g == Some(ImageKind::Jpeg)) <==> starts_with(head@, jpeg_magic()));
        }
        g
    }
}

/// The canonical file extension of an accepted format.
pub open spec fn ext_chars(kind: ImageKind) -> Seq<char> {
    match kind {
        ImageKind::Png => seq!['p', 'n', 'g'],
        ImageKind::Jpeg => seq!['j', 'p', 'g'],
    }
}

/// The canonical file extension of an accepted format.
pub fn extension_of(kind: ImageKind) -> (r: &'static str)
    ensures
        r@ =~= ext_chars(kind),
{
    proof {
        reveal_strlit("png");
        reveal_strlit("jpg");
    }
    match kind {
        ImageKind::Png => "png",
        ImageKind::Jpeg => "jpg",
    }
}

} // verus!
