//! The check that an address leads to an image, made before any backend is
//! asked.

use vstd::prelude::*;
use crate::error::{Error, ErrorView};
use crate::text::{chars_contain, contains, to_chars};

verus! {

/// A header value can be read as text: each byte is a tab or a visible
/// character of ASCII.
pub open spec fn is_header_text(bytes: Seq<u8>) -> bool {
    forall|i: int| 0 <= i < bytes.len() ==> (#[trigger] bytes[i]) == 9 || 32 <= bytes[i] < 127
}

/// A header value as text.
pub open spec fn header_text(bytes: Seq<u8>) -> Seq<char> {
    Seq::new(bytes.len(), |i: int| bytes[i] as char)
}

/// What the content type of the image's address allows: a lookup goes on
/// only where the header is there, reads as text and holds `image`.
pub open spec fn gate(content_type: Option<Seq<u8>>) -> Result<(), ErrorView> {
    match content_type {
        None => Err(ErrorView::LinkIsNotImage),
        Some(bytes) => if !is_header_text(bytes) {
            Err(ErrorView::UnableToConvertToString)
        } else if contains(header_text(bytes), "image"@) {
            Ok(())
        } else {
            Err(ErrorView::LinkIsNotImage)
        },
    }
}

/// Decides from the `Content-Type` of the image's address whether a lookup
/// may go on: see [`gate`].
pub fn ensure_is_image(content_type: &Option<Vec<u8>>) -> (r: Result<(), Error>)
    ensures
        match gate(content_type.deep_view()) {
            Ok(()) => r is Ok,
            Err(e) => r matches Err(failure) && failure@ == e,
        },
{
    let bytes = match content_type {
        Some(bytes) => bytes,
        None => {
            return Err(Error::LinkIsNotImage);
        },
    };
    assert(content_type.deep_view() == Some(bytes@)) by {
        assert(bytes.deep_view() =~= bytes@);
    }
    let mut text: Vec<char> = Vec::new();
    let mut i: usize = 0;
    while i < bytes.len()
        invariant
            i <= bytes.len(),
            text.len() == i,
            content_type.deep_view() == Some(bytes@),
            forall|k: int| 0 <= k < i ==> bytes[k] == 9 || 32 <= bytes[k] < 127,
            forall|k: int| 0 <= k < i ==> text[k] == bytes[k] as char,
        decreases bytes.len() - i,
    {
        let b = bytes[i];
        if !(b == 9 || (32 <= b && b < 127)) {
            assert(!is_header_text(bytes@)) by {
                assert(!(bytes@[i as int] == 9 || 32 <= bytes@[i as int] < 127));
            }
            return Err(Error::UnableToConvertToString);
        }
        text.push(b as char);
        i += 1;
    }
    assert(text@ =~= header_text(bytes@));
    let word = to_chars("image");
    if chars_contain(&text, &word) {
        Ok(())
    } else {
        Err(Error::LinkIsNotImage)
    }
}

} // verus!
