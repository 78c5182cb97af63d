use crate::reader::{latin1, u8_as_string};
use vstd::prelude::*;
use vstd::utf8::{decode_utf8, valid_utf8};

verus! {

/// Code of the UTF-8 text encoding in the format header.
pub const UTF8_CODE: u32 = 65001;

/// The text encodings a book can declare.
#[derive(Clone, Copy, Debug, PartialEq, Eq, Structural)]
pub enum TextEncoding {
    UTF8,
    /// The single-byte Western encoding, also taken for any unrecognised code.
    CP1252,
}

/// The encoding that a declared code stands for.
pub open spec fn text_encoding_of(code: u32) -> TextEncoding {
    if code == 65001 {
        TextEncoding::UTF8
    } else {
        TextEncoding::CP1252
    }
}

/// Text that `bytes` decode to under `enc`: UTF-8 where declared and valid, and
/// otherwise one character per byte.
pub open spec fn decoded_text(bytes: Seq<u8>, enc: TextEncoding) -> Seq<char> {
    if enc == TextEncoding::UTF8 && valid_utf8(bytes) {
        decode_utf8(bytes)
    } else {
        latin1(bytes)
    }
}

impl TextEncoding {
    /// The encoding for a declared code; unknown codes fall back to the single-byte one.
    pub fn from_code(code: u32) -> (r: TextEncoding)
        ensures
            r == text_encoding_of(code),
    {
        if code == UTF8_CODE {
            TextEncoding::UTF8
        } else {
            TextEncoding::CP1252
        }
    }
}

/// Relies on `String::from_utf8`: it succeeds exactly on valid UTF-8, with the decoded text.
#[verifier::external_body]
fn utf8_to_string(bytes: Vec<u8>) -> (r: Option<String>)
    ensures
        r is Some <==> valid_utf8(bytes@),
        r is Some ==> r->Some_0@ == decode_utf8(bytes@),
{
    String::from_utf8(bytes).ok()
}

/// Decodes `bytes` under `enc`, falling back to one character per byte where they are
/// not valid UTF-8.
pub fn decode_text(bytes: &[u8], enc: TextEncoding) -> (r: String)
    ensures
        r@ == decoded_text(bytes@, enc),
{
    match enc {
        TextEncoding::UTF8 => match utf8_to_string(vstd::slice::slice_to_vec(bytes)) {
            Some(s) => s,
            None => u8_as_string(bytes),
        },
        TextEncoding::CP1252 => u8_as_string(bytes),
    }
}

} // verus!
