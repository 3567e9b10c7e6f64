//! Pictures pasted into a note arrive as text: the picture in base64,
//! often behind the prefix of a data URL.

use vstd::prelude::*;
use vstd::string::*;
use crate::notes::outside::{base64_bytes, decode_base64, decode_fault_text};
use crate::text::{chars_of, find_char, first_index_of, lemma_first_index_of};

verus! {

/// The part of `data` that holds the picture: all of it where it holds no
/// comma, else what stands between its first comma and the next one, or
/// the end.
pub open spec fn payload(data: Seq<char>) -> Seq<char> {
    let first = first_index_of(data, ',');
    if first == data.len() {
        data
    } else {
        let rest = data.skip(first + 1);
        rest.take(first_index_of(rest, ','))
    }
}

/// The part of `data` that holds the picture.
pub fn image_payload(data: &str) -> (part: &str)
    ensures
        part@ == payload(data@),
{
    let chars = chars_of(data);
    assert(chars@.skip(0) =~= chars@);
    let first = find_char(&chars, 0, ',');
    if first == chars.len() {
        data
    } else {
        let from: usize = first + 1;
        let length = find_char(&chars, from, ',');
        proof {
            let rest = data@.skip(from as int);
            lemma_first_index_of(rest, ',');
            assert(rest.take(length as int) =~= data@.subrange(from as int, from + length));
        }
        data.substring_char(from, from + length)
    }
}

/// What the message of a picture that cannot be decoded begins with.
pub const DECODE_FAILED: &'static str = "Failed to decode base64: ";

/// Decodes a picture from base64. Where the text is no base64, the result
/// is a message that says so and gives the reason.
pub fn decode_image(text: &str) -> (picture: Result<Vec<u8>, String>)
    ensures
        match base64_bytes(text@) {
            Some(bytes) => picture matches Ok(decoded) && decoded@ == bytes,
            None => picture matches Err(message) && exists|reason: Seq<char>|
                message@ == DECODE_FAILED@ + reason,
        },
{
    match decode_base64(text) {
        Ok(bytes) => Ok(bytes),
        Err(error) => {
            let reason = decode_fault_text(&error);
            Err(String::from_str(DECODE_FAILED).concat(reason.as_str()))
        },
    }
}

/// Decodes the picture that `data` holds, the prefix of a data URL left
/// aside.
pub fn image_bytes(data: &str) -> (picture: Result<Vec<u8>, String>)
    ensures
        match base64_bytes(payload(data@)) {
            Some(bytes) => picture matches Ok(decoded) && decoded@ == bytes,
            None => picture matches Err(message) && exists|reason: Seq<char>|
                message@ == DECODE_FAILED@ + reason,
        },
{
    decode_image(image_payload(data))
}

/// The name under which a picture is stored: the time it arrived, an
/// underscore, and the name it came with.
pub fn image_file_name(timestamp: &str, filename: &str) -> (name: String)
    ensures
        name@ == timestamp@ + "_"@ + filename@,
{
    String::from_str(timestamp).concat("_").concat(filename)
}

} // verus!
