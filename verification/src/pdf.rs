//! The document converter: its greeting and the data that it exchanges
//! with its front end.

use vstd::prelude::*;
use vstd::string::*;

verus! {

/// The words with which the converter greets `name`.
pub open spec fn greeting(name: Seq<char>) -> Seq<char> {
    "Hello, "@ + name + "! PDF Converter is ready."@
}

/// Greets `name`.
pub fn greet(name: &str) -> (words: String)
    ensures
        words@ == greeting(name@),
{
    String::from_str("Hello, ").concat(name).concat("! PDF Converter is ready.")
}

/// How a conversion ended.
#[derive(Debug)]
pub struct ConversionResult {
    pub success: bool,
    pub message: String,
}

/// A file handed to the front end: its name, its bytes and its size.
#[derive(Debug)]
pub struct FileData {
    pub name: String,
    pub data: Vec<u8>,
    pub size: u64,
}

} // verus!
