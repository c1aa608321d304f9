//! The error type of every conversion step.
use vstd::prelude::*;
use crate::text::string_push_str;

verus! {

#[verifier::external_type_specification]
#[verifier::external_body]
pub struct ExIoError(std::io::Error);

/// Why a conversion step failed.
#[derive(Debug)]
pub enum ConversionError {
    Io(std::io::Error),
    InvalidFormat(String),
    UnsupportedVersion(String),
    NbtError(String),
    MissingData(String),
    DecompressionFailed(String),
    CompressionFailed(String),
}

impl From<std::io::Error> for ConversionError {
    /// An I/O error as a conversion error.
    fn from(e: std::io::Error) -> (r: Self) {
        ConversionError::Io(e)
    }
}

impl vstd::std_specs::convert::FromSpecImpl<std::io::Error> for ConversionError {
    open spec fn obeys_from_spec() -> bool {
        true
    }

    open spec fn from_spec(e: std::io::Error) -> Self {
        ConversionError::Io(e)
    }
}

/// The text of an I/O error, as its `Display` writes it. Nothing is stated of the
/// text: the error is opaque here.
#[verifier::external_body]
fn io_error_text(e: &std::io::Error) -> String {
    format!("{}", e)
}

/// The owned copy of a string.
pub fn copy_string(s: &String) -> (r: String)
    ensures
        r@ == s@,
{
    s.clone()
}

impl ConversionError {
    /// The human-readable message of the error: a prefix naming the kind of failure,
    /// followed by its detail.
    pub fn message(&self) -> (r: String)
        ensures
            match self {
                ConversionError::Io(_) => r@.len() >= "IO error: "@.len()
                    && r@.subrange(0, "IO error: "@.len() as int) == "IO error: "@,
                ConversionError::InvalidFormat(s) => r@ == "Invalid format: "@ + s@,
                ConversionError::UnsupportedVersion(s) => r@ == "Unsupported version: "@ + s@,
                ConversionError::NbtError(s) => r@ == "NBT error: "@ + s@,
                ConversionError::MissingData(s) => r@ == "Missing data: "@ + s@,
                ConversionError::DecompressionFailed(s) => r@ == "Decompression failed: "@ + s@,
                ConversionError::CompressionFailed(s) => r@ == "Compression failed: "@ + s@,
            },
    {
        let mut r = String::new();
        match self {
            ConversionError::Io(e) => {
                string_push_str(&mut r, "IO error: ");
                let t = io_error_text(e);
                string_push_str(&mut r, t.as_str());
            },
            ConversionError::InvalidFormat(s) => {
                string_push_str(&mut r, "Invalid format: ");
                string_push_str(&mut r, s.as_str());
            },
            ConversionError::UnsupportedVersion(s) => {
                string_push_str(&mut r, "Unsupported version: ");
                string_push_str(&mut r, s.as_str());
            },
            ConversionError::NbtError(s) => {
                string_push_str(&mut r, "NBT error: ");
                string_push_str(&mut r, s.as_str());
            },
            ConversionError::MissingData(s) => {
                string_push_str(&mut r, "Missing data: ");
                string_push_str(&mut r, s.as_str());
            },
            ConversionError::DecompressionFailed(s) => {
                string_push_str(&mut r, "Decompression failed: ");
                string_push_str(&mut r, s.as_str());
            },
            ConversionError::CompressionFailed(s) => {
                string_push_str(&mut r, "Compression failed: ");
                string_push_str(&mut r, s.as_str());
            },
        }
        r
    }
}

} // verus!
