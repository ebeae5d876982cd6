use vstd::prelude::*;
use vstd::string::*;

verus! {

/// The ways in which reading or writing a PNG's metadata can fail.
#[derive(Debug, Clone, Copy, PartialEq, Eq, Structural)]
pub enum FormatError {
    /// The bytes do not start with the eight-byte PNG signature.
    NotAPng,
    /// The header chunk is absent or malformed.
    MissingHeader,
    /// The image data could not be decompressed or reconstructed.
    CorruptImageData,
    /// The encoder cannot reproduce the colour configuration.
    UnsupportedColorType,
    /// A keyword is longer than the format allows.
    KeyTooLong,
    /// A keyword or a text holds a character that an uncompressed text chunk cannot carry.
    InvalidEncoding,
}

/// The text shown to a user for each fault.
pub open spec fn message_of(f: FormatError) -> Seq<char> {
    match f {
        FormatError::NotAPng => "not a valid PNG file"@,
        FormatError::MissingHeader => "the PNG header chunk is missing or malformed"@,
        FormatError::CorruptImageData => "the PNG image data is corrupt"@,
        FormatError::UnsupportedColorType => "the image's colour configuration cannot be written"@,
        FormatError::KeyTooLong => "the key is longer than 79 characters"@,
        FormatError::InvalidEncoding => "the key is empty or holds a NUL, or the key or the value is not Latin-1 text"@,
    }
}

impl FormatError {
    /// The text shown to a user for this fault.
    pub fn message(&self) -> (r: String)
        ensures
            r@ == message_of(*self),
    {
        match self {
            FormatError::NotAPng => String::from_str("not a valid PNG file"),
            FormatError::MissingHeader => String::from_str("the PNG header chunk is missing or malformed"),
            FormatError::CorruptImageData => String::from_str("the PNG image data is corrupt"),
            FormatError::UnsupportedColorType => String::from_str(
                "the image's colour configuration cannot be written",
            ),
            FormatError::KeyTooLong => String::from_str("the key is longer than 79 characters"),
            FormatError::InvalidEncoding => String::from_str(
                "the key is empty or holds a NUL, or the key or the value is not Latin-1 text",
            ),
        }
    }
}

} // verus!
