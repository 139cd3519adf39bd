use vstd::prelude::*;
use vstd::string::*;

verus! {

/// Everything that can go wrong inside the library.
#[derive(Clone, Copy, PartialEq, Eq, Debug, Structural)]
pub enum Error {
    /// The stream does not start with the magic number, or the length it
    /// declares differs from the length of the records that follow.
    MalformedHeader,
    /// A record holds a field value that its enumeration does not define.
    UnknownTag,
    /// The input ends in the middle of the header or of a record.
    Truncated,
    /// A fifth distinct voice was asked for.
    TooManyVoices,
    /// No rhythm type, dot and tuplet ratio give the requested tick count.
    UnrepresentableDuration,
    /// A value lies outside the range that the format supports.
    OutofBounds,
    /// A text does not name a value of the enumeration asked for.
    Parse,
    /// A text is not one of the numbers that the enumeration accepts.
    Unit,
    /// The part id is already registered with content.
    ItemExists,
}

/// Shorthand for results whose error is [`Error`].
pub type Result<T> = core::result::Result<T, Error>;

impl Error {
    /// What went wrong, in words.
    pub open spec fn text(self) -> Seq<char> {
        match self {
            Error::MalformedHeader => "Malformed Header"@,
            Error::UnknownTag => "Unknown Tag"@,
            Error::Truncated => "Truncated Data"@,
            Error::TooManyVoices => "Too Many Voices"@,
            Error::UnrepresentableDuration => "Unrepresentable Duration"@,
            Error::OutofBounds => "Data Out of Bounds"@,
            Error::Parse => "Parsing Error"@,
            Error::Unit => "Unnamed Error"@,
            Error::ItemExists => "Item Already Exists"@,
        }
    }

    /// What went wrong, in words.
    pub fn to_string(&self) -> (s: String)
        ensures
            s@ == self.text(),
    {
        match self {
            Error::MalformedHeader => String::from_str("Malformed Header"),
            Error::UnknownTag => String::from_str("Unknown Tag"),
            Error::Truncated => String::from_str("Truncated Data"),
            Error::TooManyVoices => String::from_str("Too Many Voices"),
            Error::UnrepresentableDuration => String::from_str("Unrepresentable Duration"),
            Error::OutofBounds => String::from_str("Data Out of Bounds"),
            Error::Parse => String::from_str("Parsing Error"),
            Error::Unit => String::from_str("Unnamed Error"),
            Error::ItemExists => String::from_str("Item Already Exists"),
        }
    }
}

} // verus!
