//! The errors of the font cache, the typesetter and the renderer.
use vstd::prelude::*;

verus! {

/// Why an operation failed.
#[derive(Debug, Clone, PartialEq, Eq)]
pub enum Error {
    /// No source was registered under the name.
    UnknownFont(String),
    /// The bytes registered under the name are not a usable font, or could
    /// not be subset.
    MalformedFont(String),
    /// A lock around shared state could not be taken.
    LockError(String),
    /// The document could not be written.
    PdfWrite(String),
    /// Text was emitted with a font that has no embedding handle: the fonts
    /// were not finalized, or the font was never used for typesetting.
    FontNotFinalized(String),
    /// Glyphs were collected for a font whose subset is already built.
    FontFinalized(String),
}

impl Error {
    pub open spec fn is_unknown_font(&self, name: Seq<char>) -> bool {
        self matches Error::UnknownFont(m) && m@ == name
    }

    pub open spec fn is_malformed_font(&self, name: Seq<char>) -> bool {
        self matches Error::MalformedFont(m) && m@ == name
    }

    pub open spec fn is_lock_error(&self, name: Seq<char>) -> bool {
        self matches Error::LockError(m) && m@ == name
    }

    pub open spec fn is_font_not_finalized(&self, name: Seq<char>) -> bool {
        self matches Error::FontNotFinalized(m) && m@ == name
    }

    pub open spec fn is_font_finalized(&self, name: Seq<char>) -> bool {
        self matches Error::FontFinalized(m) && m@ == name
    }

    /// The name or message carried by the error.
    pub fn message(&self) -> (r: &String)
        ensures
            r == match self {
                Error::UnknownFont(m) => m,
                Error::MalformedFont(m) => m,
                Error::LockError(m) => m,
                Error::PdfWrite(m) => m,
                Error::FontNotFinalized(m) => m,
                Error::FontFinalized(m) => m,
            },
    {
        match self {
            Error::UnknownFont(m) => m,
            Error::MalformedFont(m) => m,
            Error::LockError(m) => m,
            Error::PdfWrite(m) => m,
            Error::FontNotFinalized(m) => m,
            Error::FontFinalized(m) => m,
        }
    }
}

} // verus!
