use vstd::prelude::*;

verus! {

/// What can go wrong while decoding code-signing data.
#[derive(Clone, Copy, Debug, PartialEq, Eq, Structural)]
pub enum MachOParseError {
    /// A code-signature load command exists, but no `__LINKEDIT` segment.
    MissingLinkedit,
    /// A header magic differs from the one expected at that place.
    BadMagic,
    /// An integer or a sub-slice read extends past the end of its buffer.
    Read,
    /// A computed offset underflows, overflows or lies outside its container.
    BadOffset,
    /// The code directory identifier has no NUL terminator.
    BadIdentifierString,
    /// Text is not valid UTF-8; holds the length of the longest valid prefix.
    Utf8Error(usize),
    /// A requirement expression nests deeper than the decoder allows.
    ExpressionTooDeep,
    /// The hash type has no digest implementation.
    UnsupportedHash,
    /// The hash type is known, but its digest is not implemented.
    NotImplemented,
}

/// The message text of each kind of error.
pub open spec fn error_text(e: MachOParseError) -> Seq<char> {
    match e {
        MachOParseError::MissingLinkedit => "unable to locate __LINKEDIT segment despite load command reference"@,
        MachOParseError::BadMagic => "bad magic value in blob header"@,
        MachOParseError::Read => "read past the end of the data"@,
        MachOParseError::BadOffset => "offset outside of its container"@,
        MachOParseError::BadIdentifierString => "identifier string isn't null terminated"@,
        MachOParseError::Utf8Error(_) => "invalid UTF-8 text"@,
        MachOParseError::ExpressionTooDeep => "requirement expression nested too deeply"@,
        MachOParseError::UnsupportedHash => "hasher not implemented"@,
        MachOParseError::NotImplemented => "digest not implemented for this hash type"@,
    }
}

impl MachOParseError {
    /// A short human-readable description of the error.
    pub fn describe(&self) -> (r: &'static str)
        ensures
            r@ == error_text(*self),
    {
        match self {
            MachOParseError::MissingLinkedit => "unable to locate __LINKEDIT segment despite load command reference",
            MachOParseError::BadMagic => "bad magic value in blob header",
            MachOParseError::Read => "read past the end of the data",
            MachOParseError::BadOffset => "offset outside of its container",
            MachOParseError::BadIdentifierString => "identifier string isn't null terminated",
            MachOParseError::Utf8Error(_) => "invalid UTF-8 text",
            MachOParseError::ExpressionTooDeep => "requirement expression nested too deeply",
            MachOParseError::UnsupportedHash => "hasher not implemented",
            MachOParseError::NotImplemented => "digest not implemented for this hash type",
        }
    }
}

} // verus!
