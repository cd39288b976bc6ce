use vstd::prelude::*;

verus! {

/// Ghost mirror of [`Error`]: the same variants, with every stored string
/// replaced by its character sequence, so that contracts can speak about
/// errors without constructing heap strings.
pub enum ErrV {
    /// A required section is absent; carries the section name.
    SectionMissing(Seq<char>),
    /// A required key is absent from its section; carries the key name.
    KeyMissing(Seq<char>),
    /// The text under a key does not parse as a decimal number; carries the key name.
    NumberFormat(Seq<char>),
    /// A parsed number lies outside a range-checked primitive's bounds; carries the key name.
    Range(Seq<char>),
    /// A parsed number is not one of an enumeration's declared ordinals; carries the key name.
    InvalidOrdinal(Seq<char>),
    /// The raw text is not a well-formed key/value document; carries a description.
    DocumentSyntax(Seq<char>),
    /// A failure at the file-system boundary; carries a description.
    Io(Seq<char>),
}

/// Everything that can go wrong while decoding a document into the data model.
///
/// Decoding never panics: every malformed input is reported through one of
/// these variants, each carrying the section or key it concerns.
#[derive(Clone, Debug, PartialEq, Eq)]
pub enum Error {
    /// A required section is absent; carries the section name.
    SectionMissing(String),
    /// A required key is absent from its section; carries the key name.
    KeyMissing(String),
    /// The text under a key does not parse as a decimal number; carries the key name.
    NumberFormat(String),
    /// A parsed number lies outside a range-checked primitive's bounds; carries the key name.
    Range(String),
    /// A parsed number is not one of an enumeration's declared ordinals; carries the key name.
    InvalidOrdinal(String),
    /// The raw text is not a well-formed key/value document; carries a description.
    DocumentSyntax(String),
    /// A failure at the file-system boundary; carries a description.
    Io(String),
}

impl View for Error {
    type V = ErrV;

    open spec fn view(&self) -> ErrV {
        match self {
            Error::SectionMissing(s) => ErrV::SectionMissing(s@),
            Error::KeyMissing(s) => ErrV::KeyMissing(s@),
            Error::NumberFormat(s) => ErrV::NumberFormat(s@),
            Error::Range(s) => ErrV::Range(s@),
            Error::InvalidOrdinal(s) => ErrV::InvalidOrdinal(s@),
            Error::DocumentSyntax(s) => ErrV::DocumentSyntax(s@),
            Error::Io(s) => ErrV::Io(s@),
        }
    }
}

/// The view of a fallible result: values kept as they are, errors abstracted
/// to [`ErrV`]. Contracts of the decoders are stated over this form.
pub open spec fn res_view<T>(r: Result<T, Error>) -> Result<T, ErrV> {
    match r {
        Ok(v) => Ok(v),
        Err(e) => Err(e@),
    }
}

/// The view of a list of collected diagnostics.
pub open spec fn errs_view(s: Seq<Error>) -> Seq<ErrV> {
    s.map_values(|e: Error| e@)
}

} // verus!
