//! The failures a parse can end in, and their model.

use vstd::prelude::*;

verus! {

/// Model of a parse failure.
pub enum ErrModel {
    /// The XML text is not well formed; carries the tokenizer's message.
    Syntax(Seq<char>),
    /// A required element or attribute is missing; carries its name.
    MissingField(Seq<char>),
    /// A schema field occurs twice in one element; carries its name.
    DuplicateField(Seq<char>),
    /// The document ends before the schema's elements are closed.
    UnexpectedEof,
    /// The minor-unit text is neither a number nor the sentinel; carries the text.
    BadMinorUnit(Seq<char>),
    /// The fund-flag attribute is present but `false`.
    FundFlagFalse,
    /// The fund-flag attribute is present but not a boolean; carries the text.
    BadFundFlag(Seq<char>),
}

/// A parse failure: either the XML text is not well formed (structural), or a
/// field's text fails one of the two field validators (value).
#[derive(Debug)]
pub enum DeError {
    /// The XML text is not well formed; carries the tokenizer's message.
    Syntax(String),
    /// A required element or attribute is missing; carries its name.
    MissingField(String),
    /// A schema field occurs twice in one element; carries its name.
    DuplicateField(String),
    /// The document ends before the schema's elements are closed.
    UnexpectedEof,
    /// The minor-unit text is neither a number nor the sentinel; carries the text.
    BadMinorUnit(String),
    /// The fund-flag attribute is present but `false`.
    FundFlagFalse,
    /// The fund-flag attribute is present but not a boolean; carries the text.
    BadFundFlag(String),
}

impl View for DeError {
    type V = ErrModel;

    open spec fn view(&self) -> ErrModel {
        match self {
            DeError::Syntax(s) => ErrModel::Syntax(s@),
            DeError::MissingField(s) => ErrModel::MissingField(s@),
            DeError::DuplicateField(s) => ErrModel::DuplicateField(s@),
            DeError::UnexpectedEof => ErrModel::UnexpectedEof,
            DeError::BadMinorUnit(s) => ErrModel::BadMinorUnit(s@),
            DeError::FundFlagFalse => ErrModel::FundFlagFalse,
            DeError::BadFundFlag(s) => ErrModel::BadFundFlag(s@),
        }
    }
}

/// Text of an error, for reporting: the expected shape and, where one
/// exists, the offending raw value.
pub open spec fn spec_message(e: ErrModel) -> Seq<char> {
    match e {
        ErrModel::Syntax(s) => "malformed XML: "@ + s,
        ErrModel::MissingField(s) => "missing field: "@ + s,
        ErrModel::DuplicateField(s) => "duplicate field: "@ + s,
        ErrModel::UnexpectedEof => "unexpected end of document"@,
        ErrModel::BadMinorUnit(s) => "invalid minor unit (expected a number or \"N.A.\"): "@ + s,
        ErrModel::FundFlagFalse => "invalid fund flag (expected `true`): false"@,
        ErrModel::BadFundFlag(s) => "invalid fund flag (expected `true`): "@ + s,
    }
}

impl DeError {
    /// Renders the error as text: the expected shape and, where one exists,
    /// the offending raw value.
    pub fn message(&self) -> (r: String)
        ensures
            r@ == spec_message(self@),
    {
        match self {
            DeError::Syntax(s) => {
                let mut m = String::from_str("malformed XML: ");
                m.append(s.as_str());
                m
            },
            DeError::MissingField(s) => {
                let mut m = String::from_str("missing field: ");
                m.append(s.as_str());
                m
            },
            DeError::DuplicateField(s) => {
                let mut m = String::from_str("duplicate field: ");
                m.append(s.as_str());
                m
            },
            DeError::UnexpectedEof => String::from_str("unexpected end of document"),
            DeError::BadMinorUnit(s) => {
                let mut m = String::from_str("invalid minor unit (expected a number or \"N.A.\"): ");
                m.append(s.as_str());
                m
            },
            DeError::FundFlagFalse => String::from_str("invalid fund flag (expected `true`): false"),
            DeError::BadFundFlag(s) => {
                let mut m = String::from_str("invalid fund flag (expected `true`): ");
                m.append(s.as_str());
                m
            },
        }
    }
}

} // verus!
