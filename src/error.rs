use vstd::prelude::*;

verus! {

/// Why a syntax tree or a literal could not be turned into an AST.
/// Every failure is terminal: no partial tree is returned.
#[derive(Debug, Clone, Copy, PartialEq, Eq, Structural)]
pub enum DError {
    /// A node carries a rule tag that the deserializer does not handle.
    UnknownRule,
    /// A numeric literal is malformed or does not fit its representation.
    ConstValueTooLarge,
    /// A composite node has missing children or unexpected trailing content.
    UnknownExpression,
    /// A character literal whose body starts with an unescaped `'`.
    UnescapedSingleQuote,
    /// A character literal with an empty body.
    EmptyCharLiteral,
    /// A backslash followed by a character outside the escape table.
    UnknownEscape,
    /// A character literal holding more than one logical character.
    TooLongCharacter,
    /// A string body that ends in a lone backslash.
    UnterminatedString,
}

impl DError {
    /// A short human-readable description of the error.
    pub fn message(&self) -> (r: &'static str) {
        match self {
            DError::UnknownRule => "unknown rule",
            DError::ConstValueTooLarge => "constant value too large",
            DError::UnknownExpression => "unknown expression",
            DError::UnescapedSingleQuote => "unescaped single quote",
            DError::EmptyCharLiteral => "empty char literal",
            DError::UnknownEscape => "unknown escaped character",
            DError::TooLongCharacter => "the input is too long to fit in a character",
            DError::UnterminatedString => "string should be closed",
        }
    }
}

} // verus!
