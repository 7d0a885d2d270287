//! The tokens produced by the scanner.
//!
//! Every token carries a [`Span`] locating it in the source text; tokens
//! whose spelling matters ([`Id`], [`Symbol`]) also carry the matched
//! characters themselves.

use crate::Span;
use vstd::prelude::*;

verus! {

/// An identifier token: an identifier-start character (or underscore)
/// followed by identifier-continuation characters.
#[derive(Clone, Debug, PartialEq, Eq)]
pub struct Id {
    pub span: Span,
    /// The exact characters of the identifier in the source text.
    pub value: Vec<char>,
}

/// The kind of a [`Symbol`].
#[derive(Clone, Copy, Debug, PartialEq, Eq, Structural)]
pub enum SymbolKind {
    /// An identifier was used as the symbol's value.
    Id,
    /// A string was used as the symbol's value (reserved; never produced).
    Str,
}

/// The name of a symbol: a leading `@` followed by an identifier.
#[derive(Clone, Debug, PartialEq, Eq)]
pub struct Symbol {
    pub span: Span,
    pub kind: SymbolKind,
    /// The exact characters of the symbol, `@` included.
    pub value: Vec<char>,
}

/// The kind of a [`Keyword`].
#[derive(Clone, Copy, Debug, PartialEq, Eq, Structural)]
pub enum KeywordKind {
    Fn,
}

/// A keyword token, matched by exact-case spelling.
#[derive(Clone, Debug, PartialEq, Eq, Structural)]
pub struct Keyword {
    pub span: Span,
    pub kind: KeywordKind,
}

/// The kind of a [`Punct`].
#[derive(Clone, Copy, Debug, PartialEq, Eq, Structural)]
pub enum PunctKind {
    OpenParen,
    CloseParen,
    /// `->`
    Arrow,
    Colon,
}

/// A punctuation token.
#[derive(Clone, Debug, PartialEq, Eq, Structural)]
pub struct Punct {
    pub span: Span,
    pub kind: PunctKind,
}

/// The kind of an [`Inst`] token.
#[derive(Clone, Copy, Debug, PartialEq, Eq, Structural)]
pub enum InstKind {
    Ret,
}

/// An instruction mnemonic token, matched case-insensitively.
#[derive(Clone, Debug, PartialEq, Eq, Structural)]
pub struct Inst {
    pub span: Span,
    pub kind: InstKind,
}

/// Any token the scanner can produce.
#[derive(Clone, Debug, PartialEq, Eq)]
pub enum Token {
    Id(Id),
    Symbol(Symbol),
    Keyword(Keyword),
    Punct(Punct),
    Inst(Inst),
}

} // verus!
