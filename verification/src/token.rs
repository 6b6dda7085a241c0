use vstd::prelude::*;

verus! {

/// One token of the grammar source, as delivered by an external lexer.
///
/// Compound punctuation is classified by the lexer: `::` and `=>` arrive as
/// single tokens, never as two adjacent `:` or `=` tokens. The two embedded
/// host-language fragment kinds -- a result type after `:` in a rule header
/// and an action block after `=>` -- are parsed by an external host-language
/// parser and arrive as single opaque tokens carrying their text.
#[derive(Debug, PartialEq, Eq)]
pub enum Token {
    /// An identifier.
    Ident(String),
    /// A string literal, already decoded.
    StrLit(String),
    /// `&`
    Amp,
    /// `!`
    Bang,
    /// `?`
    Question,
    /// `*`
    Star,
    /// `+`
    Plus,
    /// `<`
    Lt,
    /// `>`
    Gt,
    /// `:`
    Colon,
    /// `::`
    PathSep,
    /// `=`
    Equals,
    /// `|`
    Pipe,
    /// `=>`
    FatArrow,
    /// `(`
    LParen,
    /// `)`
    RParen,
    /// An opaque, externally parsed type fragment.
    TypeFrag(String),
    /// An opaque, externally parsed code-block fragment.
    CodeFrag(String),
}

} // verus!
