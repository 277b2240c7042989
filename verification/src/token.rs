//! The lexical units the parser consumes: keywords, symbols, parentheses,
//! and literal tokens. The character-level tokenizer that produces them is an
//! external collaborator; the core consumes these values.

use vstd::prelude::*;
use crate::text::Text;

verus! {

/// A reserved word of the language.
#[derive(Clone, Copy, PartialEq, Eq, Structural, Debug, Hash)]
pub enum Keyword {
    Class,
    Method,
    Field,
    ClassField,
    ClassFn,
    Constructor,
    Function,
    Global,
    Local,
    If,
    Else,
    ComeFrom,
    While,
    Return,
    Try,
    Catch,
    Throw,
    Switch,
    Case,
    Assert,
}

/// Which bracket pair a parenthesis token belongs to.
#[derive(Clone, Copy, PartialEq, Eq, Structural, Debug, Hash)]
pub enum ParenKind {
    Round,
    Square,
    Curly,
}

/// A punctuation or operator token.
#[derive(Clone, Copy, PartialEq, Eq, Structural, Debug, Hash)]
pub enum Symbol {
    Endline,
    Comma,
    Colon,
    Dot,
    Equal,
    EqualEqual,
    NotEqual,
    LessThan,
    LessThanOrEqual,
    GreaterThan,
    GreaterThanOrEqual,
    Compare,
    Plus,
    PlusEqual,
    Hyphen,
    HyphenEqual,
    Asterisk,
    AsteriskEqual,
    Solidus,
    SolidusEqual,
    PercentSign,
    PercentSignEqual,
    Exclamation,
    AndAnd,
    OrOr,
}

/// A literal token: null, boolean, numeral, text, or text with embedded
/// interpolations (pairs of leading text and embedded token runs, closed by
/// trailing text).
#[derive(PartialEq, Eq, Debug)]
pub enum Literal {
    Ni,
    Boolean(bool),
    Numeral(i64),
    Text(Text),
    TextInterpolation(Vec<(Text, Vec<Token>)>, Text),
}

/// One lexical unit.
#[derive(PartialEq, Eq, Debug)]
pub enum Token {
    Keyword(Keyword),
    Symbol(Symbol),
    LeftParen(ParenKind),
    RightParen(ParenKind),
    Literal(Literal),
    Identifier(String),
    Label(String),
}

} // verus!
