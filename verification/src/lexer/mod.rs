//! Tokens of the language and the character classes the scanner uses.
use vstd::prelude::*;

pub mod scan;

verus! {

/// The kinds of tokens the scanner produces.
#[derive(Debug, Clone, Copy, PartialEq, Eq, Structural, Hash)]
pub enum TokenType {
    // ----- Type keywords -----
    KwInt,
    KwChar,
    KwString,
    KwFloat,
    KwVoid,
    KwBool,
    KwTrue,
    KwFalse,
    KwStruct,
    // ----- Other keywords -----
    KwIf,
    KwElse,
    KwWhile,
    KwFor,
    KwReturn,
    KwBreak,
    KwContinue,
    // ----- Literals & names -----
    Identifier,
    IntegerLiteral,
    FloatLiteral,
    StringLiteral,
    // ----- Operators (single char) -----
    OpPlus,
    OpMinus,
    OpStar,
    OpSlash,
    OpPercent,
    OpEqual,
    OpLess,
    OpGreater,
    OpExclaim,
    OpAmp,
    // ----- Two-character operators -----
    OpEqualEqual,
    OpNotEqual,
    OpLessEqual,
    OpGreaterEqual,
    OpLogAnd,
    OpLogOr,
    SlashSlash,
    // ----- Punctuation -----
    Semicolon,
    Comma,
    Lparen,
    Rparen,
    Lbrace,
    Rbrace,
    Lbracket,
    Rbracket,
    // ----- Special -----
    EndOfFile,
    Error,
}

/// A token: its kind, the text it was scanned from, the line it starts on
/// (counted from 0) and its column (`pos`, counted from 1) within that line.
#[derive(Debug, Clone, Copy)]
pub struct Token<'a> {
    pub pos: usize,
    pub line: u16,
    pub token_type: TokenType,
    pub lexeme: &'a str,
}

/// Two tokens are equal when their texts are.
impl<'a> PartialEq for Token<'a> {
    fn eq(&self, other: &Self) -> (r: bool) {
        crate::parser::literal::str_equal(self.lexeme, other.lexeme)
    }
}

impl<'a> vstd::std_specs::cmp::PartialEqSpecImpl for Token<'a> {
    open spec fn obeys_eq_spec() -> bool {
        true
    }

    open spec fn eq_spec(&self, other: &Self) -> bool {
        self.lexeme@ == other.lexeme@
    }
}

impl<'a> Eq for Token<'a> {

}

/// Blanks skipped between tokens.
pub open spec fn is_ws(c: char) -> bool {
    c == ' ' || c == '\r' || c == '\t' || c == '\n'
}

/// Decimal digits: on ASCII text these are exactly the numeric characters.
pub open spec fn is_digit(c: char) -> bool {
    '0' <= c <= '9'
}

/// Letters: on ASCII text these are exactly the alphabetic characters.
pub open spec fn is_alpha(c: char) -> bool {
    ('a' <= c <= 'z') || ('A' <= c <= 'Z')
}

pub open spec fn is_alnum(c: char) -> bool {
    is_digit(c) || is_alpha(c)
}

pub fn char_is_ws(c: char) -> (r: bool)
    ensures
        r == is_ws(c),
{
    c == ' ' || c == '\r' || c == '\t' || c == '\n'
}

pub fn char_is_digit(c: char) -> (r: bool)
    ensures
        r == is_digit(c),
{
    '0' <= c && c <= '9'
}

pub fn char_is_alpha(c: char) -> (r: bool)
    ensures
        r == is_alpha(c),
{
    ('a' <= c && c <= 'z') || ('A' <= c && c <= 'Z')
}

pub fn char_is_alnum(c: char) -> (r: bool)
    ensures
        r == is_alnum(c),
{
    char_is_digit(c) || char_is_alpha(c)
}

/// The token type of a scanned word: a keyword or an identifier.
pub open spec fn spec_keyword_type(w: Seq<char>) -> TokenType {
    if w == seq!['i', 'n', 't'] {
        TokenType::KwInt
    } else if w == seq!['c', 'h', 'a', 'r'] {
        TokenType::KwChar
    } else if w == seq!['f', 'l', 'o', 'a', 't'] {
        TokenType::KwFloat
    } else if w == seq!['v', 'o', 'i', 'd'] {
        TokenType::KwVoid
    } else if w == seq!['b', 'o', 'o', 'l'] {
        TokenType::KwBool
    } else if w == seq!['s', 't', 'r', 'u', 'c', 't'] {
        TokenType::KwStruct
    } else if w == seq!['i', 'f'] {
        TokenType::KwIf
    } else if w == seq!['e', 'l', 's', 'e'] {
        TokenType::KwElse
    } else if w == seq!['w', 'h', 'i', 'l', 'e'] {
        TokenType::KwWhile
    } else if w == seq!['f', 'o', 'r'] {
        TokenType::KwFor
    } else if w == seq!['r', 'e', 't', 'u', 'r', 'n'] {
        TokenType::KwReturn
    } else if w == seq!['b', 'r', 'e', 'a', 'k'] {
        TokenType::KwBreak
    } else if w == seq!['c', 'o', 'n', 't', 'i', 'n', 'u', 'e'] {
        TokenType::KwContinue
    } else if w == seq!['t', 'r', 'u', 'e'] {
        TokenType::KwTrue
    } else if w == seq!['f', 'a', 'l', 's', 'e'] {
        TokenType::KwFalse
    } else {
        TokenType::Identifier
    }
}

} // verus!
