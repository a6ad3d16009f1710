use vstd::prelude::*;
use crate::position::PositionContainer;

verus! {

/// A token: its kind, at the position of its first character.
pub type Token = PositionContainer<TokenKind>;

/// The kinds of token of the language.
#[derive(Debug, Clone, PartialEq)]
pub enum TokenKind {
    /// Keyword `function`: a function definition.
    Def,
    /// Function, variable or data type name.
    Identifier(String),
    /// Floating point literal, as written (digits, one `.`, digits).
    Float(String),
    /// Integer literal.
    Int(i64),
    /// Comment: the text after `//` up to the end of the line.
    Comment(String),
    /// `+`
    Plus,
    /// `*`
    Star,
    /// `-`
    Minus,
    /// `<`
    Less,
    /// `>`
    Greater,
    /// `(`
    OpeningParentheses,
    /// `)`
    ClosingParentheses,
    /// `{`
    OpeningCurlyBraces,
    /// `}`
    ClosingCurlyBraces,
    /// `[`
    OpeningSquareBrackets,
    /// `]`
    ClosingSquareBrackets,
    /// `,`
    Comma,
    /// `;`
    Semicolon,
    /// `:`
    Colon,
    /// `/`
    Slash,
    /// `=`
    Equal,
    /// `==`
    EqualEqual,
    /// `=/=`
    NotEqual,
    /// `|`
    BitOr,
    /// `&`
    BitAnd,
    /// `%`
    Modulus,
    /// Keyword `if`.
    If,
    /// Keyword `else`.
    Else,
    /// Keyword `while`.
    While,
    /// `.`
    Dot,
    /// End of line, i.e. `\n`.
    EndOfLine,
    /// Keyword `ptr`.
    Pointer,
    /// Keyword `struct`.
    Struct,
    /// Keyword `var`.
    Var,
}

impl TokenKind {
    /// A copy of this token kind, equal to it.
    pub fn duplicate(&self) -> (r: TokenKind)
        ensures
            r == *self,
    {
        match self {
            TokenKind::Def => TokenKind::Def,
            TokenKind::Identifier(x) => TokenKind::Identifier(x.clone()),
            TokenKind::Float(x) => TokenKind::Float(x.clone()),
            TokenKind::Int(x) => TokenKind::Int(*x),
            TokenKind::Comment(x) => TokenKind::Comment(x.clone()),
            TokenKind::Plus => TokenKind::Plus,
            TokenKind::Star => TokenKind::Star,
            TokenKind::Minus => TokenKind::Minus,
            TokenKind::Less => TokenKind::Less,
            TokenKind::Greater => TokenKind::Greater,
            TokenKind::OpeningParentheses => TokenKind::OpeningParentheses,
            TokenKind::ClosingParentheses => TokenKind::ClosingParentheses,
            TokenKind::OpeningCurlyBraces => TokenKind::OpeningCurlyBraces,
            TokenKind::ClosingCurlyBraces => TokenKind::ClosingCurlyBraces,
            TokenKind::OpeningSquareBrackets => TokenKind::OpeningSquareBrackets,
            TokenKind::ClosingSquareBrackets => TokenKind::ClosingSquareBrackets,
            TokenKind::Comma => TokenKind::Comma,
            TokenKind::Semicolon => TokenKind::Semicolon,
            TokenKind::Colon => TokenKind::Colon,
            TokenKind::Slash => TokenKind::Slash,
            TokenKind::Equal => TokenKind::Equal,
            TokenKind::EqualEqual => TokenKind::EqualEqual,
            TokenKind::NotEqual => TokenKind::NotEqual,
            TokenKind::BitOr => TokenKind::BitOr,
            TokenKind::BitAnd => TokenKind::BitAnd,
            TokenKind::Modulus => TokenKind::Modulus,
            TokenKind::If => TokenKind::If,
            TokenKind::Else => TokenKind::Else,
            TokenKind::While => TokenKind::While,
            TokenKind::Dot => TokenKind::Dot,
            TokenKind::EndOfLine => TokenKind::EndOfLine,
            TokenKind::Pointer => TokenKind::Pointer,
            TokenKind::Struct => TokenKind::Struct,
            TokenKind::Var => TokenKind::Var,
        }
    }
}

/// The token kind of a one-character symbol, if `c` is one.
pub open spec fn symbol_kind(c: char) -> Option<TokenKind> {
    if c == '+' { Some(TokenKind::Plus) }
    else if c == '*' { Some(TokenKind::Star) }
    else if c == '-' { Some(TokenKind::Minus) }
    else if c == '<' { Some(TokenKind::Less) }
    else if c == '>' { Some(TokenKind::Greater) }
    else if c == '(' { Some(TokenKind::OpeningParentheses) }
    else if c == ')' { Some(TokenKind::ClosingParentheses) }
    else if c == '{' { Some(TokenKind::OpeningCurlyBraces) }
    else if c == '}' { Some(TokenKind::ClosingCurlyBraces) }
    else if c == '[' { Some(TokenKind::OpeningSquareBrackets) }
    else if c == ']' { Some(TokenKind::ClosingSquareBrackets) }
    else if c == ',' { Some(TokenKind::Comma) }
    else if c == ';' { Some(TokenKind::Semicolon) }
    else if c == ':' { Some(TokenKind::Colon) }
    else if c == '/' { Some(TokenKind::Slash) }
    else if c == '=' { Some(TokenKind::Equal) }
    else if c == '|' { Some(TokenKind::BitOr) }
    else if c == '&' { Some(TokenKind::BitAnd) }
    else if c == '%' { Some(TokenKind::Modulus) }
    else if c == '.' { Some(TokenKind::Dot) }
    else if c == '\n' { Some(TokenKind::EndOfLine) }
    else { None }
}

/// The keyword spelled by `t`, if it is one.
pub open spec fn keyword_kind(t: Seq<char>) -> Option<TokenKind> {
    if t =~= seq!['f', 'u', 'n', 'c', 't', 'i', 'o', 'n'] { Some(TokenKind::Def) }
    else if t =~= seq!['i', 'f'] { Some(TokenKind::If) }
    else if t =~= seq!['e', 'l', 's', 'e'] { Some(TokenKind::Else) }
    else if t =~= seq!['w', 'h', 'i', 'l', 'e'] { Some(TokenKind::While) }
    else if t =~= seq!['v', 'a', 'r'] { Some(TokenKind::Var) }
    else if t =~= seq!['s', 't', 'r', 'u', 'c', 't'] { Some(TokenKind::Struct) }
    else if t =~= seq!['p', 't', 'r'] { Some(TokenKind::Pointer) }
    else { None }
}

/// The decimal digits of a natural number, most significant first, without
/// leading zeros (`0` is written `0`).
pub open spec fn decimal(n: nat) -> Seq<char>
    decreases n,
{
    if n < 10 {
        seq![digit_char(n)]
    } else {
        decimal(n / 10).push(digit_char(n % 10))
    }
}

/// The character of a decimal digit.
pub open spec fn digit_char(d: nat) -> char {
    (('0' as nat) + d) as char
}

/// An integer in decimal, with a leading `-` when negative.
pub open spec fn int_text(v: int) -> Seq<char> {
    if v < 0 {
        seq!['-'] + decimal((-v) as nat)
    } else {
        decimal(v as nat)
    }
}

/// The text that a token of kind `k` stands for in source code.
pub open spec fn source_form(k: TokenKind) -> Seq<char> {
    match k {
        TokenKind::Def => seq!['f', 'u', 'n', 'c', 't', 'i', 'o', 'n'],
        TokenKind::Identifier(name) => name@,
        TokenKind::Float(text) => text@,
        TokenKind::Int(v) => int_text(v as int),
        TokenKind::Comment(text) => seq!['/', '/'] + text@,
        TokenKind::Plus => seq!['+'],
        TokenKind::Star => seq!['*'],
        TokenKind::Minus => seq!['-'],
        TokenKind::Less => seq!['<'],
        TokenKind::Greater => seq!['>'],
        TokenKind::OpeningParentheses => seq!['('],
        TokenKind::ClosingParentheses => seq![')'],
        TokenKind::OpeningCurlyBraces => seq!['{'],
        TokenKind::ClosingCurlyBraces => seq!['}'],
        TokenKind::OpeningSquareBrackets => seq!['['],
        TokenKind::ClosingSquareBrackets => seq![']'],
        TokenKind::Comma => seq![','],
        TokenKind::Semicolon => seq![';'],
        TokenKind::Colon => seq![':'],
        TokenKind::Slash => seq!['/'],
        TokenKind::Equal => seq!['='],
        TokenKind::EqualEqual => seq!['=', '='],
        TokenKind::NotEqual => seq!['=', '/', '='],
        TokenKind::BitOr => seq!['|'],
        TokenKind::BitAnd => seq!['&'],
        TokenKind::Modulus => seq!['%'],
        TokenKind::If => seq!['i', 'f'],
        TokenKind::Else => seq!['e', 'l', 's', 'e'],
        TokenKind::While => seq!['w', 'h', 'i', 'l', 'e'],
        TokenKind::Dot => seq!['.'],
        TokenKind::EndOfLine => seq!['\n'],
        TokenKind::Pointer => seq!['p', 't', 'r'],
        TokenKind::Struct => seq!['s', 't', 'r', 'u', 'c', 't'],
        TokenKind::Var => seq!['v', 'a', 'r'],
    }
}

} // verus!
