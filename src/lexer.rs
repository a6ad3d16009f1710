use vstd::prelude::*;
use vstd::string::{StrSliceExecFns, StringExecFns};
use crate::position::PositionContainer;
use crate::token::{keyword_kind, source_form, symbol_kind, Token, TokenKind};

verus! {

/// What went wrong while reading a token.
#[derive(Debug, Clone, Copy, PartialEq, Eq)]
pub enum LexErrorKind {
    /// A character that starts no token.
    UnexpectedCharacter,
    /// A numeric literal with more than one `.`, or ending in `.`.
    MalformedNumber,
    /// An integer literal larger than `i64::MAX`.
    IntegerOverflow,
}

/// A lexical error at the position of the token it occurred in.
#[derive(Debug, Clone, Copy, PartialEq, Eq)]
pub struct LexError {
    pub kind: LexErrorKind,
    pub line: usize,
    pub column: usize,
}

/// Space, tab and carriage return; a line break is a token.
pub open spec fn is_blank(c: char) -> bool {
    c == ' ' || c == '\t' || c == '\r'
}

pub open spec fn is_letter(c: char) -> bool {
    ('a' <= c && c <= 'z') || ('A' <= c && c <= 'Z')
}

pub open spec fn is_digit(c: char) -> bool {
    '0' <= c && c <= '9'
}

/// A character that may continue a name.
pub open spec fn is_word_char(c: char) -> bool {
    is_letter(c) || is_digit(c) || c == '_'
}

/// A character that may continue a numeric literal.
pub open spec fn is_number_char(c: char) -> bool {
    is_digit(c) || c == '.'
}

/// A character that may continue a comment.
pub open spec fn is_comment_char(c: char) -> bool {
    c != '\n'
}

/// End of the longest run of characters that satisfy `p`, starting at `i`.
pub open spec fn run_end(s: Seq<char>, i: int, p: spec_fn(char) -> bool) -> int
    decreases s.len() - i,
{
    if 0 <= i < s.len() && p(s[i]) {
        run_end(s, i + 1, p)
    } else {
        i
    }
}

/// The value of a string of decimal digits.
pub open spec fn digits_value(t: Seq<char>) -> nat
    decreases t.len(),
{
    if t.len() == 0 {
        0
    } else {
        digits_value(t.drop_last()) * 10 + (t.last() as nat - '0' as nat) as nat
    }
}

/// The number of `.` in `t`.
pub open spec fn dot_count(t: Seq<char>) -> nat
    decreases t.len(),
{
    if t.len() == 0 {
        0
    } else {
        dot_count(t.drop_last()) + if t.last() == '.' { 1nat } else { 0nat }
    }
}

/// A floating point literal: digits, one `.`, digits.
pub open spec fn is_float_literal(t: Seq<char>) -> bool {
    &&& t.len() > 0
    &&& is_digit(t[0])
    &&& is_digit(t.last())
    &&& forall|j: int| 0 <= j < t.len() ==> is_number_char(#[trigger] t[j])
    &&& dot_count(t) == 1
}

/// A numeric literal: at most one `.`, and a digit at the end.
pub open spec fn well_formed_number(t: Seq<char>) -> bool {
    dot_count(t) <= 1 && t.len() > 0 && is_digit(t.last())
}

/// Where the token that starts at `i` (not a blank) ends, or why there is
/// none. Names and literals take the longest run; `//` takes the rest of the
/// line; `==` and `=/=` take precedence over `=`.
pub open spec fn token_end(s: Seq<char>, i: int) -> Result<int, LexErrorKind> {
    let c = s[i];
    if is_letter(c) {
        Ok(run_end(s, i, |c: char| is_word_char(c)))
    } else if is_digit(c) {
        let e = run_end(s, i, |c: char| is_number_char(c));
        let t = s.subrange(i, e);
        if !well_formed_number(t) {
            Err(LexErrorKind::MalformedNumber)
        } else if dot_count(t) == 0 && digits_value(t) > i64::MAX {
            Err(LexErrorKind::IntegerOverflow)
        } else {
            Ok(e)
        }
    } else if c == '/' && i + 1 < s.len() && s[i + 1] == '/' {
        Ok(run_end(s, i, |c: char| is_comment_char(c)))
    } else if c == '=' && i + 1 < s.len() && s[i + 1] == '=' {
        Ok(i + 2)
    } else if c == '=' && s.len() - i > 2 && s[i + 1] == '/' && s[i + 2] == '=' {
        Ok(i + 3)
    } else if symbol_kind(c) is Some {
        Ok(i + 1)
    } else {
        Err(LexErrorKind::UnexpectedCharacter)
    }
}

/// The spans `(start, end)` of the tokens of `s` from `i` on, or the start
/// and kind of the first error.
pub open spec fn lex_spans(s: Seq<char>, i: int) -> Result<Seq<(int, int)>, (int, LexErrorKind)>
    decreases s.len() - i,
{
    if i < 0 || i >= s.len() {
        Ok(Seq::empty())
    } else if is_blank(s[i]) {
        lex_spans(s, i + 1)
    } else {
        match token_end(s, i) {
            Err(kind) => Err((i, kind)),
            Ok(e) => {
                proof {
                    lemma_token_end(s, i);
                }
                match lex_spans(s, e) {
                    Ok(rest) => Ok(seq![(i, e)] + rest),
                    Err(err) => Err(err),
                }
            },
        }
    }
}

/// The token kind that the text `t` of a token stands for.
pub open spec fn denotes(k: TokenKind, t: Seq<char>) -> bool {
    if t.len() > 0 && is_letter(t[0]) {
        match keyword_kind(t) {
            Some(kw) => k == kw,
            None => k is Identifier && k->Identifier_0@ == t,
        }
    } else if t.len() > 0 && is_digit(t[0]) {
        if dot_count(t) == 0 {
            k is Int && k->Int_0 == digits_value(t)
        } else {
            k is Float && k->Float_0@ == t && is_float_literal(t)
        }
    } else if t.len() >= 2 && t[0] == '/' && t[1] == '/' {
        k is Comment && k->Comment_0@ == t.skip(2)
    } else if t =~= seq!['=', '='] {
        k == TokenKind::EqualEqual
    } else if t =~= seq!['=', '/', '='] {
        k == TokenKind::NotEqual
    } else {
        t.len() == 1 && symbol_kind(t[0]) == Some(k)
    }
}

/// Line (from one) of index `i` of `s`.
pub open spec fn line_of(s: Seq<char>, i: int) -> int
    decreases i,
{
    if i <= 0 {
        1
    } else if s[i - 1] == '\n' {
        line_of(s, i - 1) + 1
    } else {
        line_of(s, i - 1)
    }
}

/// Column (from one) of index `i` of `s`.
pub open spec fn column_of(s: Seq<char>, i: int) -> int
    decreases i,
{
    if i <= 0 {
        1
    } else if s[i - 1] == '\n' {
        1
    } else {
        column_of(s, i - 1) + 1
    }
}

/// `tokens` is what `s` reads as: one token per span, each standing for the
/// text of its span and carrying the position of the span's start.
pub open spec fn tokenization(s: Seq<char>, tokens: Seq<Token>) -> bool {
    &&& lex_spans(s, 0) is Ok
    &&& {
        let spans = lex_spans(s, 0)->Ok_0;
        &&& tokens.len() == spans.len()
        &&& forall|k: int|
            0 <= k < tokens.len() ==> {
                let (a, b) = #[trigger] spans[k];
                &&& denotes(tokens[k].value, s.subrange(a, b))
                &&& tokens[k].line == line_of(s, a)
                &&& tokens[k].column == column_of(s, a)
            }
    }
}

/// `e` is the first error of `s`, at the position where it starts.
pub open spec fn lex_failure(s: Seq<char>, e: LexError) -> bool {
    &&& lex_spans(s, 0) is Err
    &&& {
        let (at, kind) = lex_spans(s, 0)->Err_0;
        &&& e.kind == kind
        &&& e.line == line_of(s, at)
        &&& e.column == column_of(s, at)
    }
}

pub proof fn lemma_run_end(s: Seq<char>, i: int, p: spec_fn(char) -> bool)
    requires
        0 <= i <= s.len(),
    ensures
        i <= run_end(s, i, p) <= s.len(),
        forall|j: int| i <= j < run_end(s, i, p) ==> p(#[trigger] s[j]),
        run_end(s, i, p) < s.len() ==> !p(s[run_end(s, i, p)]),
    decreases s.len() - i,
{
    if i < s.len() && p(s[i]) {
        lemma_run_end(s, i + 1, p);
    }
}

/// A token ends after it starts, within the text, and holds no line break
/// unless it is one.
pub proof fn lemma_token_end(s: Seq<char>, i: int)
    requires
        0 <= i < s.len(),
        token_end(s, i) is Ok,
    ensures
        i < token_end(s, i)->Ok_0 <= s.len(),
        s[i] != '\n' ==> forall|j: int|
            i <= j < token_end(s, i)->Ok_0 ==> #[trigger] s[j] != '\n',
{
    lemma_run_end(s, i, |c: char| is_word_char(c));
    lemma_run_end(s, i, |c: char| is_number_char(c));
    lemma_run_end(s, i, |c: char| is_comment_char(c));
}

proof fn lemma_advance(s: Seq<char>, i: int, e: int)
    requires
        0 <= i <= e <= s.len(),
        forall|j: int| i <= j < e ==> #[trigger] s[j] != '\n',
    ensures
        line_of(s, e) == line_of(s, i),
        column_of(s, e) == column_of(s, i) + (e - i),
    decreases e - i,
{
    if e > i {
        lemma_advance(s, i, e - 1);
    }
}

/// The characters of `text`, in order.
fn chars_of(text: &str) -> (r: Vec<char>)
    ensures
        r@ == text@,
{
    let n = text.unicode_len();
    let mut r: Vec<char> = Vec::new();
    let mut i: usize = 0;
    while i < n
        invariant
            n == text@.len(),
            i <= n,
            r@ == text@.subrange(0, i as int),
        decreases n - i,
    {
        r.push(text.get_char(i));
        i += 1;
    }
    assert(r@ =~= text@);
    r
}

fn word_end(s: &Vec<char>, i: usize) -> (r: usize)
    requires
        i <= s.len(),
    ensures
        r == run_end(s@, i as int, |c: char| is_word_char(c)),
{
    let mut j = i;
    while j < s.len() && (('a' <= s[j] && s[j] <= 'z') || ('A' <= s[j] && s[j] <= 'Z') || (
    '0' <= s[j] && s[j] <= '9') || s[j] == '_')
        invariant
            i <= j <= s.len(),
            run_end(s@, j as int, |c: char| is_word_char(c)) == run_end(
                s@,
                i as int,
                |c: char| is_word_char(c),
            ),
        decreases s.len() - j,
    {
        j += 1;
    }
    j
}

fn number_end(s: &Vec<char>, i: usize) -> (r: usize)
    requires
        i <= s.len(),
    ensures
        r == run_end(s@, i as int, |c: char| is_number_char(c)),
{
    let mut j = i;
    while j < s.len() && (('0' <= s[j] && s[j] <= '9') || s[j] == '.')
        invariant
            i <= j <= s.len(),
            run_end(s@, j as int, |c: char| is_number_char(c)) == run_end(
                s@,
                i as int,
                |c: char| is_number_char(c),
            ),
        decreases s.len() - j,
    {
        j += 1;
    }
    j
}

fn line_end(s: &Vec<char>, i: usize) -> (r: usize)
    requires
        i <= s.len(),
    ensures
        r == run_end(s@, i as int, |c: char| is_comment_char(c)),
{
    let mut j = i;
    while j < s.len() && s[j] != '\n'
        invariant
            i <= j <= s.len(),
            run_end(s@, j as int, |c: char| is_comment_char(c)) == run_end(
                s@,
                i as int,
                |c: char| is_comment_char(c),
            ),
        decreases s.len() - j,
    {
        j += 1;
    }
    j
}

/// Whether the characters of `s` in `[i, e)` form a well-formed numeric
/// literal, and whether it holds a `.`.
fn check_number(s: &Vec<char>, i: usize, e: usize) -> (r: (bool, bool))
    requires
        i < e <= s.len(),
    ensures
        r.0 == well_formed_number(s@.subrange(i as int, e as int)),
        r.1 == (dot_count(s@.subrange(i as int, e as int)) > 0),
{
    let mut dots: usize = 0;
    let mut j = i;
    while j < e
        invariant
            i <= j <= e <= s.len(),
            dots == dot_count(s@.subrange(i as int, j as int)),
            dots <= j - i,
        decreases e - j,
    {
        assert(s@.subrange(i as int, j + 1).drop_last() =~= s@.subrange(i as int, j as int));
        if s[j] == '.' {
            dots += 1;
        }
        j += 1;
    }
    let last = s[e - 1];
    (dots <= 1 && '0' <= last && last <= '9', dots > 0)
}

proof fn lemma_digits_value_prefix(t: Seq<char>, k: int)
    requires
        0 <= k <= t.len(),
        forall|j: int| 0 <= j < t.len() ==> is_digit(#[trigger] t[j]),
    ensures
        digits_value(t.subrange(0, k)) <= digits_value(t),
    decreases t.len(),
{
    if k < t.len() {
        assert(t.drop_last().subrange(0, k) =~= t.subrange(0, k));
        lemma_digits_value_prefix(t.drop_last(), k);
    } else {
        assert(t.subrange(0, k) =~= t);
    }
}

/// The value of the digits of `s` in `[i, e)`, if it fits in an `i64`.
fn integer_value(s: &Vec<char>, i: usize, e: usize) -> (r: Option<i64>)
    requires
        i <= e <= s.len(),
        forall|j: int| i <= j < e ==> is_digit(#[trigger] s@[j]),
    ensures
        match r {
            Some(v) => v == digits_value(s@.subrange(i as int, e as int)),
            None => digits_value(s@.subrange(i as int, e as int)) > i64::MAX,
        },
{
    let mut v: i64 = 0;
    let mut j = i;
    while j < e
        invariant
            i <= j <= e <= s.len(),
            forall|k: int| i <= k < e ==> is_digit(#[trigger] s@[k]),
            v == digits_value(s@.subrange(i as int, j as int)),
        decreases e - j,
    {
        assert(s@.subrange(i as int, j + 1).drop_last() =~= s@.subrange(i as int, j as int));
        let d = (s[j] as u32 - '0' as u32) as i64;
        if v > (i64::MAX - d) / 10 {
            proof {
                let t = s@.subrange(i as int, e as int);
                assert(t.subrange(0, j + 1 - i) =~= s@.subrange(i as int, j + 1));
                lemma_digits_value_prefix(t, j + 1 - i);
            }
            return None;
        }
        v = v * 10 + d;
        j += 1;
    }
    Some(v)
}

/// The keyword spelled by the characters of `s` in `[i, e)`, if any.
fn keyword(s: &Vec<char>, i: usize, e: usize) -> (r: Option<TokenKind>)
    requires
        i <= e <= s.len(),
    ensures
        r == keyword_kind(s@.subrange(i as int, e as int)),
{
    let t = Ghost(s@.subrange(i as int, e as int));
    let n = e - i;
    if n == 8 && s[i] == 'f' && s[i + 1] == 'u' && s[i + 2] == 'n' && s[i + 3] == 'c' && s[i + 4]
        == 't' && s[i + 5] == 'i' && s[i + 6] == 'o' && s[i + 7] == 'n' {
        Some(TokenKind::Def)
    } else if n == 2 && s[i] == 'i' && s[i + 1] == 'f' {
        Some(TokenKind::If)
    } else if n == 4 && s[i] == 'e' && s[i + 1] == 'l' && s[i + 2] == 's' && s[i + 3] == 'e' {
        Some(TokenKind::Else)
    } else if n == 5 && s[i] == 'w' && s[i + 1] == 'h' && s[i + 2] == 'i' && s[i + 3] == 'l'
        && s[i + 4] == 'e' {
        Some(TokenKind::While)
    } else if n == 3 && s[i] == 'v' && s[i + 1] == 'a' && s[i + 2] == 'r' {
        Some(TokenKind::Var)
    } else if n == 6 && s[i] == 's' && s[i + 1] == 't' && s[i + 2] == 'r' && s[i + 3] == 'u'
        && s[i + 4] == 'c' && s[i + 5] == 't' {
        Some(TokenKind::Struct)
    } else if n == 3 && s[i] == 'p' && s[i + 1] == 't' && s[i + 2] == 'r' {
        Some(TokenKind::Pointer)
    } else {
        None
    }
}

fn symbol(c: char) -> (r: Option<TokenKind>)
    ensures
        r == symbol_kind(c),
{
    match c {
        '+' => Some(TokenKind::Plus),
        '*' => Some(TokenKind::Star),
        '-' => Some(TokenKind::Minus),
        '<' => Some(TokenKind::Less),
        '>' => Some(TokenKind::Greater),
        '(' => Some(TokenKind::OpeningParentheses),
        ')' => Some(TokenKind::ClosingParentheses),
        '{' => Some(TokenKind::OpeningCurlyBraces),
        '}' => Some(TokenKind::ClosingCurlyBraces),
        '[' => Some(TokenKind::OpeningSquareBrackets),
        ']' => Some(TokenKind::ClosingSquareBrackets),
        ',' => Some(TokenKind::Comma),
        ';' => Some(TokenKind::Semicolon),
        ':' => Some(TokenKind::Colon),
        '/' => Some(TokenKind::Slash),
        '=' => Some(TokenKind::Equal),
        '|' => Some(TokenKind::BitOr),
        '&' => Some(TokenKind::BitAnd),
        '%' => Some(TokenKind::Modulus),
        '.' => Some(TokenKind::Dot),
        '\n' => Some(TokenKind::EndOfLine),
        _ => None,
    }
}

/// Reads the token that starts at index `i` of `s` (the characters of
/// `text`): its kind and where it ends.
fn scan_token(text: &str, s: &Vec<char>, i: usize) -> (r: Result<(TokenKind, usize), LexErrorKind>)
    requires
        s@ == text@,
        i < s.len(),
        !is_blank(s@[i as int]),
    ensures
        match r {
            Ok((kind, e)) => token_end(s@, i as int) == Ok::<int, LexErrorKind>(e as int)
                && denotes(kind, s@.subrange(i as int, e as int)),
            Err(kind) => token_end(s@, i as int) == Err::<int, LexErrorKind>(kind),
        },
{
    let c = s[i];
    if ('a' <= c && c <= 'z') || ('A' <= c && c <= 'Z') {
        let e = word_end(s, i);
        proof {
            lemma_run_end(s@, i as int, |c: char| is_word_char(c));
        }
        match keyword(s, i, e) {
            Some(kind) => Ok((kind, e)),
            None => Ok((TokenKind::Identifier(String::from_str(text.substring_char(i, e))), e)),
        }
    } else if '0' <= c && c <= '9' {
        let e = number_end(s, i);
        proof {
            lemma_run_end(s@, i as int, |c: char| is_number_char(c));
        }
        let (well_formed, has_dot) = check_number(s, i, e);
        if !well_formed {
            Err(LexErrorKind::MalformedNumber)
        } else if has_dot {
            Ok((TokenKind::Float(String::from_str(text.substring_char(i, e))), e))
        } else {
            proof {
                let t = s@.subrange(i as int, e as int);
                assert forall|j: int| i <= j < e implies is_digit(#[trigger] s@[j]) by {
                    if s@[j] == '.' {
                        lemma_dot_count_positive(t, j - i);
                    }
                }
            }
            match integer_value(s, i, e) {
                Some(v) => Ok((TokenKind::Int(v), e)),
                None => Err(LexErrorKind::IntegerOverflow),
            }
        }
    } else if c == '/' && i + 1 < s.len() && s[i + 1] == '/' {
        let e = line_end(s, i);
        proof {
            lemma_run_end(s@, i as int, |c: char| is_comment_char(c));
            assert(s@.subrange(i as int, e as int).skip(2) =~= s@.subrange(i + 2, e as int));
        }
        Ok((TokenKind::Comment(String::from_str(text.substring_char(i + 2, e))), e))
    } else if c == '=' && i + 1 < s.len() && s[i + 1] == '=' {
        assert(s@.subrange(i as int, i + 2) =~= seq!['=', '=']);
        Ok((TokenKind::EqualEqual, i + 2))
    } else if c == '=' && s.len() - i > 2 && s[i + 1] == '/' && s[i + 2] == '=' {
        assert(s@.subrange(i as int, i + 3) =~= seq!['=', '/', '=']);
        Ok((TokenKind::NotEqual, i + 3))
    } else {
        match symbol(c) {
            Some(kind) => {
                assert(s@.subrange(i as int, i + 1) =~= seq![c]);
                Ok((kind, i + 1))
            },
            None => Err(LexErrorKind::UnexpectedCharacter),
        }
    }
}

proof fn lemma_dot_count_positive(t: Seq<char>, j: int)
    requires
        0 <= j < t.len(),
        t[j] == '.',
    ensures
        dot_count(t) > 0,
    decreases t.len(),
{
    if j < t.len() - 1 {
        lemma_dot_count_positive(t.drop_last(), j);
    }
}

/// The spans `done` followed by the outcome `rest` of reading the remainder.
pub open spec fn joined(
    done: Seq<(int, int)>,
    rest: Result<Seq<(int, int)>, (int, LexErrorKind)>,
) -> Result<Seq<(int, int)>, (int, LexErrorKind)> {
    match rest {
        Ok(spans) => Ok(done + spans),
        Err(err) => Err(err),
    }
}

/// Splits `text` into tokens, each with the line and column of its first
/// character. Blanks other than line breaks separate tokens and are
/// dropped; a line break is an `EndOfLine` token. Fails at the first
/// position where no token can be read.
pub fn tokenize(text: &str) -> (r: Result<Vec<Token>, LexError>)
    requires
        text@.len() < usize::MAX,
    ensures
        match r {
            Ok(tokens) => tokenization(text@, tokens@),
            Err(e) => lex_failure(text@, e),
        },
{
    let s = chars_of(text);
    let mut tokens: Vec<Token> = Vec::new();
    let ghost mut spans: Seq<(int, int)> = Seq::empty();
    let mut i: usize = 0;
    let mut line: usize = 1;
    let mut column: usize = 1;
    while i < s.len()
        invariant
            s@ == text@,
            s.len() < usize::MAX,
            i <= s.len(),
            line == line_of(s@, i as int),
            column == column_of(s@, i as int),
            line <= i + 1,
            column <= i + 1,
            lex_spans(s@, 0) == joined(spans, lex_spans(s@, i as int)),
            tokens.len() == spans.len(),
            forall|k: int|
                0 <= k < tokens.len() ==> {
                    let (a, b) = #[trigger] spans[k];
                    &&& denotes(tokens@[k].value, s@.subrange(a, b))
                    &&& tokens@[k].line == line_of(s@, a)
                    &&& tokens@[k].column == column_of(s@, a)
                },
        decreases s.len() - i,
    {
        let c = s[i];
        if c == ' ' || c == '\t' || c == '\r' {
            i += 1;
            column += 1;
        } else {
            match scan_token(text, &s, i) {
                Err(kind) => {
                    return Err(LexError { kind, line, column });
                },
                Ok((kind, e)) => {
                    proof {
                        lemma_token_end(s@, i as int);
                        let rest = lex_spans(s@, e as int);
                        if rest is Ok {
                            assert(spans + (seq![(i as int, e as int)] + rest->Ok_0) =~= spans.push(
                                (i as int, e as int),
                            ) + rest->Ok_0);
                        }
                    }
                    tokens.push(PositionContainer::new(kind, line, column));
                    proof {
                        spans = spans.push((i as int, e as int));
                    }
                    if c == '\n' {
                        line += 1;
                        column = 1;
                    } else {
                        proof {
                            lemma_advance(s@, i as int, e as int);
                        }
                        column += e - i;
                    }
                    i = e;
                },
            }
        }
    }
    assert(spans + Seq::empty() =~= spans);
    Ok(tokens)
}

proof fn lemma_denotes_source_form(k: TokenKind, t: Seq<char>)
    requires
        denotes(k, t),
        !(k is Int),
    ensures
        source_form(k) == t,
{
    if t.len() > 0 && is_letter(t[0]) {
        if keyword_kind(t) is None {
            assert(source_form(k) == t);
        }
    } else if t.len() > 0 && is_digit(t[0]) {
    } else if t.len() >= 2 && t[0] == '/' && t[1] == '/' {
        assert(source_form(k) =~= t);
    } else if t =~= seq!['=', '='] {
    } else if t =~= seq!['=', '/', '='] {
    } else {
        assert(source_form(k) =~= t);
    }
}

/// Tokenizing and then writing each token back in its source form gives
/// the text each token was read from, for every kind of token but integer
/// literals (which are written without leading zeros).
pub proof fn lemma_source_form_round_trip(s: Seq<char>, tokens: Seq<Token>, k: int)
    requires
        tokenization(s, tokens),
        0 <= k < tokens.len(),
        !(tokens[k].value is Int),
    ensures
        source_form(tokens[k].value) == s.subrange(
            lex_spans(s, 0)->Ok_0[k].0,
            lex_spans(s, 0)->Ok_0[k].1,
        ),
{
    let spans = lex_spans(s, 0)->Ok_0;
    let (a, b) = spans[k];
    lemma_denotes_source_form(tokens[k].value, s.subrange(a, b));
}

proof fn lemma_no_dot(t: Seq<char>)
    requires
        forall|j: int| 0 <= j < t.len() ==> is_digit(#[trigger] t[j]),
    ensures
        dot_count(t) == 0,
    decreases t.len(),
{
    if t.len() > 0 {
        lemma_no_dot(t.drop_last());
    }
}

proof fn lemma_whole_run(s: Seq<char>, p: spec_fn(char) -> bool)
    requires
        forall|j: int| 0 <= j < s.len() ==> p(#[trigger] s[j]),
    ensures
        run_end(s, 0, p) == s.len(),
{
    lemma_run_end(s, 0, p);
    if run_end(s, 0, p) < s.len() {
        assert(p(s[run_end(s, 0, p)]));
    }
}

/// A literal made of decimal digits alone reads as one integer token that
/// holds its exact value, when that value fits in an `i64`.
pub proof fn lemma_integer_literal(s: Seq<char>, tokens: Seq<Token>)
    requires
        s.len() > 0,
        forall|j: int| 0 <= j < s.len() ==> is_digit(#[trigger] s[j]),
        digits_value(s) <= i64::MAX,
    ensures
        lex_spans(s, 0) == Ok::<Seq<(int, int)>, (int, LexErrorKind)>(seq![(0int, s.len() as int)]),
        tokenization(s, tokens) ==> tokens.len() == 1 && tokens[0].value == TokenKind::Int(
            digits_value(s) as i64,
        ),
{
    lemma_whole_run(s, |c: char| is_number_char(c));
    lemma_no_dot(s);
    assert(s.subrange(0, s.len() as int) =~= s);
    assert(run_end(s, 0, |c: char| is_number_char(c)) == s.len());
    assert(well_formed_number(s));
    assert(token_end(s, 0) == Ok::<int, LexErrorKind>(s.len() as int));
    assert(lex_spans(s, s.len() as int) == Ok::<Seq<(int, int)>, (int, LexErrorKind)>(
        Seq::empty(),
    ));
    assert(!is_blank(s[0]));
    assert(seq![(0int, s.len() as int)] + Seq::<(int, int)>::empty() =~= seq![(0int, s.len() as int)]);
    if tokenization(s, tokens) {
        let spans = lex_spans(s, 0)->Ok_0;
        assert(spans[0] == (0int, s.len() as int));
        assert(denotes(tokens[0].value, s.subrange(0, s.len() as int)));
    }
}

/// A numeric literal with a second `.` is an error at its start, not a
/// partial token.
pub proof fn lemma_second_point(s: Seq<char>)
    requires
        s.len() > 0,
        is_digit(s[0]),
        forall|j: int| 0 <= j < s.len() ==> is_number_char(#[trigger] s[j]),
        dot_count(s) >= 2,
    ensures
        lex_spans(s, 0) == Err::<Seq<(int, int)>, (int, LexErrorKind)>(
            (0int, LexErrorKind::MalformedNumber),
        ),
{
    lemma_whole_run(s, |c: char| is_number_char(c));
    assert(s.subrange(0, s.len() as int) =~= s);
}

/// Position `(line, column)` `p` comes before `q`.
pub open spec fn before(p: (int, int), q: (int, int)) -> bool {
    p.0 < q.0 || (p.0 == q.0 && p.1 < q.1)
}

proof fn lemma_spans_ordered(s: Seq<char>, i: int)
    requires
        0 <= i,
        lex_spans(s, i) is Ok,
    ensures
        forall|k: int|
            0 <= k < lex_spans(s, i)->Ok_0.len() ==> i <= (#[trigger] lex_spans(s, i)->Ok_0[k]).0
                < lex_spans(s, i)->Ok_0[k].1 <= s.len(),
        forall|j: int, k: int|
            0 <= j < k < lex_spans(s, i)->Ok_0.len() ==> (#[trigger] lex_spans(s, i)->Ok_0[j]).1
                <= (#[trigger] lex_spans(s, i)->Ok_0[k]).0,
    decreases s.len() - i,
{
    if i < s.len() {
        if is_blank(s[i]) {
            lemma_spans_ordered(s, i + 1);
        } else {
            let e = token_end(s, i)->Ok_0;
            lemma_token_end(s, i);
            lemma_spans_ordered(s, e);
            let rest = lex_spans(s, e)->Ok_0;
            assert(lex_spans(s, i)->Ok_0 == seq![(i, e)] + rest);
            assert forall|k: int| 0 < k < lex_spans(s, i)->Ok_0.len() implies lex_spans(
                s,
                i,
            )->Ok_0[k] == rest[k - 1] by {}
        }
    }
}

proof fn lemma_position_order(s: Seq<char>, a: int, b: int)
    requires
        0 <= a < b <= s.len(),
    ensures
        before((line_of(s, a), column_of(s, a)), (line_of(s, b), column_of(s, b))),
    decreases b - a,
{
    if b - 1 > a {
        lemma_position_order(s, a, b - 1);
    }
    lemma_line_monotone(s, a, b - 1);
}

proof fn lemma_line_monotone(s: Seq<char>, a: int, b: int)
    requires
        0 <= a <= b <= s.len(),
    ensures
        line_of(s, a) <= line_of(s, b),
    decreases b - a,
{
    if b > a {
        lemma_line_monotone(s, a, b - 1);
    }
}

/// The positions of the tokens of a text strictly increase along the token
/// sequence.
pub proof fn lemma_positions_increase(s: Seq<char>, tokens: Seq<Token>, j: int, k: int)
    requires
        tokenization(s, tokens),
        0 <= j < k < tokens.len(),
    ensures
        before(
            (tokens[j].line as int, tokens[j].column as int),
            (tokens[k].line as int, tokens[k].column as int),
        ),
{
    let spans = lex_spans(s, 0)->Ok_0;
    lemma_spans_ordered(s, 0);
    let (a, _) = spans[j];
    let (b, _) = spans[k];
    assert(spans[j].1 <= spans[k].0);
    lemma_position_order(s, a, b);
}

} // verus!
