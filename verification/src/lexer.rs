//! The lexer: from source text to tokens.
use vstd::prelude::*;

use crate::errors::{ErrorCode, ErrorView, ZephyrError};
use crate::text::{
    byte_len, char_is_alphabetic, char_is_numeric, chars_eq_str, is_alphabetic,
    is_numeric, lemma_byte_len_bound, str_chars, string_byte_len, string_from_chars,
};
use crate::tokens::{
    Additive, Comparison, Location, LocationView, Logical, Multiplicative, Token, TokenType,
    TokenView, Unary, tokens_view,
};

verus! {

// ----- what the lexer reads -----

/// Whether position `i` of `cs` holds `c`.
pub open spec fn peek_is(cs: Seq<char>, i: int, c: char) -> bool {
    0 <= i < cs.len() && cs[i] == c
}

/// Per position of the input, whether std counts the character there as
/// numeric (`char::is_numeric`) and as alphabetic (`char::is_alphabetic`).
pub struct CharClasses {
    pub numeric: Seq<bool>,
    pub alphabetic: Seq<bool>,
}

/// The classes given per position.
pub open spec fn classes(numeric: Seq<bool>, alphabetic: Seq<bool>) -> CharClasses {
    CharClasses { numeric, alphabetic }
}

/// The classes that std gives the characters of `cs`.
pub open spec fn classes_of(cs: Seq<char>) -> CharClasses {
    CharClasses {
        numeric: Seq::new(cs.len(), |i: int| char_is_numeric(cs[i])),
        alphabetic: Seq::new(cs.len(), |i: int| char_is_alphabetic(cs[i])),
    }
}

/// Whether the character at `i` may continue an identifier.
pub open spec fn is_ident_at(cs: Seq<char>, cls: CharClasses, i: int) -> bool {
    cls.alphabetic[i] || cls.numeric[i] || cs[i] == '_'
}

/// The first position at or after `i` that does not hold a numeric character.
pub open spec fn digits_end(cs: Seq<char>, cls: CharClasses, i: int) -> int
    decreases cs.len() - i,
{
    if 0 <= i < cs.len() && cls.numeric[i] {
        digits_end(cs, cls, i + 1)
    } else {
        i
    }
}

/// The first position at or after `i` that cannot continue an identifier.
pub open spec fn ident_end(cs: Seq<char>, cls: CharClasses, i: int) -> int
    decreases cs.len() - i,
{
    if 0 <= i < cs.len() && is_ident_at(cs, cls, i) {
        ident_end(cs, cls, i + 1)
    } else {
        i
    }
}

/// Where a line comment whose text starts at `i` ends: just after the first
/// newline at or after `i`, or at the end of the input.
pub open spec fn line_comment_end(cs: Seq<char>, i: int) -> int
    decreases cs.len() - i,
{
    if 0 <= i < cs.len() {
        if cs[i] == '\n' {
            i + 1
        } else {
            line_comment_end(cs, i + 1)
        }
    } else {
        i
    }
}

/// Where a block comment whose text starts at `i` ends (just after the first
/// `*/`, or at the end of the input), with the line and column reached there:
/// each newline inside it starts a new line at column 0.
pub open spec fn block_comment_end(cs: Seq<char>, i: int, line: nat, col: nat) -> (int, nat, nat)
    decreases cs.len() - i,
{
    if 0 <= i < cs.len() {
        if cs[i] == '*' && peek_is(cs, i + 1, '/') {
            (i + 2, line, col)
        } else if cs[i] == '\n' {
            block_comment_end(cs, i + 1, line + 1, 0)
        } else {
            block_comment_end(cs, i + 1, line, col)
        }
    } else {
        (i, line, col)
    }
}

/// The character that a backslash followed by `c` stands for in a string literal.
pub open spec fn escaped(c: char) -> Option<char> {
    if c == '"' {
        Some('"')
    } else if c == '\\' {
        Some('\\')
    } else if c == 'n' {
        Some('\n')
    } else if c == 't' {
        Some('\t')
    } else if c == 'r' {
        Some('\r')
    } else {
        None
    }
}

/// How reading the body of a string literal ends.
pub enum StringScan {
    /// The literal ends before `end` (its closing quote or a newline is consumed);
    /// `value` is its text and `len` the width it is given.
    Closed { end: int, value: Seq<char>, len: nat },
    /// A backslash stands before a character that cannot be escaped.
    BadEscape { c: char },
    /// A backslash ends the input.
    NothingToEscape,
    /// The input ends inside the literal.
    Unterminated,
}

/// Reads the body of a string literal from `i`, with `value` and `len` read so far:
/// a double quote or a newline ends it, a backslash escapes the next character
/// (counted as two), any other character stands for itself (counted as one).
pub open spec fn scan_string(cs: Seq<char>, i: int, value: Seq<char>, len: nat) -> StringScan
    decreases cs.len() - i,
{
    if 0 <= i < cs.len() {
        let c = cs[i];
        if c == '"' || c == '\n' {
            StringScan::Closed { end: i + 1, value, len }
        } else if c == '\\' {
            if i + 1 < cs.len() {
                match escaped(cs[i + 1]) {
                    Some(r) => scan_string(cs, i + 2, value.push(r), len + 2),
                    None => StringScan::BadEscape { c: cs[i + 1] },
                }
            } else {
                StringScan::NothingToEscape
            }
        } else {
            scan_string(cs, i + 1, value.push(c), len + 1)
        }
    } else {
        StringScan::Unterminated
    }
}

/// The keyword that a word is, or `Symbol`.
pub open spec fn keyword_type(v: Seq<char>) -> TokenType {
    if v == "let"@ {
        TokenType::Let
    } else if v == "const"@ {
        TokenType::Const
    } else if v == "try"@ {
        TokenType::Try
    } else if v == "catch"@ {
        TokenType::Catch
    } else if v == "finally"@ {
        TokenType::Finally
    } else if v == "throw"@ {
        TokenType::Throw
    } else if v == "is"@ {
        TokenType::Is
    } else if v == "import"@ {
        TokenType::Import
    } else if v == "export"@ {
        TokenType::Export
    } else if v == "as"@ {
        TokenType::As
    } else if v == "expose"@ {
        TokenType::Expose
    } else if v == "for"@ {
        TokenType::For
    } else if v == "in"@ {
        TokenType::In
    } else if v == "while"@ {
        TokenType::While
    } else if v == "continue"@ {
        TokenType::Continue
    } else if v == "break"@ {
        TokenType::Break
    } else if v == "func"@ {
        TokenType::Function
    } else if v == "return"@ {
        TokenType::Return
    } else if v == "where"@ {
        TokenType::Where
    } else if v == "if"@ {
        TokenType::If
    } else if v == "else"@ {
        TokenType::Else
    } else if v == "match"@ {
        TokenType::Match
    } else if v == "debug"@ {
        TokenType::Debug
    } else if v == "enum"@ {
        TokenType::Enum
    } else {
        TokenType::Symbol
    }
}

/// The punctuation or operator token that starts at `i`: its kind, its text and
/// the position after it; `None` where no such token starts there.
pub open spec fn op_token(cs: Seq<char>, i: int) -> Option<(TokenType, Seq<char>, int)> {
    let c = cs[i];
    let j = i + 1;
    if c == '.' {
        if peek_is(cs, j, '.') {
            if peek_is(cs, j + 1, '=') {
                Some((TokenType::RangeInclusive, seq!['.', '.', '='], j + 2))
            } else {
                Some((TokenType::Range, seq!['.', '.'], j + 1))
            }
        } else {
            Some((TokenType::Dot, seq![c], j))
        }
    } else if c == ',' {
        Some((TokenType::Comma, seq![c], j))
    } else if c == ':' {
        Some((TokenType::Colon, seq![c], j))
    } else if c == ';' {
        Some((TokenType::Semicolon, seq![c], j))
    } else if c == '(' {
        Some((TokenType::OpenParan, seq![c], j))
    } else if c == ')' {
        Some((TokenType::CloseParan, seq![c], j))
    } else if c == '[' {
        Some((TokenType::OpenSquare, seq![c], j))
    } else if c == ']' {
        Some((TokenType::CloseSquare, seq![c], j))
    } else if c == '{' {
        Some((TokenType::OpenBrace, seq![c], j))
    } else if c == '}' {
        Some((TokenType::CloseBrace, seq![c], j))
    } else if c == '?' {
        Some((TokenType::QuestionMark, seq![c], j))
    } else if c == '+' {
        if peek_is(cs, j, '+') {
            Some((TokenType::Unary(Unary::Increment), seq!['+', '+'], j + 1))
        } else {
            Some((TokenType::Additive(Additive::Plus), seq![c], j))
        }
    } else if c == '-' {
        if peek_is(cs, j, '-') {
            Some((TokenType::Unary(Unary::Decrement), seq!['-', '-'], j + 1))
        } else if peek_is(cs, j, '>') {
            Some((TokenType::Arrow, seq!['-', '>'], j + 1))
        } else {
            Some((TokenType::Additive(Additive::Minus), seq![c], j))
        }
    } else if c == '*' {
        if peek_is(cs, j, '*') {
            Some((TokenType::Multiplicative(Multiplicative::Exponent), seq!['*', '*'], j + 1))
        } else {
            Some((TokenType::Multiplicative(Multiplicative::Multiply), seq![c], j))
        }
    } else if c == '%' {
        Some((TokenType::Multiplicative(Multiplicative::Modulo), seq![c], j))
    } else if c == '!' {
        if peek_is(cs, j, '=') {
            Some((TokenType::Comparison(Comparison::Neq), seq!['!', '='], j + 1))
        } else {
            Some((TokenType::Unary(Unary::Not), seq![c], j))
        }
    } else if c == '$' {
        Some((TokenType::Unary(Unary::Length), seq![c], j))
    } else if c == '&' {
        if peek_is(cs, j, '&') {
            Some((TokenType::Logical(Logical::And), seq!['&', '&'], j + 1))
        } else {
            None
        }
    } else if c == '|' {
        if peek_is(cs, j, '|') {
            Some((TokenType::Logical(Logical::Or), seq!['|', '|'], j + 1))
        } else {
            None
        }
    } else if c == '=' {
        if peek_is(cs, j, '=') {
            Some((TokenType::Comparison(Comparison::Eq), seq!['=', '='], j + 1))
        } else {
            Some((TokenType::Assign, seq![c], j))
        }
    } else if c == '<' {
        if peek_is(cs, j, '=') {
            Some((TokenType::Comparison(Comparison::LtEq), seq!['<', '='], j + 1))
        } else {
            Some((TokenType::Comparison(Comparison::Lt), seq![c], j))
        }
    } else if c == '>' {
        if peek_is(cs, j, '=') {
            Some((TokenType::Comparison(Comparison::GtEq), seq!['>', '='], j + 1))
        } else {
            Some((TokenType::Comparison(Comparison::Gt), seq![c], j))
        }
    } else {
        None
    }
}

// ----- one step of the lexer -----

/// What the lexer does with the character at a position.
pub enum LexStep {
    /// Nothing is emitted; lexing goes on at `next`, on `line`, at column `col`.
    Skip { next: int, line: nat, col: nat },
    /// `token` is emitted; lexing goes on at `next`, at the column where it ends.
    Emit { token: TokenView, next: int },
    /// Lexing stops with `err`.
    Fail { err: ErrorView },
}

/// A location of zero width at a column of a line.
pub open spec fn here(col: nat, line: nat, file: Seq<char>) -> LocationView {
    LocationView { start: col, end: col, line, file_name: Some(file) }
}

/// A token of kind `t` and text `value`, `len` wide, starting at `col`.
pub open spec fn emit(
    t: TokenType,
    value: Seq<char>,
    col: nat,
    len: nat,
    line: nat,
    file: Seq<char>,
    next: int,
) -> LexStep {
    LexStep::Emit {
        token: TokenView {
            value,
            t,
            location: LocationView { start: col, end: col + len, line, file_name: Some(file) },
        },
        next,
    }
}

/// An error of the lexer, located at `col`.
pub open spec fn fail(code: ErrorCode, message: Seq<char>, col: nat, line: nat, file: Seq<char>) -> LexStep {
    LexStep::Fail { err: ErrorView { code, message, location: Some(here(col, line, file)) } }
}

/// The step that the lexer takes at position `i`, which is on `line` at column `col`.
pub open spec fn lex_step(cs: Seq<char>, cls: CharClasses, i: int, line: nat, col: nat, file: Seq<char>) -> LexStep {
    let c = cs[i];
    if c == '\n' {
        LexStep::Skip { next: i + 1, line: line + 1, col: 0 }
    } else if c == ' ' || c == '\r' || c == '\t' {
        LexStep::Skip { next: i + 1, line, col: col + 1 }
    } else if c == '/' && peek_is(cs, i + 1, '/') {
        LexStep::Skip { next: line_comment_end(cs, i + 1), line: line + 1, col: 0 }
    } else if c == '/' && peek_is(cs, i + 1, '*') {
        let (e, l, k) = block_comment_end(cs, i + 2, line, col);
        LexStep::Skip { next: e, line: l, col: k + 2 }
    } else if c == '/' {
        emit(TokenType::Multiplicative(Multiplicative::Divide), seq![c], col, 1, line, file, i + 1)
    } else if cls.numeric[i] {
        let e = digits_end(cs, cls, i + 1);
        let v = cs.subrange(i, e);
        emit(TokenType::Number, v, col, byte_len(v), line, file, e)
    } else if c == '"' {
        match scan_string(cs, i + 1, seq![], 0) {
            StringScan::Closed { end, value, len } => emit(
                TokenType::String,
                value,
                col,
                len + 2,
                line,
                file,
                end,
            ),
            StringScan::BadEscape { c: e } => fail(
                ErrorCode::CannotEscape,
                "Cannot escape "@ + seq![e],
                col,
                line,
                file,
            ),
            StringScan::NothingToEscape => fail(
                ErrorCode::CannotEscape,
                "Nothing to escape"@,
                col,
                line,
                file,
            ),
            StringScan::Unterminated => fail(
                ErrorCode::UnterminatedString,
                "String not closed"@,
                col,
                line,
                file,
            ),
        }
    } else if cls.alphabetic[i] || c == '_' {
        let e = ident_end(cs, cls, i + 1);
        let e2 = if peek_is(cs, e, '!') {
            e + 1
        } else {
            e
        };
        let v = cs.subrange(i, e2);
        emit(keyword_type(v), v, col, byte_len(v), line, file, e2)
    } else {
        match op_token(cs, i) {
            Some((t, v, e)) => emit(t, v, col, v.len(), line, file, e),
            None => fail(
                ErrorCode::UnexpectedCharacter,
                "Unexpected '"@ + seq![c] + "'"@,
                col,
                line,
                file,
            ),
        }
    }
}

/// The end-of-file token, at the column and line where the input ends.
pub open spec fn eof_token(col: nat, line: nat, file: Seq<char>) -> TokenView {
    TokenView { value: seq![], t: TokenType::EOF, location: here(col, line, file) }
}

/// Lexing from position `i` (on `line`, at column `col`), after the tokens `acc`.
/// Every step moves forward (see `lemma_step_advances`), so the guards never fail.
pub open spec fn lex_from(
    cs: Seq<char>,
    cls: CharClasses,
    i: int,
    line: nat,
    col: nat,
    file: Seq<char>,
    acc: Seq<TokenView>,
) -> Result<Seq<TokenView>, ErrorView>
    decreases cs.len() - i,
{
    if 0 <= i < cs.len() {
        match lex_step(cs, cls, i, line, col, file) {
            LexStep::Skip { next, line: l, col: k } => if i < next <= cs.len() {
                lex_from(cs, cls, next, l, k, file, acc)
            } else {
                Ok(acc)
            },
            LexStep::Emit { token, next } => if i < next <= cs.len() {
                lex_from(cs, cls, next, line, token.location.end, file, acc.push(token))
            } else {
                Ok(acc)
            },
            LexStep::Fail { err } => Err(err),
        }
    } else {
        Ok(acc.push(eof_token(col, line, file)))
    }
}

/// The tokens of `cs`, read from file `file`, where its characters are of the
/// classes `cls`, ending with an end-of-file token; or the first error met.
pub open spec fn spec_lex_classified(cs: Seq<char>, cls: CharClasses, file: Seq<char>) -> Result<
    Seq<TokenView>,
    ErrorView,
> {
    lex_from(cs, cls, 0, 0, 0, file, seq![])
}

/// The tokens of `cs`, read from file `file`, ending with an end-of-file token;
/// or the first error met.
pub open spec fn spec_lex(cs: Seq<char>, file: Seq<char>) -> Result<Seq<TokenView>, ErrorView> {
    spec_lex_classified(cs, classes_of(cs), file)
}

/// The view of what `lex` returns.
pub open spec fn lex_result_view(r: Result<Vec<Token>, ZephyrError>) -> Result<Seq<TokenView>, ErrorView> {
    match r {
        Ok(ts) => Ok(tokens_view(ts@)),
        Err(e) => Err(e@),
    }
}


// ----- facts about the readers -----

proof fn lemma_digits_end(cs: Seq<char>, cls: CharClasses, i: int)
    requires
        0 <= i <= cs.len(),
    ensures
        i <= digits_end(cs, cls, i) <= cs.len(),
    decreases cs.len() - i,
{
    if i < cs.len() && cls.numeric[i] {
        lemma_digits_end(cs, cls, i + 1);
    }
}

proof fn lemma_ident_end(cs: Seq<char>, cls: CharClasses, i: int)
    requires
        0 <= i <= cs.len(),
    ensures
        i <= ident_end(cs, cls, i) <= cs.len(),
    decreases cs.len() - i,
{
    if i < cs.len() && is_ident_at(cs, cls, i) {
        lemma_ident_end(cs, cls, i + 1);
    }
}

proof fn lemma_line_comment_end(cs: Seq<char>, i: int)
    requires
        0 <= i < cs.len(),
    ensures
        i < line_comment_end(cs, i) <= cs.len(),
    decreases cs.len() - i,
{
    if cs[i] != '\n' {
        if i + 1 < cs.len() {
            lemma_line_comment_end(cs, i + 1);
        } else {
            assert(line_comment_end(cs, i + 1) == i + 1);
        }
    }
}

proof fn lemma_block_comment_end(cs: Seq<char>, i: int, line: nat, col: nat)
    requires
        0 <= i <= cs.len(),
    ensures
        ({
            let (e, l, k) = block_comment_end(cs, i, line, col);
            &&& i <= e <= cs.len()
            &&& l <= line + (e - i)
            &&& (k == col || k == 0)
        }),
    decreases cs.len() - i,
{
    if i < cs.len() {
        if cs[i] == '*' && peek_is(cs, i + 1, '/') {
        } else if cs[i] == '\n' {
            lemma_block_comment_end(cs, i + 1, line + 1, 0);
        } else {
            lemma_block_comment_end(cs, i + 1, line, col);
        }
    }
}

proof fn lemma_scan_string(cs: Seq<char>, i: int, value: Seq<char>, len: nat)
    requires
        0 <= i <= cs.len(),
    ensures
        scan_string(cs, i, value, len) matches StringScan::Closed { end, len: l, .. } ==> {
            &&& i < end <= cs.len()
            &&& l <= len + (end - 1 - i)
        },
    decreases cs.len() - i,
{
    if i < cs.len() {
        let c = cs[i];
        if c == '"' || c == '\n' {
        } else if c == '\\' {
            if i + 1 < cs.len() {
                if let Some(r) = escaped(cs[i + 1]) {
                    lemma_scan_string(cs, i + 2, value.push(r), len + 2);
                }
            }
        } else {
            lemma_scan_string(cs, i + 1, value.push(c), len + 1);
        }
    }
}

/// Every step that does not fail moves forward, and keeps the line below the
/// position and the column below four times the position.
proof fn lemma_step_advances(cs: Seq<char>, cls: CharClasses, i: int, line: nat, col: nat, file: Seq<char>)
    requires
        0 <= i < cs.len(),
        line <= i,
        col <= 4 * i,
    ensures
        lex_step(cs, cls, i, line, col, file) matches LexStep::Skip { next, line: l, col: k } ==> {
            &&& i < next <= cs.len()
            &&& l <= next
            &&& k <= 4 * next
        },
        lex_step(cs, cls, i, line, col, file) matches LexStep::Emit { token, next } ==> {
            &&& i < next <= cs.len()
            &&& token.location.end <= 4 * next
        },
{
    let c = cs[i];
    if c == '\n' {
    } else if c == ' ' || c == '\r' || c == '\t' {
    } else if c == '/' && peek_is(cs, i + 1, '/') {
        lemma_line_comment_end(cs, i + 1);
    } else if c == '/' && peek_is(cs, i + 1, '*') {
        lemma_block_comment_end(cs, i + 2, line, col);
    } else if c == '/' {
    } else if cls.numeric[i] {
        lemma_digits_end(cs, cls, i + 1);
        let e = digits_end(cs, cls, i + 1);
        lemma_byte_len_bound(cs.subrange(i, e));
    } else if c == '"' {
        lemma_scan_string(cs, i + 1, seq![], 0);
    } else if cls.alphabetic[i] || c == '_' {
        lemma_ident_end(cs, cls, i + 1);
        let e = ident_end(cs, cls, i + 1);
        let e2 = if peek_is(cs, e, '!') {
            e + 1
        } else {
            e
        };
        lemma_byte_len_bound(cs.subrange(i, e2));
    } else {
    }
}


/// No step emits an end-of-file token, and every token it emits is located in
/// the file being read.
proof fn lemma_step_token(cs: Seq<char>, cls: CharClasses, i: int, line: nat, col: nat, file: Seq<char>)
    requires
        0 <= i < cs.len(),
    ensures
        lex_step(cs, cls, i, line, col, file) matches LexStep::Emit { token, next } ==> {
            &&& token.t != TokenType::EOF
            &&& token.location.file_name == Some(file)
            &&& token.location.line == line
            &&& token.location.start < token.location.end
        },
        lex_step(cs, cls, i, line, col, file) matches LexStep::Fail { err } ==> err.location matches Some(l) && l.start
            == l.end,
{
    let c = cs[i];
    lemma_digits_end(cs, cls, i + 1);
    lemma_byte_len_bound(cs.subrange(i, digits_end(cs, cls, i + 1)));
    lemma_ident_end(cs, cls, i + 1);
    let e = ident_end(cs, cls, i + 1);
    let e2 = if peek_is(cs, e, '!') {
        e + 1
    } else {
        e
    };
    lemma_byte_len_bound(cs.subrange(i, e2));
    if !(c == '"') && !cls.numeric[i] && (cls.alphabetic[i] || c == '_') {
        assert(keyword_type(cs.subrange(i, e2)) != TokenType::EOF);
    }
}

proof fn lemma_lex_from_eof(
    cs: Seq<char>,
    cls: CharClasses,
    i: int,
    line: nat,
    col: nat,
    file: Seq<char>,
    acc: Seq<TokenView>,
)
    requires
        0 <= i <= cs.len(),
        line <= i,
        col <= 4 * i,
        forall|k: int| 0 <= k < acc.len() ==> #[trigger] acc[k].t != TokenType::EOF,
        forall|k: int| 0 <= k < acc.len() ==> #[trigger] acc[k].location.file_name == Some(file),
        forall|k: int| 0 <= k < acc.len() ==> #[trigger] acc[k].location.start < acc[k].location.end,
        forall|k: int| 0 <= k < acc.len() ==> #[trigger] spelled_as_kind(acc[k]),
    ensures
        lex_from(cs, cls, i, line, col, file, acc) matches Ok(ts) ==> {
            &&& forall|k: int| 0 <= k < ts.len() ==> #[trigger] spelled_as_kind(ts[k])
            &&& ts.len() > acc.len()
            &&& ts.subrange(0, acc.len() as int) == acc
            &&& ts.last().t == TokenType::EOF
            &&& forall|k: int| 0 <= k < ts.len() - 1 ==> #[trigger] ts[k].t != TokenType::EOF
            &&& forall|k: int| 0 <= k < ts.len() ==> #[trigger] ts[k].location.file_name == Some(file)
            &&& forall|k: int| 0 <= k < ts.len() - 1 ==> #[trigger] ts[k].location.start < ts[k].location.end
            &&& ts.last().value == Seq::<char>::empty()
            &&& ts.last().location.start == ts.last().location.end
        },
        lex_from(cs, cls, i, line, col, file, acc) matches Err(e) ==> e.location matches Some(l) && l.start == l.end,
    decreases cs.len() - i,
{
    if i < cs.len() {
        lemma_step_advances(cs, cls, i, line, col, file);
        lemma_step_token(cs, cls, i, line, col, file);
        law_step_token_text(cs, cls, i, line, col, file);
        match lex_step(cs, cls, i, line, col, file) {
            LexStep::Skip { next, line: l, col: k } => {
                lemma_lex_from_eof(cs, cls, next, l, k, file, acc);
            },
            LexStep::Emit { token, next } => {
                let acc2 = acc.push(token);
                assert forall|k: int| 0 <= k < acc2.len() implies #[trigger] acc2[k].t != TokenType::EOF by {
                    if k < acc.len() {
                        assert(acc2[k] == acc[k]);
                    }
                }
                assert forall|k: int| 0 <= k < acc2.len() implies #[trigger] acc2[k].location.file_name
                    == Some(file) by {
                    if k < acc.len() {
                        assert(acc2[k] == acc[k]);
                    }
                }
                assert forall|k: int| 0 <= k < acc2.len() implies #[trigger] acc2[k].location.start
                    < acc2[k].location.end by {
                    if k < acc.len() {
                        assert(acc2[k] == acc[k]);
                    }
                }
                assert forall|k: int| 0 <= k < acc2.len() implies #[trigger] spelled_as_kind(acc2[k]) by {
                    if k < acc.len() {
                        assert(acc2[k] == acc[k]);
                    }
                }
                lemma_lex_from_eof(cs, cls, next, line, token.location.end, file, acc2);
                if lex_from(cs, cls, next, line, token.location.end, file, acc2) is Ok {
                    let ts = lex_from(cs, cls, next, line, token.location.end, file, acc2)->Ok_0;
                    assert(ts.subrange(0, acc.len() as int) == ts.subrange(0, acc2.len() as int).subrange(
                        0,
                        acc.len() as int,
                    ));
                }
            },
            LexStep::Fail { err } => {},
        }
    } else {
        let ts = acc.push(eof_token(col, line, file));
        assert(ts.subrange(0, acc.len() as int) =~= acc);
        assert forall|k: int| 0 <= k < ts.len() - 1 implies #[trigger] ts[k].t != TokenType::EOF by {
            assert(ts[k] == acc[k]);
        }
        assert forall|k: int| 0 <= k < ts.len() implies #[trigger] ts[k].location.file_name == Some(file) by {
            if k < acc.len() {
                assert(ts[k] == acc[k]);
            }
        }
        assert forall|k: int| 0 <= k < ts.len() - 1 implies #[trigger] ts[k].location.start < ts[k].location.end by {
            assert(ts[k] == acc[k]);
        }
        assert forall|k: int| 0 <= k < ts.len() implies #[trigger] spelled_as_kind(ts[k]) by {
            if k < acc.len() {
                assert(ts[k] == acc[k]);
            }
        }
    }
}

/// A source that lexes gives tokens that end with the end-of-file token, with
/// no other end-of-file token before it, all located in the file that was read.
/// Every other token is at least one byte wide; the end-of-file token has no
/// text and no width. Every token is spelled as its kind requires (see
/// `fixed_spelling`). A source that does not lex is refused with an error that
/// points at one place.
pub proof fn law_lex_ends_with_eof(cs: Seq<char>, file: Seq<char>)
    ensures
        spec_lex(cs, file) matches Ok(ts) ==> {
            &&& forall|k: int| 0 <= k < ts.len() ==> #[trigger] spelled_as_kind(ts[k])
            &&& ts.len() > 0
            &&& ts.last().t == TokenType::EOF
            &&& forall|k: int| 0 <= k < ts.len() - 1 ==> #[trigger] ts[k].t != TokenType::EOF
            &&& forall|k: int| 0 <= k < ts.len() ==> #[trigger] ts[k].location.file_name == Some(file)
            &&& forall|k: int| 0 <= k < ts.len() - 1 ==> #[trigger] ts[k].location.start < ts[k].location.end
            &&& ts.last().value == Seq::<char>::empty()
            &&& ts.last().location.start == ts.last().location.end
        },
        spec_lex(cs, file) matches Err(e) ==> e.location matches Some(l) && l.start == l.end,
{
    lemma_lex_from_eof(cs, classes_of(cs), 0, 0, 0, file, seq![]);
}


/// How a token of kind `t` is always spelled, for the kinds that have one
/// spelling: punctuation, operators, keywords and the end of the file.
pub open spec fn fixed_spelling(t: TokenType) -> Option<Seq<char>> {
    match t {
        TokenType::OpenParan => Some(seq!['(']),
        TokenType::CloseParan => Some(seq![')']),
        TokenType::OpenSquare => Some(seq!['[']),
        TokenType::CloseSquare => Some(seq![']']),
        TokenType::OpenBrace => Some(seq!['{']),
        TokenType::CloseBrace => Some(seq!['}']),
        TokenType::Comma => Some(seq![',']),
        TokenType::Dot => Some(seq!['.']),
        TokenType::Colon => Some(seq![':']),
        TokenType::Semicolon => Some(seq![';']),
        TokenType::QuestionMark => Some(seq!['?']),
        TokenType::Arrow => Some(seq!['-', '>']),
        TokenType::Range => Some(seq!['.', '.']),
        TokenType::RangeInclusive => Some(seq!['.', '.', '=']),
        TokenType::EOF => Some(seq![]),
        TokenType::Assign => Some(seq!['=']),
        TokenType::Additive(Additive::Plus) => Some(seq!['+']),
        TokenType::Additive(Additive::Minus) => Some(seq!['-']),
        TokenType::Multiplicative(Multiplicative::Multiply) => Some(seq!['*']),
        TokenType::Multiplicative(Multiplicative::Divide) => Some(seq!['/']),
        TokenType::Multiplicative(Multiplicative::Modulo) => Some(seq!['%']),
        TokenType::Multiplicative(Multiplicative::Exponent) => Some(seq!['*', '*']),
        TokenType::Logical(Logical::And) => Some(seq!['&', '&']),
        TokenType::Logical(Logical::Or) => Some(seq!['|', '|']),
        TokenType::Unary(Unary::Not) => Some(seq!['!']),
        TokenType::Unary(Unary::Length) => Some(seq!['$']),
        TokenType::Unary(Unary::Increment) => Some(seq!['+', '+']),
        TokenType::Unary(Unary::Decrement) => Some(seq!['-', '-']),
        TokenType::Comparison(Comparison::Eq) => Some(seq!['=', '=']),
        TokenType::Comparison(Comparison::Neq) => Some(seq!['!', '=']),
        TokenType::Comparison(Comparison::Gt) => Some(seq!['>']),
        TokenType::Comparison(Comparison::Lt) => Some(seq!['<']),
        TokenType::Comparison(Comparison::GtEq) => Some(seq!['>', '=']),
        TokenType::Comparison(Comparison::LtEq) => Some(seq!['<', '=']),
        TokenType::Let => Some("let"@),
        TokenType::Const => Some("const"@),
        TokenType::Import => Some("import"@),
        TokenType::Export => Some("export"@),
        TokenType::As => Some("as"@),
        TokenType::Expose => Some("expose"@),
        TokenType::Try => Some("try"@),
        TokenType::Catch => Some("catch"@),
        TokenType::Finally => Some("finally"@),
        TokenType::Throw => Some("throw"@),
        TokenType::Is => Some("is"@),
        TokenType::For => Some("for"@),
        TokenType::In => Some("in"@),
        TokenType::While => Some("while"@),
        TokenType::Break => Some("break"@),
        TokenType::Continue => Some("continue"@),
        TokenType::Function => Some("func"@),
        TokenType::Return => Some("return"@),
        TokenType::Where => Some("where"@),
        TokenType::If => Some("if"@),
        TokenType::Else => Some("else"@),
        TokenType::Match => Some("match"@),
        TokenType::Debug => Some("debug"@),
        TokenType::Enum => Some("enum"@),
        _ => None,
    }
}

/// The kinds of the keywords.
pub open spec fn is_keyword(t: TokenType) -> bool {
    match t {
        TokenType::Let | TokenType::Const | TokenType::Import | TokenType::Export | TokenType::As
        | TokenType::Expose | TokenType::Try | TokenType::Catch | TokenType::Finally | TokenType::Throw
        | TokenType::Is | TokenType::For | TokenType::In | TokenType::While | TokenType::Break
        | TokenType::Continue | TokenType::Function | TokenType::Return | TokenType::Where | TokenType::If
        | TokenType::Else | TokenType::Match | TokenType::Debug | TokenType::Enum => true,
        _ => false,
    }
}

/// A token is spelled as its kind requires, where the kind has one spelling.
pub open spec fn spelled_as_kind(t: TokenView) -> bool {
    fixed_spelling(t.t) matches Some(x) ==> t.value == x
}

/// Every token that a step emits, but a string, holds exactly the characters
/// the step reads, and is spelled as its kind requires: the kind of an
/// operator, a punctuation mark or a keyword is the one its text names. A
/// token read from a character that is neither numeric, alphabetic, `_` nor a
/// quote is of a kind with one spelling, and a word spelled as a keyword is
/// never read as a plain symbol.
pub proof fn law_step_token_text(cs: Seq<char>, cls: CharClasses, i: int, line: nat, col: nat, file: Seq<char>)
    requires
        0 <= i < cs.len(),
    ensures
        lex_step(cs, cls, i, line, col, file) matches LexStep::Emit { token, next } ==> {
            &&& spelled_as_kind(token)
            &&& token.t != TokenType::String ==> token.value == cs.subrange(i, next)
            &&& (token.t != TokenType::String && !cls.numeric[i] && !cls.alphabetic[i] && cs[i] != '_')
                ==> fixed_spelling(token.t) is Some
            &&& token.t == TokenType::Symbol ==> forall|k: TokenType|
                #[trigger] is_keyword(k) ==> fixed_spelling(k) != Some(token.value)
        },
{
    let c = cs[i];
    let j = i + 1;
    if c == '/' {
        assert(seq![c] =~= cs.subrange(i, i + 1));
    }
    match op_token(cs, i) {
        Some((t, v, e)) => {
            if e == j + 2 {
                assert(v =~= cs.subrange(i, j + 2));
            } else if e == j + 1 {
                assert(v =~= cs.subrange(i, j + 1));
            } else {
                assert(v =~= cs.subrange(i, j));
            }
        },
        None => {},
    }
    lemma_digits_end(cs, cls, i + 1);
    lemma_ident_end(cs, cls, i + 1);
}


// ----- the readers -----

fn scan_digits(cs: &Vec<char>, numeric: &Vec<bool>, alphabetic: &Vec<bool>, i: usize) -> (r: usize)
    requires
        i <= cs.len(),
        numeric.len() == cs.len(),
    ensures
        r as int == digits_end(cs@, classes(numeric@, alphabetic@), i as int),
        i <= r <= cs.len(),
{
    let ghost cls = classes(numeric@, alphabetic@);
    proof {
        lemma_digits_end(cs@, cls, i as int);
    }
    let mut k = i;
    while k < cs.len() && numeric[k]
        invariant
            i <= k <= cs.len(),
            numeric.len() == cs.len(),
            cls == classes(numeric@, alphabetic@),
            digits_end(cs@, cls, k as int) == digits_end(cs@, cls, i as int),
        decreases cs.len() - k,
    {
        k = k + 1;
    }
    k
}

fn scan_ident(cs: &Vec<char>, numeric: &Vec<bool>, alphabetic: &Vec<bool>, i: usize) -> (r: usize)
    requires
        i <= cs.len(),
        numeric.len() == cs.len(),
        alphabetic.len() == cs.len(),
    ensures
        r as int == ident_end(cs@, classes(numeric@, alphabetic@), i as int),
        i <= r <= cs.len(),
{
    let ghost cls = classes(numeric@, alphabetic@);
    proof {
        lemma_ident_end(cs@, cls, i as int);
    }
    let mut k = i;
    while k < cs.len() && (alphabetic[k] || numeric[k] || cs[k] == '_')
        invariant
            i <= k <= cs.len(),
            numeric.len() == cs.len(),
            alphabetic.len() == cs.len(),
            cls == classes(numeric@, alphabetic@),
            ident_end(cs@, cls, k as int) == ident_end(cs@, cls, i as int),
        decreases cs.len() - k,
    {
        k = k + 1;
    }
    k
}

fn scan_line_comment(cs: &Vec<char>, i: usize) -> (r: usize)
    requires
        i <= cs.len(),
    ensures
        r as int == line_comment_end(cs@, i as int),
{
    let mut k = i;
    while k < cs.len()
        invariant
            i <= k <= cs.len(),
            line_comment_end(cs@, k as int) == line_comment_end(cs@, i as int),
        decreases cs.len() - k,
    {
        if cs[k] == '\n' {
            return k + 1;
        }
        k = k + 1;
    }
    k
}

fn scan_block_comment(cs: &Vec<char>, i: usize, line: usize, col: usize) -> (r: (usize, usize, usize))
    requires
        i <= cs.len(),
        line + cs.len() <= usize::MAX,
    ensures
        (r.0 as int, r.1 as nat, r.2 as nat) == block_comment_end(cs@, i as int, line as nat, col as nat),
{
    let mut k = i;
    let mut l = line;
    let mut c = col;
    while k < cs.len()
        invariant
            i <= k <= cs.len(),
            l <= line + (k - i),
            line + cs.len() <= usize::MAX,
            block_comment_end(cs@, k as int, l as nat, c as nat) == block_comment_end(
                cs@,
                i as int,
                line as nat,
                col as nat,
            ),
        decreases cs.len() - k,
    {
        if cs[k] == '*' && k + 1 < cs.len() && cs[k + 1] == '/' {
            return (k + 2, l, c);
        }
        if cs[k] == '\n' {
            l = l + 1;
            c = 0;
        }
        k = k + 1;
    }
    (k, l, c)
}

fn escape_char(c: char) -> (r: Option<char>)
    ensures
        r == escaped(c),
{
    if c == '"' {
        Some('"')
    } else if c == '\\' {
        Some('\\')
    } else if c == 'n' {
        Some('\n')
    } else if c == 't' {
        Some('\t')
    } else if c == 'r' {
        Some('\r')
    } else {
        None
    }
}

enum ExecStringScan {
    Closed(usize, Vec<char>, usize),
    BadEscape(char),
    NothingToEscape,
    Unterminated,
}

spec fn string_scan_view(r: ExecStringScan) -> StringScan {
    match r {
        ExecStringScan::Closed(e, v, l) => StringScan::Closed {
            end: e as int,
            value: v@,
            len: l as nat,
        },
        ExecStringScan::BadEscape(c) => StringScan::BadEscape { c },
        ExecStringScan::NothingToEscape => StringScan::NothingToEscape,
        ExecStringScan::Unterminated => StringScan::Unterminated,
    }
}

fn scan_string_body(cs: &Vec<char>, i: usize) -> (r: ExecStringScan)
    requires
        i <= cs.len(),
    ensures
        string_scan_view(r) == scan_string(cs@, i as int, seq![], 0),
{
    let mut k = i;
    let mut value: Vec<char> = Vec::new();
    let mut len: usize = 0;
    loop
        invariant
            i <= k <= cs.len(),
            len <= k - i,
            scan_string(cs@, k as int, value@, len as nat) == scan_string(cs@, i as int, seq![], 0),
        decreases cs.len() - k,
    {
        if k >= cs.len() {
            return ExecStringScan::Unterminated;
        }
        let c = cs[k];
        if c == '"' || c == '\n' {
            return ExecStringScan::Closed(k + 1, value, len);
        }
        if c == '\\' {
            if k + 1 < cs.len() {
                let e = cs[k + 1];
                match escape_char(e) {
                    Some(r) => {
                        value.push(r);
                        len = len + 2;
                        k = k + 2;
                    },
                    None => {
                        return ExecStringScan::BadEscape(e);
                    },
                }
            } else {
                return ExecStringScan::NothingToEscape;
            }
        } else {
            value.push(c);
            len = len + 1;
            k = k + 1;
        }
    }
}

fn keyword_type_exec(v: &Vec<char>) -> (t: TokenType)
    ensures
        t == keyword_type(v@),
{
    if chars_eq_str(v, "let") {
        TokenType::Let
    } else if chars_eq_str(v, "const") {
        TokenType::Const
    } else if chars_eq_str(v, "try") {
        TokenType::Try
    } else if chars_eq_str(v, "catch") {
        TokenType::Catch
    } else if chars_eq_str(v, "finally") {
        TokenType::Finally
    } else if chars_eq_str(v, "throw") {
        TokenType::Throw
    } else if chars_eq_str(v, "is") {
        TokenType::Is
    } else if chars_eq_str(v, "import") {
        TokenType::Import
    } else if chars_eq_str(v, "export") {
        TokenType::Export
    } else if chars_eq_str(v, "as") {
        TokenType::As
    } else if chars_eq_str(v, "expose") {
        TokenType::Expose
    } else if chars_eq_str(v, "for") {
        TokenType::For
    } else if chars_eq_str(v, "in") {
        TokenType::In
    } else if chars_eq_str(v, "while") {
        TokenType::While
    } else if chars_eq_str(v, "continue") {
        TokenType::Continue
    } else if chars_eq_str(v, "break") {
        TokenType::Break
    } else if chars_eq_str(v, "func") {
        TokenType::Function
    } else if chars_eq_str(v, "return") {
        TokenType::Return
    } else if chars_eq_str(v, "where") {
        TokenType::Where
    } else if chars_eq_str(v, "if") {
        TokenType::If
    } else if chars_eq_str(v, "else") {
        TokenType::Else
    } else if chars_eq_str(v, "match") {
        TokenType::Match
    } else if chars_eq_str(v, "debug") {
        TokenType::Debug
    } else if chars_eq_str(v, "enum") {
        TokenType::Enum
    } else {
        TokenType::Symbol
    }
}

fn chars1(a: char) -> (v: Vec<char>)
    ensures
        v@ == seq![a],
{
    let mut v = Vec::new();
    v.push(a);
    v
}

fn chars2(a: char, b: char) -> (v: Vec<char>)
    ensures
        v@ == seq![a, b],
{
    let mut v = Vec::new();
    v.push(a);
    v.push(b);
    v
}

fn chars3(a: char, b: char, c: char) -> (v: Vec<char>)
    ensures
        v@ == seq![a, b, c],
{
    let mut v = Vec::new();
    v.push(a);
    v.push(b);
    v.push(c);
    v
}

fn peek_char_is(cs: &Vec<char>, i: usize, c: char) -> (b: bool)
    ensures
        b == peek_is(cs@, i as int, c),
{
    i < cs.len() && cs[i] == c
}

fn op_token_exec(cs: &Vec<char>, i: usize) -> (r: Option<(TokenType, Vec<char>, usize)>)
    requires
        i < cs.len(),
        cs.len() < usize::MAX,
    ensures
        match r {
            Some((t, v, e)) => op_token(cs@, i as int) == Some((t, v@, e as int)),
            None => op_token(cs@, i as int) is None,
        },
{
    let c = cs[i];
    let j = i + 1;
    if c == '.' {
        if peek_char_is(cs, j, '.') {
            if peek_char_is(cs, j + 1, '=') {
                Some((TokenType::RangeInclusive, chars3('.', '.', '='), j + 2))
            } else {
                Some((TokenType::Range, chars2('.', '.'), j + 1))
            }
        } else {
            Some((TokenType::Dot, chars1(c), j))
        }
    } else if c == ',' {
        Some((TokenType::Comma, chars1(c), j))
    } else if c == ':' {
        Some((TokenType::Colon, chars1(c), j))
    } else if c == ';' {
        Some((TokenType::Semicolon, chars1(c), j))
    } else if c == '(' {
        Some((TokenType::OpenParan, chars1(c), j))
    } else if c == ')' {
        Some((TokenType::CloseParan, chars1(c), j))
    } else if c == '[' {
        Some((TokenType::OpenSquare, chars1(c), j))
    } else if c == ']' {
        Some((TokenType::CloseSquare, chars1(c), j))
    } else if c == '{' {
        Some((TokenType::OpenBrace, chars1(c), j))
    } else if c == '}' {
        Some((TokenType::CloseBrace, chars1(c), j))
    } else if c == '?' {
        Some((TokenType::QuestionMark, chars1(c), j))
    } else if c == '+' {
        if peek_char_is(cs, j, '+') {
            Some((TokenType::Unary(Unary::Increment), chars2('+', '+'), j + 1))
        } else {
            Some((TokenType::Additive(Additive::Plus), chars1(c), j))
        }
    } else if c == '-' {
        if peek_char_is(cs, j, '-') {
            Some((TokenType::Unary(Unary::Decrement), chars2('-', '-'), j + 1))
        } else if peek_char_is(cs, j, '>') {
            Some((TokenType::Arrow, chars2('-', '>'), j + 1))
        } else {
            Some((TokenType::Additive(Additive::Minus), chars1(c), j))
        }
    } else if c == '*' {
        if peek_char_is(cs, j, '*') {
            Some((TokenType::Multiplicative(Multiplicative::Exponent), chars2('*', '*'), j + 1))
        } else {
            Some((TokenType::Multiplicative(Multiplicative::Multiply), chars1(c), j))
        }
    } else if c == '%' {
        Some((TokenType::Multiplicative(Multiplicative::Modulo), chars1(c), j))
    } else if c == '!' {
        if peek_char_is(cs, j, '=') {
            Some((TokenType::Comparison(Comparison::Neq), chars2('!', '='), j + 1))
        } else {
            Some((TokenType::Unary(Unary::Not), chars1(c), j))
        }
    } else if c == '$' {
        Some((TokenType::Unary(Unary::Length), chars1(c), j))
    } else if c == '&' {
        if peek_char_is(cs, j, '&') {
            Some((TokenType::Logical(Logical::And), chars2('&', '&'), j + 1))
        } else {
            None
        }
    } else if c == '|' {
        if peek_char_is(cs, j, '|') {
            Some((TokenType::Logical(Logical::Or), chars2('|', '|'), j + 1))
        } else {
            None
        }
    } else if c == '=' {
        if peek_char_is(cs, j, '=') {
            Some((TokenType::Comparison(Comparison::Eq), chars2('=', '='), j + 1))
        } else {
            Some((TokenType::Assign, chars1(c), j))
        }
    } else if c == '<' {
        if peek_char_is(cs, j, '=') {
            Some((TokenType::Comparison(Comparison::LtEq), chars2('<', '='), j + 1))
        } else {
            Some((TokenType::Comparison(Comparison::Lt), chars1(c), j))
        }
    } else if c == '>' {
        if peek_char_is(cs, j, '=') {
            Some((TokenType::Comparison(Comparison::GtEq), chars2('>', '='), j + 1))
        } else {
            Some((TokenType::Comparison(Comparison::Gt), chars1(c), j))
        }
    } else {
        None
    }
}

/// The characters of `cs` from `i` up to `j`.
fn slice_chars(cs: &Vec<char>, i: usize, j: usize) -> (v: Vec<char>)
    requires
        i <= j <= cs.len(),
    ensures
        v@ == cs@.subrange(i as int, j as int),
{
    let mut v: Vec<char> = Vec::new();
    let mut k = i;
    while k < j
        invariant
            i <= k <= j <= cs.len(),
            v@ == cs@.subrange(i as int, k as int),
        decreases j - k,
    {
        v.push(cs[k]);
        k = k + 1;
        assert(v@ =~= cs@.subrange(i as int, k as int));
    }
    v
}

// ----- one step -----

enum ExecStep {
    Skip(usize, usize, usize),
    Emit(Token, usize),
    Fail(ZephyrError),
}

spec fn step_view(s: ExecStep) -> LexStep {
    match s {
        ExecStep::Skip(n, l, c) => LexStep::Skip { next: n as int, line: l as nat, col: c as nat },
        ExecStep::Emit(t, n) => LexStep::Emit { token: t@, next: n as int },
        ExecStep::Fail(e) => LexStep::Fail { err: e@ },
    }
}

fn located(start: usize, end: usize, line: usize, file: &String) -> (l: Location)
    ensures
        l@ == (LocationView {
            start: start as nat,
            end: end as nat,
            line: line as nat,
            file_name: Some(file@),
        }),
{
    Location { start, end, line, file_name: Some(file.clone()) }
}

fn lex_error(code: ErrorCode, message: Vec<char>, col: usize, line: usize, file: &String) -> (e: ZephyrError)
    ensures
        e@ == (ErrorView {
            code,
            message: message@,
            location: Some(here(col as nat, line as nat, file@)),
        }),
{
    ZephyrError {
        code,
        message: string_from_chars(&message),
        location: Some(located(col, col, line, file)),
    }
}

fn token_at(t: TokenType, value: &Vec<char>, col: usize, len: usize, line: usize, file: &String) -> (tok: Token)
    requires
        col + len <= usize::MAX,
    ensures
        tok@ == (TokenView {
            value: value@,
            t,
            location: LocationView {
                start: col as nat,
                end: (col + len) as nat,
                line: line as nat,
                file_name: Some(file@),
            },
        }),
{
    Token { value: string_from_chars(value), t, location: located(col, col + len, line, file) }
}

fn lex_step_exec(
    cs: &Vec<char>,
    numeric: &Vec<bool>,
    alphabetic: &Vec<bool>,
    i: usize,
    line: usize,
    col: usize,
    file: &String,
) -> (s: ExecStep)
    requires
        i < cs.len(),
        numeric.len() == cs.len(),
        alphabetic.len() == cs.len(),
        line <= i,
        col <= 4 * i,
        4 * cs.len() <= usize::MAX,
    ensures
        step_view(s) == lex_step(cs@, classes(numeric@, alphabetic@), i as int, line as nat, col as nat, file@),
{
    proof {
        lemma_step_advances(cs@, classes(numeric@, alphabetic@), i as int, line as nat, col as nat, file@);
    }
    let c = cs[i];
    if c == '\n' {
        ExecStep::Skip(i + 1, line + 1, 0)
    } else if c == ' ' || c == '\r' || c == '\t' {
        ExecStep::Skip(i + 1, line, col + 1)
    } else if c == '/' && peek_char_is(cs, i + 1, '/') {
        ExecStep::Skip(scan_line_comment(cs, i + 1), line + 1, 0)
    } else if c == '/' && peek_char_is(cs, i + 1, '*') {
        let (e, l, k) = scan_block_comment(cs, i + 2, line, col);
        ExecStep::Skip(e, l, k + 2)
    } else if c == '/' {
        ExecStep::Emit(
            token_at(TokenType::Multiplicative(Multiplicative::Divide), &chars1(c), col, 1, line, file),
            i + 1,
        )
    } else if numeric[i] {
        let e = scan_digits(cs, numeric, alphabetic, i + 1);
        let v = slice_chars(cs, i, e);
        let n = string_byte_len(&string_from_chars(&v));
        ExecStep::Emit(token_at(TokenType::Number, &v, col, n, line, file), e)
    } else if c == '"' {
        match scan_string_body(cs, i + 1) {
            ExecStringScan::Closed(end, value, len) => ExecStep::Emit(
                token_at(TokenType::String, &value, col, len + 2, line, file),
                end,
            ),
            ExecStringScan::BadEscape(e) => {
                let mut m = str_chars("Cannot escape ");
                m.push(e);
                assert(m@ =~= "Cannot escape "@ + seq![e]);
                ExecStep::Fail(lex_error(ErrorCode::CannotEscape, m, col, line, file))
            },
            ExecStringScan::NothingToEscape => ExecStep::Fail(
                lex_error(ErrorCode::CannotEscape, str_chars("Nothing to escape"), col, line, file),
            ),
            ExecStringScan::Unterminated => ExecStep::Fail(
                lex_error(ErrorCode::UnterminatedString, str_chars("String not closed"), col, line, file),
            ),
        }
    } else if alphabetic[i] || c == '_' {
        let e = scan_ident(cs, numeric, alphabetic, i + 1);
        let e2 = if peek_char_is(cs, e, '!') {
            e + 1
        } else {
            e
        };
        let v = slice_chars(cs, i, e2);
        let n = string_byte_len(&string_from_chars(&v));
        ExecStep::Emit(token_at(keyword_type_exec(&v), &v, col, n, line, file), e2)
    } else {
        match op_token_exec(cs, i) {
            Some((t, v, e)) => ExecStep::Emit(token_at(t, &v, col, v.len(), line, file), e),
            None => {
                let mut m = str_chars("Unexpected '");
                m.push(c);
                let mut tail = str_chars("'");
                m.append(&mut tail);
                assert(m@ =~= "Unexpected '"@ + seq![c] + "'"@);
                ExecStep::Fail(lex_error(ErrorCode::UnexpectedCharacter, m, col, line, file))
            },
        }
    }
}

/// Splits `contents`, read from the file `file_name`, into tokens, where
/// `numeric[i]` and `alphabetic[i]` say whether std counts the `i`-th character
/// as numeric and as alphabetic.
///
/// Whitespace and comments are skipped; numbers, strings (with the escapes
/// `\"`, `\\`, `\n`, `\t`, `\r`), words (keywords or symbols, with an optional
/// trailing `!`) and operators become tokens, and an end-of-file token closes
/// the list. The first character that cannot start a token, a bad escape or an
/// unterminated string is an error.
pub fn lex_classified(contents: &str, numeric: &Vec<bool>, alphabetic: &Vec<bool>, file_name: String) -> (r:
    Result<Vec<Token>, ZephyrError>)
    requires
        4 * contents@.len() <= usize::MAX,
        numeric@.len() == contents@.len(),
        alphabetic@.len() == contents@.len(),
    ensures
        lex_result_view(r) == spec_lex_classified(contents@, classes(numeric@, alphabetic@), file_name@),
{
    let ghost cls = classes(numeric@, alphabetic@);
    let cs = str_chars(contents);
    let n = cs.len();
    let mut tokens: Vec<Token> = Vec::new();
    let mut i: usize = 0;
    let mut line: usize = 0;
    let mut col: usize = 0;
    assert(tokens_view(tokens@) =~= seq![]);
    while i < n
        invariant
            cs@ == contents@,
            n == cs@.len(),
            numeric.len() == n,
            alphabetic.len() == n,
            cls == classes(numeric@, alphabetic@),
            4 * n <= usize::MAX,
            i <= n,
            line <= i,
            col <= 4 * i,
            lex_from(cs@, cls, i as int, line as nat, col as nat, file_name@, tokens_view(tokens@))
                == spec_lex_classified(contents@, cls, file_name@),
        decreases n - i,
    {
        proof {
            lemma_step_advances(cs@, cls, i as int, line as nat, col as nat, file_name@);
        }
        match lex_step_exec(&cs, numeric, alphabetic, i, line, col, &file_name) {
            ExecStep::Skip(ni, nl, nc) => {
                i = ni;
                line = nl;
                col = nc;
            },
            ExecStep::Emit(tok, ni) => {
                col = tok.location.end;
                let ghost before = tokens@;
                tokens.push(tok);
                assert(tokens_view(tokens@) =~= tokens_view(before).push(tok@));
                i = ni;
            },
            ExecStep::Fail(e) => {
                return Err(e);
            },
        }
    }
    let ghost before = tokens@;
    let eof = Token { value: string_from_chars(&Vec::new()), t: TokenType::EOF, location: located(col, col, line, &file_name) };
    tokens.push(eof);
    assert(tokens_view(tokens@) =~= tokens_view(before).push(eof_token(col as nat, line as nat, file_name@)));
    Ok(tokens)
}

/// Splits `contents`, read from the file `file_name`, into tokens, asking std
/// which characters are numeric and which alphabetic (see [`lex_classified`]).
pub fn lex(contents: &str, file_name: String) -> (r: Result<Vec<Token>, ZephyrError>)
    requires
        4 * contents@.len() <= usize::MAX,
    ensures
        lex_result_view(r) == spec_lex(contents@, file_name@),
{
    let cs = str_chars(contents);
    let mut numeric: Vec<bool> = Vec::new();
    let mut alphabetic: Vec<bool> = Vec::new();
    let mut i: usize = 0;
    while i < cs.len()
        invariant
            0 <= i <= cs.len(),
            cs@ == contents@,
            numeric@.len() == i,
            alphabetic@.len() == i,
            forall|j: int| 0 <= j < i ==> numeric@[j] == char_is_numeric(cs@[j]),
            forall|j: int| 0 <= j < i ==> alphabetic@[j] == char_is_alphabetic(cs@[j]),
        decreases cs.len() - i,
    {
        numeric.push(is_numeric(cs[i]));
        alphabetic.push(is_alphabetic(cs[i]));
        i = i + 1;
    }
    proof {
        assert(numeric@ =~= classes_of(contents@).numeric);
        assert(alphabetic@ =~= classes_of(contents@).alphabetic);
    }
    lex_classified(contents, &numeric, &alphabetic, file_name)
}

} // verus!
