use vstd::prelude::*;

use crate::text::owned;

verus! {

/// The kinds of token that the lexer produces.
#[derive(Clone, Copy, Debug, PartialEq, Eq, Structural)]
pub enum TokenType {
    OpenParan,
    CloseParan,
    OpenSquare,
    CloseSquare,
    OpenBrace,
    CloseBrace,
    Comma,
    Dot,
    DotOptional,
    Colon,
    Semicolon,
    QuestionMark,
    Arrow,
    ShortCircuit,
    Range,
    RangeInclusive,
    EOF,
    Number,
    String,
    Symbol,
    Assign,
    Additive(Additive),
    Multiplicative(Multiplicative),
    Logical(Logical),
    Unary(Unary),
    Comparison(Comparison),
    Let,
    Const,
    Import,
    Export,
    As,
    Expose,
    Try,
    Catch,
    Finally,
    Throw,
    Is,
    For,
    In,
    While,
    Break,
    Continue,
    Function,
    Return,
    Where,
    If,
    Else,
    Match,
    Debug,
    Enum,
}

#[derive(Clone, Copy, Debug, PartialEq, Eq, Structural)]
pub enum Additive {
    Plus,
    Minus,
}

#[derive(Clone, Copy, Debug, PartialEq, Eq, Structural)]
pub enum Multiplicative {
    Multiply,
    Divide,
    Modulo,
    Exponent,
}

#[derive(Clone, Copy, Debug, PartialEq, Eq, Structural)]
pub enum Logical {
    And,
    Or,
}

#[derive(Clone, Copy, Debug, PartialEq, Eq, Structural)]
pub enum Unary {
    Not,
    Length,
    Increment,
    Decrement,
}

#[derive(Clone, Copy, Debug, PartialEq, Eq, Structural)]
pub enum Comparison {
    Eq,
    Neq,
    Gt,
    Lt,
    GtEq,
    LtEq,
}

/// How a comparison is written.
pub open spec fn comparison_text(c: Comparison) -> Seq<char> {
    match c {
        Comparison::Eq => "=="@,
        Comparison::Neq => "!="@,
        Comparison::Gt => ">"@,
        Comparison::Lt => "<"@,
        Comparison::GtEq => ">="@,
        Comparison::LtEq => "<="@,
    }
}

impl Comparison {
    /// The comparison as it is written.
    pub fn to_string(&self) -> (s: String)
        ensures
            s@ == comparison_text(*self),
    {
        match self {
            Comparison::Eq => owned("=="),
            Comparison::Neq => owned("!="),
            Comparison::Gt => owned(">"),
            Comparison::Lt => owned("<"),
            Comparison::GtEq => owned(">="),
            Comparison::LtEq => owned("<="),
        }
    }
}

/// Where a token or a node stands in its source file.
#[derive(Debug)]
pub struct Location {
    pub start: usize,
    pub end: usize,
    pub line: usize,
    pub file_name: Option<String>,
}

/// A location as plain values.
pub struct LocationView {
    pub start: nat,
    pub end: nat,
    pub line: nat,
    pub file_name: Option<Seq<char>>,
}

impl View for Location {
    type V = LocationView;

    open spec fn view(&self) -> LocationView {
        LocationView {
            start: self.start as nat,
            end: self.end as nat,
            line: self.line as nat,
            file_name: match self.file_name {
                Some(f) => Some(f@),
                None => None,
            },
        }
    }
}

impl Clone for Location {
    fn clone(&self) -> (r: Self)
        ensures
            r == *self,
    {
        Location {
            start: self.start,
            end: self.end,
            line: self.line,
            file_name: match &self.file_name {
                Some(f) => Some(f.clone()),
                None => None,
            },
        }
    }
}

/// Whether `l` is the location of things that come from no source text.
pub open spec fn is_no_location(l: Location) -> bool {
    l.start == 0 && l.end == 0 && l.line == 0 && l.file_name is None
}

impl Location {
    /// The location given to things that come from no source text.
    pub fn no_location() -> (r: Location)
        ensures
            r.start == 0,
            r.end == 0,
            r.line == 0,
            r.file_name is None,
    {
        Location { start: 0, end: 0, line: 0, file_name: None }
    }
}

/// A token: its text, its kind and where it stands.
#[derive(Debug)]
pub struct Token {
    pub value: String,
    pub t: TokenType,
    pub location: Location,
}

/// A token as plain values.
pub struct TokenView {
    pub value: Seq<char>,
    pub t: TokenType,
    pub location: LocationView,
}

impl View for Token {
    type V = TokenView;

    open spec fn view(&self) -> TokenView {
        TokenView { value: self.value@, t: self.t, location: self.location@ }
    }
}

impl Clone for Token {
    fn clone(&self) -> (r: Self)
        ensures
            r == *self,
    {
        Token { value: self.value.clone(), t: self.t, location: self.location.clone() }
    }
}

/// The views of a sequence of tokens.
pub open spec fn tokens_view(ts: Seq<Token>) -> Seq<TokenView> {
    ts.map_values(|t: Token| t@)
}

} // verus!
