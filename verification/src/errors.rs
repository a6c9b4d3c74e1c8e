use vstd::prelude::*;

use crate::text::{owned, string_from_chars};
use crate::tokens::{Location, LocationView};

verus! {

/// What kind of error a [`ZephyrError`] reports.
#[derive(Clone, Copy, Debug, PartialEq, Eq, Structural)]
pub enum ErrorCode {
    LexerError,
    UnexpectedCharacter,
    UnterminatedString,
    CannotEscape,
    UnexpectedToken,
    InvalidNumber,
    RuntimeError,
    UnknownReference,
    InvalidOperation,
    CannotCoerce,
    AlreadyDefined,
    ConstantAssignment,
    InternalLockError,
    ScopeError,
    OutOfBounds,
    InvalidKey,
    TypeError,
    CannotResolve,
    Unresolved,
    NotExported,
    UndefinedEventMessage,
    InvalidProperty,
    CannotIterate,
    RangeError,
    ChannelError,
    Break,
    Continue,
    ReturnError,
}

/// An error of the language, with the place in the source that caused it.
#[derive(Debug)]
pub struct ZephyrError {
    pub code: ErrorCode,
    pub message: String,
    pub location: Option<Location>,
}

/// An error as plain values.
pub struct ErrorView {
    pub code: ErrorCode,
    pub message: Seq<char>,
    pub location: Option<LocationView>,
}

impl View for ZephyrError {
    type V = ErrorView;

    open spec fn view(&self) -> ErrorView {
        ErrorView {
            code: self.code,
            message: self.message@,
            location: match self.location {
                Some(l) => Some(l@),
                None => None,
            },
        }
    }
}

impl Clone for ZephyrError {
    fn clone(&self) -> (r: Self)
        ensures
            r == *self,
    {
        ZephyrError {
            code: self.code,
            message: self.message.clone(),
            location: match &self.location {
                Some(l) => Some(l.clone()),
                None => None,
            },
        }
    }
}

/// The name of an error code, as it is shown.
pub open spec fn code_name(c: ErrorCode) -> Seq<char> {
    match c {
        ErrorCode::LexerError => "LexerError"@,
        ErrorCode::UnexpectedCharacter => "UnexpectedCharacter"@,
        ErrorCode::UnterminatedString => "UnterminatedString"@,
        ErrorCode::CannotEscape => "CannotEscape"@,
        ErrorCode::UnexpectedToken => "UnexpectedToken"@,
        ErrorCode::InvalidNumber => "InvalidNumber"@,
        ErrorCode::RuntimeError => "RuntimeError"@,
        ErrorCode::UnknownReference => "UnknownReference"@,
        ErrorCode::InvalidOperation => "InvalidOperation"@,
        ErrorCode::CannotCoerce => "CannotCoerce"@,
        ErrorCode::AlreadyDefined => "AlreadyDefined"@,
        ErrorCode::ConstantAssignment => "ConstantAssignment"@,
        ErrorCode::InternalLockError => "InternalLockError"@,
        ErrorCode::ScopeError => "ScopeError"@,
        ErrorCode::OutOfBounds => "OutOfBounds"@,
        ErrorCode::InvalidKey => "InvalidKey"@,
        ErrorCode::TypeError => "TypeError"@,
        ErrorCode::CannotResolve => "CannotResolve"@,
        ErrorCode::Unresolved => "Unresolved"@,
        ErrorCode::NotExported => "NotExported"@,
        ErrorCode::UndefinedEventMessage => "UndefinedEventMessage"@,
        ErrorCode::InvalidProperty => "InvalidProperty"@,
        ErrorCode::CannotIterate => "CannotIterate"@,
        ErrorCode::RangeError => "RangeError"@,
        ErrorCode::ChannelError => "ChannelError"@,
        ErrorCode::Break => "Break"@,
        ErrorCode::Continue => "Continue"@,
        ErrorCode::ReturnError => "ReturnError"@,
    }
}

impl ErrorCode {
    /// The name of the code, as it is shown.
    pub fn name(&self) -> (s: String)
        ensures
            s@ == code_name(*self),
    {
        match self {
            ErrorCode::LexerError => owned("LexerError"),
            ErrorCode::UnexpectedCharacter => owned("UnexpectedCharacter"),
            ErrorCode::UnterminatedString => owned("UnterminatedString"),
            ErrorCode::CannotEscape => owned("CannotEscape"),
            ErrorCode::UnexpectedToken => owned("UnexpectedToken"),
            ErrorCode::InvalidNumber => owned("InvalidNumber"),
            ErrorCode::RuntimeError => owned("RuntimeError"),
            ErrorCode::UnknownReference => owned("UnknownReference"),
            ErrorCode::InvalidOperation => owned("InvalidOperation"),
            ErrorCode::CannotCoerce => owned("CannotCoerce"),
            ErrorCode::AlreadyDefined => owned("AlreadyDefined"),
            ErrorCode::ConstantAssignment => owned("ConstantAssignment"),
            ErrorCode::InternalLockError => owned("InternalLockError"),
            ErrorCode::ScopeError => owned("ScopeError"),
            ErrorCode::OutOfBounds => owned("OutOfBounds"),
            ErrorCode::InvalidKey => owned("InvalidKey"),
            ErrorCode::TypeError => owned("TypeError"),
            ErrorCode::CannotResolve => owned("CannotResolve"),
            ErrorCode::Unresolved => owned("Unresolved"),
            ErrorCode::NotExported => owned("NotExported"),
            ErrorCode::UndefinedEventMessage => owned("UndefinedEventMessage"),
            ErrorCode::InvalidProperty => owned("InvalidProperty"),
            ErrorCode::CannotIterate => owned("CannotIterate"),
            ErrorCode::RangeError => owned("RangeError"),
            ErrorCode::ChannelError => owned("ChannelError"),
            ErrorCode::Break => owned("Break"),
            ErrorCode::Continue => owned("Continue"),
            ErrorCode::ReturnError => owned("ReturnError"),
        }
    }
}

/// The terminal colour codes that errors are shown with.
pub open spec fn fg_red() -> Seq<char> {
    "\u{1b}[31m"@
}

pub open spec fn fg_gray() -> Seq<char> {
    "\u{1b}[90m"@
}

pub open spec fn fg_cyan() -> Seq<char> {
    "\u{1b}[36m"@
}

pub open spec fn color_reset() -> Seq<char> {
    "\u{1b}[0m"@
}

/// The lines of `cs`, split at each newline; the last runs to the end.
pub open spec fn split_lines(cs: Seq<char>) -> Seq<Seq<char>>
    decreases cs.len(),
{
    if cs.len() == 0 {
        seq![seq![]]
    } else {
        let rest = split_lines(cs.drop_last());
        if cs.last() == '\n' {
            rest.push(seq![])
        } else {
            rest.update(rest.len() - 1, rest.last().push(cs.last()))
        }
    }
}

/// Lines put back together, a newline between each two.
pub open spec fn join_lines(ls: Seq<Seq<char>>) -> Seq<char>
    decreases ls.len(),
{
    if ls.len() == 0 {
        seq![]
    } else if ls.len() == 1 {
        ls[0]
    } else {
        join_lines(ls.drop_last()) + seq!['\n'] + ls.last()
    }
}

/// Splitting a text into lines loses nothing and keeps every blank line: no
/// line holds a newline, and the lines joined with a newline between each two
/// give back the text. So there is one line more than there are newlines, and
/// line `k` is the text between the `k`-th newline and the next.
pub proof fn law_split_lines(cs: Seq<char>)
    ensures
        split_lines(cs).len() >= 1,
        forall|k: int| 0 <= k < split_lines(cs).len() ==> !(#[trigger] split_lines(cs)[k]).contains('\n'),
        join_lines(split_lines(cs)) == cs,
    decreases cs.len(),
{
    lemma_split_lines_len(cs);
    if cs.len() > 0 {
        let pre = cs.drop_last();
        let c = cs.last();
        let rest = split_lines(pre);
        law_split_lines(pre);
        assert(cs =~= pre.push(c));
        let ls = split_lines(cs);
        if c == '\n' {
            assert(ls == rest.push(seq![]));
            assert(ls.drop_last() =~= rest);
            assert(join_lines(ls) =~= pre + seq!['\n'] + seq![]);
            assert forall|k: int| 0 <= k < ls.len() implies !(#[trigger] ls[k]).contains('\n') by {
                if k < rest.len() {
                    assert(ls[k] == rest[k]);
                } else {
                    assert(ls[k] =~= seq![]);
                }
            }
        } else {
            let n = rest.len() - 1;
            let last = rest.last().push(c);
            assert(ls == rest.update(n, last));
            assert forall|k: int| 0 <= k < ls.len() implies !(#[trigger] ls[k]).contains('\n') by {
                if k < n {
                    assert(ls[k] == rest[k]);
                } else {
                    assert(ls[k] == last);
                    assert(!rest[n].contains('\n'));
                    if last.contains('\n') {
                        let j = choose|j: int| 0 <= j < last.len() && last[j] == '\n';
                        if j < rest[n].len() {
                            assert(rest[n][j] == '\n');
                        }
                    }
                }
            }
            if rest.len() == 1 {
                assert(join_lines(rest) == rest[0]);
                assert(join_lines(ls) == last);
            } else {
                assert(ls.drop_last() =~= rest.drop_last());
                assert(join_lines(ls) == join_lines(rest.drop_last()) + seq!['\n'] + last);
                assert(join_lines(ls) =~= join_lines(rest).push(c));
            }
        }
    }
}

/// `n` copies of `c`.
pub open spec fn repeat_char(c: char, n: nat) -> Seq<char> {
    Seq::new(n, |i: int| c)
}

/// How an error is shown, given the text of the file it points into: the code
/// and message, then the line it points at and a row of carets under the place.
pub open spec fn visualise_text(e: ErrorView, contents: Seq<char>) -> Seq<char> {
    let head = fg_red() + code_name(e.code) + " error: "@ + e.message + color_reset();
    match e.location {
        None => head,
        Some(l) => {
            let lines = split_lines(contents);
            let text = if l.line >= lines.len() {
                "<invalid location>"@
            } else {
                lines[l.line as int]
            };
            head + "\n\n"@ + fg_gray() + text + color_reset() + "\n"@ + fg_cyan() + repeat_char(' ', l.start)
                + repeat_char('^', (l.end - l.start) as nat) + color_reset()
        },
    }
}

proof fn lemma_split_lines_len(cs: Seq<char>)
    ensures
        split_lines(cs).len() >= 1,
    decreases cs.len(),
{
    if cs.len() > 0 {
        lemma_split_lines_len(cs.drop_last());
    }
}

/// Line `k` of `contents`, if it has one.
fn line_of(contents: &str, k: usize) -> (r: Option<String>)
    ensures
        match r {
            Some(t) => k < split_lines(contents@).len() && t@ == split_lines(contents@)[k as int],
            None => k >= split_lines(contents@).len(),
        },
{
    let cs = crate::text::str_chars(contents);
    let mut line: usize = 0;
    let mut cur: Vec<char> = Vec::new();
    let mut i: usize = 0;
    proof {
        assert(cs@.subrange(0, 0) =~= seq![]);
    }
    while i < cs.len()
        invariant
            0 <= i <= cs@.len(),
            cs@ == contents@,
            line + 1 == split_lines(cs@.subrange(0, i as int)).len(),
            cur@ == split_lines(cs@.subrange(0, i as int)).last(),
            line <= i,
            line <= k,
        decreases cs.len() - i,
    {
        let ghost pre = cs@.subrange(0, i as int);
        let ghost next = cs@.subrange(0, i as int + 1);
        proof {
            assert(next.drop_last() =~= pre);
            assert(next.last() == cs@[i as int]);
            lemma_split_lines_len(pre);
        }
        if cs[i] == '\n' {
            if line == k {
                proof {
                    lemma_split_prefix(cs@, i as int + 1, k as int);
                }
                return Some(string_from_chars(&cur));
            }
            line = line + 1;
            cur = Vec::new();
        } else {
            cur.push(cs[i]);
        }
        i = i + 1;
    }
    proof {
        assert(cs@.subrange(0, i as int) =~= cs@);
    }
    if line == k {
        Some(string_from_chars(&cur))
    } else {
        None
    }
}

/// Lines before the last of a prefix are lines of the whole text, and the
/// whole text has at least as many lines.
proof fn lemma_split_prefix(cs: Seq<char>, n: int, k: int)
    requires
        0 <= n <= cs.len(),
        0 <= k < split_lines(cs.subrange(0, n)).len() - 1,
    ensures
        split_lines(cs.subrange(0, n)).len() <= split_lines(cs).len(),
        split_lines(cs)[k] == split_lines(cs.subrange(0, n))[k],
    decreases cs.len() - n,
{
    lemma_split_lines_len(cs.subrange(0, n));
    if n < cs.len() {
        let pre = cs.subrange(0, n);
        let next = cs.subrange(0, n + 1);
        assert(next.drop_last() =~= pre);
        lemma_split_lines_len(pre);
        lemma_split_prefix(cs, n + 1, k);
    } else {
        assert(cs.subrange(0, n) =~= cs);
    }
}

/// A `String` of `n` copies of `c`.
fn repeat(c: char, n: usize) -> (s: String)
    ensures
        s@ == repeat_char(c, n as nat),
{
    let mut v: Vec<char> = Vec::new();
    let mut i: usize = 0;
    while i < n
        invariant
            0 <= i <= n,
            v@ == repeat_char(c, i as nat),
        decreases n - i,
    {
        v.push(c);
        i = i + 1;
        proof {
            assert(v@ =~= repeat_char(c, i as nat));
        }
    }
    proof {
        assert(v@ =~= repeat_char(c, n as nat));
    }
    string_from_chars(&v)
}

impl ZephyrError {
    /// Shows the error, given the text of the file that its location points into.
    pub fn _visualise(&self, file_contents: String) -> (s: String)
        requires
            self.location matches Some(l) ==> l.start <= l.end,
        ensures
            s@ == visualise_text(self@, file_contents@),
    {
        let mut out = owned("\u{1b}[31m").concat(self.code.name().as_str()).concat(" error: ").concat(
            self.message.as_str(),
        ).concat("\u{1b}[0m");
        match &self.location {
            None => out,
            Some(location) => {
                let text = match line_of(file_contents.as_str(), location.line) {
                    Some(t) => t,
                    None => owned("<invalid location>"),
                };
                out = out.concat("\n\n").concat("\u{1b}[90m").concat(text.as_str()).concat("\u{1b}[0m").concat(
                    "\n",
                ).concat("\u{1b}[36m").concat(repeat(' ', location.start).as_str()).concat(
                    repeat('^', location.end - location.start).as_str(),
                ).concat("\u{1b}[0m");
                out
            },
        }
    }

    /// Shows the error. `file_contents` is the text of the file that its
    /// location names, where that file could be read.
    pub fn visualise(&self, file_contents: Option<String>) -> (s: String)
        requires
            self.location matches Some(l) ==> l.start <= l.end,
        ensures
            self.location is Some ==> s@ == visualise_text(
                self@,
                match file_contents {
                    Some(t) => t@,
                    None => "<no file provided>"@,
                },
            ),
            self.location is None ==> s@ == visualise_text(self@, "<no location>"@),
    {
        match &self.location {
            Some(_) => {
                let contents = match file_contents {
                    Some(t) => t,
                    None => owned("<no file provided>"),
                };
                self._visualise(contents)
            },
            None => self._visualise(owned("<no location>")),
        }
    }
}

} // verus!
