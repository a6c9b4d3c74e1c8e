//! What the parser makes of a sequence of tokens, stated over plain values.
//!
//! Each function reads a prefix of the tokens and gives the node read with the
//! tokens left, an error, or `Fault::Panic` where reading would need a token
//! past the end of the list (or meets a postfix operator that is neither `++`
//! nor `--`). Where a function goes on with the tokens that an inner read left,
//! a guard checks that they are fewer; every read consumes a token, so these
//! guards always hold (the parser in `parser.rs` proves it as it goes).
use vstd::prelude::*;

use crate::errors::{ErrorCode, ErrorView};
use crate::nodes::{
    BlockView, DeclareTypeView, DeclareView, ExportTypeView, ExposeTypeView, InterruptTypeView,
    IsTypeView, MatchCaseView, NodeView, SymbolView,
};
use crate::number::is_float_literal;
use crate::tokens::{Additive, Comparison, LocationView, Multiplicative, TokenType, TokenView, Unary};

verus! {

/// Why reading stopped.
pub enum Fault {
    /// The input is rejected with this error.
    Error(ErrorView),
    /// Reading went past the end of the tokens, or met a token it cannot handle
    /// and does not report.
    Panic,
}

pub open spec fn error(code: ErrorCode, message: Seq<char>, location: LocationView) -> Fault {
    Fault::Error(ErrorView { code, message, location: Some(location) })
}

/// The location given to an empty block.
pub open spec fn no_location() -> LocationView {
    LocationView { start: 0, end: 0, line: 0, file_name: None }
}

pub open spec fn tsym(t: TokenView) -> SymbolView {
    SymbolView { value: t.value, location: t.location }
}

/// Takes the first token where it is of kind `t`; else an error with `code`
/// and `message`, located at that token.
pub open spec fn expect_with(ts: Seq<TokenView>, t: TokenType, code: ErrorCode, message: Seq<char>) -> Result<
    (TokenView, Seq<TokenView>),
    Fault,
> {
    if ts.len() == 0 {
        Err(Fault::Panic)
    } else if ts[0].t == t {
        Ok((ts[0], ts.drop_first()))
    } else {
        Err(error(code, message, ts[0].location))
    }
}

/// Takes the first token where it is of kind `t`; else the error `message`.
pub open spec fn expect(ts: Seq<TokenView>, t: TokenType, message: Seq<char>) -> Result<
    (TokenView, Seq<TokenView>),
    Fault,
> {
    expect_with(ts, t, ErrorCode::UnexpectedToken, message)
}

/// Where a node stands.
pub open spec fn node_location(n: NodeView) -> LocationView {
    match n {
        NodeView::Block(b) => b.location,
        NodeView::ExportedBlock(b) => b.location,
        NodeView::Assign { location, .. } => location,
        NodeView::Declare(d) => d.location,
        NodeView::Export { location, .. } => location,
        NodeView::For { location, .. } => location,
        NodeView::If { location, .. } => location,
        NodeView::Import { location, .. } => location,
        NodeView::Interrupt { location, .. } => location,
        NodeView::Match { location, .. } => location,
        NodeView::WhileLoop { location, .. } => location,
        NodeView::Arithmetic { location, .. } => location,
        NodeView::Call { location, .. } => location,
        NodeView::Comp { location, .. } => location,
        NodeView::Debug { location, .. } => location,
        NodeView::Enum { location, .. } => location,
        NodeView::Function { location, .. } => location,
        NodeView::Is { location, .. } => location,
        NodeView::Logical { location, .. } => location,
        NodeView::Member { location, .. } => location,
        NodeView::Range { location, .. } => location,
        NodeView::Unary { location, .. } => location,
        NodeView::EncapsulateError { location, .. } => location,
        NodeView::PropogateError { location, .. } => location,
        NodeView::Array { location, .. } => location,
        NodeView::Number { location, .. } => location,
        NodeView::Symbol(s) => s.location,
        NodeView::Object { location, .. } => location,
        NodeView::ZString { location, .. } => location,
    }
}

/// What std says when a text does not read as a floating-point number.
pub open spec fn float_error_text(s: Seq<char>) -> Seq<char> {
    if s.len() == 0 {
        "cannot parse float from empty string"@
    } else {
        "invalid float literal"@
    }
}

/// Whether `i` is the first position of `s` whose key is `k`.
pub open spec fn first_key_at(s: Seq<(Seq<char>, NodeView, Seq<(Seq<char>, Seq<char>)>)>, k: Seq<char>, i: int) -> bool {
    0 <= i < s.len() && s[i].0 == k && forall|j: int| 0 <= j < i ==> s[j].0 != k
}

/// Sets key `k` to `v`, with no tags: in place where the key is present, else
/// at the end.
pub open spec fn assoc_insert(s: Seq<(Seq<char>, NodeView, Seq<(Seq<char>, Seq<char>)>)>, k: Seq<char>, v: NodeView) -> Seq<
    (Seq<char>, NodeView, Seq<(Seq<char>, Seq<char>)>),
> {
    if exists|i: int| first_key_at(s, k, i) {
        s.update(choose|i: int| first_key_at(s, k, i), (k, v, seq![]))
    } else {
        s.push((k, v, seq![]))
    }
}

// ----- reads that call no other read -----

/// `name (, name)*` of an array declaration.
pub open spec fn spec_decl_names(ts: Seq<TokenView>, acc: Seq<SymbolView>) -> Result<
    (Seq<SymbolView>, Seq<TokenView>),
    Fault,
>
    decreases ts.len(),
{
    match expect(ts, TokenType::Symbol, "Expected symbol"@) {
        Ok((s, r)) => if r.len() == 0 {
            Err(Fault::Panic)
        } else if r[0].t == TokenType::Comma {
            spec_decl_names(r.drop_first(), acc.push(tsym(s)))
        } else {
            Ok((acc.push(tsym(s)), r))
        },
        Err(f) => Err(f),
    }
}

/// The parameter names of a function, up to its closing paren.
pub open spec fn spec_fn_args(ts: Seq<TokenView>, acc: Seq<SymbolView>) -> Result<
    (Seq<SymbolView>, Seq<TokenView>),
    Fault,
>
    decreases ts.len(),
{
    if ts.len() == 0 {
        Err(Fault::Panic)
    } else if ts[0].t == TokenType::CloseParan {
        Ok((acc, ts))
    } else {
        match expect(ts, TokenType::Symbol, "Expected symbol"@) {
            Ok((s, r)) => if r.len() == 0 {
                Err(Fault::Panic)
            } else if r[0].t == TokenType::Comma {
                spec_fn_args(r.drop_first(), acc.push(tsym(s)))
            } else {
                Ok((acc.push(tsym(s)), r))
            },
            Err(f) => Err(f),
        }
    }
}

/// The items of an enum named `name`, each with the name `name.item__`.
pub open spec fn spec_enum_items(ts: Seq<TokenView>, name: Seq<char>, acc: Seq<(SymbolView, Seq<char>)>) -> Result<
    (Seq<(SymbolView, Seq<char>)>, Seq<TokenView>),
    Fault,
>
    decreases ts.len(),
{
    if ts.len() == 0 {
        Err(Fault::Panic)
    } else if ts[0].t == TokenType::CloseBrace {
        Ok((acc, ts))
    } else {
        match expect(ts, TokenType::Symbol, "Expected symbol for enum item"@) {
            Ok((s, r)) => {
                let item = (tsym(s), name + "."@ + s.value + "__"@);
                if r.len() == 0 {
                    Err(Fault::Panic)
                } else if r[0].t == TokenType::Comma {
                    spec_enum_items(r.drop_first(), name, acc.push(item))
                } else {
                    Ok((acc.push(item), r))
                }
            },
            Err(f) => Err(f),
        }
    }
}

/// `enum name { item, ... }`.
pub open spec fn spec_enum_stmt(ts: Seq<TokenView>) -> Result<(NodeView, Seq<TokenView>), Fault> {
    if ts.len() == 0 {
        Err(Fault::Panic)
    } else {
        match expect(ts.drop_first(), TokenType::Symbol, "Expected symbol for enum name"@) {
            Ok((n, r)) => match expect(r, TokenType::OpenBrace, "Expected open brace"@) {
                Ok((_, r2)) => match spec_enum_items(r2, n.value, seq![]) {
                    Ok((values, r3)) => match expect(r3, TokenType::CloseBrace, "Expected close brace"@) {
                        Ok((_, r4)) => Ok(
                            (NodeView::Enum { name: tsym(n), values, location: ts[0].location }, r4),
                        ),
                        Err(f) => Err(f),
                    },
                    Err(f) => Err(f),
                },
                Err(f) => Err(f),
            },
            Err(f) => Err(f),
        }
    }
}

/// The names that an import exposes. A `*` is not consumed.
pub open spec fn spec_expose_items(ts: Seq<TokenView>, acc: Seq<ExposeTypeView>) -> Result<
    (Seq<ExposeTypeView>, Seq<TokenView>),
    Fault,
>
    decreases ts.len(),
{
    if ts.len() == 0 {
        Err(Fault::Panic)
    } else {
        let first: Result<(ExposeTypeView, Seq<TokenView>), Fault> = if ts[0].t
            == TokenType::Symbol {
            Ok((ExposeTypeView::Identifier(ts[0].value), ts.drop_first()))
        } else if ts[0].t == TokenType::Multiplicative(Multiplicative::Multiply) {
            Ok((ExposeTypeView::Star, ts))
        } else {
            Err(error(ErrorCode::UnexpectedToken, "Cannot use this token here"@, ts[0].location))
        };
        match first {
            Ok((e, r)) => if r.len() == 0 {
                Err(Fault::Panic)
            } else {
                let second: Result<(ExposeTypeView, Seq<TokenView>), Fault> = if r[0].t
                    == TokenType::As {
                    match expect(r.drop_first(), TokenType::Symbol, "Expected identifier"@) {
                        Ok((id, r2)) => Ok(
                            (
                                match e {
                                    ExposeTypeView::Identifier(i) => ExposeTypeView::IdentifierAs(
                                        i,
                                        id.value,
                                    ),
                                    _ => ExposeTypeView::StarAs(id.value),
                                },
                                r2,
                            ),
                        ),
                        Err(f) => Err(f),
                    }
                } else {
                    Ok((e, r))
                };
                match second {
                    Ok((e2, r2)) => if r2.len() == 0 {
                        Err(Fault::Panic)
                    } else if r2[0].t == TokenType::Comma {
                        if r2.len() <= ts.len() {
                            spec_expose_items(r2.drop_first(), acc.push(e2))
                        } else {
                            Err(Fault::Panic)
                        }
                    } else {
                        Ok((acc.push(e2), r2))
                    },
                    Err(f) => Err(f),
                }
            },
            Err(f) => Err(f),
        }
    }
}

/// `import "path" (expose name (as alias)?, ...)?`.
pub open spec fn spec_import(ts: Seq<TokenView>) -> Result<(NodeView, Seq<TokenView>), Fault> {
    if ts.len() == 0 {
        Err(Fault::Panic)
    } else {
        match expect(
            ts.drop_first(),
            TokenType::String,
            "Expected string containing import location"@,
        ) {
            Ok((it, r)) => if r.len() == 0 {
                Err(Fault::Panic)
            } else if r[0].t == TokenType::Expose {
                match spec_expose_items(r.drop_first(), seq![]) {
                    Ok((ex, r2)) => Ok(
                        (
                            NodeView::Import { import: it.value, exposing: ex, location: ts[0].location },
                            r2,
                        ),
                    ),
                    Err(f) => Err(f),
                }
            } else {
                Ok(
                    (
                        NodeView::Import { import: it.value, exposing: seq![], location: ts[0].location },
                        r,
                    ),
                )
            },
            Err(f) => Err(f),
        }
    }
}


// ----- the reads that call each other -----

/// A block: `{ statement;* }`, `-> statement`, or, with `no_brace`, the
/// statements up to a `}` or the end of the file.
pub open spec fn spec_block(ts: Seq<TokenView>, no_brace: bool) -> Result<(BlockView, Seq<TokenView>), Fault>
    decreases ts.len(), if no_brace { 40nat } else { 5nat },
{
    if !no_brace {
        if ts.len() == 0 {
            Err(Fault::Panic)
        } else if ts[0].t != TokenType::OpenBrace && ts[0].t != TokenType::Arrow {
            Err(error(ErrorCode::UnexpectedToken, "Expected {, but got "@ + ts[0].value, ts[0].location))
        } else if ts[0].t == TokenType::Arrow {
            match spec_statement(ts.drop_first()) {
                Ok((n, r)) => Ok((BlockView { nodes: seq![n], location: ts[0].location }, r)),
                Err(f) => Err(f),
            }
        } else {
            match spec_block_items(ts.drop_first(), seq![]) {
                Ok((nodes, r)) => match expect(
                    r,
                    TokenType::CloseBrace,
                    "Expected }, but got "@ + r[0].value,
                ) {
                    Ok((_, r2)) => Ok((BlockView { nodes, location: ts[0].location }, r2)),
                    Err(f) => Err(f),
                },
                Err(f) => Err(f),
            }
        }
    } else {
        match spec_block_items(ts, seq![]) {
            Ok((nodes, r)) => Ok(
                (
                    BlockView {
                        nodes,
                        location: if nodes.len() > 0 {
                            node_location(nodes[0])
                        } else {
                            no_location()
                        },
                    },
                    r,
                ),
            ),
            Err(f) => Err(f),
        }
    }
}

/// Statements, each followed by an optional `;`, up to a `}`, the end of the
/// file or the end of the tokens.
pub open spec fn spec_block_items(ts: Seq<TokenView>, acc: Seq<NodeView>) -> Result<
    (Seq<NodeView>, Seq<TokenView>),
    Fault,
>
    decreases ts.len(), 35nat,
{
    if ts.len() == 0 || ts[0].t == TokenType::CloseBrace || ts[0].t == TokenType::EOF {
        Ok((acc, ts))
    } else {
        match spec_statement(ts) {
            Ok((n, r)) => if r.len() == 0 {
                Err(Fault::Panic)
            } else {
                let r2 = if r[0].t == TokenType::Semicolon {
                    r.drop_first()
                } else {
                    r
                };
                if r2.len() < ts.len() {
                    spec_block_items(r2, acc.push(n))
                } else {
                    Err(Fault::Panic)
                }
            },
            Err(f) => Err(f),
        }
    }
}

/// A statement: a declaration, an enum, a named function, `debug`, `export`,
/// `import`, a loop, `continue`, `break`, `return`, or an expression.
pub open spec fn spec_statement(ts: Seq<TokenView>) -> Result<(NodeView, Seq<TokenView>), Fault>
    decreases ts.len(), 30nat,
{
    if ts.len() == 0 {
        Err(Fault::Panic)
    } else {
        let t = ts[0].t;
        let r = ts.drop_first();
        if t == TokenType::Let || t == TokenType::Const {
            spec_declare(ts)
        } else if t == TokenType::Enum {
            spec_enum_stmt(ts)
        } else if t == TokenType::Function {
            spec_function(ts, true)
        } else if t == TokenType::Debug {
            match spec_expression(r) {
                Ok((e, r2)) => Ok((NodeView::Debug { node: Box::new(e), location: ts[0].location }, r2)),
                Err(f) => Err(f),
            }
        } else if t == TokenType::Export {
            spec_export(ts)
        } else if t == TokenType::Import {
            spec_import(ts)
        } else if t == TokenType::While {
            spec_while(ts)
        } else if t == TokenType::For {
            spec_for(ts)
        } else if t == TokenType::Continue {
            Ok((NodeView::Interrupt { location: ts[0].location, t: InterruptTypeView::Continue }, r))
        } else if t == TokenType::Break {
            Ok((NodeView::Interrupt { location: ts[0].location, t: InterruptTypeView::Break }, r))
        } else if t == TokenType::Return {
            if r.len() == 0 {
                Err(Fault::Panic)
            } else {
                let v: Result<(Option<Box<NodeView>>, Seq<TokenView>), Fault> = if r[0].t
                    == TokenType::Semicolon {
                    Ok((None, r))
                } else {
                    match spec_expression(r) {
                        Ok((e, r2)) => Ok((Some(Box::new(e)), r2)),
                        Err(f) => Err(f),
                    }
                };
                match v {
                    Ok((val, r2)) => if r2.len() == 0 {
                        Err(Fault::Panic)
                    } else {
                        Ok(
                            (
                                NodeView::Interrupt {
                                    location: r2[0].location,
                                    t: InterruptTypeView::Return(val),
                                },
                                r2.drop_first(),
                            ),
                        )
                    },
                    Err(f) => Err(f),
                }
            }
        } else {
            spec_expression(ts)
        }
    }
}

/// `export statement (as name)?`, where the statement is a symbol or a declaration.
pub open spec fn spec_export(ts: Seq<TokenView>) -> Result<(NodeView, Seq<TokenView>), Fault>
    decreases ts.len(), 5nat,
{
    if ts.len() == 0 {
        Err(Fault::Panic)
    } else {
        match spec_statement(ts.drop_first()) {
            Ok((n, r)) => {
                let et: Result<ExportTypeView, Fault> = match n {
                    NodeView::Symbol(s) => Ok(ExportTypeView::Symbol(s)),
                    NodeView::Declare(d) => Ok(ExportTypeView::Declaration(d)),
                    _ => if r.len() == 0 {
                        Err(Fault::Panic)
                    } else {
                        Err(error(ErrorCode::UnexpectedToken, "Cannot export this statement"@, r[0].location))
                    },
                };
                match et {
                    Ok(e) => if r.len() == 0 {
                        Err(Fault::Panic)
                    } else if r[0].t == TokenType::As {
                        match expect(r.drop_first(), TokenType::Symbol, "Expected symbol"@) {
                            Ok((s, r2)) => Ok(
                                (
                                    NodeView::Export {
                                        export: e,
                                        export_as: Some(s.value),
                                        location: ts[0].location,
                                    },
                                    r2,
                                ),
                            ),
                            Err(f) => Err(f),
                        }
                    } else {
                        Ok((NodeView::Export { export: e, export_as: None, location: ts[0].location }, r))
                    },
                    Err(f) => Err(f),
                }
            },
            Err(f) => Err(f),
        }
    }
}

/// `let`/`const` followed by a name or `[name, ...]`, and `= expression` or nothing.
pub open spec fn spec_declare(ts: Seq<TokenView>) -> Result<(NodeView, Seq<TokenView>), Fault>
    decreases ts.len(), 5nat,
{
    if ts.len() == 0 {
        Err(Fault::Panic)
    } else {
        let is_const = ts[0].t != TokenType::Let;
        let r = ts.drop_first();
        if r.len() == 0 {
            Err(Fault::Panic)
        } else {
            let target: Result<(DeclareTypeView, Seq<TokenView>), Fault> = if r[0].t
                == TokenType::Symbol {
                Ok((DeclareTypeView::Symbol(tsym(r[0])), r.drop_first()))
            } else if r[0].t == TokenType::OpenSquare {
                match spec_decl_names(r.drop_first(), seq![]) {
                    Ok((names, r2)) => match expect(r2, TokenType::CloseSquare, "Expected close square paran"@) {
                        Ok((_, r3)) => Ok((DeclareTypeView::Array(names), r3)),
                        Err(f) => Err(f),
                    },
                    Err(f) => Err(f),
                }
            } else {
                Err(error(ErrorCode::UnexpectedToken, "Cannot assign to this"@, r[0].location))
            };
            match target {
                Ok((d, r3)) => if r3.len() == 0 {
                    Err(Fault::Panic)
                } else if r3[0].t == TokenType::Assign {
                    if r3.len() <= ts.len() {
                        match spec_expression(r3.drop_first()) {
                            Ok((v, r4)) => Ok(
                                (
                                    NodeView::Declare(
                                        DeclareView {
                                            assignee: d,
                                            value: Some(Box::new(v)),
                                            location: r3[0].location,
                                            is_const,
                                        },
                                    ),
                                    r4,
                                ),
                            ),
                            Err(f) => Err(f),
                        }
                    } else {
                        Err(Fault::Panic)
                    }
                } else {
                    Ok(
                        (
                            NodeView::Declare(
                                DeclareView { assignee: d, value: None, location: ts[0].location, is_const },
                            ),
                            r3,
                        ),
                    )
                },
                Err(f) => Err(f),
            }
        }
    }
}

/// `for index (, value)? in expression block`.
pub open spec fn spec_for(ts: Seq<TokenView>) -> Result<(NodeView, Seq<TokenView>), Fault>
    decreases ts.len(), 5nat,
{
    if ts.len() == 0 {
        Err(Fault::Panic)
    } else {
        match expect(ts.drop_first(), TokenType::Symbol, "Expected symbol for the index"@) {
            Ok((it, r)) => if r.len() == 0 {
                Err(Fault::Panic)
            } else {
                let vs: Result<(Option<SymbolView>, Seq<TokenView>), Fault> = if r[0].t
                    == TokenType::Comma {
                    match expect(r.drop_first(), TokenType::Symbol, "Expected symbol for the value"@) {
                        Ok((v, r2)) => Ok((Some(tsym(v)), r2)),
                        Err(f) => Err(f),
                    }
                } else {
                    Ok((None, r))
                };
                match vs {
                    Ok((vsym, r2)) => match expect(r2, TokenType::In, "Expected \"in\""@) {
                        Ok((_, r3)) => if r3.len() < ts.len() {
                            match spec_expression(r3) {
                                Ok((iter, r4)) => if r4.len() < ts.len() {
                                    match spec_block(r4, false) {
                                        Ok((b, r5)) => Ok(
                                            (
                                                NodeView::For {
                                                    value_symbol: vsym,
                                                    index_symbol: tsym(it),
                                                    iterator: Box::new(iter),
                                                    block: Box::new(NodeView::Block(b)),
                                                    location: ts[0].location,
                                                },
                                                r5,
                                            ),
                                        ),
                                        Err(f) => Err(f),
                                    }
                                } else {
                                    Err(Fault::Panic)
                                },
                                Err(f) => Err(f),
                            }
                        } else {
                            Err(Fault::Panic)
                        },
                        Err(f) => Err(f),
                    },
                    Err(f) => Err(f),
                }
            },
            Err(f) => Err(f),
        }
    }
}

/// `func name? (params)? block`; as a statement the name is required and the
/// function is declared under it.
pub open spec fn spec_function(ts: Seq<TokenView>, is_statement: bool) -> Result<(NodeView, Seq<TokenView>), Fault>
    decreases ts.len(), 5nat,
{
    if ts.len() == 0 {
        Err(Fault::Panic)
    } else {
        let r = ts.drop_first();
        if r.len() == 0 {
            Err(Fault::Panic)
        } else {
            let nm: Result<(Option<TokenView>, Seq<TokenView>), Fault> = if r[0].t
                == TokenType::Symbol {
                Ok((Some(r[0]), r.drop_first()))
            } else if is_statement {
                Err(error(ErrorCode::UnexpectedToken, "Expected name for function"@, r[0].location))
            } else {
                Ok((None, r))
            };
            match nm {
                Ok((name, r2)) => if r2.len() == 0 {
                    Err(Fault::Panic)
                } else {
                    let args: Result<(Seq<SymbolView>, Seq<TokenView>), Fault> = if r2[0].t
                        == TokenType::OpenParan {
                        match spec_fn_args(r2.drop_first(), seq![]) {
                            Ok((a, r3)) => match expect(r3, TokenType::CloseParan, "Expected closing paren"@) {
                                Ok((_, r4)) => Ok((a, r4)),
                                Err(f) => Err(f),
                            },
                            Err(f) => Err(f),
                        }
                    } else {
                        Ok((seq![], r2))
                    };
                    match args {
                        Ok((a, r4)) => if r4.len() < ts.len() {
                            match spec_block(r4, false) {
                                Ok((b, r5)) => {
                                    let f = NodeView::Function {
                                        name: match name {
                                            Some(t) => Some(tsym(t)),
                                            None => None,
                                        },
                                        body: b,
                                        args: a,
                                        location: ts[0].location,
                                    };
                                    if is_statement {
                                        Ok(
                                            (
                                                NodeView::Declare(
                                                    DeclareView {
                                                        assignee: DeclareTypeView::Symbol(tsym(name.unwrap())),
                                                        value: Some(Box::new(f)),
                                                        location: ts[0].location,
                                                        is_const: false,
                                                    },
                                                ),
                                                r5,
                                            ),
                                        )
                                    } else {
                                        Ok((f, r5))
                                    }
                                },
                                Err(f) => Err(f),
                            }
                        } else {
                            Err(Fault::Panic)
                        },
                        Err(f) => Err(f),
                    }
                },
                Err(f) => Err(f),
            }
        }
    }
}

/// `while expression block`.
pub open spec fn spec_while(ts: Seq<TokenView>) -> Result<(NodeView, Seq<TokenView>), Fault>
    decreases ts.len(), 5nat,
{
    if ts.len() == 0 {
        Err(Fault::Panic)
    } else {
        match spec_expression(ts.drop_first()) {
            Ok((test, r)) => if r.len() < ts.len() {
                match spec_block(r, false) {
                    Ok((b, r2)) => Ok(
                        (
                            NodeView::WhileLoop {
                                test: Box::new(test),
                                body: Box::new(NodeView::Block(b)),
                                location: ts[0].location,
                            },
                            r2,
                        ),
                    ),
                    Err(f) => Err(f),
                }
            } else {
                Err(Fault::Panic)
            },
            Err(f) => Err(f),
        }
    }
}

/// `if expression block (else (if ... | block))?`.
pub open spec fn spec_if(ts: Seq<TokenView>) -> Result<(NodeView, Seq<TokenView>), Fault>
    decreases ts.len(), 5nat,
{
    if ts.len() == 0 {
        Err(Fault::Panic)
    } else {
        match spec_expression(ts.drop_first()) {
            Ok((test, r)) => if r.len() < ts.len() {
                match spec_block(r, false) {
                    Ok((s, r2)) => if r2.len() == 0 {
                        Err(Fault::Panic)
                    } else if r2[0].t == TokenType::Else {
                        let r3 = r2.drop_first();
                        if r3.len() == 0 {
                            Err(Fault::Panic)
                        } else if r3.len() < ts.len() {
                            let alt: Result<(NodeView, Seq<TokenView>), Fault> = if r3[0].t
                                == TokenType::If {
                                spec_if(r3)
                            } else {
                                match spec_block(r3, false) {
                                    Ok((b, r4)) => Ok((NodeView::Block(b), r4)),
                                    Err(f) => Err(f),
                                }
                            };
                            match alt {
                                Ok((a, r4)) => Ok(
                                    (
                                        NodeView::If {
                                            test: Box::new(test),
                                            succss: Box::new(NodeView::Block(s)),
                                            alternate: Some(Box::new(a)),
                                            location: ts[0].location,
                                        },
                                        r4,
                                    ),
                                ),
                                Err(f) => Err(f),
                            }
                        } else {
                            Err(Fault::Panic)
                        }
                    } else {
                        Ok(
                            (
                                NodeView::If {
                                    test: Box::new(test),
                                    succss: Box::new(NodeView::Block(s)),
                                    alternate: None,
                                    location: ts[0].location,
                                },
                                r2,
                            ),
                        )
                    },
                    Err(f) => Err(f),
                }
            } else {
                Err(Fault::Panic)
            },
            Err(f) => Err(f),
        }
    }
}

/// `match expression { case, ... }`.
pub open spec fn spec_match(ts: Seq<TokenView>) -> Result<(NodeView, Seq<TokenView>), Fault>
    decreases ts.len(), 5nat,
{
    if ts.len() == 0 {
        Err(Fault::Panic)
    } else {
        match spec_expression(ts.drop_first()) {
            Ok((test, r)) => match expect(r, TokenType::OpenBrace, "Expected open brace"@) {
                Ok((_, r1)) => if r1.len() < ts.len() {
                    match spec_match_cases(r1, seq![]) {
                        Ok((cases, r2)) => match expect(r2, TokenType::CloseBrace, "Expected close brace"@) {
                            Ok((_, r3)) => Ok(
                                (NodeView::Match { test: Box::new(test), cases, location: ts[0].location }, r3),
                            ),
                            Err(f) => Err(f),
                        },
                        Err(f) => Err(f),
                    }
                } else {
                    Err(Fault::Panic)
                },
                Err(f) => Err(f),
            },
            Err(f) => Err(f),
        }
    }
}

/// One case of a match, read where `ts` is not empty.
pub open spec fn spec_match_case(ts: Seq<TokenView>) -> Result<(MatchCaseView, Seq<TokenView>), Fault>
    decreases ts.len(), 31nat,
{
    if ts.len() == 0 {
        Err(Fault::Panic)
    } else if ts[0].t == TokenType::Else {
        match spec_block(ts.drop_first(), false) {
            Ok((b, r)) => Ok((MatchCaseView::Else(Box::new(NodeView::Block(b))), r)),
            Err(f) => Err(f),
        }
    } else {
        let op = match ts[0].t {
            TokenType::Comparison(c) => c,
            _ => Comparison::Eq,
        };
        let from = if ts[0].t is Comparison {
            ts.drop_first()
        } else {
            ts
        };
        match spec_expression(from) {
            Ok((v, r)) => if r.len() < ts.len() {
                match spec_block(r, false) {
                    Ok((b, r2)) => Ok(
                        (
                            MatchCaseView::MatchCase {
                                op,
                                value: Box::new(v),
                                success: Box::new(NodeView::Block(b)),
                            },
                            r2,
                        ),
                    ),
                    Err(f) => Err(f),
                }
            } else {
                Err(Fault::Panic)
            },
            Err(f) => Err(f),
        }
    }
}

/// The cases of a match: `else block`, `comparison expression block`, or
/// `expression block` (compared for equality), separated by commas; an `else`
/// case ends them.
pub open spec fn spec_match_cases(ts: Seq<TokenView>, acc: Seq<MatchCaseView>) -> Result<
    (Seq<MatchCaseView>, Seq<TokenView>),
    Fault,
>
    decreases ts.len(), 32nat,
{
    if ts.len() == 0 {
        Err(Fault::Panic)
    } else if ts[0].t == TokenType::CloseBrace {
        Ok((acc, ts))
    } else {
        let case = spec_match_case(ts);
        match case {
            Ok((c, r)) => if r.len() == 0 {
                Err(Fault::Panic)
            } else if r[0].t != TokenType::Comma || c is Else {
                Ok((acc.push(c), r))
            } else if r.len() <= ts.len() {
                spec_match_cases(r.drop_first(), acc.push(c))
            } else {
                Err(Fault::Panic)
            },
            Err(f) => Err(f),
        }
    }
}

/// An expression.
pub open spec fn spec_expression(ts: Seq<TokenView>) -> Result<(NodeView, Seq<TokenView>), Fault>
    decreases ts.len(), 29nat,
{
    spec_assign(ts)
}

/// `is_expr (= expression)?`.
pub open spec fn spec_assign(ts: Seq<TokenView>) -> Result<(NodeView, Seq<TokenView>), Fault>
    decreases ts.len(), 28nat,
{
    match spec_is(ts) {
        Ok((l, r)) => if r.len() == 0 {
            Err(Fault::Panic)
        } else if r[0].t == TokenType::Assign {
            if r.len() <= ts.len() {
                match spec_expression(r.drop_first()) {
                    Ok((v, r2)) => Ok(
                        (
                            NodeView::Assign {
                                assignee: Box::new(l),
                                value: Box::new(v),
                                location: r[0].location,
                            },
                            r2,
                        ),
                    ),
                    Err(f) => Err(f),
                }
            } else {
                Err(Fault::Panic)
            }
        } else {
            Ok((l, r))
        },
        Err(f) => Err(f),
    }
}

/// `comparison (is expression)?`.
pub open spec fn spec_is(ts: Seq<TokenView>) -> Result<(NodeView, Seq<TokenView>), Fault>
    decreases ts.len(), 27nat,
{
    match spec_comparison(ts) {
        Ok((l, r)) => if r.len() == 0 {
            Err(Fault::Panic)
        } else if r[0].t == TokenType::Is {
            if r.len() <= ts.len() {
                match spec_expression(r.drop_first()) {
                    Ok((v, r2)) => Ok(
                        (
                            NodeView::Is {
                                left: Box::new(l),
                                right: IsTypeView::Basic(Box::new(v)),
                                is_as: None,
                                location: r[0].location,
                            },
                            r2,
                        ),
                    ),
                    Err(f) => Err(f),
                }
            } else {
                Err(Fault::Panic)
            }
        } else {
            Ok((l, r))
        },
        Err(f) => Err(f),
    }
}

/// `range (comparison-operator expression)*`, nested to the left.
pub open spec fn spec_comparison(ts: Seq<TokenView>) -> Result<(NodeView, Seq<TokenView>), Fault>
    decreases ts.len(), 26nat,
{
    match spec_range(ts) {
        Ok((l, r)) => if r.len() <= ts.len() {
            spec_comp_chain(l, r)
        } else {
            Err(Fault::Panic)
        },
        Err(f) => Err(f),
    }
}

pub open spec fn spec_comp_chain(left: NodeView, ts: Seq<TokenView>) -> Result<(NodeView, Seq<TokenView>), Fault>
    decreases ts.len(), 1nat,
{
    if ts.len() == 0 {
        Err(Fault::Panic)
    } else {
        match ts[0].t {
            TokenType::Comparison(c) => match spec_expression(ts.drop_first()) {
                Ok((right, r)) => if r.len() < ts.len() {
                    spec_comp_chain(
                        NodeView::Comp {
                            left: Box::new(left),
                            right: Box::new(right),
                            t: c,
                            location: ts[0].location,
                        },
                        r,
                    )
                } else {
                    Err(Fault::Panic)
                },
                Err(f) => Err(f),
            },
            _ => Ok((left, ts)),
        }
    }
}

pub open spec fn is_range_token(t: TokenType) -> bool {
    t == TokenType::Range || t == TokenType::RangeInclusive
}

/// `additive`, or a range: `start? ..(=)? end? (: step)?`; a missing start is
/// `0`, a missing end is `-1` and makes the range inclusive.
pub open spec fn spec_range(ts: Seq<TokenView>) -> Result<(NodeView, Seq<TokenView>), Fault>
    decreases ts.len(), 25nat,
{
    if ts.len() == 0 {
        Err(Fault::Panic)
    } else if is_range_token(ts[0].t) {
        spec_range_rest(
            NodeView::Number { value: "0"@, location: ts[0].location },
            ts[0],
            ts.drop_first(),
        )
    } else {
        match spec_additive(ts) {
            Ok((l, r)) => if r.len() == 0 {
                Err(Fault::Panic)
            } else if is_range_token(r[0].t) {
                if r.len() <= ts.len() {
                    spec_range_rest(l, r[0], r.drop_first())
                } else {
                    Err(Fault::Panic)
                }
            } else {
                Ok((l, r))
            },
            Err(f) => Err(f),
        }
    }
}

/// What follows the `..` or `..=` token `rt` of a range that starts at `start`.
pub open spec fn spec_range_rest(start: NodeView, rt: TokenView, ts: Seq<TokenView>) -> Result<
    (NodeView, Seq<TokenView>),
    Fault,
>
    decreases ts.len(), 24nat,
{
    if ts.len() == 0 {
        Err(Fault::Panic)
    } else {
        let t0 = ts[0].t;
        let end: Result<((NodeView, bool), Seq<TokenView>), Fault> = if t0 == TokenType::Symbol
            || t0 == TokenType::Number || t0 is Unary || t0 == TokenType::OpenParan {
            match spec_additive(ts) {
                Ok((e, r)) => Ok(((e, rt.t == TokenType::RangeInclusive), r)),
                Err(f) => Err(f),
            }
        } else {
            Ok(((NodeView::Number { value: "-1"@, location: rt.location }, true), ts))
        };
        match end {
            Ok(((e, inclusive), r)) => if r.len() == 0 {
                Err(Fault::Panic)
            } else if r.len() > ts.len() {
                Err(Fault::Panic)
            } else {
                let step: Result<(Option<Box<NodeView>>, Seq<TokenView>), Fault> = if r[0].t
                    == TokenType::Colon {
                    match spec_additive(r.drop_first()) {
                        Ok((s, r2)) => Ok((Some(Box::new(s)), r2)),
                        Err(f) => Err(f),
                    }
                } else {
                    Ok((None, r))
                };
                match step {
                    Ok((st, r2)) => Ok(
                        (
                            NodeView::Range {
                                start: Box::new(start),
                                end: Box::new(e),
                                inclusive_end: inclusive,
                                step: st,
                                location: rt.location,
                            },
                            r2,
                        ),
                    ),
                    Err(f) => Err(f),
                }
            },
            Err(f) => Err(f),
        }
    }
}

/// `multiplicative (+|- additive)*`.
pub open spec fn spec_additive(ts: Seq<TokenView>) -> Result<(NodeView, Seq<TokenView>), Fault>
    decreases ts.len(), 23nat,
{
    match spec_multiplicative(ts) {
        Ok((l, r)) => if r.len() <= ts.len() {
            spec_add_chain(l, r)
        } else {
            Err(Fault::Panic)
        },
        Err(f) => Err(f),
    }
}

pub open spec fn spec_add_chain(left: NodeView, ts: Seq<TokenView>) -> Result<(NodeView, Seq<TokenView>), Fault>
    decreases ts.len(), 1nat,
{
    if ts.len() == 0 {
        Err(Fault::Panic)
    } else if ts[0].t is Additive {
        match spec_additive(ts.drop_first()) {
            Ok((right, r)) => if r.len() < ts.len() {
                spec_add_chain(
                    NodeView::Arithmetic {
                        left: Box::new(left),
                        right: Box::new(right),
                        t: ts[0].t,
                        location: ts[0].location,
                    },
                    r,
                )
            } else {
                Err(Fault::Panic)
            },
            Err(f) => Err(f),
        }
    } else {
        Ok((left, ts))
    }
}

/// `unary (*|/|%|** expression)*`.
pub open spec fn spec_multiplicative(ts: Seq<TokenView>) -> Result<(NodeView, Seq<TokenView>), Fault>
    decreases ts.len(), 22nat,
{
    match spec_unary(ts) {
        Ok((l, r)) => if r.len() <= ts.len() {
            spec_mul_chain(l, r)
        } else {
            Err(Fault::Panic)
        },
        Err(f) => Err(f),
    }
}

pub open spec fn spec_mul_chain(left: NodeView, ts: Seq<TokenView>) -> Result<(NodeView, Seq<TokenView>), Fault>
    decreases ts.len(), 1nat,
{
    if ts.len() == 0 {
        Err(Fault::Panic)
    } else if ts[0].t is Multiplicative {
        match spec_expression(ts.drop_first()) {
            Ok((right, r)) => if r.len() < ts.len() {
                spec_mul_chain(
                    NodeView::Arithmetic {
                        left: Box::new(left),
                        right: Box::new(right),
                        t: ts[0].t,
                        location: ts[0].location,
                    },
                    r,
                )
            } else {
                Err(Fault::Panic)
            },
            Err(f) => Err(f),
        }
    } else {
        Ok((left, ts))
    }
}

/// The operator that a prefix token stands for.
pub open spec fn prefix_unary_type(t: TokenType) -> crate::nodes::UnaryType {
    match t {
        TokenType::Unary(Unary::Length) => crate::nodes::UnaryType::LengthOf,
        TokenType::Unary(Unary::Not) => crate::nodes::UnaryType::Not,
        TokenType::Unary(_) => crate::nodes::UnaryType::Increment,
        TokenType::Additive(Additive::Plus) => crate::nodes::UnaryType::Plus,
        _ => crate::nodes::UnaryType::Minus,
    }
}

pub open spec fn is_prefix_token(t: TokenType) -> bool {
    t is Unary || t == TokenType::Additive(Additive::Minus) || t == TokenType::Additive(
        Additive::Plus,
    )
}

/// A prefix operator and its operand, or `call_member`, or `call_member ++`/`--`
/// followed by the `call_member` that it applies to.
pub open spec fn spec_unary(ts: Seq<TokenView>) -> Result<(NodeView, Seq<TokenView>), Fault>
    decreases ts.len(), 21nat,
{
    if ts.len() == 0 {
        Err(Fault::Panic)
    } else if is_prefix_token(ts[0].t) {
        match spec_unary(ts.drop_first()) {
            Ok((v, r)) => Ok(
                (
                    NodeView::Unary {
                        t: prefix_unary_type(ts[0].t),
                        value: Box::new(v),
                        is_right: false,
                        location: ts[0].location,
                    },
                    r,
                ),
            ),
            Err(f) => Err(f),
        }
    } else {
        match spec_call_member(ts) {
            Ok((v, r)) => if r.len() == 0 {
                Err(Fault::Panic)
            } else if r[0].t is Unary {
                if r[0].t == TokenType::Unary(Unary::Increment) || r[0].t == TokenType::Unary(
                    Unary::Decrement,
                ) {
                    if r.len() <= ts.len() {
                        match spec_call_member(r.drop_first()) {
                            Ok((v2, r2)) => Ok(
                                (
                                    NodeView::Unary {
                                        t: crate::nodes::UnaryType::Increment,
                                        value: Box::new(v2),
                                        is_right: true,
                                        location: r[0].location,
                                    },
                                    r2,
                                ),
                            ),
                            Err(f) => Err(f),
                        }
                    } else {
                        Err(Fault::Panic)
                    }
                } else {
                    Err(Fault::Panic)
                }
            } else {
                Ok((v, r))
            },
            Err(f) => Err(f),
        }
    }
}

/// `literal` followed by calls `(args)`, members `.name`, `?.name`, `[key]`,
/// `?.[key]`, each optionally followed by `!` and then `.^`.
pub open spec fn spec_call_member(ts: Seq<TokenView>) -> Result<(NodeView, Seq<TokenView>), Fault>
    decreases ts.len(), 20nat,
{
    match spec_literal(ts) {
        Ok((l, r)) => if r.len() <= ts.len() {
            spec_cm_chain(l, r)
        } else {
            Err(Fault::Panic)
        },
        Err(f) => Err(f),
    }
}

pub open spec fn continues_call_member(t: TokenType) -> bool {
    t == TokenType::Dot || t == TokenType::OpenSquare || t == TokenType::DotOptional || t
        == TokenType::OpenParan
}

pub open spec fn spec_cm_chain(left: NodeView, ts: Seq<TokenView>) -> Result<(NodeView, Seq<TokenView>), Fault>
    decreases ts.len(), 1nat,
{
    if ts.len() == 0 {
        Err(Fault::Panic)
    } else if !continues_call_member(ts[0].t) {
        Ok((left, ts))
    } else {
        let step: Result<(NodeView, Seq<TokenView>), Fault> = if ts[0].t == TokenType::OpenParan {
            match spec_call_args(ts.drop_first(), seq![]) {
                Ok((args, r)) => match expect(r, TokenType::CloseParan, "Expected closing paran for call"@) {
                    Ok((_, r2)) => Ok(
                        (NodeView::Call { left: Box::new(left), args, location: ts[0].location }, r2),
                    ),
                    Err(f) => Err(f),
                },
                Err(f) => Err(f),
            }
        } else {
            let optional = ts[0].t == TokenType::DotOptional;
            let r = if optional {
                ts.drop_first()
            } else {
                ts
            };
            if r.len() == 0 {
                Err(Fault::Panic)
            } else {
                let computed = r[0].t == TokenType::OpenSquare;
                let tok = if computed || !optional {
                    r[0]
                } else {
                    ts[0]
                };
                let r2 = if computed || !optional {
                    r.drop_first()
                } else {
                    r
                };
                let right: Result<(NodeView, Seq<TokenView>), Fault> = if computed {
                    spec_expression(r2)
                } else if r2.len() == 0 {
                    Err(Fault::Panic)
                } else if r2[0].t == TokenType::Symbol {
                    Ok((NodeView::Symbol(tsym(r2[0])), r2.drop_first()))
                } else {
                    Err(
                        error(
                            ErrorCode::UnexpectedToken,
                            "Expected symbol for member expression"@,
                            r2[0].location,
                        ),
                    )
                };
                match right {
                    Ok((rn, r3)) => {
                        let r4: Result<Seq<TokenView>, Fault> = if computed {
                            match expect(r3, TokenType::CloseSquare, "Expected closing of computed key"@) {
                                Ok((_, r4)) => Ok(r4),
                                Err(f) => Err(f),
                            }
                        } else {
                            Ok(r3)
                        };
                        match r4 {
                            Ok(r4) => Ok(
                                (
                                    NodeView::Member {
                                        left: Box::new(left),
                                        right: Box::new(rn),
                                        optional,
                                        computed,
                                        location: tok.location,
                                    },
                                    r4,
                                ),
                            ),
                            Err(f) => Err(f),
                        }
                    },
                    Err(f) => Err(f),
                }
            }
        };
        match step {
            Ok((l2, r)) => if r.len() == 0 {
                Err(Fault::Panic)
            } else {
                let (l3, r2) = if r[0].t == TokenType::Unary(Unary::Not) {
                    (NodeView::EncapsulateError { left: Box::new(l2), location: r[0].location }, r.drop_first())
                } else {
                    (l2, r)
                };
                if r2.len() == 0 {
                    Err(Fault::Panic)
                } else {
                    let (l4, r3) = if r2[0].t == TokenType::ShortCircuit {
                        (
                            NodeView::PropogateError { left: Box::new(l3), location: r2[0].location },
                            r2.drop_first(),
                        )
                    } else {
                        (l3, r2)
                    };
                    if r3.len() < ts.len() {
                        spec_cm_chain(l4, r3)
                    } else {
                        Err(Fault::Panic)
                    }
                }
            },
            Err(f) => Err(f),
        }
    }
}

/// The arguments of a call, separated by commas, up to `)` or the end of the file.
pub open spec fn spec_call_args(ts: Seq<TokenView>, acc: Seq<NodeView>) -> Result<
    (Seq<NodeView>, Seq<TokenView>),
    Fault,
>
    decreases ts.len(), 32nat,
{
    if ts.len() == 0 {
        Err(Fault::Panic)
    } else if ts[0].t == TokenType::CloseParan || ts[0].t == TokenType::EOF {
        Ok((acc, ts))
    } else {
        match spec_expression(ts) {
            Ok((a, r)) => if r.len() == 0 {
                Err(Fault::Panic)
            } else if r[0].t == TokenType::Comma {
                if r.len() <= ts.len() {
                    spec_call_args(r.drop_first(), acc.push(a))
                } else {
                    Err(Fault::Panic)
                }
            } else {
                Ok((acc.push(a), r))
            },
            Err(f) => Err(f),
        }
    }
}

/// The items of an array literal, separated by commas, up to `]` or the end of the file.
pub open spec fn spec_array_items(ts: Seq<TokenView>, acc: Seq<NodeView>) -> Result<
    (Seq<NodeView>, Seq<TokenView>),
    Fault,
>
    decreases ts.len(), 32nat,
{
    if ts.len() == 0 {
        Err(Fault::Panic)
    } else if ts[0].t == TokenType::EOF || ts[0].t == TokenType::CloseSquare {
        Ok((acc, ts))
    } else {
        match spec_expression(ts) {
            Ok((a, r)) => if r.len() == 0 {
                Err(Fault::Panic)
            } else if r[0].t == TokenType::Comma {
                if r.len() <= ts.len() {
                    spec_array_items(r.drop_first(), acc.push(a))
                } else {
                    Err(Fault::Panic)
                }
            } else {
                Ok((acc.push(a), r))
            },
            Err(f) => Err(f),
        }
    }
}

/// The entries `name (: expression)?` of an object literal, separated by
/// commas, up to `}` or the end of the file; a later entry replaces an earlier
/// one of the same name.
pub open spec fn spec_obj_items(ts: Seq<TokenView>, acc: Seq<(Seq<char>, NodeView, Seq<(Seq<char>, Seq<char>)>)>) -> Result<
    (Seq<(Seq<char>, NodeView, Seq<(Seq<char>, Seq<char>)>)>, Seq<TokenView>),
    Fault,
>
    decreases ts.len(), 1nat,
{
    if ts.len() == 0 {
        Err(Fault::Panic)
    } else if ts[0].t == TokenType::EOF || ts[0].t == TokenType::CloseBrace {
        Ok((acc, ts))
    } else {
        match expect(ts, TokenType::Symbol, "Expected identifier"@) {
            Ok((id, r)) => if r.len() == 0 {
                Err(Fault::Panic)
            } else {
                let val: Result<(NodeView, Seq<TokenView>), Fault> = if r[0].t == TokenType::Colon {
                    spec_expression(r.drop_first())
                } else {
                    Ok((NodeView::Symbol(tsym(id)), r))
                };
                match val {
                    Ok((v, r2)) => {
                        let acc2 = assoc_insert(acc, id.value, v);
                        if r2.len() == 0 {
                            Err(Fault::Panic)
                        } else if r2[0].t == TokenType::Comma {
                            if r2.len() < ts.len() {
                                spec_obj_items(r2.drop_first(), acc2)
                            } else {
                                Err(Fault::Panic)
                            }
                        } else {
                            Ok((acc2, r2))
                        }
                    },
                    Err(f) => Err(f),
                }
            },
            Err(f) => Err(f),
        }
    }
}

/// A literal: a number, a string, a symbol, an anonymous function, `if`,
/// `match`, an array `[..]`, an object `.{..}`, a block, or `(expression)`.
pub open spec fn spec_literal(ts: Seq<TokenView>) -> Result<(NodeView, Seq<TokenView>), Fault>
    decreases ts.len(), 19nat,
{
    if ts.len() == 0 {
        Err(Fault::Panic)
    } else {
        let tok = ts[0];
        let r = ts.drop_first();
        match tok.t {
            TokenType::Number => if is_float_literal(tok.value) {
                Ok((NodeView::Number { value: tok.value, location: tok.location }, r))
            } else {
                Err(
                    error(
                        ErrorCode::InvalidNumber,
                        "Failed to parse number: "@ + float_error_text(tok.value),
                        tok.location,
                    ),
                )
            },
            TokenType::String => Ok((NodeView::ZString { value: tok.value, location: tok.location }, r)),
            TokenType::Symbol => Ok((NodeView::Symbol(tsym(tok)), r)),
            TokenType::Function => spec_function(ts, false),
            TokenType::If => spec_if(ts),
            TokenType::Match => spec_match(ts),
            TokenType::OpenSquare => match spec_array_items(r, seq![]) {
                Ok((items, r2)) => match expect(r2, TokenType::CloseSquare, "Expected closing of array"@) {
                    Ok((_, r3)) => Ok((NodeView::Array { items, location: tok.location }, r3)),
                    Err(f) => Err(f),
                },
                Err(f) => Err(f),
            },
            TokenType::Dot => match expect(r, TokenType::OpenBrace, "Expected start of object literal"@) {
                Ok((_, r2)) => if r2.len() < ts.len() {
                    match spec_obj_items(r2, seq![]) {
                        Ok((items, r3)) => match expect(
                            r3,
                            TokenType::CloseBrace,
                            "Expected closing of object literal"@,
                        ) {
                            Ok((_, r4)) => Ok((NodeView::Object { items, location: tok.location }, r4)),
                            Err(f) => Err(f),
                        },
                        Err(f) => Err(f),
                    }
                } else {
                    Err(Fault::Panic)
                },
                Err(f) => Err(f),
            },
            TokenType::OpenBrace => match spec_block(ts, false) {
                Ok((b, r2)) => Ok((NodeView::Block(b), r2)),
                Err(f) => Err(f),
            },
            TokenType::OpenParan => match spec_expression(r) {
                Ok((v, r2)) => match expect(
                    r2,
                    TokenType::CloseParan,
                    "Expected closing of group, but got "@ + r2[0].value,
                ) {
                    Ok((_, r3)) => Ok((v, r3)),
                    Err(f) => Err(f),
                },
                Err(f) => Err(f),
            },
            _ => Err(
                error(
                    ErrorCode::UnexpectedToken,
                    "Cannot handle the token "@ + tok.value + " here"@,
                    tok.location,
                ),
            ),
        }
    }
}

/// A whole program: the statements of a block without braces.
pub open spec fn spec_produce_ast(ts: Seq<TokenView>) -> Result<(BlockView, Seq<TokenView>), Fault> {
    spec_block(ts, true)
}


proof fn lemma_block_items_stop(ts: Seq<TokenView>, acc: Seq<NodeView>)
    ensures
        spec_block_items(ts, acc) matches Ok((nodes, r)) ==> r.len() == 0 || r[0].t == TokenType::CloseBrace
            || r[0].t == TokenType::EOF,
    decreases ts.len(),
{
    if !(ts.len() == 0 || ts[0].t == TokenType::CloseBrace || ts[0].t == TokenType::EOF) {
        match spec_statement(ts) {
            Ok((n, r)) => if r.len() > 0 {
                let r2 = if r[0].t == TokenType::Semicolon {
                    r.drop_first()
                } else {
                    r
                };
                if r2.len() < ts.len() {
                    lemma_block_items_stop(r2, acc.push(n));
                }
            },
            Err(f) => {},
        }
    }
}

/// A program that parses is read up to a `}`, the end-of-file token or the end
/// of the tokens: the parser stops nowhere else.
pub proof fn law_program_read_to_end(ts: Seq<TokenView>)
    ensures
        spec_produce_ast(ts) matches Ok((b, r)) ==> r.len() == 0 || r[0].t == TokenType::CloseBrace
            || r[0].t == TokenType::EOF,
{
    lemma_block_items_stop(ts, seq![]);
}


/// Whether a token can start the end of a range (`a..b`): a symbol, a number,
/// a prefix operator or an opening parenthesis.
pub open spec fn starts_range_end(t: TokenType) -> bool {
    t == TokenType::Symbol || t == TokenType::Number || t is Unary || t == TokenType::OpenParan
}

/// A range with a written end includes that end exactly where its range token
/// is `..=`, and excludes it where the token is `..`; a range whose end is left
/// out runs to `-1`, included. The range starts where it was asked to, and
/// stands where its range token stands.
pub proof fn law_range_inclusive_follows_token(start: NodeView, rt: TokenView, ts: Seq<TokenView>)
    ensures
        spec_range_rest(start, rt, ts) matches Ok((n, r)) ==> {
            &&& n matches NodeView::Range { start: s, inclusive_end, location, .. }
            &&& *s == start
            &&& location == rt.location
            &&& inclusive_end == (!starts_range_end(ts[0].t) || rt.t == TokenType::RangeInclusive)
        },
{
}

/// What an exposed name yields, read from the front of `ts`: `name as alias`,
/// a name alone, or `*` (which stays unread, so an `as` after it is never
/// reached).
pub open spec fn first_exposed(ts: Seq<TokenView>) -> Option<ExposeTypeView> {
    if ts.len() >= 1 && ts[0].t == TokenType::Multiplicative(Multiplicative::Multiply) {
        Some(ExposeTypeView::Star)
    } else if ts.len() >= 3 && ts[0].t == TokenType::Symbol && ts[1].t == TokenType::As && ts[2].t
        == TokenType::Symbol {
        Some(ExposeTypeView::IdentifierAs(ts[0].value, ts[2].value))
    } else if ts.len() >= 2 && ts[0].t == TokenType::Symbol && ts[1].t != TokenType::As {
        Some(ExposeTypeView::Identifier(ts[0].value))
    } else {
        None
    }
}

proof fn lemma_expose_items_extend(ts: Seq<TokenView>, acc: Seq<ExposeTypeView>)
    ensures
        spec_expose_items(ts, acc) matches Ok((items, r)) ==> items.len() > acc.len() && items.subrange(
            0,
            acc.len() as int,
        ) == acc,
    decreases ts.len(),
{
    if ts.len() > 0 {
        let first: Result<(ExposeTypeView, Seq<TokenView>), Fault> = if ts[0].t == TokenType::Symbol {
            Ok((ExposeTypeView::Identifier(ts[0].value), ts.drop_first()))
        } else if ts[0].t == TokenType::Multiplicative(Multiplicative::Multiply) {
            Ok((ExposeTypeView::Star, ts))
        } else {
            Err(error(ErrorCode::UnexpectedToken, "Cannot use this token here"@, ts[0].location))
        };
        if let Ok((e, r)) = first {
            if r.len() > 0 {
                let second: Result<(ExposeTypeView, Seq<TokenView>), Fault> = if r[0].t == TokenType::As {
                    match expect(r.drop_first(), TokenType::Symbol, "Expected identifier"@) {
                        Ok((id, r2)) => Ok(
                            (
                                match e {
                                    ExposeTypeView::Identifier(i) => ExposeTypeView::IdentifierAs(i, id.value),
                                    _ => ExposeTypeView::StarAs(id.value),
                                },
                                r2,
                            ),
                        ),
                        Err(f) => Err(f),
                    }
                } else {
                    Ok((e, r))
                };
                if let Ok((e2, r2)) = second {
                    if r2.len() > 0 && r2[0].t == TokenType::Comma && r2.len() <= ts.len() {
                        lemma_expose_items_extend(r2.drop_first(), acc.push(e2));
                        if spec_expose_items(r2.drop_first(), acc.push(e2)) is Ok {
                            let items = spec_expose_items(r2.drop_first(), acc.push(e2))->Ok_0.0;
                            assert(items.subrange(0, acc.len() as int) =~= items.subrange(
                                0,
                                acc.len() + 1 as int,
                            ).subrange(0, acc.len() as int));
                        }
                    } else {
                        assert(acc.push(e2).subrange(0, acc.len() as int) =~= acc);
                    }
                }
            }
        }
    }
}

/// In `expose name as alias`, the name exposed is the one before `as` and the
/// alias the one after it; a name without `as` is exposed under its own name,
/// and `*` exposes everything. The item read first
/// follows the items read before it.
pub proof fn law_expose_names(ts: Seq<TokenView>, acc: Seq<ExposeTypeView>)
    ensures
        spec_expose_items(ts, acc) matches Ok((items, r)) ==> {
            &&& items.len() > acc.len()
            &&& items.subrange(0, acc.len() as int) == acc
            &&& first_exposed(ts) matches Some(x) ==> items[acc.len() as int] == x
        },
{
    lemma_expose_items_extend(ts, acc);
    if ts.len() > 0 && first_exposed(ts) is Some && spec_expose_items(ts, acc) is Ok {
        let first: Result<(ExposeTypeView, Seq<TokenView>), Fault> = if ts[0].t == TokenType::Symbol {
            Ok((ExposeTypeView::Identifier(ts[0].value), ts.drop_first()))
        } else if ts[0].t == TokenType::Multiplicative(Multiplicative::Multiply) {
            Ok((ExposeTypeView::Star, ts))
        } else {
            Err(error(ErrorCode::UnexpectedToken, "Cannot use this token here"@, ts[0].location))
        };
        if let Ok((e, r)) = first {
            if ts[0].t == TokenType::Symbol && r.len() > 0 {
                assert(r[0] == ts[1]);
                if r.len() > 1 {
                    assert(r.drop_first()[0] == ts[2]);
                }
            }
            if r.len() > 0 {
                let second: Result<(ExposeTypeView, Seq<TokenView>), Fault> = if r[0].t == TokenType::As {
                    match expect(r.drop_first(), TokenType::Symbol, "Expected identifier"@) {
                        Ok((id, r2)) => Ok(
                            (
                                match e {
                                    ExposeTypeView::Identifier(i) => ExposeTypeView::IdentifierAs(i, id.value),
                                    _ => ExposeTypeView::StarAs(id.value),
                                },
                                r2,
                            ),
                        ),
                        Err(f) => Err(f),
                    }
                } else {
                    Ok((e, r))
                };
                if let Ok((e2, r2)) = second {
                    if r2.len() > 0 && r2[0].t == TokenType::Comma && r2.len() <= ts.len() {
                        lemma_expose_items_extend(r2.drop_first(), acc.push(e2));
                        let items = spec_expose_items(r2.drop_first(), acc.push(e2))->Ok_0.0;
                        assert(items[acc.len() as int] == items.subrange(0, acc.len() + 1 as int)[acc.len() as int]);
                    }
                }
            }
        }
    }
}

} // verus!
