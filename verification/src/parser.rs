//! The parser: from tokens to a syntax tree, by recursive descent.
//!
//! Every reading function returns what the matching function of
//! [`crate::grammar`] states, with the tokens left in `self.tokens`. Where the
//! grammar gives `Fault::Panic` (a read past the last token), the function
//! returns `ParseFault::Panic` and does not panic.
use vstd::prelude::*;

use crate::errors::{ErrorCode, ZephyrError};
use crate::grammar::{
    Fault, assoc_insert, error, expect, expect_with, first_key_at, float_error_text, is_prefix_token,
    is_range_token, node_location, no_location, prefix_unary_type, spec_add_chain, spec_additive,
    spec_array_items, spec_assign, spec_block, spec_block_items, spec_call_args, spec_call_member,
    spec_cm_chain, spec_comp_chain, spec_comparison, spec_decl_names, spec_declare,
    spec_enum_items, spec_enum_stmt, spec_export, spec_expose_items, spec_expression, spec_fn_args,
    spec_for, spec_function, spec_if, spec_import, spec_is, spec_literal, spec_match, spec_match_case,
    spec_match_cases, spec_mul_chain, spec_multiplicative, spec_obj_items, spec_produce_ast,
    spec_range, spec_range_rest, spec_statement, spec_unary, spec_while, tsym, continues_call_member,
};
use crate::nodes::{
    Arithmetic, Array, Assign, Block, BlockView, Call, Comp, Declare, DeclareType, DebugNode,
    EncapsulateError, Enum, Export, ExportType, ExposeType, For, Function, If, Import, Interrupt,
    InterruptType, Is, IsType, Match, MatchCase, MatchCaseType, Member, Node, NodeView, Number,
    Object, PropogateError, Range, Symbol, TaggedSymbol, UnaryNode, UnaryType, WhileLoop, ZString,
    block_view, case_view, cases_view, enum_values_view, exposes_view, items_view, pairs_view,
    lemma_cases_view_push, lemma_items_view, lemma_nodes_view_push, node_view, nodes_view,
    symbol_view, symbols_view, enum_ids_end_in_uuid, id_ends_in_uuid,
};
use crate::number::is_float_text;
use crate::symbols::new_uuid_text;
use crate::text::owned;
use crate::tokens::{
    Additive, Comparison, Location, Multiplicative, Token, TokenType, TokenView, Unary, tokens_view,
};

verus! {

/// Why the parser stopped.
#[derive(Debug)]
pub enum ParseFault {
    /// The tokens are rejected with this error.
    Error(ZephyrError),
    /// The tokens ran out where a token was needed, or an operator was met
    /// that the parser does not handle.
    Panic,
}

pub open spec fn fault_view(f: ParseFault) -> Fault {
    match f {
        ParseFault::Error(e) => Fault::Error(e@),
        ParseFault::Panic => Fault::Panic,
    }
}

/// `r`, with the tokens `rest` left, is what `s` states.
pub open spec fn node_result(
    r: Result<Node, ParseFault>,
    rest: Seq<TokenView>,
    s: Result<(NodeView, Seq<TokenView>), Fault>,
) -> bool {
    match r {
        Ok(n) => s == Ok::<(NodeView, Seq<TokenView>), Fault>((n@, rest)),
        Err(f) => s == Err::<(NodeView, Seq<TokenView>), Fault>(fault_view(f)),
    }
}

pub open spec fn block_result(
    r: Result<Block, ParseFault>,
    rest: Seq<TokenView>,
    s: Result<(BlockView, Seq<TokenView>), Fault>,
) -> bool {
    match r {
        Ok(b) => s == Ok::<(BlockView, Seq<TokenView>), Fault>((block_view(b), rest)),
        Err(f) => s == Err::<(BlockView, Seq<TokenView>), Fault>(fault_view(f)),
    }
}

fn fail(code: ErrorCode, message: String, location: &Location) -> (f: ParseFault)
    ensures
        fault_view(f) == error(code, message@, location@),
{
    ParseFault::Error(ZephyrError { code, message, location: Some(location.clone()) })
}

fn unexpected(message: &str, location: &Location) -> (f: ParseFault)
    ensures
        fault_view(f) == error(ErrorCode::UnexpectedToken, message@, location@),
{
    fail(ErrorCode::UnexpectedToken, owned(message), location)
}

/// The parser: the tokens not yet read, and the name of their file.
pub struct Parser {
    pub tokens: Vec<Token>,
    pub _file_name: String,
}

impl Node {
    /// Where the node stands.
    pub fn location(&self) -> (l: &Location)
        ensures
            l@ == node_location(self@),
    {
        proof {
            reveal(node_view);
        }
        match self {
            Node::Block(v) => &v.location,
            Node::ExportedBlock(v) => &v.location,
            Node::Assign(v) => &v.location,
            Node::Declare(v) => &v.location,
            Node::Export(v) => &v.location,
            Node::For(v) => &v.location,
            Node::If(v) => &v.location,
            Node::Import(v) => &v.location,
            Node::Interrupt(v) => &v.location,
            Node::Match(v) => &v.location,
            Node::WhileLoop(v) => &v.location,
            Node::Arithmetic(v) => &v.location,
            Node::Call(v) => &v.location,
            Node::Comp(v) => &v.location,
            Node::Debug(v) => &v.location,
            Node::Enum(v) => &v.location,
            Node::Function(v) => &v.location,
            Node::Is(v) => &v.location,
            Node::Logical(v) => &v.location,
            Node::Member(v) => &v.location,
            Node::Range(v) => &v.location,
            Node::Unary(v) => &v.location,
            Node::EncapsulateError(v) => &v.location,
            Node::PropogateError(v) => &v.location,
            Node::Array(v) => &v.location,
            Node::Number(v) => &v.location,
            Node::Object(v) => &v.location,
            Node::Symbol(v) => &v.location,
            Node::ZString(v) => &v.location,
        }
    }
}

/// Sets `key` to `value` in `items`: in place where the key is present, else at the end.
fn insert_item(items: &mut Vec<(String, TaggedSymbol)>, key: String, value: Node)
    ensures
        items_view(final(items)@) == assoc_insert(items_view(old(items)@), key@, value@),
{
    let ghost s = items_view(items@);
    proof {
        lemma_items_view(items@);
    }
    let mut i: usize = 0;
    while i < items.len()
        invariant
            0 <= i <= items.len(),
            items@ == old(items)@,
            s == items_view(items@),
            s.len() == items@.len(),
            forall|j: int|
                0 <= j < s.len() ==> #[trigger] s[j] == (
                    items@[j].0@,
                    node_view(*items@[j].1.value),
                    pairs_view(items@[j].1.tags@),
                ),
            forall|j: int| 0 <= j < i ==> s[j].0 != key@,
        decreases items.len() - i,
    {
        if items[i].0 == key {
            assert(first_key_at(s, key@, i as int));
            let ghost c = choose|j: int| first_key_at(s, key@, j);
            assert(c == i) by {
                if c < i {
                    assert(s[c].0 != key@);
                } else if c > i {
                    assert(s[i as int].0 == key@);
                }
            }
            let ghost v = value@;
            let tags: Vec<(String, String)> = Vec::new();
            assert(pairs_view(tags@) =~= seq![]);
            items.set(i, (key, TaggedSymbol { value: Box::new(value), tags }));
            proof {
                lemma_items_view(items@);
                assert(items_view(items@) =~= s.update(i as int, (key@, v, seq![])));
            }
            return;
        }
        i = i + 1;
    }
    let ghost v = value@;
    let tags: Vec<(String, String)> = Vec::new();
    assert(pairs_view(tags@) =~= seq![]);
    items.push((key, TaggedSymbol { value: Box::new(value), tags }));
    proof {
        assert(!exists|j: int| first_key_at(s, key@, j));
        lemma_items_view(items@);
        assert(items_view(items@) =~= s.push((key@, v, seq![])));
    }
}

impl Parser {
    /// The tokens not yet read, as plain values.
    pub open spec fn toks(&self) -> Seq<TokenView> {
        tokens_view(self.tokens@)
    }

    pub fn new(tokens: Vec<Token>, file_name: String) -> (p: Self)
        ensures
            p.tokens == tokens,
            p._file_name == file_name,
    {
        Parser { tokens, _file_name: file_name }
    }

    /// The next token.
    pub fn at(&self) -> (t: &Token)
        requires
            self.tokens.len() > 0,
        ensures
            *t == self.tokens@[0],
            t@ == self.toks()[0],
    {
        &self.tokens[0]
    }

    /// Takes the next token.
    pub fn eat(&mut self) -> (t: Token)
        requires
            old(self).tokens.len() > 0,
        ensures
            t == old(self).tokens@[0],
            t@ == old(self).toks()[0],
            final(self).toks() == old(self).toks().drop_first(),
            final(self).tokens@.len() == old(self).tokens@.len() - 1,
    {
        let t = self.tokens.remove(0);
        proof {
            assert(self.toks() =~= old(self).toks().drop_first());
        }
        t
    }

    /// Takes the next token where it is of kind `t`; else `e`, located at that token.
    pub fn expect(&mut self, t: TokenType, e: ZephyrError) -> (r: Result<Token, ParseFault>)
        ensures
            match r {
                Ok(tok) => expect_with(old(self).toks(), t, e.code, e.message@) == Ok::<
                    (TokenView, Seq<TokenView>),
                    Fault,
                >((tok@, final(self).toks())),
                Err(f) => expect_with(old(self).toks(), t, e.code, e.message@) == Err::<
                    (TokenView, Seq<TokenView>),
                    Fault,
                >(fault_view(f)),
            },
            final(self).toks().len() <= old(self).toks().len(),
    {
        if self.tokens.len() == 0 {
            return Err(ParseFault::Panic);
        }
        if self.at().t != t {
            let mut e = e;
            e.location = Some(self.at().location.clone());
            return Err(ParseFault::Error(e));
        }
        Ok(self.eat())
    }

    fn expect_msg(&mut self, t: TokenType, message: &str) -> (r: Result<Token, ParseFault>)
        ensures
            match r {
                Ok(tok) => expect(old(self).toks(), t, message@) == Ok::<
                    (TokenView, Seq<TokenView>),
                    Fault,
                >((tok@, final(self).toks())),
                Err(f) => expect(old(self).toks(), t, message@) == Err::<
                    (TokenView, Seq<TokenView>),
                    Fault,
                >(fault_view(f)),
            },
            final(self).toks().len() <= old(self).toks().len(),
    {
        self.expect(
            t,
            ZephyrError { code: ErrorCode::UnexpectedToken, message: owned(message), location: None },
        )
    }

    pub fn make_symbol(token: Token) -> (s: Symbol)
        ensures
            symbol_view(s) == tsym(token@),
    {
        Symbol { value: token.value, location: token.location }
    }

    fn empty(&self) -> (b: bool)
        ensures
            b == (self.toks().len() == 0),
            b == (self.tokens.len() == 0),
    {
        self.tokens.len() == 0
    }

    fn kind(&self) -> (t: TokenType)
        requires
            self.tokens.len() > 0,
        ensures
            t == self.toks()[0].t,
    {
        self.tokens[0].t
    }
}


/// `r` is the block that `s` states, as a node, with the tokens `rest` left.
pub open spec fn block_node_result(
    r: Result<Node, ParseFault>,
    rest: Seq<TokenView>,
    s: Result<(BlockView, Seq<TokenView>), Fault>,
) -> bool {
    match r {
        Ok(n) => s matches Ok((b, t)) && n@ == NodeView::Block(b) && t == rest,
        Err(f) => s == Err::<(BlockView, Seq<TokenView>), Fault>(fault_view(f)),
    }
}

/// Whether reading would go past the end of the tokens.
pub open spec fn panics<T>(s: Result<T, Fault>) -> bool {
    s matches Err(Fault::Panic)
}

impl Parser {
    /// Reads the whole program: the statements of a block without braces.
    /// The caller makes sure that reading does not run out of tokens (see
    /// [`Parser::try_produce_ast`]).
    pub fn produce_ast(&mut self) -> (r: Result<Node, ZephyrError>)
        requires
            !panics(spec_produce_ast(old(self).toks())),
        ensures
            match r {
                Ok(n) => spec_produce_ast(old(self).toks()) matches Ok((b, t)) && n@ == NodeView::Block(b)
                    && t == final(self).toks(),
                Err(e) => spec_produce_ast(old(self).toks()) == Err::<(BlockView, Seq<TokenView>), Fault>(
                    Fault::Error(e@),
                ),
            },
    {
        match self.try_produce_ast() {
            Ok(n) => Ok(n),
            Err(ParseFault::Error(e)) => Err(e),
            Err(ParseFault::Panic) => {
                proof {
                    assert(false);
                }
                vstd::pervasive::unreached()
            },
        }
    }

    /// Reads the whole program, reporting where reading would run out of tokens.
    pub fn try_produce_ast(&mut self) -> (r: Result<Node, ParseFault>)
        ensures
            block_node_result(r, final(self).toks(), spec_produce_ast(old(self).toks())),
    {
        match self.block_inner(true) {
            Ok(b) => Ok(Node::of_block(b)),
            Err(f) => Err(f),
        }
    }

    /// Reads a block: `{ statements }` or `-> statement`; with `no_brace`, the
    /// statements up to a `}` or the end of the file.
    pub fn block(&mut self, no_brace: bool) -> (r: Result<Node, ParseFault>)
        ensures
            block_node_result(r, final(self).toks(), spec_block(old(self).toks(), no_brace)),
            r is Ok ==> final(self).toks().len() <= old(self).toks().len(),
            r is Ok && !no_brace ==> final(self).toks().len() < old(self).toks().len(),
        decreases self.tokens@.len(), if no_brace { 41nat } else { 6nat },
    {
        match self.block_inner(no_brace) {
            Ok(b) => Ok(Node::of_block(b)),
            Err(f) => Err(f),
        }
    }

    #[verifier::loop_isolation(false)]
    fn block_inner(&mut self, no_brace: bool) -> (r: Result<Block, ParseFault>)
        ensures
            block_result(r, final(self).toks(), spec_block(old(self).toks(), no_brace)),
            r is Ok ==> final(self).toks().len() <= old(self).toks().len(),
            r is Ok && !no_brace ==> final(self).toks().len() < old(self).toks().len(),
        decreases self.tokens@.len(), if no_brace { 40nat } else { 5nat },
    {
        let ghost ts0 = self.toks();
        let mut open: Option<Location> = None;
        if !no_brace {
            if self.empty() {
                return Err(ParseFault::Panic);
            }
            let t0 = self.kind();
            if t0 != TokenType::OpenBrace && t0 != TokenType::Arrow {
                let msg = owned("Expected {, but got ").concat(self.at().value.as_str());
                return Err(fail(ErrorCode::UnexpectedToken, msg, &self.at().location));
            }
            let tok = self.eat();
            if t0 == TokenType::Arrow {
                let n = match self.statement() {
                    Ok(n) => n,
                    Err(f) => {
                        return Err(f);
                    },
                };
                let mut nodes: Vec<Node> = Vec::new();
                proof {
                    lemma_nodes_view_push(nodes@, n);
                }
                nodes.push(n);
                proof {
                    assert(nodes_view(nodes@) =~= seq![n@]);
                }
                return Ok(Block { nodes, location: tok.location });
            }
            open = Some(tok.location);
        }
        let ghost ts1 = self.toks();
        let mut nodes: Vec<Node> = Vec::new();
        loop
            invariant
                spec_block_items(self.toks(), nodes_view(nodes@)) == spec_block_items(ts1, seq![]),
                self.toks().len() <= ts1.len(),
            decreases self.tokens@.len(),
        {
            if self.empty() {
                break;
            }
            let t = self.kind();
            if t == TokenType::CloseBrace || t == TokenType::EOF {
                break;
            }
            let n = match self.statement() {
                Ok(n) => n,
                Err(f) => {
                    return Err(f);
                },
            };
            if self.empty() {
                return Err(ParseFault::Panic);
            }
            if self.kind() == TokenType::Semicolon {
                self.eat();
            }
            proof {
                lemma_nodes_view_push(nodes@, n);
            }
            nodes.push(n);
        }
        match open {
            Some(location) => {
                if self.empty() {
                    return Err(ParseFault::Panic);
                }
                let msg = owned("Expected }, but got ").concat(self.at().value.as_str());
                match self.expect(
                    TokenType::CloseBrace,
                    ZephyrError { code: ErrorCode::UnexpectedToken, message: msg, location: None },
                ) {
                    Ok(_) => {},
                    Err(f) => {
                        return Err(f);
                    },
                }
                Ok(Block { nodes, location })
            },
            None => {
                let location = if nodes.len() > 0 {
                    proof {
                        crate::nodes::lemma_nodes_view(nodes@);
                    }
                    nodes[0].location().clone()
                } else {
                    Location::no_location()
                };
                Ok(Block { nodes, location })
            },
        }
    }

    /// Reads a statement.
    pub fn statement(&mut self) -> (r: Result<Node, ParseFault>)
        ensures
            node_result(r, final(self).toks(), spec_statement(old(self).toks())),
            r is Ok ==> final(self).toks().len() < old(self).toks().len(),
        decreases self.tokens@.len(), 30nat,
    {
        if self.empty() {
            return Err(ParseFault::Panic);
        }
        let t = self.kind();
        if t == TokenType::Let || t == TokenType::Const {
            self.declare()
        } else if t == TokenType::Enum {
            self.enum_stmt()
        } else if t == TokenType::Function {
            self.function(true)
        } else if t == TokenType::Debug {
            let tok = self.eat();
            let e = match self.expression() {
                Ok(e) => e,
                Err(f) => {
                    return Err(f);
                },
            };
            Ok(Node::of_debug(DebugNode { location: tok.location, node: Box::new(e) }))
        } else if t == TokenType::Export {
            self.export()
        } else if t == TokenType::Import {
            self.import()
        } else if t == TokenType::While {
            self.while_stmt()
        } else if t == TokenType::For {
            self.for_loop()
        } else if t == TokenType::Continue {
            let tok = self.eat();
            Ok(Node::of_interrupt(Interrupt { location: tok.location, t: InterruptType::Continue }))
        } else if t == TokenType::Break {
            let tok = self.eat();
            Ok(Node::of_interrupt(Interrupt { location: tok.location, t: InterruptType::Break }))
        } else if t == TokenType::Return {
            self.eat();
            if self.empty() {
                return Err(ParseFault::Panic);
            }
            let value = if self.kind() == TokenType::Semicolon {
                None
            } else {
                match self.expression() {
                    Ok(e) => Some(Box::new(e)),
                    Err(f) => {
                        return Err(f);
                    },
                }
            };
            if self.empty() {
                return Err(ParseFault::Panic);
            }
            let tok = self.eat();
            Ok(Node::of_interrupt(Interrupt { location: tok.location, t: InterruptType::Return(value) }))
        } else {
            self.expression()
        }
    }

    /// Reads `enum name { item, ... }`; each item gets a unique name made of the
    /// enum's name, the item's name and a fresh identifier.
    #[verifier::loop_isolation(false)]
    pub fn enum_stmt(&mut self) -> (r: Result<Node, ParseFault>)
        ensures
            node_result(r, final(self).toks(), spec_enum_stmt(old(self).toks())),
            r matches Ok(n) ==> enum_ids_end_in_uuid(n),
            r is Ok ==> final(self).toks().len() < old(self).toks().len(),
    {
        if self.empty() {
            return Err(ParseFault::Panic);
        }
        let tok = self.eat();
        let name_tok = match self.expect_msg(TokenType::Symbol, "Expected symbol for enum name") {
            Ok(t) => t,
            Err(f) => {
                return Err(f);
            },
        };
        let name = Parser::make_symbol(name_tok);
        match self.expect_msg(TokenType::OpenBrace, "Expected open brace") {
            Ok(_) => {},
            Err(f) => {
                return Err(f);
            },
        }
        let ghost ts1 = self.toks();
        let mut items: Vec<(Symbol, String)> = Vec::new();
        assert(enum_values_view(items@) =~= seq![]);
        loop
            invariant
                spec_enum_items(self.toks(), name.value@, enum_values_view(items@)) == spec_enum_items(
                    ts1,
                    name.value@,
                    seq![],
                ),
                self.toks().len() <= ts1.len(),
                forall|i: int| 0 <= i < items@.len() ==> #[trigger] id_ends_in_uuid(items@[i].1@),
            decreases self.tokens@.len(),
        {
            if self.empty() {
                return Err(ParseFault::Panic);
            }
            if self.kind() == TokenType::CloseBrace {
                break;
            }
            let item_tok = match self.expect_msg(TokenType::Symbol, "Expected symbol for enum item") {
                Ok(t) => t,
                Err(f) => {
                    return Err(f);
                },
            };
            let symbol = Parser::make_symbol(item_tok);
            let uuid = new_uuid_text();
            let id = name.value.clone().concat(".").concat(symbol.value.as_str()).concat("__").concat(
                uuid.as_str(),
            );
            let ghost before = items@;
            let ghost prefix = name.value@ + "."@ + symbol.value@ + "__"@;
            proof {
                assert(id@ == prefix + uuid@);
                assert(id@.subrange(0, id@.len() - 36) =~= prefix);
                assert(id@.subrange(id@.len() - 36, id@.len() as int) =~= uuid@);
                assert(id_ends_in_uuid(id@));
            }
            items.push((symbol, id));
            proof {
                assert forall|i: int| 0 <= i < items@.len() implies #[trigger] id_ends_in_uuid(items@[i].1@) by {
                    if i < before.len() {
                        assert(items@[i] == before[i]);
                    }
                }
                assert(enum_values_view(items@) =~= enum_values_view(before).push((symbol_view(items@.last().0), prefix)));
            }
            if self.empty() {
                return Err(ParseFault::Panic);
            }
            if self.kind() == TokenType::Comma {
                self.eat();
            } else {
                break;
            }
        }
        match self.expect_msg(TokenType::CloseBrace, "Expected close brace") {
            Ok(_) => {},
            Err(f) => {
                return Err(f);
            },
        }
        Ok(Node::of_enum(Enum { name, values: items, location: tok.location }))
    }

    /// Reads `import "path" (expose name (as alias)?, ...)?`.
    #[verifier::loop_isolation(false)]
    pub fn import(&mut self) -> (r: Result<Node, ParseFault>)
        ensures
            node_result(r, final(self).toks(), spec_import(old(self).toks())),
            r is Ok ==> final(self).toks().len() < old(self).toks().len(),
    {
        if self.empty() {
            return Err(ParseFault::Panic);
        }
        let tok = self.eat();
        let import = match self.expect_msg(
            TokenType::String,
            "Expected string containing import location",
        ) {
            Ok(t) => t,
            Err(f) => {
                return Err(f);
            },
        };
        let mut expose: Vec<ExposeType> = Vec::new();
        assert(exposes_view(expose@) =~= seq![]);
        if self.empty() {
            return Err(ParseFault::Panic);
        }
        if self.kind() == TokenType::Expose {
            self.eat();
            let ghost ts1 = self.toks();
            assert(exposes_view(expose@) =~= seq![]);
            loop
                invariant
                    spec_expose_items(self.toks(), exposes_view(expose@)) == spec_expose_items(ts1, seq![]),
                    self.toks().len() <= ts1.len(),
                decreases self.tokens@.len(),
            {
                let ghost it = self.toks();
                if self.empty() {
                    return Err(ParseFault::Panic);
                }
                let t = self.kind();
                let mut expr = if t == TokenType::Symbol {
                    ExposeType::Identifier(self.eat().value)
                } else if t == TokenType::Multiplicative(Multiplicative::Multiply) {
                    ExposeType::Star()
                } else {
                    return Err(unexpected("Cannot use this token here", &self.at().location));
                };
                if self.empty() {
                    return Err(ParseFault::Panic);
                }
                if self.kind() == TokenType::As {
                    self.eat();
                    let ident = match self.expect_msg(TokenType::Symbol, "Expected identifier") {
                        Ok(t) => t,
                        Err(f) => {
                            return Err(f);
                        },
                    };
                    expr = match expr {
                        ExposeType::Identifier(i) => ExposeType::IdentifierAs(i, ident.value),
                        _ => ExposeType::StarAs(ident.value),
                    };
                }
                let ghost before = expose@;
                expose.push(expr);
                proof {
                    assert(exposes_view(expose@) =~= exposes_view(before).push(
                        crate::nodes::expose_view(expose@.last()),
                    ));
                }
                if self.empty() {
                    return Err(ParseFault::Panic);
                }
                if self.kind() == TokenType::Comma {
                    self.eat();
                } else {
                    break;
                }
            }
        }
        Ok(Node::of_import(Import { import: import.value, exposing: expose, location: tok.location }))
    }

    /// Reads `export statement (as name)?`.
    pub fn export(&mut self) -> (r: Result<Node, ParseFault>)
        ensures
            node_result(r, final(self).toks(), spec_export(old(self).toks())),
            r is Ok ==> final(self).toks().len() < old(self).toks().len(),
        decreases self.tokens@.len(), 5nat,
    {
        if self.empty() {
            return Err(ParseFault::Panic);
        }
        let tok = self.eat();
        let node = match self.statement() {
            Ok(n) => n,
            Err(f) => {
                return Err(f);
            },
        };
        proof {
            crate::nodes::lemma_symbol_declare_view(node);
        }
        let t = match node {
            Node::Symbol(v) => ExportType::Symbol(v),
            Node::Declare(v) => ExportType::Declaration(v),
            _ => {
                if self.empty() {
                    return Err(ParseFault::Panic);
                }
                return Err(unexpected("Cannot export this statement", &self.at().location));
            },
        };
        if self.empty() {
            return Err(ParseFault::Panic);
        }
        let export_as = if self.kind() == TokenType::As {
            self.eat();
            match self.expect_msg(TokenType::Symbol, "Expected symbol") {
                Ok(s) => Some(s.value),
                Err(f) => {
                    return Err(f);
                },
            }
        } else {
            None
        };
        Ok(Node::of_export(Export { export: t, location: tok.location, export_as }))
    }

    /// Reads `let`/`const` with a name or `[name, ...]`, and `= expression` or nothing.
    #[verifier::loop_isolation(false)]
    pub fn declare(&mut self) -> (r: Result<Node, ParseFault>)
        ensures
            node_result(r, final(self).toks(), spec_declare(old(self).toks())),
            r is Ok ==> final(self).toks().len() < old(self).toks().len(),
        decreases self.tokens@.len(), 5nat,
    {
        if self.empty() {
            return Err(ParseFault::Panic);
        }
        let tok = self.eat();
        let is_const = tok.t != TokenType::Let;
        if self.empty() {
            return Err(ParseFault::Panic);
        }
        let t1 = self.kind();
        let symbol = if t1 == TokenType::Symbol {
            DeclareType::Symbol(Parser::make_symbol(self.eat()))
        } else if t1 == TokenType::OpenSquare {
            self.eat();
            let ghost ts1 = self.toks();
            let mut names: Vec<Symbol> = Vec::new();
            assert(symbols_view(names@) =~= seq![]);
            loop
                invariant
                    spec_decl_names(self.toks(), symbols_view(names@)) == spec_decl_names(ts1, seq![]),
                    self.toks().len() <= ts1.len(),
                decreases self.tokens@.len(),
            {
                let name = match self.expect_msg(TokenType::Symbol, "Expected symbol") {
                    Ok(t) => t,
                    Err(f) => {
                        return Err(f);
                    },
                };
                let ghost before = names@;
                names.push(Parser::make_symbol(name));
                proof {
                    assert(symbols_view(names@) =~= symbols_view(before).push(symbol_view(names@.last())));
                }
                if self.empty() {
                    return Err(ParseFault::Panic);
                }
                if self.kind() == TokenType::Comma {
                    self.eat();
                } else {
                    break;
                }
            }
            match self.expect_msg(TokenType::CloseSquare, "Expected close square paran") {
                Ok(_) => {},
                Err(f) => {
                    return Err(f);
                },
            }
            DeclareType::Array(names)
        } else {
            return Err(unexpected("Cannot assign to this", &self.at().location));
        };
        if self.empty() {
            return Err(ParseFault::Panic);
        }
        if self.kind() == TokenType::Assign {
            let assign = self.eat();
            let value = match self.expression() {
                Ok(v) => v,
                Err(f) => {
                    return Err(f);
                },
            };
            Ok(
                Node::of_declare(
                    Declare {
                        assignee: symbol,
                        location: assign.location,
                        value: Some(Box::new(value)),
                        is_const,
                    },
                ),
            )
        } else {
            Ok(Node::of_declare(Declare { assignee: symbol, location: tok.location, value: None, is_const }))
        }
    }

    /// Reads `for index (, value)? in expression block`.
    pub fn for_loop(&mut self) -> (r: Result<Node, ParseFault>)
        ensures
            node_result(r, final(self).toks(), spec_for(old(self).toks())),
            r is Ok ==> final(self).toks().len() < old(self).toks().len(),
        decreases self.tokens@.len(), 5nat,
    {
        if self.empty() {
            return Err(ParseFault::Panic);
        }
        let tok = self.eat();
        let index_symbol = match self.expect_msg(TokenType::Symbol, "Expected symbol for the index") {
            Ok(t) => Parser::make_symbol(t),
            Err(f) => {
                return Err(f);
            },
        };
        if self.empty() {
            return Err(ParseFault::Panic);
        }
        let value_symbol = if self.kind() == TokenType::Comma {
            self.eat();
            match self.expect_msg(TokenType::Symbol, "Expected symbol for the value") {
                Ok(t) => Some(Parser::make_symbol(t)),
                Err(f) => {
                    return Err(f);
                },
            }
        } else {
            None
        };
        match self.expect_msg(TokenType::In, "Expected \"in\"") {
            Ok(_) => {},
            Err(f) => {
                return Err(f);
            },
        }
        let iterator = match self.expression() {
            Ok(e) => e,
            Err(f) => {
                return Err(f);
            },
        };
        let block = match self.block_inner(false) {
            Ok(b) => b,
            Err(f) => {
                return Err(f);
            },
        };
        Ok(
            Node::of_for(
                For {
                    value_symbol,
                    index_symbol,
                    location: tok.location,
                    block: Box::new(Node::of_block(block)),
                    iterator: Box::new(iterator),
                },
            ),
        )
    }

    /// Reads `func name? (params)? block`; as a statement the name is required
    /// and the function is declared under it.
    #[verifier::loop_isolation(false)]
    pub fn function(&mut self, is_statement: bool) -> (r: Result<Node, ParseFault>)
        ensures
            node_result(r, final(self).toks(), spec_function(old(self).toks(), is_statement)),
            r is Ok ==> final(self).toks().len() < old(self).toks().len(),
        decreases self.tokens@.len(), 5nat,
    {
        if self.empty() {
            return Err(ParseFault::Panic);
        }
        let tok = self.eat();
        if self.empty() {
            return Err(ParseFault::Panic);
        }
        let name: Option<Token> = if self.kind() == TokenType::Symbol {
            Some(self.eat())
        } else if is_statement {
            return Err(unexpected("Expected name for function", &self.at().location));
        } else {
            None
        };
        let mut arguments: Vec<Symbol> = Vec::new();
        assert(symbols_view(arguments@) =~= seq![]);
        if self.empty() {
            return Err(ParseFault::Panic);
        }
        if self.kind() == TokenType::OpenParan {
            self.eat();
            let ghost ts1 = self.toks();
            assert(symbols_view(arguments@) =~= seq![]);
            loop
                invariant
                    spec_fn_args(self.toks(), symbols_view(arguments@)) == spec_fn_args(ts1, seq![]),
                    self.toks().len() <= ts1.len(),
                decreases self.tokens@.len(),
            {
                if self.empty() {
                    return Err(ParseFault::Panic);
                }
                if self.kind() == TokenType::CloseParan {
                    break;
                }
                let a = match self.expect_msg(TokenType::Symbol, "Expected symbol") {
                    Ok(t) => t,
                    Err(f) => {
                        return Err(f);
                    },
                };
                let ghost before = arguments@;
                arguments.push(Parser::make_symbol(a));
                proof {
                    assert(symbols_view(arguments@) =~= symbols_view(before).push(
                        symbol_view(arguments@.last()),
                    ));
                }
                if self.empty() {
                    return Err(ParseFault::Panic);
                }
                if self.kind() == TokenType::Comma {
                    self.eat();
                } else {
                    break;
                }
            }
            match self.expect_msg(TokenType::CloseParan, "Expected closing paren") {
                Ok(_) => {},
                Err(f) => {
                    return Err(f);
                },
            }
        }
        let body = match self.block_inner(false) {
            Ok(b) => b,
            Err(f) => {
                return Err(f);
            },
        };
        let location = tok.location.clone();
        let ghost name_view = name;
        if is_statement {
            match name {
                Some(n) => {
                    let declared = Parser::make_symbol(n.clone());
                    let function = Node::of_function(
                        Function {
                            name: Some(Parser::make_symbol(n)),
                            body,
                            args: arguments,
                            location,
                        },
                    );
                    Ok(
                        Node::of_declare(
                            Declare {
                                assignee: DeclareType::Symbol(declared),
                                value: Some(Box::new(function)),
                                location: tok.location,
                                is_const: false,
                            },
                        ),
                    )
                },
                None => {
                    proof {
                        assert(false);
                    }
                    vstd::pervasive::unreached()
                },
            }
        } else {
            Ok(
                Node::of_function(
                    Function {
                        name: match name {
                            Some(n) => Some(Parser::make_symbol(n)),
                            None => None,
                        },
                        body,
                        args: arguments,
                        location,
                    },
                ),
            )
        }
    }

    /// Reads `while expression block`.
    pub fn while_stmt(&mut self) -> (r: Result<Node, ParseFault>)
        ensures
            node_result(r, final(self).toks(), spec_while(old(self).toks())),
            r is Ok ==> final(self).toks().len() < old(self).toks().len(),
        decreases self.tokens@.len(), 5nat,
    {
        if self.empty() {
            return Err(ParseFault::Panic);
        }
        let tok = self.eat();
        let test = match self.expression() {
            Ok(e) => e,
            Err(f) => {
                return Err(f);
            },
        };
        let block = match self.block_inner(false) {
            Ok(b) => b,
            Err(f) => {
                return Err(f);
            },
        };
        Ok(
            Node::of_while_loop(
                WhileLoop {
                    test: Box::new(test),
                    body: Box::new(Node::of_block(block)),
                    location: tok.location,
                },
            ),
        )
    }

    /// Reads `if expression block (else (if ... | block))?`.
    pub fn if_stmt(&mut self) -> (r: Result<Node, ParseFault>)
        ensures
            node_result(r, final(self).toks(), spec_if(old(self).toks())),
            r is Ok ==> final(self).toks().len() < old(self).toks().len(),
        decreases self.tokens@.len(), 5nat,
    {
        if self.empty() {
            return Err(ParseFault::Panic);
        }
        let tok = self.eat();
        let test = match self.expression() {
            Ok(e) => e,
            Err(f) => {
                return Err(f);
            },
        };
        let success = match self.block_inner(false) {
            Ok(b) => b,
            Err(f) => {
                return Err(f);
            },
        };
        if self.empty() {
            return Err(ParseFault::Panic);
        }
        let alternate = if self.kind() == TokenType::Else {
            self.eat();
            if self.empty() {
                return Err(ParseFault::Panic);
            }
            if self.kind() == TokenType::If {
                match self.if_stmt() {
                    Ok(a) => Some(Box::new(a)),
                    Err(f) => {
                        return Err(f);
                    },
                }
            } else {
                match self.block_inner(false) {
                    Ok(b) => Some(Box::new(Node::of_block(b))),
                    Err(f) => {
                        return Err(f);
                    },
                }
            }
        } else {
            None
        };
        Ok(
            Node::of_if(
                If {
                    test: Box::new(test),
                    succss: Box::new(Node::of_block(success)),
                    alternate,
                    location: tok.location,
                },
            ),
        )
    }

    /// Reads one case of a match: `else block`, `comparison expression block`
    /// or `expression block`.
    fn match_case(&mut self) -> (r: Result<MatchCaseType, ParseFault>)
        ensures
            match r {
                Ok(c) => spec_match_case(old(self).toks()) == Ok::<_, Fault>((case_view(c), final(self).toks())),
                Err(f) => spec_match_case(old(self).toks()) == Err::<(crate::nodes::MatchCaseView, Seq<TokenView>), Fault>(
                    fault_view(f),
                ),
            },
            r is Ok ==> final(self).toks().len() < old(self).toks().len(),
            r is Ok ==> (r->Ok_0 is Else <==> old(self).toks()[0].t == TokenType::Else),
        decreases self.tokens@.len(), 31nat,
    {
        if self.empty() {
            return Err(ParseFault::Panic);
        }
        if self.kind() == TokenType::Else {
            self.else_case()
        } else {
            self.compared_case()
        }
    }

    /// Reads `else block`.
    fn else_case(&mut self) -> (r: Result<MatchCaseType, ParseFault>)
        requires
            old(self).toks().len() > 0,
            old(self).toks()[0].t == TokenType::Else,
        ensures
            match r {
                Ok(c) => spec_match_case(old(self).toks()) == Ok::<_, Fault>((case_view(c), final(self).toks())),
                Err(f) => spec_match_case(old(self).toks()) == Err::<(crate::nodes::MatchCaseView, Seq<TokenView>), Fault>(
                    fault_view(f),
                ),
            },
            r is Ok ==> final(self).toks().len() < old(self).toks().len(),
            r is Ok ==> r->Ok_0 is Else,
        decreases self.tokens@.len(), 30nat,
    {
        self.eat();
        match self.block_inner(false) {
            Ok(b) => Ok(MatchCaseType::Else(Box::new(Node::of_block(b)))),
            Err(f) => Err(f),
        }
    }

    /// Reads `comparison expression block` or `expression block`.
    fn compared_case(&mut self) -> (r: Result<MatchCaseType, ParseFault>)
        requires
            old(self).toks().len() > 0,
            old(self).toks()[0].t != TokenType::Else,
        ensures
            match r {
                Ok(c) => spec_match_case(old(self).toks()) == Ok::<_, Fault>((case_view(c), final(self).toks())),
                Err(f) => spec_match_case(old(self).toks()) == Err::<(crate::nodes::MatchCaseView, Seq<TokenView>), Fault>(
                    fault_view(f),
                ),
            },
            r is Ok ==> final(self).toks().len() < old(self).toks().len(),
            r is Ok ==> !(r->Ok_0 is Else),
        decreases self.tokens@.len(), 30nat,
    {
        let op = match self.kind() {
            TokenType::Comparison(c) => {
                self.eat();
                c
            },
            _ => Comparison::Eq,
        };
        let value = match self.expression() {
            Ok(e) => e,
            Err(f) => {
                return Err(f);
            },
        };
        let success = match self.block_inner(false) {
            Ok(b) => b,
            Err(f) => {
                return Err(f);
            },
        };
        Ok(
            MatchCaseType::MatchCase(
                MatchCase { op, value: Box::new(value), success: Box::new(Node::of_block(success)) },
            ),
        )
    }

    /// Reads `match expression { case, ... }`.
    #[verifier::loop_isolation(false)]
    pub fn match_stmt(&mut self) -> (r: Result<Node, ParseFault>)
        ensures
            node_result(r, final(self).toks(), spec_match(old(self).toks())),
            r is Ok ==> final(self).toks().len() < old(self).toks().len(),
        decreases self.tokens@.len(), 5nat,
    {
        if self.empty() {
            return Err(ParseFault::Panic);
        }
        let tok = self.eat();
        let test = match self.expression() {
            Ok(e) => e,
            Err(f) => {
                return Err(f);
            },
        };
        match self.expect_msg(TokenType::OpenBrace, "Expected open brace") {
            Ok(_) => {},
            Err(f) => {
                return Err(f);
            },
        }
        let ghost ts1 = self.toks();
        let mut cases: Vec<MatchCaseType> = Vec::new();
        assert(cases_view(cases@) =~= seq![]);
        loop
            invariant
                spec_match_cases(self.toks(), cases_view(cases@)) == spec_match_cases(ts1, seq![]),
                self.toks().len() <= ts1.len(),
            decreases self.tokens@.len(),
        {
            let ghost it = self.toks();
            if self.empty() {
                return Err(ParseFault::Panic);
            }
            let t = self.kind();
            if t == TokenType::CloseBrace {
                break;
            }
            let is_else = t == TokenType::Else;
            let case = match self.match_case() {
                Ok(c) => c,
                Err(f) => {
                    return Err(f);
                },
            };
            proof {
                lemma_cases_view_push(cases@, case);
            }
            cases.push(case);
            if self.empty() {
                return Err(ParseFault::Panic);
            }
            if self.kind() != TokenType::Comma || is_else {
                break;
            }
            self.eat();
        }
        match self.expect_msg(TokenType::CloseBrace, "Expected close brace") {
            Ok(_) => {},
            Err(f) => {
                return Err(f);
            },
        }
        Ok(Node::of_match(Match { cases, test: Box::new(test), location: tok.location }))
    }

    /// Reads an expression.
    pub fn expression(&mut self) -> (r: Result<Node, ParseFault>)
        ensures
            node_result(r, final(self).toks(), spec_expression(old(self).toks())),
            r is Ok ==> final(self).toks().len() < old(self).toks().len(),
        decreases self.tokens@.len(), 29nat,
    {
        self.assign()
    }

    /// Reads `is_expr (= expression)?`.
    pub fn assign(&mut self) -> (r: Result<Node, ParseFault>)
        ensures
            node_result(r, final(self).toks(), spec_assign(old(self).toks())),
            r is Ok ==> final(self).toks().len() < old(self).toks().len(),
        decreases self.tokens@.len(), 28nat,
    {
        let left = match self.is() {
            Ok(l) => l,
            Err(f) => {
                return Err(f);
            },
        };
        if self.empty() {
            return Err(ParseFault::Panic);
        }
        if self.kind() == TokenType::Assign {
            let tok = self.eat();
            let value = match self.expression() {
                Ok(v) => v,
                Err(f) => {
                    return Err(f);
                },
            };
            return Ok(
                Node::of_assign(
                    Assign { assignee: Box::new(left), value: Box::new(value), location: tok.location },
                ),
            );
        }
        Ok(left)
    }

    /// Reads `comparison (is expression)?`.
    pub fn is(&mut self) -> (r: Result<Node, ParseFault>)
        ensures
            node_result(r, final(self).toks(), spec_is(old(self).toks())),
            r is Ok ==> final(self).toks().len() < old(self).toks().len(),
        decreases self.tokens@.len(), 27nat,
    {
        let left = match self.comparison() {
            Ok(l) => l,
            Err(f) => {
                return Err(f);
            },
        };
        if self.empty() {
            return Err(ParseFault::Panic);
        }
        if self.kind() == TokenType::Is {
            let tok = self.eat();
            let right = match self.expression() {
                Ok(v) => v,
                Err(f) => {
                    return Err(f);
                },
            };
            return Ok(
                Node::of_is(
                    Is {
                        left: Box::new(left),
                        right: IsType::Basic(Box::new(right)),
                        as_symbol: None,
                        location: tok.location,
                    },
                ),
            );
        }
        Ok(left)
    }

    /// Reads `range (comparison-operator expression)*`.
    #[verifier::loop_isolation(false)]
    pub fn comparison(&mut self) -> (r: Result<Node, ParseFault>)
        ensures
            node_result(r, final(self).toks(), spec_comparison(old(self).toks())),
            r is Ok ==> final(self).toks().len() < old(self).toks().len(),
        decreases self.tokens@.len(), 26nat,
    {
        let ghost ts0 = self.toks();
        let mut left = match self.range() {
            Ok(l) => l,
            Err(f) => {
                return Err(f);
            },
        };
        loop
            invariant
                spec_comp_chain(left@, self.toks()) == spec_comparison(ts0),
                self.toks().len() < ts0.len(),
            decreases self.tokens@.len(),
        {
            if self.empty() {
                return Err(ParseFault::Panic);
            }
            match self.kind() {
                TokenType::Comparison(c) => {
                    let tok = self.eat();
                    let right = match self.expression() {
                        Ok(v) => v,
                        Err(f) => {
                            return Err(f);
                        },
                    };
                    left = Node::of_comp(
                        Comp { left: Box::new(left), right: Box::new(right), t: c, location: tok.location },
                    );
                },
                _ => {
                    break;
                },
            }
        }
        Ok(left)
    }

    /// Reads an additive expression, or a range `start? ..(=)? end? (: step)?`.
    #[verifier::rlimit(50)]
    pub fn range(&mut self) -> (r: Result<Node, ParseFault>)
        ensures
            node_result(r, final(self).toks(), spec_range(old(self).toks())),
            r is Ok ==> final(self).toks().len() < old(self).toks().len(),
        decreases self.tokens@.len(), 25nat,
    {
        if self.empty() {
            return Err(ParseFault::Panic);
        }
        let t0 = self.kind();
        if t0 == TokenType::Range || t0 == TokenType::RangeInclusive {
            let tok = self.eat();
            let start = Node::of_number(Number { value: owned("0"), location: tok.location.clone() });
            return self.range_rest(start, tok);
        }
        let left = match self.additive() {
            Ok(l) => l,
            Err(f) => {
                return Err(f);
            },
        };
        if self.empty() {
            return Err(ParseFault::Panic);
        }
        let t1 = self.kind();
        if t1 == TokenType::Range || t1 == TokenType::RangeInclusive {
            let tok = self.eat();
            return self.range_rest(left, tok);
        }
        Ok(left)
    }

    fn range_rest(&mut self, start: Node, range_token: Token) -> (r: Result<Node, ParseFault>)
        ensures
            node_result(r, final(self).toks(), spec_range_rest(start@, range_token@, old(self).toks())),
            r is Ok ==> final(self).toks().len() <= old(self).toks().len(),
        decreases self.tokens@.len(), 24nat,
    {
        if self.empty() {
            return Err(ParseFault::Panic);
        }
        let t0 = self.kind();
        let (end, inclusive_end) = if t0 == TokenType::Symbol || t0 == TokenType::Number
            || matches!(t0, TokenType::Unary(_)) || t0 == TokenType::OpenParan {
            match self.additive() {
                Ok(e) => (e, range_token.t == TokenType::RangeInclusive),
                Err(f) => {
                    return Err(f);
                },
            }
        } else {
            (
                Node::of_number(Number { value: owned("-1"), location: range_token.location.clone() }),
                true,
            )
        };
        if self.empty() {
            return Err(ParseFault::Panic);
        }
        let step = if self.kind() == TokenType::Colon {
            self.eat();
            match self.additive() {
                Ok(s) => Some(Box::new(s)),
                Err(f) => {
                    return Err(f);
                },
            }
        } else {
            None
        };
        Ok(
            Node::of_range(
                Range {
                    start: Box::new(start),
                    end: Box::new(end),
                    inclusive_end,
                    step,
                    location: range_token.location,
                },
            ),
        )
    }

    /// Reads `multiplicative (+|- additive)*`.
    #[verifier::loop_isolation(false)]
    pub fn additive(&mut self) -> (r: Result<Node, ParseFault>)
        ensures
            node_result(r, final(self).toks(), spec_additive(old(self).toks())),
            r is Ok ==> final(self).toks().len() < old(self).toks().len(),
        decreases self.tokens@.len(), 23nat,
    {
        let ghost ts0 = self.toks();
        let mut left = match self.multiplicative() {
            Ok(l) => l,
            Err(f) => {
                return Err(f);
            },
        };
        loop
            invariant
                spec_add_chain(left@, self.toks()) == spec_additive(ts0),
                self.toks().len() < ts0.len(),
            decreases self.tokens@.len(),
        {
            if self.empty() {
                return Err(ParseFault::Panic);
            }
            if !matches!(self.kind(), TokenType::Additive(_)) {
                break;
            }
            let tok = self.eat();
            let right = match self.additive() {
                Ok(v) => v,
                Err(f) => {
                    return Err(f);
                },
            };
            left = Node::of_arithmetic(
                Arithmetic { left: Box::new(left), right: Box::new(right), t: tok.t, location: tok.location },
            );
        }
        Ok(left)
    }

    /// Reads `unary (*|/|%|** expression)*`.
    #[verifier::loop_isolation(false)]
    pub fn multiplicative(&mut self) -> (r: Result<Node, ParseFault>)
        ensures
            node_result(r, final(self).toks(), spec_multiplicative(old(self).toks())),
            r is Ok ==> final(self).toks().len() < old(self).toks().len(),
        decreases self.tokens@.len(), 22nat,
    {
        let ghost ts0 = self.toks();
        let mut left = match self.unary() {
            Ok(l) => l,
            Err(f) => {
                return Err(f);
            },
        };
        loop
            invariant
                spec_mul_chain(left@, self.toks()) == spec_multiplicative(ts0),
                self.toks().len() < ts0.len(),
            decreases self.tokens@.len(),
        {
            if self.empty() {
                return Err(ParseFault::Panic);
            }
            if !matches!(self.kind(), TokenType::Multiplicative(_)) {
                break;
            }
            let tok = self.eat();
            let right = match self.expression() {
                Ok(v) => v,
                Err(f) => {
                    return Err(f);
                },
            };
            left = Node::of_arithmetic(
                Arithmetic { left: Box::new(left), right: Box::new(right), t: tok.t, location: tok.location },
            );
        }
        Ok(left)
    }

    /// Reads a prefix operator and its operand, a call or member expression, or
    /// one followed by `++`/`--` and the call or member expression it applies to.
    pub fn unary(&mut self) -> (r: Result<Node, ParseFault>)
        ensures
            node_result(r, final(self).toks(), spec_unary(old(self).toks())),
            r is Ok ==> final(self).toks().len() < old(self).toks().len(),
        decreases self.tokens@.len(), 21nat,
    {
        if self.empty() {
            return Err(ParseFault::Panic);
        }
        let t0 = self.kind();
        if matches!(t0, TokenType::Unary(_)) || t0 == TokenType::Additive(Additive::Minus) || t0
            == TokenType::Additive(Additive::Plus) {
            let tok = self.eat();
            let t = match tok.t {
                TokenType::Unary(Unary::Length) => UnaryType::LengthOf,
                TokenType::Unary(Unary::Not) => UnaryType::Not,
                TokenType::Unary(Unary::Decrement) => UnaryType::Increment,
                TokenType::Unary(Unary::Increment) => UnaryType::Increment,
                TokenType::Additive(Additive::Plus) => UnaryType::Plus,
                _ => UnaryType::Minus,
            };
            let value = match self.unary() {
                Ok(v) => v,
                Err(f) => {
                    return Err(f);
                },
            };
            return Ok(
                Node::of_unary(UnaryNode { t, value: Box::new(value), is_right: false, location: tok.location }),
            );
        }
        let value = match self.call_member_new() {
            Ok(v) => v,
            Err(f) => {
                return Err(f);
            },
        };
        if self.empty() {
            return Err(ParseFault::Panic);
        }
        let t1 = self.kind();
        if matches!(t1, TokenType::Unary(_)) {
            if t1 != TokenType::Unary(Unary::Increment) && t1 != TokenType::Unary(Unary::Decrement) {
                return Err(ParseFault::Panic);
            }
            let tok = self.eat();
            let value = match self.call_member_new() {
                Ok(v) => v,
                Err(f) => {
                    return Err(f);
                },
            };
            return Ok(
                Node::of_unary(
                    UnaryNode {
                        t: UnaryType::Increment,
                        value: Box::new(value),
                        is_right: true,
                        location: tok.location,
                    },
                ),
            );
        }
        Ok(value)
    }

    /// Reads a literal followed by calls and member accesses, each optionally
    /// followed by `!` and then `.^`.
    #[verifier::loop_isolation(false)]
    pub fn call_member_new(&mut self) -> (r: Result<Node, ParseFault>)
        ensures
            node_result(r, final(self).toks(), spec_call_member(old(self).toks())),
            r is Ok ==> final(self).toks().len() < old(self).toks().len(),
        decreases self.tokens@.len(), 20nat,
    {
        let ghost ts0 = self.toks();
        let mut left = match self.literal() {
            Ok(l) => l,
            Err(f) => {
                return Err(f);
            },
        };
        loop
            invariant
                spec_cm_chain(left@, self.toks()) == spec_call_member(ts0),
                self.toks().len() < ts0.len(),
            decreases self.tokens@.len(),
        {
            let ghost it = self.toks();
            if self.empty() {
                return Err(ParseFault::Panic);
            }
            let t0 = self.kind();
            if !(t0 == TokenType::Dot || t0 == TokenType::OpenSquare || t0 == TokenType::DotOptional
                || t0 == TokenType::OpenParan) {
                break;
            }
            let stepped = if t0 == TokenType::OpenParan {
                let tok = self.eat();
                let ghost ts1 = self.toks();
                let mut arguments: Vec<Node> = Vec::new();
                loop
                    invariant
                        spec_call_args(self.toks(), nodes_view(arguments@)) == spec_call_args(ts1, seq![]),
                        self.toks().len() <= ts1.len(),
                    decreases self.tokens@.len(),
                {
                    if self.empty() {
                        return Err(ParseFault::Panic);
                    }
                    let t = self.kind();
                    if t == TokenType::CloseParan || t == TokenType::EOF {
                        break;
                    }
                    let a = match self.expression() {
                        Ok(a) => a,
                        Err(f) => {
                            return Err(f);
                        },
                    };
                    proof {
                        lemma_nodes_view_push(arguments@, a);
                    }
                    arguments.push(a);
                    if self.empty() {
                        return Err(ParseFault::Panic);
                    }
                    if self.kind() == TokenType::Comma {
                        self.eat();
                    } else {
                        break;
                    }
                }
                match self.expect_msg(TokenType::CloseParan, "Expected closing paran for call") {
                    Ok(_) => {},
                    Err(f) => {
                        return Err(f);
                    },
                }
                Node::of_call(Call { left: Box::new(left), args: arguments, location: tok.location })
            } else {
                let optional = t0 == TokenType::DotOptional;
                let optional_token = if optional {
                    Some(self.eat())
                } else {
                    None
                };
                if self.empty() {
                    return Err(ParseFault::Panic);
                }
                let computed = self.kind() == TokenType::OpenSquare;
                let token = if computed {
                    self.eat()
                } else {
                    match optional_token {
                        Some(t) => t,
                        None => self.eat(),
                    }
                };
                let right = if computed {
                    match self.expression() {
                        Ok(e) => e,
                        Err(f) => {
                            return Err(f);
                        },
                    }
                } else {
                    if self.empty() {
                        return Err(ParseFault::Panic);
                    }
                    if self.kind() == TokenType::Symbol {
                        Node::of_symbol(Parser::make_symbol(self.eat()))
                    } else {
                        return Err(
                            unexpected("Expected symbol for member expression", &self.at().location),
                        );
                    }
                };
                if computed {
                    match self.expect_msg(TokenType::CloseSquare, "Expected closing of computed key") {
                        Ok(_) => {},
                        Err(f) => {
                            return Err(f);
                        },
                    }
                }
                Node::of_member(
                    Member {
                        left: Box::new(left),
                        right: Box::new(right),
                        optional,
                        computed,
                        location: token.location,
                    },
                )
            };
            left = stepped;
            if self.empty() {
                return Err(ParseFault::Panic);
            }
            if self.kind() == TokenType::Unary(Unary::Not) {
                let tok = self.eat();
                left = Node::of_encapsulate_error(
                    EncapsulateError { left: Box::new(left), location: tok.location },
                );
            }
            if self.empty() {
                return Err(ParseFault::Panic);
            }
            if self.kind() == TokenType::ShortCircuit {
                let tok = self.eat();
                left = Node::of_propogate_error(PropogateError { left: Box::new(left), location: tok.location });
            }
        }
        Ok(left)
    }

    /// Reads a literal: a number, a string, a symbol, an anonymous function,
    /// `if`, `match`, an array, an object `.{..}`, a block or `(expression)`.
    #[verifier::loop_isolation(false)]
    pub fn literal(&mut self) -> (r: Result<Node, ParseFault>)
        ensures
            node_result(r, final(self).toks(), spec_literal(old(self).toks())),
            r is Ok ==> final(self).toks().len() < old(self).toks().len(),
        decreases self.tokens@.len(), 19nat,
    {
        if self.empty() {
            return Err(ParseFault::Panic);
        }
        let t = self.kind();
        match t {
            TokenType::Number => {
                let tok = self.eat();
                if is_float_text(&tok.value) {
                    Ok(Node::of_number(Number { value: tok.value, location: tok.location }))
                } else {
                    let reason = if tok.value.as_str().is_empty() {
                        "cannot parse float from empty string"
                    } else {
                        "invalid float literal"
                    };
                    let msg = owned("Failed to parse number: ").concat(reason);
                    Err(fail(ErrorCode::InvalidNumber, msg, &tok.location))
                }
            },
            TokenType::String => {
                let tok = self.eat();
                Ok(Node::of_z_string(ZString { value: tok.value, location: tok.location }))
            },
            TokenType::Symbol => {
                let tok = self.eat();
                Ok(Node::of_symbol(Symbol { value: tok.value, location: tok.location }))
            },
            TokenType::Function => self.function(false),
            TokenType::If => self.if_stmt(),
            TokenType::Match => self.match_stmt(),
            TokenType::OpenSquare => {
                let tok = self.eat();
                let ghost ts1 = self.toks();
                let mut items: Vec<Node> = Vec::new();
                loop
                    invariant
                        spec_array_items(self.toks(), nodes_view(items@)) == spec_array_items(ts1, seq![]),
                        self.toks().len() <= ts1.len(),
                    decreases self.tokens@.len(),
                {
                    if self.empty() {
                        return Err(ParseFault::Panic);
                    }
                    let k = self.kind();
                    if k == TokenType::EOF || k == TokenType::CloseSquare {
                        break;
                    }
                    let a = match self.expression() {
                        Ok(a) => a,
                        Err(f) => {
                            return Err(f);
                        },
                    };
                    proof {
                        lemma_nodes_view_push(items@, a);
                    }
                    items.push(a);
                    if self.empty() {
                        return Err(ParseFault::Panic);
                    }
                    if self.kind() == TokenType::Comma {
                        self.eat();
                    } else {
                        break;
                    }
                }
                match self.expect_msg(TokenType::CloseSquare, "Expected closing of array") {
                    Ok(_) => {},
                    Err(f) => {
                        return Err(f);
                    },
                }
                Ok(Node::of_array(Array { items, location: tok.location }))
            },
            TokenType::Dot => {
                let tok = self.eat();
                match self.expect_msg(TokenType::OpenBrace, "Expected start of object literal") {
                    Ok(_) => {},
                    Err(f) => {
                        return Err(f);
                    },
                }
                let ghost ts1 = self.toks();
                let mut items: Vec<(String, TaggedSymbol)> = Vec::new();
                assert(items_view(items@) =~= seq![]);
                loop
                    invariant
                        spec_obj_items(self.toks(), items_view(items@)) == spec_obj_items(ts1, seq![]),
                        self.toks().len() <= ts1.len(),
                    decreases self.tokens@.len(),
                {
                    let ghost it = self.toks();
                    if self.empty() {
                        return Err(ParseFault::Panic);
                    }
                    let k = self.kind();
                    if k == TokenType::EOF || k == TokenType::CloseBrace {
                        break;
                    }
                    let identifier = match self.expect_msg(TokenType::Symbol, "Expected identifier") {
                        Ok(t) => Parser::make_symbol(t),
                        Err(f) => {
                            return Err(f);
                        },
                    };
                    if self.empty() {
                        return Err(ParseFault::Panic);
                    }
                    let value = if self.kind() == TokenType::Colon {
                        self.eat();
                        match self.expression() {
                            Ok(v) => v,
                            Err(f) => {
                                return Err(f);
                            },
                        }
                    } else {
                        Node::of_symbol(
                            Symbol {
                                value: identifier.value.clone(),
                                location: identifier.location.clone(),
                            },
                        )
                    };
                    insert_item(&mut items, identifier.value, value);
                    if self.empty() {
                        return Err(ParseFault::Panic);
                    }
                    if self.kind() == TokenType::Comma {
                        self.eat();
                    } else {
                        break;
                    }
                }
                match self.expect_msg(TokenType::CloseBrace, "Expected closing of object literal") {
                    Ok(_) => {},
                    Err(f) => {
                        return Err(f);
                    },
                }
                Ok(Node::of_object(Object { items, location: tok.location }))
            },
            TokenType::OpenBrace => self.block(false),
            TokenType::OpenParan => {
                self.eat();
                let value = match self.expression() {
                    Ok(v) => v,
                    Err(f) => {
                        return Err(f);
                    },
                };
                if self.empty() {
                    return Err(ParseFault::Panic);
                }
                let msg = owned("Expected closing of group, but got ").concat(self.at().value.as_str());
                match self.expect(
                    TokenType::CloseParan,
                    ZephyrError { code: ErrorCode::UnexpectedToken, message: msg, location: None },
                ) {
                    Ok(_) => {},
                    Err(f) => {
                        return Err(f);
                    },
                }
                Ok(value)
            },
            _ => {
                let msg = owned("Cannot handle the token ").concat(self.at().value.as_str()).concat(
                    " here",
                );
                Err(fail(ErrorCode::UnexpectedToken, msg, &self.at().location))
            },
        }
    }
}

} // verus!
