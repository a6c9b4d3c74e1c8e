//! The syntax tree that the parser builds, and its view as plain values.
use vstd::prelude::*;

use crate::symbols::is_uuid_text;
use crate::tokens::{Comparison, Location, LocationView, Logical, TokenType};

verus! {

/// A node of the syntax tree.
#[derive(Debug)]
pub enum Node {
    Block(Block),
    ExportedBlock(ExportedBlock),
    Assign(Assign),
    Declare(Declare),
    Export(Export),
    For(For),
    If(If),
    Import(Import),
    Interrupt(Interrupt),
    Match(Match),
    WhileLoop(WhileLoop),
    Arithmetic(Arithmetic),
    Call(Call),
    Comp(Comp),
    Debug(DebugNode),
    Enum(Enum),
    Function(Function),
    Is(Is),
    Logical(LogicalNode),
    Member(Member),
    Range(Range),
    Unary(UnaryNode),
    EncapsulateError(EncapsulateError),
    PropogateError(PropogateError),
    Array(Array),
    Number(Number),
    Symbol(Symbol),
    Object(Object),
    ZString(ZString),
}

#[derive(Debug)]
pub struct Block {
    pub nodes: Vec<Node>,
    pub location: Location,
}

#[derive(Debug)]
pub struct ExportedBlock {
    pub nodes: Vec<Node>,
    pub location: Location,
}

/// A number literal, kept as its decimal text: the runtime reads it as a
/// floating-point number, which the parser has checked that it is.
#[derive(Debug)]
pub struct Number {
    pub value: String,
    pub location: Location,
}

#[derive(Debug)]
pub struct ZString {
    pub value: String,
    pub location: Location,
}

#[derive(Debug)]
pub struct Array {
    pub items: Vec<Node>,
    pub location: Location,
}

#[derive(Debug)]
pub struct TaggedSymbol {
    pub value: Box<Node>,
    pub tags: Vec<(String, String)>,
}

/// An object literal: its keys, each once, in the order they were first given.
#[derive(Debug)]
pub struct Object {
    pub items: Vec<(String, TaggedSymbol)>,
    pub location: Location,
}

#[derive(Debug)]
pub struct Function {
    pub name: Option<Symbol>,
    pub body: Block,
    pub args: Vec<Symbol>,
    pub location: Location,
}

#[derive(Debug)]
pub struct Symbol {
    pub value: String,
    pub location: Location,
}

#[derive(Debug)]
pub struct Arithmetic {
    pub left: Box<Node>,
    pub right: Box<Node>,
    pub t: TokenType,
    pub location: Location,
}

#[derive(Debug)]
pub struct Comp {
    pub left: Box<Node>,
    pub right: Box<Node>,
    pub t: Comparison,
    pub location: Location,
}

#[derive(Debug)]
pub struct LogicalNode {
    pub left: Box<Node>,
    pub right: Box<Node>,
    pub t: Logical,
    pub location: Location,
}

#[derive(Debug)]
pub struct Call {
    pub left: Box<Node>,
    pub args: Vec<Node>,
    pub location: Location,
}

#[derive(Debug)]
pub struct Member {
    pub left: Box<Node>,
    pub right: Box<Node>,
    pub optional: bool,
    pub computed: bool,
    pub location: Location,
}

#[derive(Debug)]
pub enum DeclareType {
    Symbol(Symbol),
    Array(Vec<Symbol>),
    Object(Vec<(String, String)>),
}

#[derive(Debug)]
pub struct Declare {
    pub assignee: DeclareType,
    pub value: Option<Box<Node>>,
    pub location: Location,
    pub is_const: bool,
}

#[derive(Debug)]
pub struct Assign {
    pub assignee: Box<Node>,
    pub value: Box<Node>,
    pub location: Location,
}

#[derive(Debug)]
pub struct If {
    pub test: Box<Node>,
    pub succss: Box<Node>,
    pub alternate: Option<Box<Node>>,
    pub location: Location,
}

#[derive(Debug)]
pub struct WhileLoop {
    pub test: Box<Node>,
    pub body: Box<Node>,
    pub location: Location,
}

#[derive(Debug)]
pub enum MatchCaseType {
    MatchCase(MatchCase),
    Else(Box<Node>),
}

#[derive(Debug)]
pub struct MatchCase {
    pub op: Comparison,
    pub value: Box<Node>,
    pub success: Box<Node>,
}

#[derive(Debug)]
pub struct Match {
    pub test: Box<Node>,
    pub cases: Vec<MatchCaseType>,
    pub location: Location,
}

#[derive(Debug)]
pub struct DebugNode {
    pub node: Box<Node>,
    pub location: Location,
}

#[derive(Debug)]
pub enum ExportType {
    Symbol(Symbol),
    Declaration(Declare),
}

#[derive(Debug)]
pub struct Export {
    pub export: ExportType,
    pub export_as: Option<String>,
    pub location: Location,
}

#[derive(Debug)]
pub enum InterruptType {
    Continue,
    Break,
    Return(Option<Box<Node>>),
}

#[derive(Debug)]
pub struct Interrupt {
    pub location: Location,
    pub t: InterruptType,
}

#[derive(Debug)]
pub enum ExposeType {
    Identifier(String),
    IdentifierAs(String, String),
    Star(),
    StarAs(String),
}

#[derive(Debug)]
pub struct Import {
    pub import: String,
    pub exposing: Vec<ExposeType>,
    pub location: Location,
}

#[derive(Debug)]
pub struct For {
    pub value_symbol: Option<Symbol>,
    pub index_symbol: Symbol,
    pub iterator: Box<Node>,
    pub block: Box<Node>,
    pub location: Location,
}

#[derive(Clone, Copy, Debug, PartialEq, Eq, Structural)]
pub enum UnaryType {
    Not,
    Plus,
    Minus,
    LengthOf,
    Increment,
    Decrement,
}

#[derive(Debug)]
pub struct UnaryNode {
    pub t: UnaryType,
    pub value: Box<Node>,
    pub is_right: bool,
    pub location: Location,
}

#[derive(Debug)]
pub struct EncapsulateError {
    pub left: Box<Node>,
    pub location: Location,
}

#[derive(Debug)]
pub struct PropogateError {
    pub left: Box<Node>,
    pub location: Location,
}

#[derive(Debug)]
pub struct Range {
    pub start: Box<Node>,
    pub end: Box<Node>,
    pub inclusive_end: bool,
    pub step: Option<Box<Node>>,
    pub location: Location,
}

#[derive(Debug)]
pub enum IsType {
    Basic(Box<Node>),
    Comparison(Comparison, Box<Node>),
}

#[derive(Debug)]
pub struct Is {
    pub left: Box<Node>,
    pub right: IsType,
    pub as_symbol: Option<Symbol>,
    pub location: Location,
}

/// An enum declaration: each item with the unique name it is given.
#[derive(Debug)]
pub struct Enum {
    pub name: Symbol,
    pub values: Vec<(Symbol, String)>,
    pub location: Location,
}

// ----- the view -----

pub struct SymbolView {
    pub value: Seq<char>,
    pub location: LocationView,
}

pub enum DeclareTypeView {
    Symbol(SymbolView),
    Array(Seq<SymbolView>),
    Object(Seq<(Seq<char>, Seq<char>)>),
}

pub struct DeclareView {
    pub assignee: DeclareTypeView,
    pub value: Option<Box<NodeView>>,
    pub location: LocationView,
    pub is_const: bool,
}

pub struct BlockView {
    pub nodes: Seq<NodeView>,
    pub location: LocationView,
}

pub enum ExposeTypeView {
    Identifier(Seq<char>),
    IdentifierAs(Seq<char>, Seq<char>),
    Star,
    StarAs(Seq<char>),
}

pub enum MatchCaseView {
    MatchCase { op: Comparison, value: Box<NodeView>, success: Box<NodeView> },
    Else(Box<NodeView>),
}

pub enum ExportTypeView {
    Symbol(SymbolView),
    Declaration(DeclareView),
}

pub enum InterruptTypeView {
    Continue,
    Break,
    Return(Option<Box<NodeView>>),
}

pub enum IsTypeView {
    Basic(Box<NodeView>),
    Comparison(Comparison, Box<NodeView>),
}

/// A node of the syntax tree as plain values. The unique name of an enum item
/// is seen without its last 36 characters, the random identifier that makes it
/// unique.
#[allow(inconsistent_fields)]
pub enum NodeView {
    Block(BlockView),
    ExportedBlock(BlockView),
    Assign { assignee: Box<NodeView>, value: Box<NodeView>, location: LocationView },
    Declare(DeclareView),
    Export { export: ExportTypeView, export_as: Option<Seq<char>>, location: LocationView },
    For {
        value_symbol: Option<SymbolView>,
        index_symbol: SymbolView,
        iterator: Box<NodeView>,
        block: Box<NodeView>,
        location: LocationView,
    },
    If {
        test: Box<NodeView>,
        succss: Box<NodeView>,
        alternate: Option<Box<NodeView>>,
        location: LocationView,
    },
    Import { import: Seq<char>, exposing: Seq<ExposeTypeView>, location: LocationView },
    Interrupt { location: LocationView, t: InterruptTypeView },
    Match { test: Box<NodeView>, cases: Seq<MatchCaseView>, location: LocationView },
    WhileLoop { test: Box<NodeView>, body: Box<NodeView>, location: LocationView },
    Arithmetic { left: Box<NodeView>, right: Box<NodeView>, t: TokenType, location: LocationView },
    Call { left: Box<NodeView>, args: Seq<NodeView>, location: LocationView },
    Comp { left: Box<NodeView>, right: Box<NodeView>, t: Comparison, location: LocationView },
    Debug { node: Box<NodeView>, location: LocationView },
    Enum { name: SymbolView, values: Seq<(SymbolView, Seq<char>)>, location: LocationView },
    Function { name: Option<SymbolView>, body: BlockView, args: Seq<SymbolView>, location: LocationView },
    Is { left: Box<NodeView>, right: IsTypeView, is_as: Option<SymbolView>, location: LocationView },
    Logical { left: Box<NodeView>, right: Box<NodeView>, t: Logical, location: LocationView },
    Member {
        left: Box<NodeView>,
        right: Box<NodeView>,
        optional: bool,
        computed: bool,
        location: LocationView,
    },
    Range {
        start: Box<NodeView>,
        end: Box<NodeView>,
        inclusive_end: bool,
        step: Option<Box<NodeView>>,
        location: LocationView,
    },
    Unary { t: UnaryType, value: Box<NodeView>, is_right: bool, location: LocationView },
    EncapsulateError { left: Box<NodeView>, location: LocationView },
    PropogateError { left: Box<NodeView>, location: LocationView },
    Array { items: Seq<NodeView>, location: LocationView },
    Number { value: Seq<char>, location: LocationView },
    Symbol(SymbolView),
    /// Each item: its key, its value and its tags.
    Object { items: Seq<(Seq<char>, NodeView, Seq<(Seq<char>, Seq<char>)>)>, location: LocationView },
    ZString { value: Seq<char>, location: LocationView },
}

pub open spec fn symbol_view(s: Symbol) -> SymbolView {
    SymbolView { value: s.value@, location: s.location@ }
}

pub open spec fn symbols_view(s: Seq<Symbol>) -> Seq<SymbolView> {
    s.map_values(|x: Symbol| symbol_view(x))
}

pub open spec fn pairs_view(s: Seq<(String, String)>) -> Seq<(Seq<char>, Seq<char>)> {
    s.map_values(|x: (String, String)| (x.0@, x.1@))
}

pub open spec fn expose_view(e: ExposeType) -> ExposeTypeView {
    match e {
        ExposeType::Identifier(a) => ExposeTypeView::Identifier(a@),
        ExposeType::IdentifierAs(a, b) => ExposeTypeView::IdentifierAs(a@, b@),
        ExposeType::Star() => ExposeTypeView::Star,
        ExposeType::StarAs(a) => ExposeTypeView::StarAs(a@),
    }
}

pub open spec fn exposes_view(s: Seq<ExposeType>) -> Seq<ExposeTypeView> {
    s.map_values(|e: ExposeType| expose_view(e))
}

/// The name of an enum item without the identifier that makes it unique.
pub open spec fn enum_item_name(id: Seq<char>) -> Seq<char> {
    id.subrange(0, id.len() - 36)
}

/// Whether an enum item's id ends in the text of a fresh UUID.
pub open spec fn id_ends_in_uuid(id: Seq<char>) -> bool {
    id.len() >= 36 && is_uuid_text(id.subrange(id.len() - 36, id.len() as int))
}

/// Every item id of an enum node ends in the text of a UUID.
pub open spec fn enum_ids_end_in_uuid(n: Node) -> bool {
    match n {
        Node::Enum(e) => forall|i: int| 0 <= i < e.values@.len() ==> #[trigger] id_ends_in_uuid(e.values@[i].1@),
        _ => true,
    }
}

pub open spec fn enum_values_view(s: Seq<(Symbol, String)>) -> Seq<(SymbolView, Seq<char>)> {
    s.map_values(|x: (Symbol, String)| (symbol_view(x.0), enum_item_name(x.1@)))
}

pub open spec fn declare_type_view(d: DeclareType) -> DeclareTypeView {
    match d {
        DeclareType::Symbol(s) => DeclareTypeView::Symbol(symbol_view(s)),
        DeclareType::Array(v) => DeclareTypeView::Array(symbols_view(v@)),
        DeclareType::Object(v) => DeclareTypeView::Object(pairs_view(v@)),
    }
}

pub open spec fn block_view(b: Block) -> BlockView
    decreases b, 3nat,
{
    BlockView { nodes: nodes_view(b.nodes@), location: b.location@ }
}

pub open spec fn nodes_view(s: Seq<Node>) -> Seq<NodeView>
    decreases s, 0nat,
{
    if s.len() == 0 {
        seq![]
    } else {
        nodes_view(s.subrange(0, s.len() - 1)).push(node_view(s[s.len() - 1]))
    }
}

pub open spec fn case_view(c: MatchCaseType) -> MatchCaseView {
    match c {
        MatchCaseType::MatchCase(m) => MatchCaseView::MatchCase {
            op: m.op,
            value: Box::new(node_view(*m.value)),
            success: Box::new(node_view(*m.success)),
        },
        MatchCaseType::Else(b) => MatchCaseView::Else(Box::new(node_view(*b))),
    }
}

pub open spec fn cases_view(s: Seq<MatchCaseType>) -> Seq<MatchCaseView>
    decreases s, 0nat,
{
    if s.len() == 0 {
        seq![]
    } else {
        cases_view(s.subrange(0, s.len() - 1)).push(
            match s[s.len() - 1] {
                MatchCaseType::MatchCase(m) => MatchCaseView::MatchCase {
                    op: m.op,
                    value: Box::new(node_view(*m.value)),
                    success: Box::new(node_view(*m.success)),
                },
                MatchCaseType::Else(b) => MatchCaseView::Else(Box::new(node_view(*b))),
            },
        )
    }
}

pub open spec fn items_view(s: Seq<(String, TaggedSymbol)>) -> Seq<(Seq<char>, NodeView, Seq<(Seq<char>, Seq<char>)>)>
    decreases s, 0nat,
{
    if s.len() == 0 {
        seq![]
    } else {
        items_view(s.subrange(0, s.len() - 1)).push(
            (s[s.len() - 1].0@, node_view(*s[s.len() - 1].1.value), pairs_view(s[s.len() - 1].1.tags@)),
        )
    }
}

/// The view of a node.
#[verifier::opaque]
pub open spec fn node_view(n: Node) -> NodeView
    decreases n, 4nat,
{
    match n {
        Node::Block(b) => NodeView::Block(BlockView { nodes: nodes_view(b.nodes@), location: b.location@ }),
        Node::ExportedBlock(b) => NodeView::ExportedBlock(
            BlockView { nodes: nodes_view(b.nodes@), location: b.location@ },
        ),
        Node::Assign(a) => NodeView::Assign {
            assignee: Box::new(node_view(*a.assignee)),
            value: Box::new(node_view(*a.value)),
            location: a.location@,
        },
        Node::Declare(d) => NodeView::Declare(
            DeclareView {
                assignee: declare_type_view(d.assignee),
                value: match d.value { Some(b) => Some(Box::new(node_view(*b))), None => None },
                location: d.location@,
                is_const: d.is_const,
            },
        ),
        Node::Export(e) => NodeView::Export {
            export: match e.export {
                ExportType::Symbol(s) => ExportTypeView::Symbol(symbol_view(s)),
                ExportType::Declaration(d) => ExportTypeView::Declaration(
                    DeclareView {
                assignee: declare_type_view(d.assignee),
                value: match d.value { Some(b) => Some(Box::new(node_view(*b))), None => None },
                location: d.location@,
                is_const: d.is_const,
            },
                ),
            },
            export_as: match e.export_as {
                Some(s) => Some(s@),
                None => None,
            },
            location: e.location@,
        },
        Node::For(f) => NodeView::For {
            value_symbol: match f.value_symbol {
                Some(s) => Some(symbol_view(s)),
                None => None,
            },
            index_symbol: symbol_view(f.index_symbol),
            iterator: Box::new(node_view(*f.iterator)),
            block: Box::new(node_view(*f.block)),
            location: f.location@,
        },
        Node::If(i) => NodeView::If {
            test: Box::new(node_view(*i.test)),
            succss: Box::new(node_view(*i.succss)),
            alternate: match i.alternate { Some(b) => Some(Box::new(node_view(*b))), None => None },
            location: i.location@,
        },
        Node::Import(i) => NodeView::Import {
            import: i.import@,
            exposing: exposes_view(i.exposing@),
            location: i.location@,
        },
        Node::Interrupt(i) => NodeView::Interrupt {
            location: i.location@,
            t: match i.t {
                InterruptType::Continue => InterruptTypeView::Continue,
                InterruptType::Break => InterruptTypeView::Break,
                InterruptType::Return(v) => InterruptTypeView::Return(match v { Some(b) => Some(Box::new(node_view(*b))), None => None }),
            },
        },
        Node::Match(m) => NodeView::Match {
            test: Box::new(node_view(*m.test)),
            cases: cases_view(m.cases@),
            location: m.location@,
        },
        Node::WhileLoop(w) => NodeView::WhileLoop {
            test: Box::new(node_view(*w.test)),
            body: Box::new(node_view(*w.body)),
            location: w.location@,
        },
        Node::Arithmetic(a) => NodeView::Arithmetic {
            left: Box::new(node_view(*a.left)),
            right: Box::new(node_view(*a.right)),
            t: a.t,
            location: a.location@,
        },
        Node::Call(c) => NodeView::Call {
            left: Box::new(node_view(*c.left)),
            args: nodes_view(c.args@),
            location: c.location@,
        },
        Node::Comp(c) => NodeView::Comp {
            left: Box::new(node_view(*c.left)),
            right: Box::new(node_view(*c.right)),
            t: c.t,
            location: c.location@,
        },
        Node::Debug(d) => NodeView::Debug { node: Box::new(node_view(*d.node)), location: d.location@ },
        Node::Enum(e) => NodeView::Enum {
            name: symbol_view(e.name),
            values: enum_values_view(e.values@),
            location: e.location@,
        },
        Node::Function(f) => NodeView::Function {
            name: match f.name {
                Some(s) => Some(symbol_view(s)),
                None => None,
            },
            body: BlockView { nodes: nodes_view(f.body.nodes@), location: f.body.location@ },
            args: symbols_view(f.args@),
            location: f.location@,
        },
        Node::Is(i) => NodeView::Is {
            left: Box::new(node_view(*i.left)),
            right: match i.right {
                IsType::Basic(b) => IsTypeView::Basic(Box::new(node_view(*b))),
                IsType::Comparison(c, b) => IsTypeView::Comparison(c, Box::new(node_view(*b))),
            },
            is_as: match i.as_symbol {
                Some(s) => Some(symbol_view(s)),
                None => None,
            },
            location: i.location@,
        },
        Node::Logical(l) => NodeView::Logical {
            left: Box::new(node_view(*l.left)),
            right: Box::new(node_view(*l.right)),
            t: l.t,
            location: l.location@,
        },
        Node::Member(m) => NodeView::Member {
            left: Box::new(node_view(*m.left)),
            right: Box::new(node_view(*m.right)),
            optional: m.optional,
            computed: m.computed,
            location: m.location@,
        },
        Node::Range(r) => NodeView::Range {
            start: Box::new(node_view(*r.start)),
            end: Box::new(node_view(*r.end)),
            inclusive_end: r.inclusive_end,
            step: match r.step { Some(b) => Some(Box::new(node_view(*b))), None => None },
            location: r.location@,
        },
        Node::Unary(u) => NodeView::Unary {
            t: u.t,
            value: Box::new(node_view(*u.value)),
            is_right: u.is_right,
            location: u.location@,
        },
        Node::EncapsulateError(e) => NodeView::EncapsulateError {
            left: Box::new(node_view(*e.left)),
            location: e.location@,
        },
        Node::PropogateError(e) => NodeView::PropogateError {
            left: Box::new(node_view(*e.left)),
            location: e.location@,
        },
        Node::Array(a) => NodeView::Array { items: nodes_view(a.items@), location: a.location@ },
        Node::Number(x) => NodeView::Number { value: x.value@, location: x.location@ },
        Node::Symbol(s) => NodeView::Symbol(symbol_view(s)),
        Node::Object(o) => NodeView::Object { items: items_view(o.items@), location: o.location@ },
        Node::ZString(s) => NodeView::ZString { value: s.value@, location: s.location@ },
    }
}


// ----- facts about the views of sequences -----

pub proof fn lemma_nodes_view(s: Seq<Node>)
    ensures
        nodes_view(s).len() == s.len(),
        forall|i: int| 0 <= i < s.len() ==> #[trigger] nodes_view(s)[i] == node_view(s[i]),
    decreases s.len(),
{
    reveal(node_view);
    if s.len() > 0 {
        lemma_nodes_view(s.subrange(0, s.len() - 1));
    }
}

pub proof fn lemma_nodes_view_push(s: Seq<Node>, x: Node)
    ensures
        nodes_view(s.push(x)) == nodes_view(s).push(node_view(x)),
{
    lemma_nodes_view(s);
    lemma_nodes_view(s.push(x));
    assert(nodes_view(s.push(x)) =~= nodes_view(s).push(node_view(x)));
}

pub proof fn lemma_cases_view(s: Seq<MatchCaseType>)
    ensures
        cases_view(s).len() == s.len(),
        forall|i: int| 0 <= i < s.len() ==> #[trigger] cases_view(s)[i] == case_view(s[i]),
    decreases s.len(),
{
    reveal(node_view);
    if s.len() > 0 {
        lemma_cases_view(s.subrange(0, s.len() - 1));
    }
}

pub proof fn lemma_cases_view_push(s: Seq<MatchCaseType>, x: MatchCaseType)
    ensures
        cases_view(s.push(x)) == cases_view(s).push(case_view(x)),
{
    lemma_cases_view(s);
    lemma_cases_view(s.push(x));
    assert(cases_view(s.push(x)) =~= cases_view(s).push(case_view(x)));
}

pub proof fn lemma_items_view(s: Seq<(String, TaggedSymbol)>)
    ensures
        items_view(s).len() == s.len(),
        forall|i: int|
            0 <= i < s.len() ==> #[trigger] items_view(s)[i] == (
                s[i].0@,
                node_view(*s[i].1.value),
                pairs_view(s[i].1.tags@),
            ),
    decreases s.len(),
{
    reveal(node_view);
    if s.len() > 0 {
        lemma_items_view(s.subrange(0, s.len() - 1));
    }
}


/// The view of a declaration.
pub open spec fn declare_view(d: Declare) -> DeclareView {
    DeclareView {
        assignee: declare_type_view(d.assignee),
        value: match d.value {
            Some(b) => Some(Box::new(node_view(*b))),
            None => None,
        },
        location: d.location@,
        is_const: d.is_const,
    }
}

/// A symbol node is seen as a symbol, a declaration as a declaration, and no
/// other node as either.
pub proof fn lemma_symbol_declare_view(n: Node)
    ensures
        n is Symbol ==> node_view(n) == NodeView::Symbol(symbol_view(n->Symbol_0)),
        n is Declare ==> node_view(n) == NodeView::Declare(declare_view(n->Declare_0)),
        !(n is Symbol) ==> !(node_view(n) is Symbol),
        !(n is Declare) ==> !(node_view(n) is Declare),
{
    reveal(node_view);
}

impl Node {
    pub(crate) fn of_block(b: Block) -> (n: Node)
        ensures
            n@ == (NodeView::Block(BlockView { nodes: nodes_view(b.nodes@), location: b.location@ })),
    {
        proof {
            reveal(node_view);
        }
        Node::Block(b)
    }

    pub(crate) fn of_exported_block(b: ExportedBlock) -> (n: Node)
        ensures
            n@ == (NodeView::ExportedBlock(
            BlockView { nodes: nodes_view(b.nodes@), location: b.location@ },
        )),
    {
        proof {
            reveal(node_view);
        }
        Node::ExportedBlock(b)
    }

    pub(crate) fn of_assign(a: Assign) -> (n: Node)
        ensures
            n@ == (NodeView::Assign {
            assignee: Box::new(node_view(*a.assignee)),
            value: Box::new(node_view(*a.value)),
            location: a.location@,
        }),
    {
        proof {
            reveal(node_view);
        }
        Node::Assign(a)
    }

    pub(crate) fn of_declare(d: Declare) -> (n: Node)
        ensures
            n@ == (NodeView::Declare(
            DeclareView {
                assignee: declare_type_view(d.assignee),
                value: match d.value { Some(b) => Some(Box::new(node_view(*b))), None => None },
                location: d.location@,
                is_const: d.is_const,
            },
        )),
    {
        proof {
            reveal(node_view);
        }
        Node::Declare(d)
    }

    pub(crate) fn of_export(e: Export) -> (n: Node)
        ensures
            n@ == (NodeView::Export {
            export: match e.export {
                ExportType::Symbol(s) => ExportTypeView::Symbol(symbol_view(s)),
                ExportType::Declaration(d) => ExportTypeView::Declaration(
                    DeclareView {
                assignee: declare_type_view(d.assignee),
                value: match d.value { Some(b) => Some(Box::new(node_view(*b))), None => None },
                location: d.location@,
                is_const: d.is_const,
            },
                ),
            },
            export_as: match e.export_as {
                Some(s) => Some(s@),
                None => None,
            },
            location: e.location@,
        }),
    {
        proof {
            reveal(node_view);
        }
        Node::Export(e)
    }

    pub(crate) fn of_for(f: For) -> (n: Node)
        ensures
            n@ == (NodeView::For {
            value_symbol: match f.value_symbol {
                Some(s) => Some(symbol_view(s)),
                None => None,
            },
            index_symbol: symbol_view(f.index_symbol),
            iterator: Box::new(node_view(*f.iterator)),
            block: Box::new(node_view(*f.block)),
            location: f.location@,
        }),
    {
        proof {
            reveal(node_view);
        }
        Node::For(f)
    }

    pub(crate) fn of_if(i: If) -> (n: Node)
        ensures
            n@ == (NodeView::If {
            test: Box::new(node_view(*i.test)),
            succss: Box::new(node_view(*i.succss)),
            alternate: match i.alternate { Some(b) => Some(Box::new(node_view(*b))), None => None },
            location: i.location@,
        }),
    {
        proof {
            reveal(node_view);
        }
        Node::If(i)
    }

    pub(crate) fn of_import(i: Import) -> (n: Node)
        ensures
            n@ == (NodeView::Import {
            import: i.import@,
            exposing: exposes_view(i.exposing@),
            location: i.location@,
        }),
    {
        proof {
            reveal(node_view);
        }
        Node::Import(i)
    }

    pub(crate) fn of_interrupt(i: Interrupt) -> (n: Node)
        ensures
            n@ == (NodeView::Interrupt {
            location: i.location@,
            t: match i.t {
                InterruptType::Continue => InterruptTypeView::Continue,
                InterruptType::Break => InterruptTypeView::Break,
                InterruptType::Return(v) => InterruptTypeView::Return(match v { Some(b) => Some(Box::new(node_view(*b))), None => None }),
            },
        }),
    {
        proof {
            reveal(node_view);
        }
        Node::Interrupt(i)
    }

    pub(crate) fn of_match(m: Match) -> (n: Node)
        ensures
            n@ == (NodeView::Match {
            test: Box::new(node_view(*m.test)),
            cases: cases_view(m.cases@),
            location: m.location@,
        }),
    {
        proof {
            reveal(node_view);
        }
        Node::Match(m)
    }

    pub(crate) fn of_while_loop(w: WhileLoop) -> (n: Node)
        ensures
            n@ == (NodeView::WhileLoop {
            test: Box::new(node_view(*w.test)),
            body: Box::new(node_view(*w.body)),
            location: w.location@,
        }),
    {
        proof {
            reveal(node_view);
        }
        Node::WhileLoop(w)
    }

    pub(crate) fn of_arithmetic(a: Arithmetic) -> (n: Node)
        ensures
            n@ == (NodeView::Arithmetic {
            left: Box::new(node_view(*a.left)),
            right: Box::new(node_view(*a.right)),
            t: a.t,
            location: a.location@,
        }),
    {
        proof {
            reveal(node_view);
        }
        Node::Arithmetic(a)
    }

    pub(crate) fn of_call(c: Call) -> (n: Node)
        ensures
            n@ == (NodeView::Call {
            left: Box::new(node_view(*c.left)),
            args: nodes_view(c.args@),
            location: c.location@,
        }),
    {
        proof {
            reveal(node_view);
        }
        Node::Call(c)
    }

    pub(crate) fn of_comp(c: Comp) -> (n: Node)
        ensures
            n@ == (NodeView::Comp {
            left: Box::new(node_view(*c.left)),
            right: Box::new(node_view(*c.right)),
            t: c.t,
            location: c.location@,
        }),
    {
        proof {
            reveal(node_view);
        }
        Node::Comp(c)
    }

    pub(crate) fn of_debug(d: DebugNode) -> (n: Node)
        ensures
            n@ == (NodeView::Debug { node: Box::new(node_view(*d.node)), location: d.location@ }),
    {
        proof {
            reveal(node_view);
        }
        Node::Debug(d)
    }

    pub(crate) fn of_enum(e: Enum) -> (n: Node)
        ensures
            n == Node::Enum(e),
            n@ == (NodeView::Enum {
            name: symbol_view(e.name),
            values: enum_values_view(e.values@),
            location: e.location@,
        }),
    {
        proof {
            reveal(node_view);
        }
        Node::Enum(e)
    }

    pub(crate) fn of_function(f: Function) -> (n: Node)
        ensures
            n@ == (NodeView::Function {
            name: match f.name {
                Some(s) => Some(symbol_view(s)),
                None => None,
            },
            body: BlockView { nodes: nodes_view(f.body.nodes@), location: f.body.location@ },
            args: symbols_view(f.args@),
            location: f.location@,
        }),
    {
        proof {
            reveal(node_view);
        }
        Node::Function(f)
    }

    pub(crate) fn of_is(i: Is) -> (n: Node)
        ensures
            n@ == (NodeView::Is {
            left: Box::new(node_view(*i.left)),
            right: match i.right {
                IsType::Basic(b) => IsTypeView::Basic(Box::new(node_view(*b))),
                IsType::Comparison(c, b) => IsTypeView::Comparison(c, Box::new(node_view(*b))),
            },
            is_as: match i.as_symbol {
                Some(s) => Some(symbol_view(s)),
                None => None,
            },
            location: i.location@,
        }),
    {
        proof {
            reveal(node_view);
        }
        Node::Is(i)
    }

    pub(crate) fn of_logical(l: LogicalNode) -> (n: Node)
        ensures
            n@ == (NodeView::Logical {
            left: Box::new(node_view(*l.left)),
            right: Box::new(node_view(*l.right)),
            t: l.t,
            location: l.location@,
        }),
    {
        proof {
            reveal(node_view);
        }
        Node::Logical(l)
    }

    pub(crate) fn of_member(m: Member) -> (n: Node)
        ensures
            n@ == (NodeView::Member {
            left: Box::new(node_view(*m.left)),
            right: Box::new(node_view(*m.right)),
            optional: m.optional,
            computed: m.computed,
            location: m.location@,
        }),
    {
        proof {
            reveal(node_view);
        }
        Node::Member(m)
    }

    pub(crate) fn of_range(r: Range) -> (n: Node)
        ensures
            n@ == (NodeView::Range {
            start: Box::new(node_view(*r.start)),
            end: Box::new(node_view(*r.end)),
            inclusive_end: r.inclusive_end,
            step: match r.step { Some(b) => Some(Box::new(node_view(*b))), None => None },
            location: r.location@,
        }),
    {
        proof {
            reveal(node_view);
        }
        Node::Range(r)
    }

    pub(crate) fn of_unary(u: UnaryNode) -> (n: Node)
        ensures
            n@ == (NodeView::Unary {
            t: u.t,
            value: Box::new(node_view(*u.value)),
            is_right: u.is_right,
            location: u.location@,
        }),
    {
        proof {
            reveal(node_view);
        }
        Node::Unary(u)
    }

    pub(crate) fn of_encapsulate_error(e: EncapsulateError) -> (n: Node)
        ensures
            n@ == (NodeView::EncapsulateError {
            left: Box::new(node_view(*e.left)),
            location: e.location@,
        }),
    {
        proof {
            reveal(node_view);
        }
        Node::EncapsulateError(e)
    }

    pub(crate) fn of_propogate_error(e: PropogateError) -> (n: Node)
        ensures
            n@ == (NodeView::PropogateError {
            left: Box::new(node_view(*e.left)),
            location: e.location@,
        }),
    {
        proof {
            reveal(node_view);
        }
        Node::PropogateError(e)
    }

    pub(crate) fn of_array(a: Array) -> (n: Node)
        ensures
            n@ == (NodeView::Array { items: nodes_view(a.items@), location: a.location@ }),
    {
        proof {
            reveal(node_view);
        }
        Node::Array(a)
    }

    pub(crate) fn of_number(x: Number) -> (n: Node)
        ensures
            n@ == (NodeView::Number { value: x.value@, location: x.location@ }),
    {
        proof {
            reveal(node_view);
        }
        Node::Number(x)
    }

    pub(crate) fn of_symbol(s: Symbol) -> (n: Node)
        ensures
            n@ == (NodeView::Symbol(symbol_view(s))),
    {
        proof {
            reveal(node_view);
        }
        Node::Symbol(s)
    }

    pub(crate) fn of_object(o: Object) -> (n: Node)
        ensures
            n@ == (NodeView::Object { items: items_view(o.items@), location: o.location@ }),
    {
        proof {
            reveal(node_view);
        }
        Node::Object(o)
    }

    pub(crate) fn of_z_string(s: ZString) -> (n: Node)
        ensures
            n@ == (NodeView::ZString { value: s.value@, location: s.location@ }),
    {
        proof {
            reveal(node_view);
        }
        Node::ZString(s)
    }
}

impl View for Node {
    type V = NodeView;

    open spec fn view(&self) -> NodeView {
        node_view(*self)
    }
}

} // verus!
