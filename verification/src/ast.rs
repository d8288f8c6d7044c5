//! The abstract syntax tree that the compiler consumes.

use vstd::prelude::*;

verus! {

/// A span of source text: byte offsets, and the line and column of its start.
#[derive(Debug, Clone, Copy, PartialEq, Eq, Structural)]
pub struct SourceLocation {
    pub start: usize,
    pub end: usize,
    pub line: usize,
    pub col: usize,
}

/// The line of a location, 0 where there is none.
pub open spec fn line_or_zero(loc: Option<SourceLocation>) -> nat {
    match loc {
        Some(l) => l.line as nat,
        None => 0,
    }
}

/// The line of a location, 0 where there is none.
pub fn line_of(loc: &Option<SourceLocation>) -> (r: usize)
    ensures
        r == line_or_zero(*loc),
{
    match loc {
        Some(l) => l.line,
        None => 0,
    }
}

#[derive(Debug, PartialEq)]
pub struct Program {
    pub kind: String,
    pub body: Vec<Statement>,
    pub loc: Option<SourceLocation>,
}

#[derive(Debug, PartialEq)]
pub enum Statement {
    LetStmt(LetStmt),
    AssignStmt(AssignStmt),
    ShowStmt(ShowStmt),
    IfStmt(IfStmt),
    RepeatStmt(RepeatStmt),
    WhileStmt(WhileStmt),
    FuncDecl(FuncDecl),
    ReturnStmt(ReturnStmt),
    ExprStmt(ExprStmt),
    Block(Block),
    ImportStmt(ImportStmt),
    ExportStmt(ExportStmt),
}

#[derive(Debug, PartialEq)]
pub enum Expression {
    BinaryExpr(BinaryExpr),
    UnaryExpr(UnaryExpr),
    CallExpr(CallExpr),
    Literal(Literal),
    Identifier(Identifier),
    ArrayLiteral(ArrayLiteral),
    ObjectLiteral(ObjectLiteral),
    IndexExpr(IndexExpr),
    MemberExpr(MemberExpr),
}

#[derive(Debug, PartialEq)]
pub struct LetStmt {
    pub name: Identifier,
    pub value: Expression,
    pub loc: Option<SourceLocation>,
}

#[derive(Debug, PartialEq)]
pub struct AssignStmt {
    pub target: Expression,
    pub value: Expression,
    pub loc: Option<SourceLocation>,
}

#[derive(Debug, PartialEq)]
pub struct ShowStmt {
    pub expression: Expression,
    pub loc: Option<SourceLocation>,
}

#[derive(Debug, PartialEq)]
pub struct IfStmt {
    pub condition: Expression,
    pub then_block: Block,
    pub else_block: Option<Block>,
    pub loc: Option<SourceLocation>,
}

#[derive(Debug, PartialEq)]
pub struct RepeatStmt {
    pub count: Expression,
    pub body: Block,
    pub loc: Option<SourceLocation>,
}

#[derive(Debug, PartialEq)]
pub struct WhileStmt {
    pub condition: Expression,
    pub body: Block,
    pub loc: Option<SourceLocation>,
}

#[derive(Debug, PartialEq)]
pub struct FuncDecl {
    pub name: Identifier,
    pub params: Vec<Identifier>,
    pub body: Block,
    pub loc: Option<SourceLocation>,
}

#[derive(Debug, PartialEq)]
pub struct ReturnStmt {
    pub argument: Option<Expression>,
    pub loc: Option<SourceLocation>,
}

#[derive(Debug, PartialEq)]
pub struct ExprStmt {
    pub expression: Expression,
    pub loc: Option<SourceLocation>,
}

#[derive(Debug, PartialEq)]
pub struct Block {
    pub body: Vec<Statement>,
    pub loc: Option<SourceLocation>,
}

/// `import "path/name"`: binds the module under the last segment of its path.
#[derive(Debug, Clone, PartialEq)]
pub struct ImportStmt {
    pub module: String,
    pub loc: Option<SourceLocation>,
}

/// `export` in front of a `let` or a function declaration.
#[derive(Debug, PartialEq)]
pub struct ExportStmt {
    pub declaration: Box<Statement>,
    pub loc: Option<SourceLocation>,
}

#[derive(Debug, PartialEq)]
pub struct BinaryExpr {
    pub operator: String,
    pub left: Box<Expression>,
    pub right: Box<Expression>,
    pub loc: Option<SourceLocation>,
}

#[derive(Debug, PartialEq)]
pub struct UnaryExpr {
    pub operator: String,
    pub argument: Box<Expression>,
    pub loc: Option<SourceLocation>,
}

#[derive(Debug, PartialEq)]
pub struct CallExpr {
    pub callee: Box<Expression>,
    pub arguments: Vec<Expression>,
    pub loc: Option<SourceLocation>,
}

#[derive(Debug, Clone, PartialEq)]
pub struct Identifier {
    pub name: String,
    pub loc: Option<SourceLocation>,
}

/// What a literal denotes. A number is the bit pattern of its double.
/// `Unsupported` stands for a value that is no scalar (an array or an object
/// in the serialized tree).
#[derive(Debug, Clone, PartialEq)]
pub enum LiteralValue {
    Number(u64),
    String(String),
    Boolean(bool),
    Null,
    Unsupported,
}

#[derive(Debug, Clone, PartialEq)]
pub struct Literal {
    pub value: LiteralValue,
    pub raw: String,
    pub loc: Option<SourceLocation>,
}

#[derive(Debug, PartialEq)]
pub struct ArrayLiteral {
    pub elements: Vec<Expression>,
    pub loc: Option<SourceLocation>,
}

#[derive(Debug, PartialEq)]
pub struct ObjectLiteral {
    pub properties: Vec<Property>,
    pub loc: Option<SourceLocation>,
}

#[derive(Debug, PartialEq)]
pub struct Property {
    pub key: PropertyKey,
    pub value: Expression,
    pub loc: Option<SourceLocation>,
}

#[derive(Debug, PartialEq)]
pub enum PropertyKey {
    Identifier(Identifier),
    Literal(Literal),
}

/// `object[index]`.
#[derive(Debug, PartialEq)]
pub struct IndexExpr {
    pub object: Box<Expression>,
    pub index: Box<Expression>,
    pub loc: Option<SourceLocation>,
}

/// `object.property`.
#[derive(Debug, PartialEq)]
pub struct MemberExpr {
    pub object: Box<Expression>,
    pub property: Identifier,
    pub loc: Option<SourceLocation>,
}

impl Expression {
    /// The location recorded on the node.
    pub open spec fn location(self) -> Option<SourceLocation> {
        match self {
            Expression::BinaryExpr(e) => e.loc,
            Expression::UnaryExpr(e) => e.loc,
            Expression::CallExpr(e) => e.loc,
            Expression::Literal(e) => e.loc,
            Expression::Identifier(e) => e.loc,
            Expression::ArrayLiteral(e) => e.loc,
            Expression::ObjectLiteral(e) => e.loc,
            Expression::IndexExpr(e) => e.loc,
            Expression::MemberExpr(e) => e.loc,
        }
    }

    /// The location recorded on the node.
    pub fn loc(&self) -> (r: Option<SourceLocation>)
        ensures
            r == self.location(),
    {
        match self {
            Expression::BinaryExpr(e) => e.loc,
            Expression::UnaryExpr(e) => e.loc,
            Expression::CallExpr(e) => e.loc,
            Expression::Literal(e) => e.loc,
            Expression::Identifier(e) => e.loc,
            Expression::ArrayLiteral(e) => e.loc,
            Expression::ObjectLiteral(e) => e.loc,
            Expression::IndexExpr(e) => e.loc,
            Expression::MemberExpr(e) => e.loc,
        }
    }
}

} // verus!
