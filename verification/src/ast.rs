//! Syntax tree of a SolScript program.

use vstd::prelude::*;
use crate::span::Span;
use crate::types::{TypeExpr, TypePath};

verus! {

/// A complete program: the items of one source file.
#[derive(Debug)]
pub struct Program {
    pub items: Vec<Item>,
    pub span: Span,
}

/// A top-level item.
#[derive(Debug)]
pub enum Item {
    Import(ImportStmt),
    Contract(ContractDef),
    Interface(InterfaceDef),
    Struct(StructDef),
    Enum(EnumDef),
    Event(EventDef),
    Error(ErrorDef),
    Function(FnDef),
}

/// `import { A, B as C } from "source";`
#[derive(Debug)]
pub struct ImportStmt {
    pub items: Vec<ImportItem>,
    pub source: String,
    pub span: Span,
}

/// One imported name, possibly renamed.
#[derive(Debug)]
pub struct ImportItem {
    pub name: Ident,
    pub alias: Option<Ident>,
    pub span: Span,
}

#[derive(Debug, Clone, Copy, PartialEq, Eq, Structural)]
pub enum Visibility {
    Public,
    Private,
    Internal,
    External,
}

#[derive(Debug, Clone, Copy, PartialEq, Eq, Structural)]
pub enum StateMutability {
    View,
    Pure,
    Payable,
}

#[derive(Debug, Clone, Copy, PartialEq, Eq, Structural)]
pub enum StorageLocation {
    Memory,
    Storage,
    Calldata,
}

/// A modifier named in a function or constructor header.
#[derive(Debug)]
pub struct ModifierInvocation {
    pub name: Ident,
    pub args: Vec<Arg>,
    pub span: Span,
}

/// `[abstract] contract Name is Base, ... { members }`
#[derive(Debug)]
pub struct ContractDef {
    pub attributes: Vec<Attribute>,
    pub is_abstract: bool,
    pub name: Ident,
    pub bases: Vec<TypePath>,
    pub members: Vec<ContractMember>,
    pub span: Span,
}

#[derive(Debug)]
pub enum ContractMember {
    StateVar(StateVar),
    Constructor(ConstructorDef),
    Function(FnDef),
    Modifier(ModifierDef),
    Event(EventDef),
    Error(ErrorDef),
    Struct(StructDef),
    Enum(EnumDef),
}

/// A state variable of a contract.
#[derive(Debug)]
pub struct StateVar {
    pub attributes: Vec<Attribute>,
    pub ty: TypeExpr,
    pub visibility: Option<Visibility>,
    pub name: Ident,
    pub initializer: Option<Expr>,
    pub span: Span,
}

/// `interface Name is Base { function signatures }`
#[derive(Debug)]
pub struct InterfaceDef {
    pub attributes: Vec<Attribute>,
    pub name: Ident,
    pub bases: Vec<TypePath>,
    pub members: Vec<FnSig>,
    pub span: Span,
}

/// A function header without a body.
#[derive(Debug)]
pub struct FnSig {
    pub name: Ident,
    pub generic_params: Option<GenericParams>,
    pub params: Vec<Param>,
    pub visibility: Option<Visibility>,
    pub state_mutability: Vec<StateMutability>,
    pub modifiers: Vec<ModifierInvocation>,
    pub return_params: Vec<ReturnParam>,
    pub span: Span,
}

#[derive(Debug)]
pub struct StructDef {
    pub attributes: Vec<Attribute>,
    pub name: Ident,
    pub generic_params: Option<GenericParams>,
    pub fields: Vec<StructField>,
    pub span: Span,
}

#[derive(Debug)]
pub struct StructField {
    pub ty: TypeExpr,
    pub name: Ident,
    pub span: Span,
}

#[derive(Debug)]
pub struct EnumDef {
    pub attributes: Vec<Attribute>,
    pub name: Ident,
    pub variants: Vec<EnumVariant>,
    pub span: Span,
}

#[derive(Debug)]
pub struct EnumVariant {
    pub name: Ident,
    pub span: Span,
}

#[derive(Debug)]
pub struct EventDef {
    pub name: Ident,
    pub params: Vec<EventParam>,
    pub span: Span,
}

#[derive(Debug)]
pub struct EventParam {
    pub ty: TypeExpr,
    pub indexed: bool,
    pub name: Ident,
    pub span: Span,
}

#[derive(Debug)]
pub struct ErrorDef {
    pub name: Ident,
    pub params: Vec<ErrorParam>,
    pub span: Span,
}

#[derive(Debug)]
pub struct ErrorParam {
    pub ty: TypeExpr,
    pub name: Ident,
    pub span: Span,
}

#[derive(Debug)]
pub struct ConstructorDef {
    pub params: Vec<Param>,
    pub modifiers: Vec<ModifierInvocation>,
    pub body: Block,
    pub span: Span,
}

#[derive(Debug)]
pub struct ModifierDef {
    pub name: Ident,
    pub params: Vec<Param>,
    pub body: Block,
    pub span: Span,
}

/// A function definition; `body` is `None` for an abstract function.
#[derive(Debug)]
pub struct FnDef {
    pub attributes: Vec<Attribute>,
    pub name: Ident,
    pub generic_params: Option<GenericParams>,
    pub params: Vec<Param>,
    pub visibility: Option<Visibility>,
    pub state_mutability: Vec<StateMutability>,
    pub modifiers: Vec<ModifierInvocation>,
    pub return_params: Vec<ReturnParam>,
    pub body: Option<Block>,
    pub span: Span,
}

#[derive(Debug)]
pub struct Param {
    pub ty: TypeExpr,
    pub storage_location: Option<StorageLocation>,
    pub name: Ident,
    pub span: Span,
}

/// A return parameter: its type, where it is stored, and an optional name.
#[derive(Debug)]
pub struct ReturnParam {
    pub ty: TypeExpr,
    pub storage_location: Option<StorageLocation>,
    pub name: Option<Ident>,
    pub span: Span,
}

#[derive(Debug)]
pub struct GenericParams {
    pub params: Vec<GenericParam>,
    pub span: Span,
}

#[derive(Debug)]
pub struct GenericParam {
    pub name: Ident,
    pub bounds: Vec<TypeExpr>,
    pub span: Span,
}

#[derive(Debug)]
pub struct GenericArgs {
    pub args: Vec<TypeExpr>,
    pub span: Span,
}

/// `#[name(args)]`
#[derive(Debug)]
pub struct Attribute {
    pub name: Ident,
    pub args: Vec<AttributeArg>,
    pub span: Span,
}

#[derive(Debug)]
pub struct AttributeArg {
    pub name: Option<Ident>,
    pub value: AttributeValue,
    pub span: Span,
}

#[derive(Debug)]
pub enum AttributeValue {
    Ident(Ident),
    Literal(Literal),
}

#[derive(Debug)]
pub struct Block {
    pub stmts: Vec<Stmt>,
    pub span: Span,
}

#[derive(Debug)]
pub enum Stmt {
    VarDecl(VarDeclStmt),
    Return(ReturnStmt),
    If(IfStmt),
    While(WhileStmt),
    For(ForStmt),
    Emit(EmitStmt),
    Require(RequireStmt),
    Revert(RevertStmt),
    Delete(DeleteStmt),
    Selfdestruct(SelfdestructStmt),
    /// `_` in a modifier body
    Placeholder(Span),
    Expr(ExprStmt),
}

#[derive(Debug)]
pub struct VarDeclStmt {
    pub ty: TypeExpr,
    pub storage_location: Option<StorageLocation>,
    pub name: Ident,
    pub initializer: Option<Expr>,
    pub span: Span,
}

#[derive(Debug)]
pub struct ReturnStmt {
    pub value: Option<Expr>,
    pub span: Span,
}

#[derive(Debug)]
pub struct IfStmt {
    pub condition: Expr,
    pub then_block: Block,
    pub else_branch: Option<ElseBranch>,
    pub span: Span,
}

#[derive(Debug)]
pub enum ElseBranch {
    ElseIf(Box<IfStmt>),
    Else(Block),
}

#[derive(Debug)]
pub struct WhileStmt {
    pub condition: Expr,
    pub body: Block,
    pub span: Span,
}

#[derive(Debug)]
pub struct ForStmt {
    pub init: Option<ForInit>,
    pub condition: Option<Expr>,
    pub update: Option<Expr>,
    pub body: Block,
    pub span: Span,
}

#[derive(Debug)]
pub enum ForInit {
    VarDecl(VarDeclStmt),
    Expr(Expr),
}

#[derive(Debug)]
pub struct EmitStmt {
    pub event: Ident,
    pub args: Vec<Arg>,
    pub span: Span,
}

#[derive(Debug)]
pub struct RequireStmt {
    pub condition: Expr,
    pub message: Option<String>,
    pub span: Span,
}

#[derive(Debug)]
pub struct RevertStmt {
    pub kind: RevertKind,
    pub span: Span,
}

#[derive(Debug)]
pub enum RevertKind {
    /// `revert("message")` or `revert()`
    Message(Option<String>),
    /// `revert CustomError(args)`
    Error { name: Ident, args: Vec<Arg> },
}

#[derive(Debug)]
pub struct DeleteStmt {
    pub target: Expr,
    pub span: Span,
}

#[derive(Debug)]
pub struct SelfdestructStmt {
    pub recipient: Expr,
    pub span: Span,
}

#[derive(Debug)]
pub struct ExprStmt {
    pub expr: Expr,
    pub span: Span,
}

#[derive(Debug)]
pub enum Expr {
    Literal(Literal),
    Ident(Ident),
    Binary(Box<BinaryExpr>),
    Unary(Box<UnaryExpr>),
    Ternary(Box<TernaryExpr>),
    Call(Box<CallExpr>),
    MethodCall(Box<MethodCallExpr>),
    FieldAccess(Box<FieldAccessExpr>),
    Index(Box<IndexExpr>),
    Array(ArrayExpr),
    Tuple(TupleExpr),
    New(Box<NewExpr>),
    If(Box<IfExpr>),
    Assign(Box<AssignExpr>),
    Paren(Box<Expr>),
}

#[derive(Debug)]
pub struct BinaryExpr {
    pub left: Expr,
    pub op: BinaryOp,
    pub right: Expr,
    pub span: Span,
}

#[derive(Debug, Clone, Copy, PartialEq, Eq, Structural)]
pub enum BinaryOp {
    Add,
    Sub,
    Mul,
    Div,
    Rem,
    Exp,
    Eq,
    Ne,
    Lt,
    Le,
    Gt,
    Ge,
    And,
    Or,
    BitAnd,
    BitOr,
    BitXor,
    Shl,
    Shr,
}

#[derive(Debug)]
pub struct UnaryExpr {
    pub op: UnaryOp,
    pub expr: Expr,
    pub span: Span,
}

#[derive(Debug, Clone, Copy, PartialEq, Eq, Structural)]
pub enum UnaryOp {
    Not,
    Neg,
    BitNot,
    PreInc,
    PreDec,
    PostInc,
    PostDec,
}

#[derive(Debug)]
pub struct TernaryExpr {
    pub condition: Expr,
    pub then_expr: Expr,
    pub else_expr: Expr,
    pub span: Span,
}

#[derive(Debug)]
pub struct CallExpr {
    pub callee: Expr,
    pub args: Vec<Arg>,
    pub span: Span,
}

#[derive(Debug)]
pub struct Arg {
    pub name: Option<Ident>,
    pub value: Expr,
    pub span: Span,
}

#[derive(Debug)]
pub struct MethodCallExpr {
    pub receiver: Expr,
    pub method: Ident,
    pub generic_args: Option<GenericArgs>,
    pub args: Vec<Arg>,
    pub span: Span,
}

#[derive(Debug)]
pub struct FieldAccessExpr {
    pub expr: Expr,
    pub field: Ident,
    pub span: Span,
}

#[derive(Debug)]
pub struct IndexExpr {
    pub expr: Expr,
    pub index: Expr,
    pub span: Span,
}

#[derive(Debug)]
pub struct ArrayExpr {
    pub elements: Vec<Expr>,
    pub span: Span,
}

#[derive(Debug)]
pub struct TupleExpr {
    pub elements: Vec<Expr>,
    pub span: Span,
}

#[derive(Debug)]
pub struct NewExpr {
    pub ty: TypePath,
    pub args: Vec<Arg>,
    pub span: Span,
}

#[derive(Debug)]
pub struct IfExpr {
    pub condition: Expr,
    pub then_block: Block,
    pub else_branch: Box<IfExprElse>,
    pub span: Span,
}

#[derive(Debug)]
pub enum IfExprElse {
    ElseIf(IfExpr),
    Else(Block),
}

#[derive(Debug)]
pub struct AssignExpr {
    pub target: Expr,
    pub op: AssignOp,
    pub value: Expr,
    pub span: Span,
}

#[derive(Debug, Clone, Copy, PartialEq, Eq, Structural)]
pub enum AssignOp {
    Assign,
    AddAssign,
    SubAssign,
    MulAssign,
    DivAssign,
    RemAssign,
    BitAndAssign,
    BitOrAssign,
    BitXorAssign,
}

#[derive(Debug, Clone, PartialEq)]
pub enum Literal {
    Bool(bool, Span),
    Int(u128, Span),
    HexInt(String, Span),
    String(String, Span),
    HexString(String, Span),
    Address(String, Span),
}

/// A name together with where it stands.
#[derive(Debug, Clone, PartialEq, Eq, Hash)]
pub struct Ident {
    pub name: String,
    pub span: Span,
}

impl Literal {
    /// Where the literal stands in the source.
    pub fn span(&self) -> (s: Span)
        ensures
            s == self.span_spec(),
    {
        match self {
            Literal::Bool(_, span) => *span,
            Literal::Int(_, span) => *span,
            Literal::HexInt(_, span) => *span,
            Literal::String(_, span) => *span,
            Literal::HexString(_, span) => *span,
            Literal::Address(_, span) => *span,
        }
    }

    pub open spec fn span_spec(&self) -> Span {
        match self {
            Literal::Bool(_, span) => *span,
            Literal::Int(_, span) => *span,
            Literal::HexInt(_, span) => *span,
            Literal::String(_, span) => *span,
            Literal::HexString(_, span) => *span,
            Literal::Address(_, span) => *span,
        }
    }
}

impl Expr {
    /// The span an expression carries: that of its node, looking through parentheses.
    pub open spec fn span_spec(&self) -> Span
        decreases self,
    {
        match self {
            Expr::Literal(lit) => lit.span_spec(),
            Expr::Ident(id) => id.span,
            Expr::Binary(b) => b.span,
            Expr::Unary(u) => u.span,
            Expr::Ternary(t) => t.span,
            Expr::Call(c) => c.span,
            Expr::MethodCall(m) => m.span,
            Expr::FieldAccess(f) => f.span,
            Expr::Index(i) => i.span,
            Expr::Array(a) => a.span,
            Expr::Tuple(t) => t.span,
            Expr::New(n) => n.span,
            Expr::If(i) => i.span,
            Expr::Assign(a) => a.span,
            Expr::Paren(e) => e.span_spec(),
        }
    }

    /// Where the expression stands in the source.
    pub fn span(&self) -> (s: Span)
        ensures
            s == self.span_spec(),
        decreases self,
    {
        match self {
            Expr::Literal(lit) => lit.span(),
            Expr::Ident(id) => id.span,
            Expr::Binary(b) => b.span,
            Expr::Unary(u) => u.span,
            Expr::Ternary(t) => t.span,
            Expr::Call(c) => c.span,
            Expr::MethodCall(m) => m.span,
            Expr::FieldAccess(f) => f.span,
            Expr::Index(i) => i.span,
            Expr::Array(a) => a.span,
            Expr::Tuple(t) => t.span,
            Expr::New(n) => n.span,
            Expr::If(i) => i.span,
            Expr::Assign(a) => a.span,
            Expr::Paren(e) => e.span(),
        }
    }
}

impl Ident {
    /// A name at a span.
    pub fn new(name: String, span: Span) -> (id: Ident)
        ensures
            id.name == name,
            id.span == span,
    {
        Ident { name, span }
    }
}

} // verus!
