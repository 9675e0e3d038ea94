//! How operators group in the syntax tree: by precedence, through every expression of
//! a program.

use vstd::prelude::*;
use crate::ast::{
    Arg, Block, ContractDef, ContractMember, ElseBranch, Expr, FnDef, FnSig, ForInit, IfExpr,
    IfExprElse, IfStmt, InterfaceDef, Item, ModifierInvocation, Program, RevertKind, Stmt,
    VarDeclStmt, BinaryOp,
};
use crate::parser::binop_level;

verus! {

/// How tightly an expression binds: a conditional 0, an assignment 1, a binary
/// operator of level `L` then `L + 2`, `**` 12, a unary operator 13, anything else 14.
pub open spec fn expr_prec(e: Expr) -> int {
    match e {
        Expr::Ternary(_) => 0,
        Expr::Assign(_) => 1,
        Expr::Binary(b) => if b.op == BinaryOp::Exp { 12 } else { binop_level(b.op) + 2 },
        Expr::Unary(_) => 13,
        _ => 14,
    }
}

/// Operators group by precedence: the operands of a binary operator bind more tightly
/// than it, its left operand possibly as tightly (operators of one level group from
/// the left, `**` from the right); unary operators apply to unary or tighter operands;
/// an assignment's value is a binary expression or tighter, and a conditional's
/// condition an assignment or tighter. Where two trees would write out the same tokens,
/// the tree takes the parser's shape: `x.m(args)` is a method call, never a call whose
/// callee is the field access `x.m`, and `(e)` is a parenthesized expression, never a
/// tuple of one element. This holds all through the expression: its operands,
/// arguments, indexes, elements and the blocks of `if` expressions.
pub open spec fn grouped(e: Expr) -> bool
    decreases e,
{
    match e {
        Expr::Binary(b) => {
            &&& (if b.op == BinaryOp::Exp {
                expr_prec(b.left) >= 13 && expr_prec(b.right) >= 12
            } else {
                expr_prec(b.left) >= binop_level(b.op) + 2 && expr_prec(b.right) > binop_level(b.op) + 2
            })
            &&& grouped(b.left)
            &&& grouped(b.right)
        },
        Expr::Unary(u) => expr_prec(u.expr) >= 13 && grouped(u.expr),
        Expr::Assign(a) => expr_prec(a.target) >= 1 && expr_prec(a.value) >= 2 && grouped(a.target)
            && grouped(a.value),
        Expr::Ternary(t) => expr_prec(t.condition) >= 1 && grouped(t.condition) && grouped(t.then_expr)
            && grouped(t.else_expr),
        Expr::Paren(x) => grouped(*x),
        Expr::Call(c) => !(c.callee is FieldAccess) && grouped(c.callee) && args_grouped(c.args@),
        Expr::MethodCall(m) => grouped(m.receiver) && args_grouped(m.args@),
        Expr::FieldAccess(f) => grouped(f.expr),
        Expr::Index(i) => grouped(i.expr) && grouped(i.index),
        Expr::Array(a) => exprs_grouped(a.elements@),
        Expr::Tuple(t) => t.elements@.len() != 1 && exprs_grouped(t.elements@),
        Expr::New(n) => args_grouped(n.args@),
        Expr::If(i) => if_expr_grouped(*i),
        Expr::Literal(_) => true,
        Expr::Ident(_) => true,
    }
}

/// Every expression of the list is grouped.
pub open spec fn exprs_grouped(s: Seq<Expr>) -> bool
    decreases s,
{
    if s.len() == 0 {
        true
    } else {
        exprs_grouped(s.drop_last()) && grouped(s.last())
    }
}

/// Every argument's value is grouped.
pub open spec fn args_grouped(s: Seq<Arg>) -> bool
    decreases s,
{
    if s.len() == 0 {
        true
    } else {
        args_grouped(s.drop_last()) && grouped(s.last().value)
    }
}

/// An `if` expression's condition and blocks are grouped.
pub open spec fn if_expr_grouped(i: IfExpr) -> bool
    decreases i,
{
    grouped(i.condition) && block_grouped(i.then_block) && match *i.else_branch {
        IfExprElse::ElseIf(x) => if_expr_grouped(x),
        IfExprElse::Else(b) => block_grouped(b),
    }
}

/// Every statement of the block is grouped.
pub open spec fn block_grouped(b: Block) -> bool
    decreases b,
{
    stmts_grouped(b.stmts@)
}

/// Every statement of the list is grouped.
pub open spec fn stmts_grouped(s: Seq<Stmt>) -> bool
    decreases s,
{
    if s.len() == 0 {
        true
    } else {
        stmts_grouped(s.drop_last()) && stmt_grouped(s.last())
    }
}

/// An optional expression is grouped.
pub open spec fn opt_grouped(e: Option<Expr>) -> bool
    decreases e,
{
    match e {
        Some(x) => grouped(x),
        None => true,
    }
}

/// A declaration's initializer is grouped.
pub open spec fn var_decl_grouped(v: VarDeclStmt) -> bool
    decreases v,
{
    opt_grouped(v.initializer)
}

/// A `for` header's first part is grouped.
pub open spec fn for_init_grouped(i: Option<ForInit>) -> bool
    decreases i,
{
    match i {
        Some(ForInit::VarDecl(v)) => var_decl_grouped(v),
        Some(ForInit::Expr(x)) => grouped(x),
        None => true,
    }
}

/// An `if` statement's condition and blocks are grouped.
pub open spec fn if_stmt_grouped(i: IfStmt) -> bool
    decreases i,
{
    grouped(i.condition) && block_grouped(i.then_block) && match i.else_branch {
        Some(ElseBranch::ElseIf(x)) => if_stmt_grouped(*x),
        Some(ElseBranch::Else(b)) => block_grouped(b),
        None => true,
    }
}

/// Every expression of a statement, and of the blocks in it, is grouped; `_;` is the
/// placeholder of a modifier, never an expression statement.
pub open spec fn stmt_grouped(s: Stmt) -> bool
    decreases s,
{
    match s {
        Stmt::VarDecl(v) => var_decl_grouped(v),
        Stmt::Return(r) => opt_grouped(r.value),
        Stmt::If(i) => if_stmt_grouped(i),
        Stmt::While(w) => grouped(w.condition) && block_grouped(w.body),
        Stmt::For(f) => for_init_grouped(f.init) && opt_grouped(f.condition) && opt_grouped(f.update)
            && block_grouped(f.body),
        Stmt::Emit(e) => args_grouped(e.args@),
        Stmt::Require(r) => grouped(r.condition),
        Stmt::Revert(r) => match r.kind {
            RevertKind::Error { name, args } => args_grouped(args@),
            RevertKind::Message(_) => true,
        },
        Stmt::Delete(d) => grouped(d.target),
        Stmt::Selfdestruct(d) => grouped(d.recipient),
        Stmt::Placeholder(_) => true,
        Stmt::Expr(x) => grouped(x.expr) && !(x.expr matches Expr::Ident(i) && i.name@ == "_"@),
    }
}

/// A modifier invocation's arguments are grouped.
pub open spec fn modinv_grouped(m: ModifierInvocation) -> bool {
    args_grouped(m.args@)
}

/// Every modifier invocation of the list has grouped arguments.
pub open spec fn modinvs_grouped(s: Seq<ModifierInvocation>) -> bool {
    forall|k: int| 0 <= k < s.len() ==> modinv_grouped(#[trigger] s[k])
}

/// A function's modifier arguments and body are grouped.
pub open spec fn fn_def_grouped(f: FnDef) -> bool {
    modinvs_grouped(f.modifiers@) && match f.body {
        Some(b) => block_grouped(b),
        None => true,
    }
}

/// A function signature's modifier arguments are grouped.
pub open spec fn fn_sig_grouped(f: FnSig) -> bool {
    modinvs_grouped(f.modifiers@)
}

/// Every expression of a contract member is grouped.
pub open spec fn member_grouped(m: ContractMember) -> bool {
    match m {
        ContractMember::StateVar(v) => opt_grouped(v.initializer),
        ContractMember::Constructor(c) => modinvs_grouped(c.modifiers@) && block_grouped(c.body),
        ContractMember::Function(f) => fn_def_grouped(f),
        ContractMember::Modifier(d) => block_grouped(d.body),
        _ => true,
    }
}

/// Every member of the contract is grouped.
pub open spec fn contract_grouped(c: ContractDef) -> bool {
    forall|k: int| 0 <= k < c.members@.len() ==> member_grouped(#[trigger] c.members@[k])
}

/// Every signature of the interface is grouped.
pub open spec fn interface_grouped(i: InterfaceDef) -> bool {
    forall|k: int| 0 <= k < i.members@.len() ==> fn_sig_grouped(#[trigger] i.members@[k])
}

/// Every expression of an item is grouped.
pub open spec fn item_grouped(it: Item) -> bool {
    match it {
        Item::Contract(c) => contract_grouped(c),
        Item::Interface(i) => interface_grouped(i),
        Item::Function(f) => fn_def_grouped(f),
        _ => true,
    }
}

/// Every expression of the program groups its operators by precedence.
pub open spec fn program_grouped(p: Program) -> bool {
    forall|k: int| 0 <= k < p.items@.len() ==> item_grouped(#[trigger] p.items@[k])
}

} // verus!
