//! The grammar, stated as the token sequence that each syntax tree node stands for.
//!
//! `pats_*` give, for a node, the sequence of token symbols that writes it out; the
//! parser proves that each node it returns writes out exactly the tokens it consumed.

use vstd::prelude::*;
use crate::ast::{
    Arg, AssignOp, Attribute, AttributeArg, AttributeValue, BinaryOp, Block, ConstructorDef,
    ContractDef, ContractMember, ElseBranch, EnumDef, EnumVariant, ErrorDef, ErrorParam, EventDef,
    EventParam, Expr, FnDef, FnSig, ForInit, GenericArgs, GenericParam, GenericParams, Ident,
    IfExpr, IfExprElse, IfStmt, ImportItem, ImportStmt, Item, InterfaceDef, Literal,
    ModifierDef, ModifierInvocation, Param, Program, ReturnParam, RevertKind, StateMutability,
    StateVar, Stmt, StorageLocation, StructDef, StructField, UnaryOp, VarDeclStmt, Visibility,
};
use crate::lexer::{Keyword, Punct, Tok, Token};
use crate::text::dec_value;
use crate::types::{ArrayType, TypeExpr, TypePath};

verus! {

/// A token as the grammar sees it: what the syntax tree keeps of it.
pub enum Sym {
    Word(Seq<char>),
    Kw(Keyword),
    P(Punct),
    /// A decimal number read as a `u128` (zero when it does not fit).
    Int128(u128),
    /// A decimal number read as a `u64` (zero when it does not fit).
    Int64(u64),
    HexInt(Seq<char>),
    Address(Seq<char>),
    Str(Seq<char>),
    HexStr(Seq<char>),
}

/// Whether a token is written out by a symbol.
pub open spec fn tok_matches(t: Tok, s: Sym) -> bool {
    match (t, s) {
        (Tok::Ident(x), Sym::Word(w)) => x@ == w,
        (Tok::Kw(k), Sym::Kw(k2)) => k == k2,
        (Tok::P(p), Sym::P(q)) => p == q,
        (Tok::Int(d), Sym::Int128(v)) => v == (if dec_value(d@) <= u128::MAX {
            dec_value(d@)
        } else {
            0
        }),
        (Tok::Int(d), Sym::Int64(v)) => v == (if dec_value(d@) <= u64::MAX {
            dec_value(d@)
        } else {
            0
        }),
        (Tok::HexInt(x), Sym::HexInt(w)) => x@ == w,
        (Tok::Address(x), Sym::Address(w)) => x@ == w,
        (Tok::Str(x), Sym::Str(w)) => x@ == w,
        (Tok::HexStr(x), Sym::HexStr(w)) => x@ == w,
        _ => false,
    }
}

/// The tokens at positions `lo..hi` are written out by the symbols `ps`.
pub open spec fn spelled(toks: Seq<Token>, lo: int, hi: int, ps: Seq<Sym>) -> bool {
    &&& 0 <= lo <= hi <= toks.len()
    &&& hi - lo == ps.len()
    &&& forall|i: int| 0 <= i < ps.len() ==> tok_matches(toks[lo + i].tok, #[trigger] ps[i])
}

/// Symbols written one after the other match tokens that follow one another.
pub proof fn lemma_cat(toks: Seq<Token>, a: int, b: int, c: int, p1: Seq<Sym>, p2: Seq<Sym>)
    requires
        spelled(toks, a, b, p1),
        spelled(toks, b, c, p2),
    ensures
        spelled(toks, a, c, p1 + p2),
{
    assert forall|i: int| 0 <= i < (p1 + p2).len() implies tok_matches(
        toks[a + i].tok,
        #[trigger] (p1 + p2)[i],
    ) by {
        if i < p1.len() {
            assert((p1 + p2)[i] == p1[i]);
        } else {
            assert((p1 + p2)[i] == p2[i - p1.len()]);
            assert(tok_matches(toks[b + (i - p1.len())].tok, p2[i - p1.len()]));
            assert(b + (i - p1.len()) == a + i);
        }
    }
}

/// No symbols match an empty stretch of tokens.
pub proof fn lemma_empty(toks: Seq<Token>, a: int)
    requires
        0 <= a <= toks.len(),
    ensures
        spelled(toks, a, a, Seq::<Sym>::empty()),
{
}

// ---------------------------------------------------------------------------
// Operators

pub open spec fn binop_punct(op: BinaryOp) -> Punct {
    match op {
        BinaryOp::Add => Punct::Plus,
        BinaryOp::Sub => Punct::Minus,
        BinaryOp::Mul => Punct::Star,
        BinaryOp::Div => Punct::Slash,
        BinaryOp::Rem => Punct::Percent,
        BinaryOp::Exp => Punct::StarStar,
        BinaryOp::Eq => Punct::EqEq,
        BinaryOp::Ne => Punct::NotEq,
        BinaryOp::Lt => Punct::Lt,
        BinaryOp::Le => Punct::Le,
        BinaryOp::Gt => Punct::Gt,
        BinaryOp::Ge => Punct::Ge,
        BinaryOp::And => Punct::AndAnd,
        BinaryOp::Or => Punct::OrOr,
        BinaryOp::BitAnd => Punct::Amp,
        BinaryOp::BitOr => Punct::Pipe,
        BinaryOp::BitXor => Punct::Caret,
        BinaryOp::Shl => Punct::Shl,
        BinaryOp::Shr => Punct::Shr,
    }
}

pub open spec fn unop_punct(op: UnaryOp) -> Punct {
    match op {
        UnaryOp::Not => Punct::Bang,
        UnaryOp::Neg => Punct::Minus,
        UnaryOp::BitNot => Punct::Tilde,
        UnaryOp::PreInc => Punct::PlusPlus,
        UnaryOp::PreDec => Punct::MinusMinus,
        UnaryOp::PostInc => Punct::PlusPlus,
        UnaryOp::PostDec => Punct::MinusMinus,
    }
}

pub open spec fn is_postfix(op: UnaryOp) -> bool {
    op == UnaryOp::PostInc || op == UnaryOp::PostDec
}

pub open spec fn assign_punct(op: AssignOp) -> Punct {
    match op {
        AssignOp::Assign => Punct::Assign,
        AssignOp::AddAssign => Punct::PlusEq,
        AssignOp::SubAssign => Punct::MinusEq,
        AssignOp::MulAssign => Punct::StarEq,
        AssignOp::DivAssign => Punct::SlashEq,
        AssignOp::RemAssign => Punct::PercentEq,
        AssignOp::BitAndAssign => Punct::AmpEq,
        AssignOp::BitOrAssign => Punct::PipeEq,
        AssignOp::BitXorAssign => Punct::CaretEq,
    }
}

pub open spec fn visibility_kw(v: Visibility) -> Keyword {
    match v {
        Visibility::Public => Keyword::Public,
        Visibility::Private => Keyword::Private,
        Visibility::Internal => Keyword::Internal,
        Visibility::External => Keyword::External,
    }
}

pub open spec fn mutability_kw(m: StateMutability) -> Keyword {
    match m {
        StateMutability::View => Keyword::View,
        StateMutability::Pure => Keyword::Pure,
        StateMutability::Payable => Keyword::Payable,
    }
}

pub open spec fn storage_kw(s: StorageLocation) -> Keyword {
    match s {
        StorageLocation::Memory => Keyword::Memory,
        StorageLocation::Storage => Keyword::Storage,
        StorageLocation::Calldata => Keyword::Calldata,
    }
}

pub open spec fn pats_word(id: Ident) -> Seq<Sym> {
    seq![Sym::Word(id.name@)]
}

pub open spec fn pats_opt_storage(s: Option<StorageLocation>) -> Seq<Sym> {
    match s {
        Some(l) => seq![Sym::Kw(storage_kw(l))],
        None => seq![],
    }
}

pub open spec fn pats_opt_visibility(v: Option<Visibility>) -> Seq<Sym> {
    match v {
        Some(x) => seq![Sym::Kw(visibility_kw(x))],
        None => seq![],
    }
}

pub open spec fn pats_mutabilities(s: Seq<StateMutability>) -> Seq<Sym>
    decreases s.len(),
{
    if s.len() == 0 {
        seq![]
    } else {
        pats_mutabilities(s.drop_last()) + seq![Sym::Kw(mutability_kw(s.last()))]
    }
}

pub open spec fn pats_literal(l: Literal) -> Seq<Sym> {
    match l {
        Literal::Bool(b, _) => seq![Sym::Kw(if b { Keyword::True } else { Keyword::False })],
        Literal::Int(v, _) => seq![Sym::Int128(v)],
        Literal::HexInt(s, _) => seq![Sym::HexInt(s@)],
        Literal::String(s, _) => seq![Sym::Str(s@)],
        Literal::HexString(s, _) => seq![Sym::HexStr(s@)],
        Literal::Address(s, _) => seq![Sym::Address(s@)],
    }
}

// ---------------------------------------------------------------------------
// Types

pub open spec fn pats_type(t: TypeExpr) -> Seq<Sym>
    decreases t,
{
    match t {
        TypeExpr::Path(p) => pats_type_path(p),
        TypeExpr::Mapping(m) => seq![Sym::Kw(Keyword::Mapping), Sym::P(Punct::LParen)] + pats_type(m.key)
            + seq![Sym::P(Punct::FatArrow)] + pats_type(m.value) + seq![Sym::P(Punct::RParen)],
        TypeExpr::Array(a) => pats_type_path(a.element) + pats_sizes(a.sizes@),
        TypeExpr::Tuple(tt) => seq![Sym::P(Punct::LParen)] + pats_type_list(tt.elements@) + seq![
            Sym::P(Punct::RParen),
        ],
    }
}

pub open spec fn pats_type_path(p: TypePath) -> Seq<Sym>
    decreases p,
{
    pats_segments(p.segments@) + match p.generic_args {
        Some(g) => pats_generic_args(g),
        None => seq![],
    }
}

pub open spec fn pats_generic_args(g: GenericArgs) -> Seq<Sym>
    decreases g,
{
    seq![Sym::P(Punct::Lt)] + pats_type_list(g.args@) + seq![Sym::P(Punct::Gt)]
}

pub open spec fn pats_segments(s: Seq<Ident>) -> Seq<Sym>
    decreases s.len(),
{
    if s.len() == 0 {
        seq![]
    } else if s.len() == 1 {
        pats_word(s[0])
    } else {
        pats_segments(s.drop_last()) + seq![Sym::P(Punct::ColonColon)] + pats_word(s.last())
    }
}

pub open spec fn pats_type_list(s: Seq<TypeExpr>) -> Seq<Sym>
    decreases s,
{
    if s.len() == 0 {
        seq![]
    } else if s.len() == 1 {
        pats_type(s[0])
    } else {
        pats_type_list(s.drop_last()) + seq![Sym::P(Punct::Comma)] + pats_type(s.last())
    }
}

pub open spec fn pats_size(sz: Option<u64>) -> Seq<Sym> {
    match sz {
        Some(n) => seq![Sym::P(Punct::LBracket), Sym::Int64(n), Sym::P(Punct::RBracket)],
        None => seq![Sym::P(Punct::LBracket), Sym::P(Punct::RBracket)],
    }
}

pub open spec fn pats_sizes(s: Seq<Option<u64>>) -> Seq<Sym>
    decreases s.len(),
{
    if s.len() == 0 {
        seq![]
    } else {
        pats_sizes(s.drop_last()) + pats_size(s.last())
    }
}

// ---------------------------------------------------------------------------
// Expressions, statements and blocks

pub open spec fn pats_expr(e: Expr) -> Seq<Sym>
    decreases e,
{
    match e {
        Expr::Literal(l) => pats_literal(l),
        Expr::Ident(i) => pats_word(i),
        Expr::Binary(b) => pats_expr(b.left) + seq![Sym::P(binop_punct(b.op))] + pats_expr(b.right),
        Expr::Unary(u) => if is_postfix(u.op) {
            pats_expr(u.expr) + seq![Sym::P(unop_punct(u.op))]
        } else {
            seq![Sym::P(unop_punct(u.op))] + pats_expr(u.expr)
        },
        Expr::Ternary(t) => pats_expr(t.condition) + seq![Sym::P(Punct::Question)] + pats_expr(
            t.then_expr,
        ) + seq![Sym::P(Punct::Colon)] + pats_expr(t.else_expr),
        Expr::Call(c) => pats_expr(c.callee) + seq![Sym::P(Punct::LParen)] + pats_args(c.args@)
            + seq![Sym::P(Punct::RParen)],
        Expr::MethodCall(m) => pats_expr(m.receiver) + seq![Sym::P(Punct::Dot)] + pats_word(m.method)
            + pats_opt_generic_args(m.generic_args) + seq![Sym::P(Punct::LParen)] + pats_args(m.args@) + seq![Sym::P(Punct::RParen)],
        Expr::FieldAccess(f) => pats_expr(f.expr) + seq![Sym::P(Punct::Dot)] + pats_word(f.field),
        Expr::Index(i) => pats_expr(i.expr) + seq![Sym::P(Punct::LBracket)] + pats_expr(i.index)
            + seq![Sym::P(Punct::RBracket)],
        Expr::Array(a) => seq![Sym::P(Punct::LBracket)] + pats_expr_list(a.elements@) + seq![
            Sym::P(Punct::RBracket),
        ],
        Expr::Tuple(t) => seq![Sym::P(Punct::LParen)] + pats_expr_list(t.elements@) + seq![
            Sym::P(Punct::RParen),
        ],
        Expr::New(n) => seq![Sym::Kw(Keyword::New)] + pats_type_path(n.ty) + seq![
            Sym::P(Punct::LParen),
        ] + pats_args(n.args@) + seq![Sym::P(Punct::RParen)],
        Expr::If(i) => pats_if_expr(*i),
        Expr::Assign(a) => pats_expr(a.target) + seq![Sym::P(assign_punct(a.op))] + pats_expr(
            a.value,
        ),
        Expr::Paren(x) => seq![Sym::P(Punct::LParen)] + pats_expr(*x) + seq![Sym::P(Punct::RParen)],
    }
}

pub open spec fn pats_opt_generic_args(g: Option<GenericArgs>) -> Seq<Sym> {
    match g {
        Some(x) => pats_generic_args(x),
        None => seq![],
    }
}

pub open spec fn pats_for_init(i: Option<ForInit>) -> Seq<Sym>
    decreases i,
{
    match i {
        Some(ForInit::VarDecl(v)) => pats_var_decl(v),
        Some(ForInit::Expr(x)) => pats_expr(x),
        None => seq![],
    }
}

/// `, "message"` in a `require`.
pub open spec fn pats_opt_message(m: Option<String>) -> Seq<Sym> {
    match m {
        Some(x) => seq![Sym::P(Punct::Comma), Sym::Str(x@)],
        None => seq![],
    }
}

pub open spec fn pats_if_expr(i: IfExpr) -> Seq<Sym>
    decreases i,
{
    seq![Sym::Kw(Keyword::If), Sym::P(Punct::LParen)] + pats_expr(i.condition) + seq![
        Sym::P(Punct::RParen),
    ] + pats_block(i.then_block) + seq![Sym::Kw(Keyword::Else)] + match *i.else_branch {
        IfExprElse::ElseIf(x) => pats_if_expr(x),
        IfExprElse::Else(b) => pats_block(b),
    }
}

pub open spec fn pats_expr_list(s: Seq<Expr>) -> Seq<Sym>
    decreases s,
{
    if s.len() == 0 {
        seq![]
    } else if s.len() == 1 {
        pats_expr(s[0])
    } else {
        pats_expr_list(s.drop_last()) + seq![Sym::P(Punct::Comma)] + pats_expr(s.last())
    }
}

pub open spec fn pats_arg(a: Arg) -> Seq<Sym>
    decreases a,
{
    (match a.name {
        Some(n) => pats_word(n) + seq![Sym::P(Punct::Colon)],
        None => seq![],
    }) + pats_expr(a.value)
}

pub open spec fn pats_args(s: Seq<Arg>) -> Seq<Sym>
    decreases s,
{
    if s.len() == 0 {
        seq![]
    } else if s.len() == 1 {
        pats_arg(s[0])
    } else {
        pats_args(s.drop_last()) + seq![Sym::P(Punct::Comma)] + pats_arg(s.last())
    }
}

pub open spec fn pats_block(b: Block) -> Seq<Sym>
    decreases b,
{
    seq![Sym::P(Punct::LBrace)] + pats_stmts(b.stmts@) + seq![Sym::P(Punct::RBrace)]
}

pub open spec fn pats_stmts(s: Seq<Stmt>) -> Seq<Sym>
    decreases s,
{
    if s.len() == 0 {
        seq![]
    } else {
        pats_stmts(s.drop_last()) + pats_stmt(s.last())
    }
}

pub open spec fn pats_opt_expr(e: Option<Expr>) -> Seq<Sym>
    decreases e,
{
    match e {
        Some(x) => pats_expr(x),
        None => seq![],
    }
}

pub open spec fn pats_var_decl(v: VarDeclStmt) -> Seq<Sym>
    decreases v,
{
    pats_type(v.ty) + pats_opt_storage(v.storage_location) + pats_word(v.name) + match v.initializer {
        Some(x) => seq![Sym::P(Punct::Assign)] + pats_expr(x),
        None => seq![],
    }
}

pub open spec fn pats_if_stmt(i: IfStmt) -> Seq<Sym>
    decreases i,
{
    seq![Sym::Kw(Keyword::If), Sym::P(Punct::LParen)] + pats_expr(i.condition) + seq![
        Sym::P(Punct::RParen),
    ] + pats_block(i.then_block) + match i.else_branch {
        Some(ElseBranch::ElseIf(x)) => seq![Sym::Kw(Keyword::Else)] + pats_if_stmt(*x),
        Some(ElseBranch::Else(b)) => seq![Sym::Kw(Keyword::Else)] + pats_block(b),
        None => seq![],
    }
}

pub open spec fn pats_stmt(s: Stmt) -> Seq<Sym>
    decreases s,
{
    match s {
        Stmt::VarDecl(v) => pats_var_decl(v) + seq![Sym::P(Punct::Semi)],
        Stmt::Return(r) => seq![Sym::Kw(Keyword::Return)] + pats_opt_expr(r.value) + seq![
            Sym::P(Punct::Semi),
        ],
        Stmt::If(i) => pats_if_stmt(i),
        Stmt::While(w) => seq![Sym::Kw(Keyword::While), Sym::P(Punct::LParen)] + pats_expr(
            w.condition,
        ) + seq![Sym::P(Punct::RParen)] + pats_block(w.body),
        Stmt::For(f) => seq![Sym::Kw(Keyword::For), Sym::P(Punct::LParen)] + pats_for_init(f.init)
            + seq![Sym::P(Punct::Semi)] + pats_opt_expr(f.condition) + seq![Sym::P(Punct::Semi)]
            + pats_opt_expr(f.update) + seq![Sym::P(Punct::RParen)] + pats_block(f.body),
        Stmt::Emit(e) => seq![Sym::Kw(Keyword::Emit)] + pats_word(e.event) + seq![
            Sym::P(Punct::LParen),
        ] + pats_args(e.args@) + seq![Sym::P(Punct::RParen), Sym::P(Punct::Semi)],
        Stmt::Require(r) => seq![Sym::Kw(Keyword::Require), Sym::P(Punct::LParen)] + pats_expr(
            r.condition,
        ) + pats_opt_message(r.message) + seq![Sym::P(Punct::RParen), Sym::P(Punct::Semi)],
        Stmt::Revert(r) => seq![Sym::Kw(Keyword::Revert)] + match r.kind {
            RevertKind::Error { name, args } => pats_word(name) + seq![Sym::P(Punct::LParen)]
                + pats_args(args@) + seq![Sym::P(Punct::RParen)],
            RevertKind::Message(Some(m)) => seq![
                Sym::P(Punct::LParen),
                Sym::Str(m@),
                Sym::P(Punct::RParen),
            ],
            RevertKind::Message(None) => seq![Sym::P(Punct::LParen), Sym::P(Punct::RParen)],
        } + seq![Sym::P(Punct::Semi)],
        Stmt::Delete(d) => seq![Sym::Kw(Keyword::Delete)] + pats_expr(d.target) + seq![
            Sym::P(Punct::Semi),
        ],
        Stmt::Selfdestruct(d) => seq![Sym::Kw(Keyword::Selfdestruct), Sym::P(Punct::LParen)]
            + pats_expr(d.recipient) + seq![Sym::P(Punct::RParen), Sym::P(Punct::Semi)],
        Stmt::Placeholder(_) => seq![Sym::Word("_"@), Sym::P(Punct::Semi)],
        Stmt::Expr(x) => pats_expr(x.expr) + seq![Sym::P(Punct::Semi)],
    }
}


// ---------------------------------------------------------------------------
// Declarations

pub open spec fn pats_attr_value(v: AttributeValue) -> Seq<Sym> {
    match v {
        AttributeValue::Ident(i) => pats_word(i),
        AttributeValue::Literal(l) => pats_literal(l),
    }
}

/// `name =` before an attribute argument's value, when it is named.
pub open spec fn pats_opt_arg_name(n: Option<Ident>) -> Seq<Sym> {
    match n {
        Some(x) => pats_word(x) + seq![Sym::P(Punct::Assign)],
        None => seq![],
    }
}

pub open spec fn pats_attr_arg(a: AttributeArg) -> Seq<Sym> {
    pats_opt_arg_name(a.name) + pats_attr_value(a.value)
}

/// `#[name]` or `#[name(args)]`; an attribute without arguments is written without brackets.
pub open spec fn pats_attribute(a: Attribute) -> Seq<Sym> {
    seq![Sym::P(Punct::Hash), Sym::P(Punct::LBracket)] + pats_word(a.name) + if a.args@.len() == 0 {
        seq![]
    } else {
        seq![Sym::P(Punct::LParen)] + pats_attr_arg_list(a.args@)
            + seq![Sym::P(Punct::RParen)]
    } + seq![Sym::P(Punct::RBracket)]
}

pub open spec fn pats_attributes(s: Seq<Attribute>) -> Seq<Sym>
    decreases s.len(),
{
    if s.len() == 0 {
        seq![]
    } else {
        pats_attributes(s.drop_last()) + pats_attribute(s.last())
    }
}

/// `T`, or `T: A + B`
pub open spec fn pats_generic_param(g: GenericParam) -> Seq<Sym>
    decreases g,
{
    pats_word(g.name) + if g.bounds@.len() == 0 {
        seq![]
    } else {
        seq![Sym::P(Punct::Colon)] + pats_bounds(g.bounds@)
    }
}

pub open spec fn pats_bounds(s: Seq<TypeExpr>) -> Seq<Sym>
    decreases s,
{
    if s.len() == 0 {
        seq![]
    } else if s.len() == 1 {
        pats_type(s[0])
    } else {
        pats_bounds(s.drop_last()) + seq![Sym::P(Punct::Plus)] + pats_type(s.last())
    }
}

pub open spec fn pats_generic_param_list(s: Seq<GenericParam>) -> Seq<Sym>
    decreases s,
{
    if s.len() == 0 {
        seq![]
    } else if s.len() == 1 {
        pats_generic_param(s[0])
    } else {
        pats_generic_param_list(s.drop_last()) + seq![Sym::P(Punct::Comma)] + pats_generic_param(
            s.last(),
        )
    }
}

pub open spec fn pats_opt_generic_params(g: Option<GenericParams>) -> Seq<Sym> {
    match g {
        Some(gp) => seq![Sym::P(Punct::Lt)] + pats_generic_param_list(gp.params@) + seq![
            Sym::P(Punct::Gt),
        ],
        None => seq![],
    }
}

pub open spec fn pats_param(p: Param) -> Seq<Sym> {
    pats_type(p.ty) + pats_opt_storage(p.storage_location) + pats_word(p.name)
}

pub open spec fn pats_params(s: Seq<Param>) -> Seq<Sym> {
    seq![Sym::P(Punct::LParen)] + pats_param_list(s) + seq![
        Sym::P(Punct::RParen),
    ]
}

pub open spec fn pats_return_param(r: ReturnParam) -> Seq<Sym> {
    pats_type(r.ty) + pats_opt_storage(r.storage_location) + match r.name {
        Some(n) => pats_word(n),
        None => seq![],
    }
}

/// `returns (T, U)`; nothing when there are no return parameters.
pub open spec fn pats_returns(s: Seq<ReturnParam>) -> Seq<Sym> {
    if s.len() == 0 {
        seq![]
    } else {
        seq![Sym::Kw(Keyword::Returns), Sym::P(Punct::LParen)] + pats_return_param_list(s) + seq![Sym::P(Punct::RParen)]
    }
}

/// `name` or `name(args)`; a modifier named without arguments is written without brackets.
pub open spec fn pats_modinv(m: ModifierInvocation) -> Seq<Sym> {
    pats_word(m.name) + if m.args@.len() == 0 {
        seq![]
    } else {
        seq![Sym::P(Punct::LParen)] + pats_args(m.args@) + seq![Sym::P(Punct::RParen)]
    }
}

pub open spec fn pats_modinvs(s: Seq<ModifierInvocation>) -> Seq<Sym>
    decreases s.len(),
{
    if s.len() == 0 {
        seq![]
    } else {
        pats_modinvs(s.drop_last()) + pats_modinv(s.last())
    }
}

/// The part of a function header after its parameters: visibility, mutability,
/// modifiers, then the return parameters.
pub open spec fn pats_fn_tail(
    v: Option<Visibility>,
    m: Seq<StateMutability>,
    mods: Seq<ModifierInvocation>,
    rets: Seq<ReturnParam>,
) -> Seq<Sym> {
    pats_opt_visibility(v) + pats_mutabilities(m) + pats_modinvs(mods) + pats_returns(rets)
}

pub open spec fn pats_fn_sig(f: FnSig) -> Seq<Sym> {
    seq![Sym::Kw(Keyword::Function)] + pats_word(f.name) + pats_opt_generic_params(f.generic_params)
        + pats_params(f.params@) + pats_fn_tail(
        f.visibility,
        f.state_mutability@,
        f.modifiers@,
        f.return_params@,
    )
}

pub open spec fn pats_fn_def(f: FnDef) -> Seq<Sym> {
    pats_attributes(f.attributes@) + seq![Sym::Kw(Keyword::Function)] + pats_word(f.name)
        + pats_opt_generic_params(f.generic_params) + pats_params(f.params@) + pats_fn_tail(
        f.visibility,
        f.state_mutability@,
        f.modifiers@,
        f.return_params@,
    ) + match f.body {
        Some(b) => pats_block(b),
        None => seq![Sym::P(Punct::Semi)],
    }
}

pub open spec fn pats_struct_field(f: StructField) -> Seq<Sym> {
    pats_type(f.ty) + pats_word(f.name) + seq![Sym::P(Punct::Semi)]
}

pub open spec fn pats_struct_fields(s: Seq<StructField>) -> Seq<Sym>
    decreases s.len(),
{
    if s.len() == 0 {
        seq![]
    } else {
        pats_struct_fields(s.drop_last()) + pats_struct_field(s.last())
    }
}

pub open spec fn pats_struct(d: StructDef) -> Seq<Sym> {
    pats_attributes(d.attributes@) + seq![Sym::Kw(Keyword::Struct)] + pats_word(d.name)
        + pats_opt_generic_params(d.generic_params) + seq![Sym::P(Punct::LBrace)]
        + pats_struct_fields(d.fields@) + seq![Sym::P(Punct::RBrace)]
}

pub open spec fn pats_enum(d: EnumDef) -> Seq<Sym> {
    pats_attributes(d.attributes@) + seq![Sym::Kw(Keyword::Enum)] + pats_word(d.name) + seq![
        Sym::P(Punct::LBrace),
    ] + pats_variant_list(d.variants@) + seq![
        Sym::P(Punct::RBrace),
    ]
}

pub open spec fn pats_event_param(p: EventParam) -> Seq<Sym> {
    pats_type(p.ty) + if p.indexed {
        seq![Sym::Kw(Keyword::Indexed)]
    } else {
        seq![]
    } + pats_word(p.name)
}

pub open spec fn pats_event(d: EventDef) -> Seq<Sym> {
    seq![Sym::Kw(Keyword::Event)] + pats_word(d.name) + seq![Sym::P(Punct::LParen)] + pats_event_param_list(d.params@) + seq![Sym::P(Punct::RParen), Sym::P(Punct::Semi)]
}

pub open spec fn pats_error_param(p: ErrorParam) -> Seq<Sym> {
    pats_type(p.ty) + pats_word(p.name)
}

pub open spec fn pats_error(d: ErrorDef) -> Seq<Sym> {
    seq![Sym::Kw(Keyword::Error)] + pats_word(d.name) + seq![Sym::P(Punct::LParen)] + pats_error_param_list(d.params@) + seq![Sym::P(Punct::RParen), Sym::P(Punct::Semi)]
}

/// `is A, B`; nothing when there are no bases.
pub open spec fn pats_bases(s: Seq<TypePath>) -> Seq<Sym> {
    if s.len() == 0 {
        seq![]
    } else {
        seq![Sym::Word("is"@)] + pats_base_list(s)
    }
}

/// `= value`, when there is an initial value.
pub open spec fn pats_opt_initializer(x: Option<Expr>) -> Seq<Sym> {
    match x {
        Some(v) => seq![Sym::P(Punct::Assign)] + pats_expr(v),
        None => seq![],
    }
}

pub open spec fn pats_state_var(v: StateVar) -> Seq<Sym> {
    pats_attributes(v.attributes@) + pats_type(v.ty) + pats_opt_visibility(v.visibility)
        + pats_word(v.name) + pats_opt_initializer(v.initializer) + seq![Sym::P(Punct::Semi)]
}

pub open spec fn pats_constructor(c: ConstructorDef) -> Seq<Sym> {
    seq![Sym::Kw(Keyword::Constructor)] + pats_params(c.params@) + pats_modinvs(c.modifiers@)
        + pats_block(c.body)
}

pub open spec fn pats_modifier_def(m: ModifierDef) -> Seq<Sym> {
    seq![Sym::Kw(Keyword::Modifier)] + pats_word(m.name) + pats_params(m.params@) + pats_block(
        m.body,
    )
}

pub open spec fn pats_member(m: ContractMember) -> Seq<Sym> {
    match m {
        ContractMember::StateVar(v) => pats_state_var(v),
        ContractMember::Constructor(c) => pats_constructor(c),
        ContractMember::Function(f) => pats_fn_def(f),
        ContractMember::Modifier(d) => pats_modifier_def(d),
        ContractMember::Event(e) => pats_event(e),
        ContractMember::Error(e) => pats_error(e),
        ContractMember::Struct(d) => pats_struct(d),
        ContractMember::Enum(d) => pats_enum(d),
    }
}

pub open spec fn pats_members(s: Seq<ContractMember>) -> Seq<Sym>
    decreases s.len(),
{
    if s.len() == 0 {
        seq![]
    } else {
        pats_members(s.drop_last()) + pats_member(s.last())
    }
}

pub open spec fn pats_contract(c: ContractDef) -> Seq<Sym> {
    pats_attributes(c.attributes@) + if c.is_abstract {
        seq![Sym::Kw(Keyword::Abstract)]
    } else {
        seq![]
    } + seq![Sym::Kw(Keyword::Contract)] + pats_word(c.name) + pats_bases(c.bases@) + seq![
        Sym::P(Punct::LBrace),
    ] + pats_members(c.members@) + seq![Sym::P(Punct::RBrace)]
}

pub open spec fn pats_sigs(s: Seq<FnSig>) -> Seq<Sym>
    decreases s.len(),
{
    if s.len() == 0 {
        seq![]
    } else {
        pats_sigs(s.drop_last()) + pats_fn_sig(s.last()) + seq![Sym::P(Punct::Semi)]
    }
}

pub open spec fn pats_interface(d: InterfaceDef) -> Seq<Sym> {
    pats_attributes(d.attributes@) + seq![Sym::Kw(Keyword::Interface)] + pats_word(d.name)
        + pats_bases(d.bases@) + seq![Sym::P(Punct::LBrace)] + pats_sigs(d.members@) + seq![
        Sym::P(Punct::RBrace),
    ]
}

pub open spec fn pats_import_item(i: ImportItem) -> Seq<Sym> {
    pats_word(i.name) + match i.alias {
        Some(a) => seq![Sym::Word("as"@)] + pats_word(a),
        None => seq![],
    }
}

/// `import { A, B as C } from "source";`
pub open spec fn pats_import(i: ImportStmt) -> Seq<Sym> {
    seq![Sym::Kw(Keyword::Import), Sym::P(Punct::LBrace)] + pats_import_item_list(i.items@) + seq![
        Sym::P(Punct::RBrace),
        Sym::Word("from"@),
        Sym::Str(i.source@),
        Sym::P(Punct::Semi),
    ]
}

pub open spec fn pats_item(it: Item) -> Seq<Sym> {
    match it {
        Item::Import(i) => pats_import(i),
        Item::Contract(c) => pats_contract(c),
        Item::Interface(d) => pats_interface(d),
        Item::Struct(d) => pats_struct(d),
        Item::Enum(d) => pats_enum(d),
        Item::Event(e) => pats_event(e),
        Item::Error(e) => pats_error(e),
        Item::Function(f) => pats_fn_def(f),
    }
}

pub open spec fn pats_items(s: Seq<Item>) -> Seq<Sym>
    decreases s.len(),
{
    if s.len() == 0 {
        seq![]
    } else {
        pats_items(s.drop_last()) + pats_item(s.last())
    }
}

/// A program writes out its items one after the other.
pub open spec fn pats_program(p: Program) -> Seq<Sym> {
    pats_items(p.items@)
}

pub open spec fn pats_variant(v: EnumVariant) -> Seq<Sym> {
    pats_word(v.name)
}

/// Attribute arguments separated by commas.
pub open spec fn pats_attr_arg_list(s: Seq<AttributeArg>) -> Seq<Sym>
    decreases s.len(),
{
    if s.len() == 0 {
        seq![]
    } else if s.len() == 1 {
        pats_attr_arg(s[0])
    } else {
        pats_attr_arg_list(s.drop_last()) + seq![Sym::P(Punct::Comma)] + pats_attr_arg(s.last())
    }
}

/// Parameters separated by commas.
pub open spec fn pats_param_list(s: Seq<Param>) -> Seq<Sym>
    decreases s.len(),
{
    if s.len() == 0 {
        seq![]
    } else if s.len() == 1 {
        pats_param(s[0])
    } else {
        pats_param_list(s.drop_last()) + seq![Sym::P(Punct::Comma)] + pats_param(s.last())
    }
}

/// Return parameters separated by commas.
pub open spec fn pats_return_param_list(s: Seq<ReturnParam>) -> Seq<Sym>
    decreases s.len(),
{
    if s.len() == 0 {
        seq![]
    } else if s.len() == 1 {
        pats_return_param(s[0])
    } else {
        pats_return_param_list(s.drop_last()) + seq![Sym::P(Punct::Comma)] + pats_return_param(s.last())
    }
}

/// Enum variants separated by commas.
pub open spec fn pats_variant_list(s: Seq<EnumVariant>) -> Seq<Sym>
    decreases s.len(),
{
    if s.len() == 0 {
        seq![]
    } else if s.len() == 1 {
        pats_variant(s[0])
    } else {
        pats_variant_list(s.drop_last()) + seq![Sym::P(Punct::Comma)] + pats_variant(s.last())
    }
}

/// Event parameters separated by commas.
pub open spec fn pats_event_param_list(s: Seq<EventParam>) -> Seq<Sym>
    decreases s.len(),
{
    if s.len() == 0 {
        seq![]
    } else if s.len() == 1 {
        pats_event_param(s[0])
    } else {
        pats_event_param_list(s.drop_last()) + seq![Sym::P(Punct::Comma)] + pats_event_param(s.last())
    }
}

/// Error parameters separated by commas.
pub open spec fn pats_error_param_list(s: Seq<ErrorParam>) -> Seq<Sym>
    decreases s.len(),
{
    if s.len() == 0 {
        seq![]
    } else if s.len() == 1 {
        pats_error_param(s[0])
    } else {
        pats_error_param_list(s.drop_last()) + seq![Sym::P(Punct::Comma)] + pats_error_param(s.last())
    }
}

/// Base contracts separated by commas.
pub open spec fn pats_base_list(s: Seq<TypePath>) -> Seq<Sym>
    decreases s.len(),
{
    if s.len() == 0 {
        seq![]
    } else if s.len() == 1 {
        pats_type_path(s[0])
    } else {
        pats_base_list(s.drop_last()) + seq![Sym::P(Punct::Comma)] + pats_type_path(s.last())
    }
}

/// Imported names separated by commas.
pub open spec fn pats_import_item_list(s: Seq<ImportItem>) -> Seq<Sym>
    decreases s.len(),
{
    if s.len() == 0 {
        seq![]
    } else if s.len() == 1 {
        pats_import_item(s[0])
    } else {
        pats_import_item_list(s.drop_last()) + seq![Sym::P(Punct::Comma)] + pats_import_item(s.last())
    }
}

} // verus!
