//! What lowering a syntax tree to the intermediate representation gives, stated over
//! the values the trees stand for.

use vstd::prelude::*;
use crate::ast;
use crate::chars::{lower_first, upper_prop};
use crate::codegen_error::ErrV;
use crate::ir::{AccessV, BinaryOp, ExprV, LitV, StmtV, TypeV, UnaryOp};
use crate::lexer::is_hex_digit;
use crate::text::{dec_seq, dec_value, is_digit};
use crate::types::TypeExpr;

verus! {

/// What lowering reads of its surroundings: the state fields, mappings and interfaces
/// of the contract.
pub struct CtxV {
    pub state_fields: Seq<Seq<char>>,
    pub mapping_names: Seq<Seq<char>>,
    pub interface_names: Seq<Seq<char>>,
}

/// What lowering a function records as it goes: the mapping entries it reads or
/// writes, and whether it uses the token program or transfers lamports.
pub struct CollV {
    pub accesses: Seq<AccessV>,
    pub uses_token_program: bool,
    pub uses_sol_transfer: bool,
}

/// The outcome of lowering: a value with what was recorded, an error, or a stop where
/// a call to an assertion lacks the arguments it reads.
pub enum Lowered<T> {
    Done(T, CollV),
    Failed(ErrV),
    Stuck,
}

// ---------------------------------------------------------------------------
// Names

/// The part of `s` that character `i` becomes in snake case: a capital letter becomes
/// its small letter, after `_` when the character before it is not a capital.
pub open spec fn snake_piece(s: Seq<char>, i: int) -> Seq<char> {
    if upper_prop(s[i]) {
        (if i > 0 && !upper_prop(s[i - 1]) {
            seq!['_']
        } else {
            Seq::<char>::empty()
        }) + seq![lower_first(s[i])]
    } else {
        seq![s[i]]
    }
}

/// A name in snake case.
pub open spec fn snake(s: Seq<char>) -> Seq<char>
    decreases s.len(),
{
    if s.len() == 0 {
        seq![]
    } else {
        snake(s.drop_last()) + snake_piece(s, s.len() - 1)
    }
}

/// The account through which access number `n` to a mapping is made.
pub open spec fn access_account_name(mapping: Seq<char>, n: nat) -> Seq<char> {
    snake(mapping) + "_entry_"@ + dec_seq(n)
}

/// The digits of an unsigned number: the text after an optional `+`.
pub open spec fn unsigned_digits(t: Seq<char>) -> Seq<char> {
    if t.len() > 0 && t[0] == '+' {
        t.subrange(1, t.len() as int)
    } else {
        t
    }
}

pub open spec fn all_digits(s: Seq<char>) -> bool {
    forall|i: int| 0 <= i < s.len() ==> is_digit(#[trigger] s[i])
}

pub open spec fn all_hex_digits(s: Seq<char>) -> bool {
    forall|i: int| 0 <= i < s.len() ==> is_hex_digit(#[trigger] s[i])
}

/// Reading text as a `usize` the way `str::parse` does: an optional `+`, then decimal
/// digits, and a value that fits.
pub open spec fn parse_usize(t: Seq<char>) -> Option<nat> {
    let d = unsigned_digits(t);
    if d.len() > 0 && all_digits(d) && dec_value(d) <= usize::MAX {
        Some(dec_value(d))
    } else {
        None
    }
}

/// Whether `s` starts with `p`.
pub open spec fn starts_with(s: Seq<char>, p: Seq<char>) -> bool {
    s.len() >= p.len() && s.subrange(0, p.len() as int) == p
}

/// The number after `bytes` in a name `bytesN`, as `str::parse` reads it.
pub open spec fn bytes_suffix(name: Seq<char>) -> Option<nat> {
    if starts_with(name, "bytes"@) {
        parse_usize(name.subrange(5, name.len() as int))
    } else {
        None
    }
}

// ---------------------------------------------------------------------------
// Literals

/// `s` without the `0x` prefixes it starts with.
pub open spec fn strip_0x(s: Seq<char>) -> Seq<char>
    decreases s.len(),
{
    if s.len() >= 2 && s[0] == '0' && s[1] == 'x' {
        strip_0x(s.subrange(2, s.len() as int))
    } else {
        s
    }
}

pub open spec fn hex_digit_value(c: char) -> nat {
    if '0' <= c && c <= '9' {
        (c as int - '0' as int) as nat
    } else if 'a' <= c && c <= 'f' {
        (c as int - 'a' as int + 10) as nat
    } else {
        (c as int - 'A' as int + 10) as nat
    }
}

/// The number that a sequence of hexadecimal digits denotes.
pub open spec fn hex_value(s: Seq<char>) -> nat
    decreases s.len(),
{
    if s.len() == 0 {
        0
    } else {
        hex_value(s.drop_last()) * 16 + hex_digit_value(s.last())
    }
}

/// Reading text as a hexadecimal `u128` the way `u128::from_str_radix` does.
pub open spec fn parse_hex_u128(t: Seq<char>) -> Option<u128> {
    let d = unsigned_digits(t);
    if d.len() > 0 && all_hex_digits(d) && hex_value(d) <= u128::MAX {
        Some(hex_value(d) as u128)
    } else {
        None
    }
}

pub open spec fn lower_lit_s(l: ast::Literal) -> Result<LitV, ErrV> {
    match l {
        ast::Literal::Bool(b, _) => Ok(LitV::Bool(b)),
        ast::Literal::Int(n, _) => Ok(LitV::Uint(n)),
        ast::Literal::HexInt(s, _) => match parse_hex_u128(strip_0x(s@)) {
            Some(n) => Ok(LitV::Uint(n)),
            None => Err(ErrV::TypeConversion("Invalid hex: "@ + s@)),
        },
        ast::Literal::String(s, _) => Ok(LitV::String(s@)),
        ast::Literal::HexString(s, _) => Ok(LitV::String(s@)),
        ast::Literal::Address(s, _) => Ok(LitV::Pubkey(s@)),
    }
}

// ---------------------------------------------------------------------------
// Operators

pub open spec fn lower_binop(op: ast::BinaryOp) -> BinaryOp {
    match op {
        ast::BinaryOp::Add => BinaryOp::Add,
        ast::BinaryOp::Sub => BinaryOp::Sub,
        ast::BinaryOp::Mul => BinaryOp::Mul,
        ast::BinaryOp::Div => BinaryOp::Div,
        ast::BinaryOp::Rem => BinaryOp::Rem,
        ast::BinaryOp::Exp => BinaryOp::Mul,
        ast::BinaryOp::Eq => BinaryOp::Eq,
        ast::BinaryOp::Ne => BinaryOp::Ne,
        ast::BinaryOp::Lt => BinaryOp::Lt,
        ast::BinaryOp::Le => BinaryOp::Le,
        ast::BinaryOp::Gt => BinaryOp::Gt,
        ast::BinaryOp::Ge => BinaryOp::Ge,
        ast::BinaryOp::And => BinaryOp::And,
        ast::BinaryOp::Or => BinaryOp::Or,
        ast::BinaryOp::BitAnd => BinaryOp::BitAnd,
        ast::BinaryOp::BitOr => BinaryOp::BitOr,
        ast::BinaryOp::BitXor => BinaryOp::BitXor,
        ast::BinaryOp::Shl => BinaryOp::Shl,
        ast::BinaryOp::Shr => BinaryOp::Shr,
    }
}

/// Increments and decrements have no operator of their own and become negation.
pub open spec fn lower_unop(op: ast::UnaryOp) -> UnaryOp {
    match op {
        ast::UnaryOp::Neg => UnaryOp::Neg,
        ast::UnaryOp::Not => UnaryOp::Not,
        ast::UnaryOp::BitNot => UnaryOp::BitNot,
        _ => UnaryOp::Neg,
    }
}

/// The value an assignment stores: the value itself, or for `x op= v` the operation
/// on the target and the value.
pub open spec fn assign_value(op: ast::AssignOp, target: ExprV, value: ExprV) -> ExprV {
    let bin = match op {
        ast::AssignOp::Assign => BinaryOp::Add,
        ast::AssignOp::AddAssign => BinaryOp::Add,
        ast::AssignOp::SubAssign => BinaryOp::Sub,
        ast::AssignOp::MulAssign => BinaryOp::Mul,
        ast::AssignOp::DivAssign => BinaryOp::Div,
        ast::AssignOp::RemAssign => BinaryOp::Rem,
        ast::AssignOp::BitAndAssign => BinaryOp::BitAnd,
        ast::AssignOp::BitOrAssign => BinaryOp::BitOr,
        ast::AssignOp::BitXorAssign => BinaryOp::BitXor,
    };
    if op == ast::AssignOp::Assign {
        value
    } else {
        ExprV::Binary { op: bin, left: Box::new(target), right: Box::new(value) }
    }
}

// ---------------------------------------------------------------------------
// Built-in objects

/// `msg`, `block` and `tx` always name the built-in objects.
pub open spec fn is_builtin_object(name: Seq<char>) -> bool {
    name == "msg"@ || name == "block"@ || name == "tx"@
}

/// A field of a built-in object that has a meaning of its own.
pub open spec fn builtin_field(obj: Seq<char>, field: Seq<char>) -> Option<ExprV> {
    if obj == "msg"@ && field == "sender"@ {
        Some(ExprV::MsgSender)
    } else if obj == "msg"@ && field == "value"@ {
        Some(ExprV::MsgValue)
    } else if obj == "block"@ && (field == "timestamp"@ || field == "number"@) {
        Some(ExprV::BlockTimestamp)
    } else if obj == "clock"@ && (field == "timestamp"@ || field == "unix_timestamp"@) {
        Some(ExprV::ClockUnixTimestamp)
    } else if obj == "clock"@ && field == "slot"@ {
        Some(ExprV::ClockSlot)
    } else if obj == "clock"@ && field == "epoch"@ {
        Some(ExprV::ClockEpoch)
    } else {
        None
    }
}

/// A method of a built-in object that has a meaning of its own, with what it records.
pub open spec fn builtin_method(obj: Seq<char>, method: Seq<char>, args: Seq<ExprV>, st: CollV) -> Option<(ExprV, CollV)> {
    let token = CollV { uses_token_program: true, ..st };
    if obj == "msg"@ && method == "sender"@ {
        Some((ExprV::MsgSender, st))
    } else if obj == "msg"@ && method == "value"@ {
        Some((ExprV::MsgValue, st))
    } else if obj == "block"@ && method == "timestamp"@ {
        Some((ExprV::BlockTimestamp, st))
    } else if obj == "rent"@ && method == "minimumBalance"@ && args.len() == 1 {
        Some((ExprV::RentMinimumBalance { data_len: Box::new(args[0]) }, st))
    } else if obj == "rent"@ && method == "isExempt"@ && args.len() == 2 {
        Some((ExprV::RentIsExempt { lamports: Box::new(args[0]), data_len: Box::new(args[1]) }, st))
    } else if obj == "token"@ && method == "transfer"@ && args.len() == 4 {
        Some((ExprV::TokenTransfer {
            from: Box::new(args[0]),
            to: Box::new(args[1]),
            authority: Box::new(args[2]),
            amount: Box::new(args[3]),
        }, token))
    } else if obj == "token"@ && method == "mint"@ && args.len() == 4 {
        Some((ExprV::TokenMint {
            mint: Box::new(args[0]),
            to: Box::new(args[1]),
            authority: Box::new(args[2]),
            amount: Box::new(args[3]),
        }, token))
    } else if obj == "token"@ && method == "burn"@ && args.len() == 4 {
        Some((ExprV::TokenBurn {
            from: Box::new(args[0]),
            mint: Box::new(args[1]),
            authority: Box::new(args[2]),
            amount: Box::new(args[3]),
        }, token))
    } else if obj == "token"@ && method == "getATA"@ && args.len() == 2 {
        Some((ExprV::GetATA { owner: Box::new(args[0]), mint: Box::new(args[1]) }, token))
    } else {
        None
    }
}

/// The comparison an assertion function checks: 0 for `assertEq` ... 5 for `assertLe`.
pub open spec fn assert_check_kind(name: Seq<char>) -> Option<int> {
    if name == "assertEq"@ {
        Some(0)
    } else if name == "assertNe"@ {
        Some(1)
    } else if name == "assertGt"@ {
        Some(2)
    } else if name == "assertGe"@ {
        Some(3)
    } else if name == "assertLt"@ {
        Some(4)
    } else if name == "assertLe"@ {
        Some(5)
    } else {
        None
    }
}

pub open spec fn assert_check(k: int, left: ExprV, right: ExprV, message: Option<Seq<char>>) -> ExprV {
    let l = Box::new(left);
    let r = Box::new(right);
    if k == 0 {
        ExprV::AssertEq { left: l, right: r, message }
    } else if k == 1 {
        ExprV::AssertNe { left: l, right: r, message }
    } else if k == 2 {
        ExprV::AssertGt { left: l, right: r, message }
    } else if k == 3 {
        ExprV::AssertGe { left: l, right: r, message }
    } else if k == 4 {
        ExprV::AssertLt { left: l, right: r, message }
    } else {
        ExprV::AssertLe { left: l, right: r, message }
    }
}

/// The message an assertion gives: argument `k`, when it is a string literal.
pub open spec fn arg_message(args: Seq<ast::Arg>, k: int) -> Option<Seq<char>> {
    if k < args.len() {
        match args[k].value {
            ast::Expr::Literal(ast::Literal::String(s, _)) => Some(s@),
            _ => None,
        }
    } else {
        None
    }
}

/// Whether an argument is the literal `0`.
pub open spec fn is_zero_literal(e: ast::Expr) -> bool {
    e matches ast::Expr::Literal(ast::Literal::Int(n, _)) && n == 0
}

// ---------------------------------------------------------------------------
// Expressions

pub open spec fn mapping_chain(base: ast::Expr, cx: CtxV) -> Option<Seq<char>>
    decreases base,
{
    match base {
        ast::Expr::Ident(id) => if cx.mapping_names.contains(id.name@) {
            Some(id.name@)
        } else {
            None
        },
        ast::Expr::Index(inner) => mapping_chain(inner.expr, cx),
        _ => None,
    }
}

/// Lowering the keys of an index expression `base[index]` whose base leads to a
/// mapping: the keys, outermost first.
pub open spec fn lower_chain_s(e: ast::Expr, cx: CtxV, st: CollV) -> Lowered<Seq<ExprV>>
    decreases e, 1nat,
{
    match e {
        ast::Expr::Index(i) => match i.expr {
            ast::Expr::Index(_) => match lower_chain_s(i.expr, cx, st) {
                Lowered::Done(keys, st1) => match lower_expr_s(i.index, cx, st1) {
                    Lowered::Done(k, st2) => Lowered::Done(keys.push(k), st2),
                    Lowered::Failed(er) => Lowered::Failed(er),
                    Lowered::Stuck => Lowered::Stuck,
                },
                Lowered::Failed(er) => Lowered::Failed(er),
                Lowered::Stuck => Lowered::Stuck,
            },
            _ => match lower_expr_s(i.index, cx, st) {
                Lowered::Done(k, st1) => Lowered::Done(seq![k], st1),
                Lowered::Failed(er) => Lowered::Failed(er),
                Lowered::Stuck => Lowered::Stuck,
            },
        },
        _ => Lowered::Done(seq![], st),
    }
}

/// Lowering the values of call arguments, first to last.
pub open spec fn lower_args_s(args: Seq<ast::Arg>, cx: CtxV, st: CollV) -> Lowered<Seq<ExprV>>
    decreases args, 0nat,
{
    if args.len() == 0 {
        Lowered::Done(seq![], st)
    } else {
        match lower_args_s(args.drop_last(), cx, st) {
            Lowered::Done(xs, st1) => match lower_expr_s(args.last().value, cx, st1) {
                Lowered::Done(x, st2) => Lowered::Done(xs.push(x), st2),
                Lowered::Failed(e) => Lowered::Failed(e),
                Lowered::Stuck => Lowered::Stuck,
            },
            Lowered::Failed(e) => Lowered::Failed(e),
            Lowered::Stuck => Lowered::Stuck,
        }
    }
}

/// Lowering expressions, first to last.
pub open spec fn lower_exprs_s(es: Seq<ast::Expr>, cx: CtxV, st: CollV) -> Lowered<Seq<ExprV>>
    decreases es, 0nat,
{
    if es.len() == 0 {
        Lowered::Done(seq![], st)
    } else {
        match lower_exprs_s(es.drop_last(), cx, st) {
            Lowered::Done(xs, st1) => match lower_expr_s(es.last(), cx, st1) {
                Lowered::Done(x, st2) => Lowered::Done(xs.push(x), st2),
                Lowered::Failed(e) => Lowered::Failed(e),
                Lowered::Stuck => Lowered::Stuck,
            },
            Lowered::Failed(e) => Lowered::Failed(e),
            Lowered::Stuck => Lowered::Stuck,
        }
    }
}

/// Lowering a call of a function named `name`: the assertion functions, `address(0)`,
/// `bytesN(0)`, casts to interfaces, `transfer(to, amount)`, and other calls.
pub open spec fn lower_call_s(name: Seq<char>, args: Seq<ast::Arg>, cx: CtxV, st: CollV) -> Lowered<ExprV>
    decreases args, 1nat,
{
    if name == "assert"@ {
        if args.len() < 1 {
            Lowered::Stuck
        } else {
            match lower_expr_s(args[0].value, cx, st) {
                Lowered::Done(c, st1) => Lowered::Done(ExprV::Assert { condition: Box::new(c), message: arg_message(args, 1) }, st1),
                Lowered::Failed(e) => Lowered::Failed(e),
                Lowered::Stuck => Lowered::Stuck,
            }
        }
    } else if assert_check_kind(name) is Some {
        if args.len() < 2 {
            Lowered::Stuck
        } else {
            match lower_expr_s(args[0].value, cx, st) {
                Lowered::Done(l, st1) => match lower_expr_s(args[1].value, cx, st1) {
                    Lowered::Done(r, st2) => Lowered::Done(assert_check(assert_check_kind(name).unwrap(), l, r, arg_message(args, 2)), st2),
                    Lowered::Failed(e) => Lowered::Failed(e),
                    Lowered::Stuck => Lowered::Stuck,
                },
                Lowered::Failed(e) => Lowered::Failed(e),
                Lowered::Stuck => Lowered::Stuck,
            }
        }
    } else if name == "address"@ && args.len() == 1 && is_zero_literal(args[0].value) {
        Lowered::Done(ExprV::Literal(LitV::ZeroAddress), st)
    } else if bytes_suffix(name) is Some && 1 <= bytes_suffix(name).unwrap() <= 32 && args.len() == 1
        && is_zero_literal(args[0].value) {
        Lowered::Done(ExprV::Literal(LitV::ZeroBytes(bytes_suffix(name).unwrap() as usize)), st)
    } else if cx.interface_names.contains(name) && args.len() == 1 {
        match lower_expr_s(args[0].value, cx, st) {
            Lowered::Done(p, st1) => Lowered::Done(ExprV::InterfaceCast { interface_name: name, program_id: Box::new(p) }, st1),
            Lowered::Failed(e) => Lowered::Failed(e),
            Lowered::Stuck => Lowered::Stuck,
        }
    } else if name == "transfer"@ && args.len() == 2 {
        let st0 = CollV { uses_sol_transfer: true, ..st };
        match lower_expr_s(args[0].value, cx, st0) {
            Lowered::Done(to, st1) => match lower_expr_s(args[1].value, cx, st1) {
                Lowered::Done(amount, st2) => Lowered::Done(ExprV::SolTransfer { to: Box::new(to), amount: Box::new(amount) }, st2),
                Lowered::Failed(e) => Lowered::Failed(e),
                Lowered::Stuck => Lowered::Stuck,
            },
            Lowered::Failed(e) => Lowered::Failed(e),
            Lowered::Stuck => Lowered::Stuck,
        }
    } else {
        match lower_args_s(args, cx, st) {
            Lowered::Done(xs, st1) => Lowered::Done(ExprV::Call { func: name, args: xs }, st1),
            Lowered::Failed(e) => Lowered::Failed(e),
            Lowered::Stuck => Lowered::Stuck,
        }
    }
}

/// Two sub-expressions lowered one after the other, and combined.
pub open spec fn lower_expr_s(e: ast::Expr, cx: CtxV, st: CollV) -> Lowered<ExprV>
    decreases e, 2nat,
{
    match e {
        ast::Expr::Literal(l) => match lower_lit_s(l) {
            Ok(x) => Lowered::Done(ExprV::Literal(x), st),
            Err(er) => Lowered::Failed(er),
        },
        ast::Expr::Ident(id) => if !is_builtin_object(id.name@) && cx.state_fields.contains(id.name@) {
            Lowered::Done(ExprV::StateAccess(id.name@), st)
        } else {
            Lowered::Done(ExprV::Var(id.name@), st)
        },
        ast::Expr::Binary(b) => match lower_expr_s(b.left, cx, st) {
            Lowered::Done(l, st1) => match lower_expr_s(b.right, cx, st1) {
                Lowered::Done(r, st2) => Lowered::Done(ExprV::Binary { op: lower_binop(b.op), left: Box::new(l), right: Box::new(r) }, st2),
                Lowered::Failed(er) => Lowered::Failed(er),
                Lowered::Stuck => Lowered::Stuck,
            },
            Lowered::Failed(er) => Lowered::Failed(er),
            Lowered::Stuck => Lowered::Stuck,
        },
        ast::Expr::Unary(u) => match lower_expr_s(u.expr, cx, st) {
            Lowered::Done(x, st1) => Lowered::Done(ExprV::Unary { op: lower_unop(u.op), expr: Box::new(x) }, st1),
            Lowered::Failed(er) => Lowered::Failed(er),
            Lowered::Stuck => Lowered::Stuck,
        },
        ast::Expr::Call(c) => match c.callee {
            ast::Expr::Ident(id) => lower_call_s(id.name@, c.args@, cx, st),
            _ => Lowered::Failed(ErrV::UnsupportedFeature("Complex call expressions"@)),
        },
        ast::Expr::MethodCall(m) => match lower_expr_s(m.receiver, cx, st) {
            Lowered::Done(recv, st1) => match lower_args_s(m.args@, cx, st1) {
                Lowered::Done(args, st2) => match recv {
                    ExprV::InterfaceCast { interface_name, program_id } => Lowered::Done(ExprV::CpiCall {
                        program: program_id,
                        interface_name,
                        method: m.method.name@,
                        args,
                    }, st2),
                    ExprV::Var(obj) => match builtin_method(obj, m.method.name@, args, st2) {
                        Some((x, st3)) => Lowered::Done(x, st3),
                        None => Lowered::Done(ExprV::MethodCall { receiver: Box::new(recv), method: m.method.name@, args }, st2),
                    },
                    _ => Lowered::Done(ExprV::MethodCall { receiver: Box::new(recv), method: m.method.name@, args }, st2),
                },
                Lowered::Failed(er) => Lowered::Failed(er),
                Lowered::Stuck => Lowered::Stuck,
            },
            Lowered::Failed(er) => Lowered::Failed(er),
            Lowered::Stuck => Lowered::Stuck,
        },
        ast::Expr::FieldAccess(f) => match lower_expr_s(f.expr, cx, st) {
            Lowered::Done(x, st1) => match x {
                ExprV::Var(obj) => match builtin_field(obj, f.field.name@) {
                    Some(b) => Lowered::Done(b, st1),
                    None => Lowered::Done(ExprV::Field { expr: Box::new(x), field: f.field.name@ }, st1),
                },
                _ => Lowered::Done(ExprV::Field { expr: Box::new(x), field: f.field.name@ }, st1),
            },
            Lowered::Failed(er) => Lowered::Failed(er),
            Lowered::Stuck => Lowered::Stuck,
        },
        ast::Expr::Index(i) => match mapping_chain(i.expr, cx) {
            Some(name) => match lower_chain_s(e, cx, st) {
                Lowered::Done(keys, st1) => {
                    let account = access_account_name(name, st1.accesses.len());
                    let access = AccessV {
                        mapping_name: name,
                        key_exprs: keys,
                        is_write: true,
                        should_close: false,
                        account_name: account,
                    };
                    Lowered::Done(ExprV::MappingAccess { mapping_name: name, keys, account_name: account }, CollV {
                        accesses: st1.accesses.push(access),
                        ..st1
                    })
                },
                Lowered::Failed(er) => Lowered::Failed(er),
                Lowered::Stuck => Lowered::Stuck,
            },
            None => match lower_expr_s(i.expr, cx, st) {
                Lowered::Done(x, st1) => match lower_expr_s(i.index, cx, st1) {
                    Lowered::Done(k, st2) => Lowered::Done(ExprV::Index { expr: Box::new(x), index: Box::new(k) }, st2),
                    Lowered::Failed(er) => Lowered::Failed(er),
                    Lowered::Stuck => Lowered::Stuck,
                },
                Lowered::Failed(er) => Lowered::Failed(er),
                Lowered::Stuck => Lowered::Stuck,
            },
        },
        ast::Expr::Ternary(t) => match lower_expr_s(t.condition, cx, st) {
            Lowered::Done(c, st1) => match lower_expr_s(t.then_expr, cx, st1) {
                Lowered::Done(a, st2) => match lower_expr_s(t.else_expr, cx, st2) {
                    Lowered::Done(b, st3) => Lowered::Done(ExprV::Ternary {
                        condition: Box::new(c),
                        then_expr: Box::new(a),
                        else_expr: Box::new(b),
                    }, st3),
                    Lowered::Failed(er) => Lowered::Failed(er),
                    Lowered::Stuck => Lowered::Stuck,
                },
                Lowered::Failed(er) => Lowered::Failed(er),
                Lowered::Stuck => Lowered::Stuck,
            },
            Lowered::Failed(er) => Lowered::Failed(er),
            Lowered::Stuck => Lowered::Stuck,
        },
        ast::Expr::Assign(a) => match lower_expr_s(a.target, cx, st) {
            Lowered::Done(t, st1) => match lower_expr_s(a.value, cx, st1) {
                Lowered::Done(v, st2) => Lowered::Done(ExprV::MethodCall {
                    receiver: Box::new(t),
                    method: "__assign__"@,
                    args: seq![assign_value(a.op, t, v)],
                }, st2),
                Lowered::Failed(er) => Lowered::Failed(er),
                Lowered::Stuck => Lowered::Stuck,
            },
            Lowered::Failed(er) => Lowered::Failed(er),
            Lowered::Stuck => Lowered::Stuck,
        },
        ast::Expr::Array(a) => if a.elements@.len() == 0 {
            Lowered::Done(ExprV::Call { func: "Vec::new"@, args: seq![] }, st)
        } else {
            match lower_exprs_s(a.elements@, cx, st) {
                Lowered::Done(xs, st1) => Lowered::Done(ExprV::Call { func: "vec!"@, args: xs }, st1),
                Lowered::Failed(er) => Lowered::Failed(er),
                Lowered::Stuck => Lowered::Stuck,
            }
        },
        ast::Expr::Paren(x) => lower_expr_s(*x, cx, st),
        ast::Expr::If(_) => Lowered::Failed(ErrV::UnsupportedFeature("If expressions"@)),
        ast::Expr::Tuple(_) => Lowered::Failed(ErrV::UnsupportedFeature("Tuple expressions"@)),
        ast::Expr::New(_) => Lowered::Failed(ErrV::UnsupportedFeature("New expressions (use CPI instead)"@)),
    }
}


// ---------------------------------------------------------------------------
// Types

/// The type that a built-in type name stands for. The 256-bit integers become their
/// 128-bit counterparts, the widest Solana has.
pub open spec fn builtin_type(name: Seq<char>) -> Option<TypeV> {
    if name == "uint8"@ {
        Some(TypeV::U8)
    } else if name == "u8"@ {
        Some(TypeV::U8)
    } else if name == "uint16"@ {
        Some(TypeV::U16)
    } else if name == "u16"@ {
        Some(TypeV::U16)
    } else if name == "uint32"@ {
        Some(TypeV::U32)
    } else if name == "u32"@ {
        Some(TypeV::U32)
    } else if name == "uint64"@ {
        Some(TypeV::U64)
    } else if name == "u64"@ {
        Some(TypeV::U64)
    } else if name == "uint128"@ {
        Some(TypeV::U128)
    } else if name == "u128"@ {
        Some(TypeV::U128)
    } else if name == "uint256"@ {
        Some(TypeV::U128)
    } else if name == "uint"@ {
        Some(TypeV::U128)
    } else if name == "int8"@ {
        Some(TypeV::I8)
    } else if name == "i8"@ {
        Some(TypeV::I8)
    } else if name == "int16"@ {
        Some(TypeV::I16)
    } else if name == "i16"@ {
        Some(TypeV::I16)
    } else if name == "int32"@ {
        Some(TypeV::I32)
    } else if name == "i32"@ {
        Some(TypeV::I32)
    } else if name == "int64"@ {
        Some(TypeV::I64)
    } else if name == "i64"@ {
        Some(TypeV::I64)
    } else if name == "int128"@ {
        Some(TypeV::I128)
    } else if name == "i128"@ {
        Some(TypeV::I128)
    } else if name == "int256"@ {
        Some(TypeV::I128)
    } else if name == "int"@ {
        Some(TypeV::I128)
    } else if name == "bool"@ {
        Some(TypeV::Bool)
    } else if name == "address"@ {
        Some(TypeV::Pubkey)
    } else if name == "signer"@ {
        Some(TypeV::Signer)
    } else if name == "string"@ {
        Some(TypeV::String)
    } else if name == "bytes"@ {
        Some(TypeV::Bytes)
    } else {
        None
    }
}

/// Lowering a named type: a built-in type, `bytesN` for N from 1 to 32, or a type of the
/// program.
pub open spec fn lower_path_s(name: Seq<char>) -> Result<TypeV, ErrV> {
    match builtin_type(name) {
        Some(t) => Ok(t),
        None => if starts_with(name, "bytes"@) {
            match parse_usize(name.subrange(5, name.len() as int)) {
                Some(n) => if 1 <= n <= 32 {
                    Ok(TypeV::FixedBytes(n as usize))
                } else {
                    Err(ErrV::UnsupportedFeature("Invalid bytes size: "@ + dec_seq(n)))
                },
                None => Ok(TypeV::Custom(name)),
            }
        } else {
            Ok(TypeV::Custom(name))
        },
    }
}

/// Lowering a type: the name of a path is its last segment. `None` where a path has no
/// segment to name it, on which the lowering stops.
pub open spec fn lower_type_s(t: TypeExpr) -> Option<Result<TypeV, ErrV>>
    decreases t,
{
    match t {
        TypeExpr::Path(p) => if p.segments@.len() == 0 {
            None
        } else {
            Some(lower_path_s(p.segments@.last().name@))
        },
        TypeExpr::Array(a) => if a.element.segments@.len() == 0 {
            None
        } else {
            Some(match lower_path_s(a.element.segments@.last().name@) {
                Ok(elem) => if a.sizes@.len() != 1 {
                    Err(ErrV::UnsupportedFeature("Multi-dimensional arrays"@))
                } else {
                    match a.sizes@[0] {
                        Some(n) => Ok(TypeV::Array(Box::new(elem), n as usize)),
                        None => Ok(TypeV::Vec(Box::new(elem))),
                    }
                },
                Err(e) => Err(e),
            })
        },
        TypeExpr::Mapping(m) => match lower_type_s(m.key) {
            Some(Ok(k)) => match lower_type_s(m.value) {
                Some(Ok(v)) => Some(Ok(TypeV::Mapping(Box::new(k), Box::new(v)))),
                other => other,
            },
            other => other,
        },
        TypeExpr::Tuple(_) => Some(Err(ErrV::UnsupportedFeature("Tuple types"@))),
    }
}

// ---------------------------------------------------------------------------
// Statements

/// Lowering an optional expression.
pub open spec fn lower_opt_s(e: Option<ast::Expr>, cx: CtxV, st: CollV) -> Lowered<Option<ExprV>>
    decreases e,
{
    match e {
        Some(x) => match lower_expr_s(x, cx, st) {
            Lowered::Done(v, st1) => Lowered::Done(Some(v), st1),
            Lowered::Failed(er) => Lowered::Failed(er),
            Lowered::Stuck => Lowered::Stuck,
        },
        None => Lowered::Done(None, st),
    }
}

/// A declaration: its type first, then its initial value.
pub open spec fn lower_var_decl_s(v: ast::VarDeclStmt, cx: CtxV, st: CollV) -> Lowered<StmtV> {
    match lower_type_s(v.ty) {
        Some(Ok(ty)) => match lower_opt_s(v.initializer, cx, st) {
            Lowered::Done(value, st1) => Lowered::Done(StmtV::VarDecl { name: v.name.name@, ty, value }, st1),
            Lowered::Failed(er) => Lowered::Failed(er),
            Lowered::Stuck => Lowered::Stuck,
        },
        Some(Err(er)) => Lowered::Failed(er),
        None => Lowered::Stuck,
    }
}

/// The first access through account `name` marked to be closed.
pub open spec fn mark_close(accs: Seq<AccessV>, name: Seq<char>) -> Seq<AccessV>
    decreases accs.len(),
{
    if accs.len() == 0 {
        accs
    } else if accs[0].account_name == name {
        accs.update(0, AccessV { should_close: true, ..accs[0] })
    } else {
        seq![accs[0]] + mark_close(accs.drop_first(), name)
    }
}

/// Lowering the start of a `for` statement.
pub open spec fn lower_for_init_s(init: Option<ast::ForInit>, cx: CtxV, st: CollV) -> Lowered<Option<Box<StmtV>>> {
    match init {
        Some(ast::ForInit::VarDecl(v)) => match lower_var_decl_s(v, cx, st) {
            Lowered::Done(x, st1) => Lowered::Done(Some(Box::new(x)), st1),
            Lowered::Failed(er) => Lowered::Failed(er),
            Lowered::Stuck => Lowered::Stuck,
        },
        Some(ast::ForInit::Expr(x)) => match lower_expr_s(x, cx, st) {
            Lowered::Done(y, st1) => Lowered::Done(Some(Box::new(StmtV::Expr(y))), st1),
            Lowered::Failed(er) => Lowered::Failed(er),
            Lowered::Stuck => Lowered::Stuck,
        },
        None => Lowered::Done(None, st),
    }
}

pub open spec fn lower_stmt_s(s: ast::Stmt, cx: CtxV, st: CollV) -> Lowered<StmtV>
    decreases s, 2nat,
{
    match s {
        ast::Stmt::VarDecl(v) => lower_var_decl_s(v, cx, st),
        ast::Stmt::Return(r) => match lower_opt_s(r.value, cx, st) {
            Lowered::Done(v, st1) => Lowered::Done(StmtV::Return(v), st1),
            Lowered::Failed(er) => Lowered::Failed(er),
            Lowered::Stuck => Lowered::Stuck,
        },
        ast::Stmt::If(i) => lower_if_s(i, cx, st),
        ast::Stmt::While(w) => match lower_expr_s(w.condition, cx, st) {
            Lowered::Done(c, st1) => match lower_block_s(w.body.stmts@, cx, st1) {
                Lowered::Done(b, st2) => Lowered::Done(StmtV::While { condition: c, body: b }, st2),
                Lowered::Failed(er) => Lowered::Failed(er),
                Lowered::Stuck => Lowered::Stuck,
            },
            Lowered::Failed(er) => Lowered::Failed(er),
            Lowered::Stuck => Lowered::Stuck,
        },
        ast::Stmt::For(f) => {
            match lower_for_init_s(f.init, cx, st) {
                Lowered::Done(i0, st1) => match lower_opt_s(f.condition, cx, st1) {
                    Lowered::Done(c, st2) => match lower_opt_s(f.update, cx, st2) {
                        Lowered::Done(u, st3) => match lower_block_s(f.body.stmts@, cx, st3) {
                            Lowered::Done(b, st4) => Lowered::Done(StmtV::For { init: i0, condition: c, update: u, body: b }, st4),
                            Lowered::Failed(er) => Lowered::Failed(er),
                            Lowered::Stuck => Lowered::Stuck,
                        },
                        Lowered::Failed(er) => Lowered::Failed(er),
                        Lowered::Stuck => Lowered::Stuck,
                    },
                    Lowered::Failed(er) => Lowered::Failed(er),
                    Lowered::Stuck => Lowered::Stuck,
                },
                Lowered::Failed(er) => Lowered::Failed(er),
                Lowered::Stuck => Lowered::Stuck,
            }
        },
        ast::Stmt::Emit(e) => match lower_args_s(e.args@, cx, st) {
            Lowered::Done(xs, st1) => Lowered::Done(StmtV::Emit { event: e.event.name@, args: xs }, st1),
            Lowered::Failed(er) => Lowered::Failed(er),
            Lowered::Stuck => Lowered::Stuck,
        },
        ast::Stmt::Require(r) => match lower_expr_s(r.condition, cx, st) {
            Lowered::Done(c, st1) => Lowered::Done(StmtV::Require { condition: c, message: match r.message {
                Some(m) => Some(m@),
                None => None,
            } }, st1),
            Lowered::Failed(er) => Lowered::Failed(er),
            Lowered::Stuck => Lowered::Stuck,
        },
        ast::Stmt::Revert(r) => match r.kind {
            ast::RevertKind::Message(m) => Lowered::Done(StmtV::Require {
                condition: ExprV::Literal(LitV::Bool(false)),
                message: Some(match m {
                    Some(x) => x@,
                    None => "Reverted"@,
                }),
            }, st),
            ast::RevertKind::Error { name, args } => match lower_args_s(args@, cx, st) {
                Lowered::Done(xs, st1) => Lowered::Done(StmtV::RevertWithError { error_name: name.name@, args: xs }, st1),
                Lowered::Failed(er) => Lowered::Failed(er),
                Lowered::Stuck => Lowered::Stuck,
            },
        },
        ast::Stmt::Delete(d) => match lower_expr_s(d.target, cx, st) {
            Lowered::Done(t, st1) => match t {
                ExprV::MappingAccess { account_name, .. } => Lowered::Done(StmtV::Delete(t), CollV {
                    accesses: mark_close(st1.accesses, account_name),
                    ..st1
                }),
                _ => Lowered::Done(StmtV::Delete(t), st1),
            },
            Lowered::Failed(er) => Lowered::Failed(er),
            Lowered::Stuck => Lowered::Stuck,
        },
        ast::Stmt::Selfdestruct(d) => match lower_expr_s(d.recipient, cx, st) {
            Lowered::Done(r, st1) => Lowered::Done(StmtV::Selfdestruct { recipient: r }, st1),
            Lowered::Failed(er) => Lowered::Failed(er),
            Lowered::Stuck => Lowered::Stuck,
        },
        ast::Stmt::Expr(e) => match lower_expr_s(e.expr, cx, st) {
            Lowered::Done(x, st1) => Lowered::Done(StmtV::Expr(x), st1),
            Lowered::Failed(er) => Lowered::Failed(er),
            Lowered::Stuck => Lowered::Stuck,
        },
        ast::Stmt::Placeholder(_) => Lowered::Done(StmtV::Placeholder, st),
    }
}

/// `if`: the condition, the first block, then the `else` block or the `else if`
/// statement as a block of its own.
pub open spec fn lower_if_s(i: ast::IfStmt, cx: CtxV, st: CollV) -> Lowered<StmtV>
    decreases i, 1nat,
{
    match lower_expr_s(i.condition, cx, st) {
        Lowered::Done(c, st1) => match lower_block_s(i.then_block.stmts@, cx, st1) {
            Lowered::Done(t, st2) => match i.else_branch {
                Some(ast::ElseBranch::Else(b)) => match lower_block_s(b.stmts@, cx, st2) {
                    Lowered::Done(e, st3) => Lowered::Done(StmtV::If { condition: c, then_block: t, else_block: Some(e) }, st3),
                    Lowered::Failed(er) => Lowered::Failed(er),
                    Lowered::Stuck => Lowered::Stuck,
                },
                Some(ast::ElseBranch::ElseIf(x)) => match lower_if_s(*x, cx, st2) {
                    Lowered::Done(e, st3) => Lowered::Done(StmtV::If { condition: c, then_block: t, else_block: Some(seq![e]) }, st3),
                    Lowered::Failed(er) => Lowered::Failed(er),
                    Lowered::Stuck => Lowered::Stuck,
                },
                None => Lowered::Done(StmtV::If { condition: c, then_block: t, else_block: None }, st2),
            },
            Lowered::Failed(er) => Lowered::Failed(er),
            Lowered::Stuck => Lowered::Stuck,
        },
        Lowered::Failed(er) => Lowered::Failed(er),
        Lowered::Stuck => Lowered::Stuck,
    }
}

/// Lowering statements, first to last.
pub open spec fn lower_block_s(ss: Seq<ast::Stmt>, cx: CtxV, st: CollV) -> Lowered<Seq<StmtV>>
    decreases ss, 0nat,
{
    if ss.len() == 0 {
        Lowered::Done(seq![], st)
    } else {
        match lower_block_s(ss.drop_last(), cx, st) {
            Lowered::Done(xs, st1) => match lower_stmt_s(ss.last(), cx, st1) {
                Lowered::Done(x, st2) => Lowered::Done(xs.push(x), st2),
                Lowered::Failed(er) => Lowered::Failed(er),
                Lowered::Stuck => Lowered::Stuck,
            },
            Lowered::Failed(er) => Lowered::Failed(er),
            Lowered::Stuck => Lowered::Stuck,
        }
    }
}
} // verus!
