//! What holds of lowering as a whole: one program for each contract that can be
//! deployed, the constructor as the first instruction, one instruction for each function
//! name.

use vstd::prelude::*;
use crate::ast;
use crate::program_spec::{
    declares_fn, first_ctor, functions_s, instructions_s, is_fn_named, lower_contract_s, lower_function_s,
    lower_to_ir_s, decls_s, contracts_of, programs_s, DeclsV, InstrV, ProgramV,
};
use crate::lower_spec::{
    access_account_name, lower_args_s, lower_block_s, lower_call_s, lower_chain_s, lower_expr_s, lower_exprs_s,
    lower_for_init_s, lower_if_s, lower_opt_s, lower_stmt_s, mark_close, CollV, CtxV, Lowered,
};
use crate::ir::{AccessV, ExprV};

verus! {

/// The names of the contracts among the items that are not abstract, in order.
pub open spec fn deployable_names(items: Seq<ast::Item>) -> Seq<Seq<char>>
    decreases items.len(),
{
    if items.len() == 0 {
        seq![]
    } else {
        match items.last() {
            ast::Item::Contract(c) => if c.is_abstract {
                deployable_names(items.drop_last())
            } else {
                deployable_names(items.drop_last()).push(c.name.name@)
            },
            _ => deployable_names(items.drop_last()),
        }
    }
}

/// The program of a contract is named after the contract.
pub proof fn lemma_contract_name(c: ast::ContractDef, cs: Seq<ast::ContractDef>, d: DeclsV)
    ensures
        lower_contract_s(c, cs, d) matches Some(Ok(p)) ==> p.name == c.name.name@,
{
}

/// The programs of the items are named, in order, after their contracts that are not
/// abstract.
pub proof fn lemma_programs_named(items: Seq<ast::Item>, cs: Seq<ast::ContractDef>, d: DeclsV)
    ensures
        programs_s(items, cs, d) matches Some(Ok(ps)) ==> ps.map_values(|p: ProgramV| p.name) == deployable_names(items),
    decreases items.len(),
{
    if items.len() > 0 {
        lemma_programs_named(items.drop_last(), cs, d);
        if let Some(Ok(ps)) = programs_s(items, cs, d) {
            if let Some(Ok(prev)) = programs_s(items.drop_last(), cs, d) {
                match items.last() {
                    ast::Item::Contract(c) => {
                        if !c.is_abstract {
                            lemma_contract_name(c, cs, d);
                            assert(ps.map_values(|p: ProgramV| p.name) =~= prev.map_values(|p: ProgramV| p.name).push(
                                c.name.name@,
                            ));
                        }
                    },
                    _ => {},
                }
            }
        }
    }
}

/// Lowering a program that succeeds gives one program for each contract that is not
/// abstract, in the order the contracts are written, each named after its contract.
pub proof fn law_one_program_per_contract(p: ast::Program)
    ensures
        lower_to_ir_s(p) matches Some(Ok(ps)) ==> ps.map_values(|x: ProgramV| x.name) == deployable_names(p.items@),
{
    if let Some(Ok(d)) = decls_s(p.items@) {
        lemma_programs_named(p.items@, contracts_of(p.items@), d);
    }
}

/// Where a contract has a constructor and lowering it succeeds, its first instruction
/// is `initialize`: public, not a view, with no return value.
pub proof fn law_constructor_first(c: ast::ContractDef, cs: Seq<ast::ContractDef>, d: DeclsV)
    ensures
        first_ctor(c.members@) is Some ==> (lower_contract_s(c, cs, d) matches Some(Ok(p)) ==> p.instructions.len() > 0
            && p.instructions[0].name == "initialize"@ && p.instructions[0].is_public && !p.instructions[0].is_view
            && p.instructions[0].returns_ty is None),
{
}

/// Each instruction of the function pass is named after a function with a body among
/// the members.
pub proof fn lemma_functions_declared(rs: Seq<ast::ContractMember>, cx: CtxV)
    ensures
        functions_s(rs, cx) matches Some(Ok(ins)) ==> forall|k: int| 0 <= k < ins.len() ==> declares_fn(rs, #[trigger] ins[k].name),
    decreases rs.len(),
{
    if rs.len() > 0 {
        lemma_functions_declared(rs.drop_last(), cx);
        if let Some(Ok(ins)) = functions_s(rs, cx) {
            if let Some(Ok(prev)) = functions_s(rs.drop_last(), cx) {
                assert forall|k: int| 0 <= k < ins.len() implies declares_fn(rs, #[trigger] ins[k].name) by {
                    if k < prev.len() {
                        assert(ins[k] == prev[k]);
                        let j = choose|j: int| 0 <= j < rs.drop_last().len() && is_fn_named(#[trigger] rs.drop_last()[j], prev[k].name);
                        assert(rs[j] == rs.drop_last()[j]);
                    } else {
                        assert(is_fn_named(rs[rs.len() - 1], ins[k].name));
                    }
                }
            }
        }
    }
}

/// Of the functions with a body, one instruction stands for each name: where a derived
/// contract and its base both define a function, the pass, which takes the derived
/// members first, keeps one.
pub proof fn law_function_names_distinct(rs: Seq<ast::ContractMember>, cx: CtxV)
    ensures
        functions_s(rs, cx) matches Some(Ok(ins)) ==> forall|i: int, j: int| 0 <= i < j < ins.len() ==> ins[i].name != ins[j].name,
    decreases rs.len(),
{
    if rs.len() > 0 {
        law_function_names_distinct(rs.drop_last(), cx);
        lemma_functions_declared(rs.drop_last(), cx);
        if let Some(Ok(ins)) = functions_s(rs, cx) {
            if let Some(Ok(prev)) = functions_s(rs.drop_last(), cx) {
                if ins.len() > prev.len() {
                    assert(ins.drop_last() =~= prev);
                    assert forall|i: int, j: int| 0 <= i < j < ins.len() implies ins[i].name != ins[j].name by {
                        if j == ins.len() - 1 {
                            assert(declares_fn(rs.drop_last(), prev[i].name));
                            assert(!declares_fn(rs.drop_last(), ins[j].name));
                        } else {
                            assert(ins[i] == prev[i] && ins[j] == prev[j]);
                        }
                    }
                } else {
                    assert(ins =~= prev);
                }
            }
        }
    }
}

/// Whether each recorded access is read through the account named after its mapping and
/// its place: access `k` to mapping `m` through `snake(m)_entry_k`.
pub open spec fn numbered(st: CollV) -> bool {
    forall|k: int| 0 <= k < st.accesses.len() ==> #[trigger] st.accesses[k].account_name == access_account_name(
        st.accesses[k].mapping_name,
        k as nat,
    )
}

/// Whether lowering kept the accesses numbered.
pub open spec fn keeps<T>(r: Lowered<T>) -> bool {
    match r {
        Lowered::Done(_, st) => numbered(st),
        _ => true,
    }
}

/// Marking an access to be closed keeps each access's mapping and account.
pub proof fn lemma_mark_close_names(accs: Seq<AccessV>, name: Seq<char>)
    ensures
        mark_close(accs, name).len() == accs.len(),
        forall|k: int| 0 <= k < accs.len() ==> (#[trigger] mark_close(accs, name)[k]).account_name == accs[k].account_name
            && mark_close(accs, name)[k].mapping_name == accs[k].mapping_name,
    decreases accs.len(),
{
    if accs.len() > 0 && accs[0].account_name != name {
        lemma_mark_close_names(accs.drop_first(), name);
        assert forall|k: int| 0 <= k < accs.len() implies (#[trigger] mark_close(accs, name)[k]).account_name
            == accs[k].account_name && mark_close(accs, name)[k].mapping_name == accs[k].mapping_name by {
            if k > 0 {
                assert(mark_close(accs, name)[k] == mark_close(accs.drop_first(), name)[k - 1]);
            }
        }
    }
}

pub proof fn lemma_expr_numbered(e: ast::Expr, cx: CtxV, st: CollV)
    requires
        numbered(st),
    ensures
        keeps(lower_expr_s(e, cx, st)),
    decreases e, 2nat,
{
    match e {
        ast::Expr::Binary(b) => {
            lemma_expr_numbered(b.left, cx, st);
            if let Lowered::Done(_, st1) = lower_expr_s(b.left, cx, st) {
                lemma_expr_numbered(b.right, cx, st1);
            }
        },
        ast::Expr::Unary(u) => {
            lemma_expr_numbered(u.expr, cx, st);
        },
        ast::Expr::Call(c) => {
            if let ast::Expr::Ident(id) = c.callee {
                lemma_call_numbered(id.name@, c.args@, cx, st);
            }
        },
        ast::Expr::MethodCall(m) => {
            lemma_expr_numbered(m.receiver, cx, st);
            if let Lowered::Done(_, st1) = lower_expr_s(m.receiver, cx, st) {
                lemma_args_numbered(m.args@, cx, st1);
            }
        },
        ast::Expr::FieldAccess(f) => {
            lemma_expr_numbered(f.expr, cx, st);
        },
        ast::Expr::Index(i) => {
            lemma_chain_numbered(e, cx, st);
            lemma_expr_numbered(i.expr, cx, st);
            if let Lowered::Done(_, st1) = lower_expr_s(i.expr, cx, st) {
                lemma_expr_numbered(i.index, cx, st1);
            }
        },
        ast::Expr::Ternary(t) => {
            lemma_expr_numbered(t.condition, cx, st);
            if let Lowered::Done(_, st1) = lower_expr_s(t.condition, cx, st) {
                lemma_expr_numbered(t.then_expr, cx, st1);
                if let Lowered::Done(_, st2) = lower_expr_s(t.then_expr, cx, st1) {
                    lemma_expr_numbered(t.else_expr, cx, st2);
                }
            }
        },
        ast::Expr::Assign(a) => {
            lemma_expr_numbered(a.target, cx, st);
            if let Lowered::Done(_, st1) = lower_expr_s(a.target, cx, st) {
                lemma_expr_numbered(a.value, cx, st1);
            }
        },
        ast::Expr::Array(a) => {
            lemma_exprs_numbered(a.elements@, cx, st);
        },
        ast::Expr::Paren(x) => {
            lemma_expr_numbered(*x, cx, st);
        },
        _ => {},
    }
}

pub proof fn lemma_chain_numbered(e: ast::Expr, cx: CtxV, st: CollV)
    requires
        numbered(st),
    ensures
        keeps(lower_chain_s(e, cx, st)),
    decreases e, 1nat,
{
    if let ast::Expr::Index(i) = e {
        if let ast::Expr::Index(_) = i.expr {
            lemma_chain_numbered(i.expr, cx, st);
            if let Lowered::Done(_, st1) = lower_chain_s(i.expr, cx, st) {
                lemma_expr_numbered(i.index, cx, st1);
            }
        } else {
            lemma_expr_numbered(i.index, cx, st);
        }
    }
}

pub proof fn lemma_args_numbered(args: Seq<ast::Arg>, cx: CtxV, st: CollV)
    requires
        numbered(st),
    ensures
        keeps(lower_args_s(args, cx, st)),
    decreases args, 0nat,
{
    if args.len() > 0 {
        lemma_args_numbered(args.drop_last(), cx, st);
        if let Lowered::Done(_, st1) = lower_args_s(args.drop_last(), cx, st) {
            lemma_expr_numbered(args.last().value, cx, st1);
        }
    }
}

pub proof fn lemma_exprs_numbered(es: Seq<ast::Expr>, cx: CtxV, st: CollV)
    requires
        numbered(st),
    ensures
        keeps(lower_exprs_s(es, cx, st)),
    decreases es, 0nat,
{
    if es.len() > 0 {
        lemma_exprs_numbered(es.drop_last(), cx, st);
        if let Lowered::Done(_, st1) = lower_exprs_s(es.drop_last(), cx, st) {
            lemma_expr_numbered(es.last(), cx, st1);
        }
    }
}

pub proof fn lemma_call_numbered(name: Seq<char>, args: Seq<ast::Arg>, cx: CtxV, st: CollV)
    requires
        numbered(st),
    ensures
        keeps(lower_call_s(name, args, cx, st)),
    decreases args, 1nat,
{
    let st0 = CollV { uses_sol_transfer: true, ..st };
    if args.len() >= 1 {
        lemma_expr_numbered(args[0].value, cx, st);
        lemma_expr_numbered(args[0].value, cx, st0);
        if let Lowered::Done(_, st1) = lower_expr_s(args[0].value, cx, st) {
            if args.len() >= 2 {
                lemma_expr_numbered(args[1].value, cx, st1);
            }
        }
        if let Lowered::Done(_, st1) = lower_expr_s(args[0].value, cx, st0) {
            if args.len() >= 2 {
                lemma_expr_numbered(args[1].value, cx, st1);
            }
        }
    }
    lemma_args_numbered(args, cx, st);
}

pub proof fn lemma_opt_numbered(e: Option<ast::Expr>, cx: CtxV, st: CollV)
    requires
        numbered(st),
    ensures
        keeps(lower_opt_s(e, cx, st)),
{
    if let Some(x) = e {
        lemma_expr_numbered(x, cx, st);
    }
}

pub proof fn lemma_stmt_numbered(s: ast::Stmt, cx: CtxV, st: CollV)
    requires
        numbered(st),
    ensures
        keeps(lower_stmt_s(s, cx, st)),
    decreases s, 2nat,
{
    match s {
        ast::Stmt::VarDecl(v) => {
            lemma_opt_numbered(v.initializer, cx, st);
        },
        ast::Stmt::Return(r) => {
            lemma_opt_numbered(r.value, cx, st);
        },
        ast::Stmt::If(i) => {
            lemma_if_numbered(i, cx, st);
        },
        ast::Stmt::While(w) => {
            lemma_expr_numbered(w.condition, cx, st);
            if let Lowered::Done(_, st1) = lower_expr_s(w.condition, cx, st) {
                lemma_block_numbered(w.body.stmts@, cx, st1);
            }
        },
        ast::Stmt::For(f) => {
            match f.init {
                Some(ast::ForInit::VarDecl(v)) => {
                    lemma_opt_numbered(v.initializer, cx, st);
                },
                Some(ast::ForInit::Expr(x)) => {
                    lemma_expr_numbered(x, cx, st);
                },
                None => {},
            }
            if let Lowered::Done(_, st1) = lower_for_init_s(f.init, cx, st) {
                lemma_opt_numbered(f.condition, cx, st1);
                if let Lowered::Done(_, st2) = lower_opt_s(f.condition, cx, st1) {
                    lemma_opt_numbered(f.update, cx, st2);
                    if let Lowered::Done(_, st3) = lower_opt_s(f.update, cx, st2) {
                        lemma_block_numbered(f.body.stmts@, cx, st3);
                    }
                }
            }
        },
        ast::Stmt::Emit(em) => {
            lemma_args_numbered(em.args@, cx, st);
        },
        ast::Stmt::Require(r) => {
            lemma_expr_numbered(r.condition, cx, st);
        },
        ast::Stmt::Revert(r) => {
            if let ast::RevertKind::Error { name, args } = r.kind {
                lemma_args_numbered(args@, cx, st);
            }
        },
        ast::Stmt::Delete(d) => {
            lemma_expr_numbered(d.target, cx, st);
            if let Lowered::Done(t, st1) = lower_expr_s(d.target, cx, st) {
                if let ExprV::MappingAccess { account_name, .. } = t {
                    lemma_mark_close_names(st1.accesses, account_name);
                    let st2 = CollV { accesses: mark_close(st1.accesses, account_name), ..st1 };
                    assert forall|k: int| 0 <= k < st2.accesses.len() implies #[trigger] st2.accesses[k].account_name
                        == access_account_name(st2.accesses[k].mapping_name, k as nat) by {
                        assert(st1.accesses[k].account_name == access_account_name(st1.accesses[k].mapping_name, k as nat));
                    }
                }
            }
        },
        ast::Stmt::Selfdestruct(d) => {
            lemma_expr_numbered(d.recipient, cx, st);
        },
        ast::Stmt::Expr(x) => {
            lemma_expr_numbered(x.expr, cx, st);
        },
        _ => {},
    }
}

pub proof fn lemma_if_numbered(i: ast::IfStmt, cx: CtxV, st: CollV)
    requires
        numbered(st),
    ensures
        keeps(lower_if_s(i, cx, st)),
    decreases i, 1nat,
{
    lemma_expr_numbered(i.condition, cx, st);
    if let Lowered::Done(_, st1) = lower_expr_s(i.condition, cx, st) {
        lemma_block_numbered(i.then_block.stmts@, cx, st1);
        if let Lowered::Done(_, st2) = lower_block_s(i.then_block.stmts@, cx, st1) {
            match i.else_branch {
                Some(ast::ElseBranch::Else(b)) => {
                    lemma_block_numbered(b.stmts@, cx, st2);
                },
                Some(ast::ElseBranch::ElseIf(x)) => {
                    lemma_if_numbered(*x, cx, st2);
                },
                None => {},
            }
        }
    }
}

pub proof fn lemma_block_numbered(ss: Seq<ast::Stmt>, cx: CtxV, st: CollV)
    requires
        numbered(st),
    ensures
        keeps(lower_block_s(ss, cx, st)),
    decreases ss, 0nat,
{
    if ss.len() > 0 {
        lemma_block_numbered(ss.drop_last(), cx, st);
        if let Lowered::Done(_, st1) = lower_block_s(ss.drop_last(), cx, st) {
            lemma_stmt_numbered(ss.last(), cx, st1);
        }
    }
}

/// Each mapping access a function body records is read through its own account, named
/// after the mapping and the access's place among those recorded: access `k` to
/// mapping `m` goes through `snake(m)_entry_k`. Lowering keeps this of what it was
/// given.
pub proof fn law_accesses_numbered(ss: Seq<ast::Stmt>, cx: CtxV, st: CollV)
    requires
        numbered(st),
    ensures
        lower_block_s(ss, cx, st) matches Lowered::Done(_, st2) ==> numbered(st2),
{
    lemma_block_numbered(ss, cx, st);
}

} // verus!
