//! Lowering the statements of a function body.

use vstd::prelude::*;
use crate::ast;
use crate::codegen_error::err_v;
use crate::ir::{accesses_v, expr_v, exprs_v, opt_expr_v, stmt_v, stmts_v, ExprV, Expression, Literal, Statement};
use crate::ir::StmtV;
use crate::lower::{
    coll_v, ctx_v, expr_outcome, exprs_outcome, lower_args, lower_expr, lower_type, type_outcome,
    LoweringContext, MappingAccessCollector, Stop,
};
use crate::lower_spec::{
    lower_args_s, lower_block_s, lower_for_init_s, lower_expr_s, lower_if_s, lower_opt_s, lower_stmt_s, lower_type_s,
    lower_var_decl_s, mark_close, CollV, Lowered,
};
use crate::text::str_eq;

verus! {

/// The outcome of lowering an optional expression, as the spec gives it.
pub open spec fn opt_outcome(s: Lowered<Option<ExprV>>, r: Result<Option<Expression>, Stop>, c: CollV) -> bool {
    match s {
        Lowered::Done(x, st) => r matches Ok(y) && opt_expr_v(y) == x && c == st,
        Lowered::Failed(e) => r matches Err(Stop::Error(y)) && err_v(y) == e,
        Lowered::Stuck => r matches Err(Stop::Stuck),
    }
}

/// The outcome of lowering a statement, as the spec gives it.
pub open spec fn stmt_outcome(s: Lowered<StmtV>, r: Result<Statement, Stop>, c: CollV) -> bool {
    match s {
        Lowered::Done(x, st) => r matches Ok(y) && stmt_v(y) == x && c == st,
        Lowered::Failed(e) => r matches Err(Stop::Error(y)) && err_v(y) == e,
        Lowered::Stuck => r matches Err(Stop::Stuck),
    }
}

/// The outcome of lowering statements, as the spec gives it.
pub open spec fn stmts_outcome(s: Lowered<Seq<StmtV>>, r: Result<Vec<Statement>, Stop>, c: CollV) -> bool {
    match s {
        Lowered::Done(x, st) => r matches Ok(y) && stmts_v(y@) == x && c == st,
        Lowered::Failed(e) => r matches Err(Stop::Error(y)) && err_v(y) == e,
        Lowered::Stuck => r matches Err(Stop::Stuck),
    }
}

/// Pushing onto a list of statements adds the value of what is pushed.
pub proof fn lemma_stmts_v_push(s: Seq<Statement>, x: Statement)
    ensures
        stmts_v(s.push(x)) == stmts_v(s).push(stmt_v(x)),
{
    assert(s.push(x).drop_last() =~= s);
}

/// Lower an optional expression.
pub fn lower_opt(e: &Option<ast::Expr>, ctx: &LoweringContext, c: &mut MappingAccessCollector) -> (r: Result<Option<Expression>, Stop>)
    ensures
        opt_outcome(lower_opt_s(*e, ctx_v(*ctx), coll_v(*old(c))), r, coll_v(*final(c))),
{
    match e {
        Some(x) => match lower_expr(x, ctx, c) {
            Ok(y) => Ok(Some(y)),
            Err(s) => Err(s),
        },
        None => Ok(None),
    }
}

/// Lower a declaration: its type first, then its initial value.
pub fn lower_var_decl(v: &ast::VarDeclStmt, ctx: &LoweringContext, c: &mut MappingAccessCollector) -> (r: Result<Statement, Stop>)
    ensures
        stmt_outcome(lower_var_decl_s(*v, ctx_v(*ctx), coll_v(*old(c))), r, coll_v(*final(c))),
{
    let ty = match lower_type(&v.ty) {
        Ok(t) => t,
        Err(s) => {
            return Err(s);
        },
    };
    let value = match lower_opt(&v.initializer, ctx, c) {
        Ok(x) => x,
        Err(s) => {
            return Err(s);
        },
    };
    Ok(Statement::VarDecl { name: v.name.name.clone(), ty, value })
}

/// Lower a statement.
pub fn lower_stmt(s: &ast::Stmt, ctx: &LoweringContext, c: &mut MappingAccessCollector) -> (r: Result<Statement, Stop>)
    ensures
        stmt_outcome(lower_stmt_s(*s, ctx_v(*ctx), coll_v(*old(c))), r, coll_v(*final(c))),
    decreases s, 2nat,
{
    match s {
        ast::Stmt::VarDecl(v) => lower_var_decl(v, ctx, c),
        ast::Stmt::Return(ret) => match lower_opt(&ret.value, ctx, c) {
            Ok(v) => Ok(Statement::Return(v)),
            Err(e) => Err(e),
        },
        ast::Stmt::If(i) => lower_if(i, ctx, c),
        ast::Stmt::While(w) => {
            let cond = match lower_expr(&w.condition, ctx, c) {
                Ok(x) => x,
                Err(e) => {
                    return Err(e);
                },
            };
            proof {
                assert(w.body.stmts@.take(w.body.stmts@.len() as int) =~= w.body.stmts@);
            }
            let body = match lower_block(&w.body.stmts, w.body.stmts.len(), ctx, c) {
                Ok(x) => x,
                Err(e) => {
                    return Err(e);
                },
            };
            Ok(Statement::While { condition: cond, body })
        },
        ast::Stmt::For(_) => lower_for(s, ctx, c),
        ast::Stmt::Emit(em) => {
            proof {
                assert(em.args@.take(em.args@.len() as int) =~= em.args@);
            }
            match lower_args(&em.args, em.args.len(), ctx, c) {
                Ok(xs) => Ok(Statement::Emit { event: em.event.name.clone(), args: xs }),
                Err(e) => Err(e),
            }
        },
        ast::Stmt::Require(req) => match lower_expr(&req.condition, ctx, c) {
            Ok(x) => Ok(Statement::Require {
                condition: x,
                message: match &req.message {
                    Some(m) => Some(m.clone()),
                    None => None,
                },
            }),
            Err(e) => Err(e),
        },
        ast::Stmt::Revert(rv) => match &rv.kind {
            ast::RevertKind::Message(m) => {
                let message = match m {
                    Some(x) => x.clone(),
                    None => "Reverted".to_owned(),
                };
                Ok(Statement::Require { condition: Expression::Literal(Literal::Bool(false)), message: Some(message) })
            },
            ast::RevertKind::Error { name, args } => {
                proof {
                    assert(args@.take(args@.len() as int) =~= args@);
                }
                match lower_args(args, args.len(), ctx, c) {
                    Ok(xs) => Ok(Statement::RevertWithError { error_name: name.name.clone(), args: xs }),
                    Err(e) => Err(e),
                }
            },
        },
        ast::Stmt::Delete(d) => {
            let target = match lower_expr(&d.target, ctx, c) {
                Ok(x) => x,
                Err(e) => {
                    return Err(e);
                },
            };
            if let Expression::MappingAccess { account_name, .. } = &target {
                mark_close_in(c, account_name);
            }
            Ok(Statement::Delete(target))
        },
        ast::Stmt::Selfdestruct(d) => match lower_expr(&d.recipient, ctx, c) {
            Ok(x) => Ok(Statement::Selfdestruct { recipient: x }),
            Err(e) => Err(e),
        },
        ast::Stmt::Expr(x) => match lower_expr(&x.expr, ctx, c) {
            Ok(y) => Ok(Statement::Expr(y)),
            Err(e) => Err(e),
        },
        ast::Stmt::Placeholder(_) => Ok(Statement::Placeholder),
    }
}

/// Lower the start of a `for` statement.
fn lower_for_init(init: &Option<ast::ForInit>, ctx: &LoweringContext, c: &mut MappingAccessCollector) -> (r: Result<Option<Box<Statement>>, Stop>)
    ensures
        match lower_for_init_s(*init, ctx_v(*ctx), coll_v(*old(c))) {
            Lowered::Done(x, st) => r matches Ok(y) && coll_v(*final(c)) == st && match y {
                Some(b) => x == Some(Box::new(stmt_v(*b))),
                None => x is None,
            },
            Lowered::Failed(e) => r matches Err(Stop::Error(y)) && err_v(y) == e,
            Lowered::Stuck => r matches Err(Stop::Stuck),
        },
{
    match init {
        Some(ast::ForInit::VarDecl(v)) => match lower_var_decl(v, ctx, c) {
            Ok(x) => Ok(Some(Box::new(x))),
            Err(e) => Err(e),
        },
        Some(ast::ForInit::Expr(x)) => match lower_expr(x, ctx, c) {
            Ok(y) => Ok(Some(Box::new(Statement::Expr(y)))),
            Err(e) => Err(e),
        },
        None => Ok(None),
    }
}

/// Lower a `for` statement: its start, its condition, its step, then its body.
fn lower_for(s: &ast::Stmt, ctx: &LoweringContext, c: &mut MappingAccessCollector) -> (r: Result<Statement, Stop>)
    requires
        s is For,
    ensures
        stmt_outcome(lower_stmt_s(*s, ctx_v(*ctx), coll_v(*old(c))), r, coll_v(*final(c))),
    decreases s, 1nat,
{
    match s {
        ast::Stmt::For(f) => {
            let init = match lower_for_init(&f.init, ctx, c) {
                Ok(x) => x,
                Err(e) => {
                    return Err(e);
                },
            };
            let cond = match lower_opt(&f.condition, ctx, c) {
                Ok(x) => x,
                Err(e) => {
                    return Err(e);
                },
            };
            let update = match lower_opt(&f.update, ctx, c) {
                Ok(x) => x,
                Err(e) => {
                    return Err(e);
                },
            };
            proof {
                assert(f.body.stmts@.take(f.body.stmts@.len() as int) =~= f.body.stmts@);
            }
            let body = match lower_block(&f.body.stmts, f.body.stmts.len(), ctx, c) {
                Ok(x) => x,
                Err(e) => {
                    return Err(e);
                },
            };
            Ok(Statement::For { init, condition: cond, update, body })
        },
        _ => Err(Stop::Stuck),
    }
}

/// Lower an `if` statement; an `else if` becomes an `else` block of one statement.
pub fn lower_if(i: &ast::IfStmt, ctx: &LoweringContext, c: &mut MappingAccessCollector) -> (r: Result<Statement, Stop>)
    ensures
        stmt_outcome(lower_if_s(*i, ctx_v(*ctx), coll_v(*old(c))), r, coll_v(*final(c))),
    decreases i, 1nat,
{
    let cond = match lower_expr(&i.condition, ctx, c) {
        Ok(x) => x,
        Err(e) => {
            return Err(e);
        },
    };
    proof {
        assert(i.then_block.stmts@.take(i.then_block.stmts@.len() as int) =~= i.then_block.stmts@);
    }
    let then_block = match lower_block(&i.then_block.stmts, i.then_block.stmts.len(), ctx, c) {
        Ok(x) => x,
        Err(e) => {
            return Err(e);
        },
    };
    let else_block = match &i.else_branch {
        Some(ast::ElseBranch::Else(b)) => {
            proof {
                assert(b.stmts@.take(b.stmts@.len() as int) =~= b.stmts@);
            }
            match lower_block(&b.stmts, b.stmts.len(), ctx, c) {
                Ok(x) => Some(x),
                Err(e) => {
                    return Err(e);
                },
            }
        },
        Some(ast::ElseBranch::ElseIf(x)) => match lower_if(x, ctx, c) {
            Ok(y) => {
                let v = vec![y];
                proof {
                    lemma_stmts_v_push(Seq::<Statement>::empty(), v@[0]);
                    assert(v@ =~= Seq::<Statement>::empty().push(v@[0]));
                }
                Some(v)
            },
            Err(e) => {
                return Err(e);
            },
        },
        None => None,
    };
    Ok(Statement::If { condition: cond, then_block, else_block })
}

/// Lower the first `n` statements, first to last.
pub fn lower_block(ss: &Vec<ast::Stmt>, n: usize, ctx: &LoweringContext, c: &mut MappingAccessCollector) -> (r: Result<Vec<Statement>, Stop>)
    requires
        n <= ss@.len(),
    ensures
        stmts_outcome(lower_block_s(ss@.take(n as int), ctx_v(*ctx), coll_v(*old(c))), r, coll_v(*final(c))),
    decreases ss@, n,
{
    if n == 0 {
        let none: Vec<Statement> = Vec::new();
        proof {
            assert(stmts_v(none@) =~= Seq::<StmtV>::empty());
        }
        return Ok(none);
    }
    proof {
        assert(ss@.take(n as int).drop_last() =~= ss@.take(n - 1));
        assert(ss@.take(n as int).last() == ss@[n - 1]);
    }
    let mut xs = match lower_block(ss, n - 1, ctx, c) {
        Ok(x) => x,
        Err(e) => {
            return Err(e);
        },
    };
    let x = match lower_stmt(&ss[n - 1], ctx, c) {
        Ok(x) => x,
        Err(e) => {
            return Err(e);
        },
    };
    proof {
        lemma_stmts_v_push(xs@, x);
    }
    xs.push(x);
    Ok(xs)
}

/// Mark the first access through account `name` to be closed.
pub fn mark_close_in(c: &mut MappingAccessCollector, name: &String)
    ensures
        coll_v(*final(c)) == (CollV { accesses: mark_close(coll_v(*old(c)).accesses, name@), ..coll_v(*old(c)) }),
{
    let ghost a0 = c.accesses@;
    let n = c.accesses.len();
    let mut i: usize = 0;
    while i < n && !str_eq(c.accesses[i].account_name.as_str(), name.as_str())
        invariant
            n == a0.len(),
            c.accesses@ == a0,
            i <= n,
            forall|k: int| 0 <= k < i ==> #[trigger] a0[k].account_name@ != name@,
        decreases n - i,
    {
        i = i + 1;
    }
    if i < n {
        proof {
            lemma_mark_close_at(a0, i as int, name@);
            lemma_accesses_v_index(a0, i as int);
        }
        c.accesses[i].should_close = true;
        proof {
            lemma_accesses_v_update(a0, i as int, c.accesses@[i as int]);
            assert(c.accesses@ =~= a0.update(i as int, c.accesses@[i as int]));
        }
    } else {
        proof {
            lemma_mark_close_none(a0, name@);
        }
    }
}

/// The value of a list of accesses with one replaced is the value with its value replaced.
proof fn lemma_accesses_v_update(s: Seq<crate::ir::MappingAccess>, i: int, x: crate::ir::MappingAccess)
    requires
        0 <= i < s.len(),
    ensures
        accesses_v(s.update(i, x)) == accesses_v(s).update(i, crate::ir::access_v(x)),
    decreases s.len(),
{
    crate::ir::lemma_accesses_v_len(s);
    crate::ir::lemma_accesses_v_len(s.update(i, x));
    if i == s.len() - 1 {
        assert(s.update(i, x).drop_last() =~= s.drop_last());
    } else {
        lemma_accesses_v_update(s.drop_last(), i, x);
        assert(s.update(i, x).drop_last() =~= s.drop_last().update(i, x));
    }
    assert(accesses_v(s.update(i, x)) =~= accesses_v(s).update(i, crate::ir::access_v(x)));
}

/// Element `k` of the values of a list of accesses is the value of element `k`.
pub proof fn lemma_accesses_v_index(s: Seq<crate::ir::MappingAccess>, k: int)
    requires
        0 <= k < s.len(),
    ensures
        accesses_v(s)[k] == crate::ir::access_v(s[k]),
    decreases s.len(),
{
    crate::ir::lemma_accesses_v_len(s.drop_last());
    if k < s.len() - 1 {
        lemma_accesses_v_index(s.drop_last(), k);
    }
}

/// Where the first access through `name` is at `i`, marking it closes that one.
proof fn lemma_mark_close_at(s: Seq<crate::ir::MappingAccess>, i: int, name: Seq<char>)
    requires
        0 <= i < s.len(),
        s[i].account_name@ == name,
        forall|k: int| 0 <= k < i ==> #[trigger] s[k].account_name@ != name,
    ensures
        mark_close(accesses_v(s), name) == accesses_v(s).update(
            i,
            crate::ir::AccessV { should_close: true, ..accesses_v(s)[i] },
        ),
{
    crate::ir::lemma_accesses_v_len(s);
    assert forall|k: int| 0 <= k <= i implies #[trigger] accesses_v(s)[k] == crate::ir::access_v(s[k]) by {
        lemma_accesses_v_index(s, k);
    }
    lemma_mark_close_seq(accesses_v(s), i, name);
}

/// On values: where the first access through `name` is at `i`, marking closes that one.
proof fn lemma_mark_close_seq(a: Seq<crate::ir::AccessV>, i: int, name: Seq<char>)
    requires
        0 <= i < a.len(),
        a[i].account_name == name,
        forall|k: int| 0 <= k < i ==> #[trigger] a[k].account_name != name,
    ensures
        mark_close(a, name) == a.update(i, crate::ir::AccessV { should_close: true, ..a[i] }),
    decreases a.len(),
{
    if i > 0 {
        assert(a[0].account_name != name);
        assert forall|k: int| 0 <= k < i - 1 implies #[trigger] a.drop_first()[k].account_name != name by {
            assert(a.drop_first()[k] == a[k + 1]);
        }
        lemma_mark_close_seq(a.drop_first(), i - 1, name);
        assert(mark_close(a, name) =~= a.update(i, crate::ir::AccessV { should_close: true, ..a[i] }));
    }
}

/// Where no access goes through `name`, marking changes nothing.
proof fn lemma_mark_close_none(s: Seq<crate::ir::MappingAccess>, name: Seq<char>)
    requires
        forall|k: int| 0 <= k < s.len() ==> #[trigger] s[k].account_name@ != name,
    ensures
        mark_close(accesses_v(s), name) == accesses_v(s),
{
    crate::ir::lemma_accesses_v_len(s);
    assert forall|k: int| 0 <= k < s.len() implies #[trigger] accesses_v(s)[k].account_name != name by {
        lemma_accesses_v_index(s, k);
    }
    lemma_mark_close_seq_none(accesses_v(s), name);
}

proof fn lemma_mark_close_seq_none(a: Seq<crate::ir::AccessV>, name: Seq<char>)
    requires
        forall|k: int| 0 <= k < a.len() ==> #[trigger] a[k].account_name != name,
    ensures
        mark_close(a, name) == a,
    decreases a.len(),
{
    if a.len() > 0 {
        assert forall|k: int| 0 <= k < a.len() - 1 implies #[trigger] a.drop_first()[k].account_name != name by {
            assert(a.drop_first()[k] == a[k + 1]);
        }
        lemma_mark_close_seq_none(a.drop_first(), name);
        assert(mark_close(a, name) =~= a);
    }
}

} // verus!
