//! Lowering the declarations of a program: events, errors, structs, enums, functions,
//! constructors, modifiers and tests.

use vstd::prelude::*;
use crate::ast;
use crate::codegen_error::err_v;
use crate::ir::{
    accesses_v, stmt_v, event_v, error_v, exprs_v, params_v, stmts_v, struct_v, enum_v, type_v, Event, EventField,
    ErrorField, EnumDef, Instruction, InstructionParam, ModifierCall, ModifierDefinition, ProgramError,
    SolanaType, Statement, StructDef, StructField, TestFunction, TypeV,
};
use crate::lower::{coll_v, ctx_v, exprs_outcome, lower_args, lower_type, LoweringContext, MappingAccessCollector, Stop};
use crate::lower_spec::{lower_args_s, lower_block_s, lower_type_s, CollV, Lowered};
use crate::lower_stmt::{lower_block, stmts_outcome};
use crate::program_spec::{
    has_test_attr, lower_constructor_s, lower_modifier_s, lower_test_s, names_payable, should_fail_s,
    fresh, lower_function_s, lower_mod_calls_s, lower_returns_s, stmt_has_selfdestruct, stmts_have_selfdestruct,
    lower_enum_s, lower_error_s, lower_event_s, lower_params_s, lower_struct_s, lower_types_s, named, InstrV,
    ModDefV, Outcome, TestV,
};
use crate::text::str_eq;
use crate::types::TypeExpr;

verus! {

/// An instruction as a value.
pub open spec fn instr_v(i: Instruction) -> InstrV {
    InstrV {
        name: i.name@,
        params: params_v(i.params@),
        returns_ty: match i.returns {
            Some(t) => Some(type_v(t)),
            None => None,
        },
        body: stmts_v(i.body@),
        is_public: i.is_public,
        is_view: i.is_view,
        is_payable: i.is_payable,
        uses_token_program: i.uses_token_program,
        uses_sol_transfer: i.uses_sol_transfer,
        modifiers: i.modifiers@.map_values(|m: ModifierCall| (m.name@, exprs_v(m.args@))),
        mapping_accesses: accesses_v(i.mapping_accesses@),
        closes_state: i.closes_state,
    }
}

/// A modifier definition as a value.
pub open spec fn moddef_v(m: ModifierDefinition) -> ModDefV {
    ModDefV { name: m.name@, params: params_v(m.params@), body: stmts_v(m.body@) }
}

/// A test function as a value.
pub open spec fn test_v(t: TestFunction) -> TestV {
    TestV {
        name: t.name@,
        body: stmts_v(t.body@),
        should_fail: match t.should_fail {
            Some(m) => Some(m@),
            None => None,
        },
    }
}

/// The outcome of lowering a declaration, as `Outcome` gives it, for a value that is the
/// view `v` of what came back.
pub open spec fn item_outcome<T, U>(s: Outcome<T>, r: Result<U, Stop>, v: spec_fn(U) -> T) -> bool {
    match s {
        Some(Ok(x)) => r matches Ok(y) && v(y) == x,
        Some(Err(e)) => r matches Err(Stop::Error(y)) && err_v(y) == e,
        None => r matches Err(Stop::Stuck),
    }
}

/// Lowering the first `n` parameters: each keeps its name and gets its lowered type.
fn lower_param_list(ps: &Vec<ast::Param>, n: usize) -> (r: Result<Vec<InstructionParam>, Stop>)
    requires
        n <= ps@.len(),
    ensures
        match lower_types_s(ps@.map_values(|p: ast::Param| p.ty).take(n as int)) {
            Some(Ok(ts)) => r matches Ok(v) && ts.len() == n && v@.len() == n && forall|k: int|
                0 <= k < n ==> #[trigger] v@[k].name@ == ps@[k].name.name@ && type_v(v@[k].ty) == ts[k],
            Some(Err(e)) => r matches Err(Stop::Error(y)) && err_v(y) == e,
            None => r matches Err(Stop::Stuck),
        },
    decreases n,
{
    let ghost tys = ps@.map_values(|p: ast::Param| p.ty);
    if n == 0 {
        return Ok(Vec::new());
    }
    proof {
        assert(tys.take(n as int).drop_last() =~= tys.take(n - 1));
        assert(tys.take(n as int).last() == ps@[n - 1].ty);
    }
    let mut xs = match lower_param_list(ps, n - 1) {
        Ok(x) => x,
        Err(e) => {
            return Err(e);
        },
    };
    let t = match lower_type(&ps[n - 1].ty) {
        Ok(t) => t,
        Err(e) => {
            return Err(e);
        },
    };
    let ghost before = xs@;
    xs.push(InstructionParam { name: ps[n - 1].name.name.clone(), ty: t });
    proof {
        assert forall|k: int| 0 <= k < n - 1 implies #[trigger] xs@[k] == before[k] by {}
    }
    Ok(xs)
}

/// Lowering the first `n` event parameters: each keeps its name and gets its lowered type.
fn lower_event_fields(ps: &Vec<ast::EventParam>, n: usize) -> (r: Result<Vec<EventField>, Stop>)
    requires
        n <= ps@.len(),
    ensures
        match lower_types_s(ps@.map_values(|p: ast::EventParam| p.ty).take(n as int)) {
            Some(Ok(ts)) => r matches Ok(v) && ts.len() == n && v@.len() == n && forall|k: int|
                0 <= k < n ==> #[trigger] v@[k].name@ == ps@[k].name.name@ && type_v(v@[k].ty) == ts[k] && v@[k].indexed == ps@[k].indexed,
            Some(Err(e)) => r matches Err(Stop::Error(y)) && err_v(y) == e,
            None => r matches Err(Stop::Stuck),
        },
    decreases n,
{
    let ghost tys = ps@.map_values(|p: ast::EventParam| p.ty);
    if n == 0 {
        return Ok(Vec::new());
    }
    proof {
        assert(tys.take(n as int).drop_last() =~= tys.take(n - 1));
        assert(tys.take(n as int).last() == ps@[n - 1].ty);
    }
    let mut xs = match lower_event_fields(ps, n - 1) {
        Ok(x) => x,
        Err(e) => {
            return Err(e);
        },
    };
    let t = match lower_type(&ps[n - 1].ty) {
        Ok(t) => t,
        Err(e) => {
            return Err(e);
        },
    };
    let ghost before = xs@;
    xs.push(EventField { name: ps[n - 1].name.name.clone(), ty: t, indexed: ps[n - 1].indexed });
    proof {
        assert forall|k: int| 0 <= k < n - 1 implies #[trigger] xs@[k] == before[k] by {}
    }
    Ok(xs)
}

/// Lowering the first `n` error parameters: each keeps its name and gets its lowered type.
fn lower_error_fields(ps: &Vec<ast::ErrorParam>, n: usize) -> (r: Result<Vec<ErrorField>, Stop>)
    requires
        n <= ps@.len(),
    ensures
        match lower_types_s(ps@.map_values(|p: ast::ErrorParam| p.ty).take(n as int)) {
            Some(Ok(ts)) => r matches Ok(v) && ts.len() == n && v@.len() == n && forall|k: int|
                0 <= k < n ==> #[trigger] v@[k].name@ == ps@[k].name.name@ && type_v(v@[k].ty) == ts[k],
            Some(Err(e)) => r matches Err(Stop::Error(y)) && err_v(y) == e,
            None => r matches Err(Stop::Stuck),
        },
    decreases n,
{
    let ghost tys = ps@.map_values(|p: ast::ErrorParam| p.ty);
    if n == 0 {
        return Ok(Vec::new());
    }
    proof {
        assert(tys.take(n as int).drop_last() =~= tys.take(n - 1));
        assert(tys.take(n as int).last() == ps@[n - 1].ty);
    }
    let mut xs = match lower_error_fields(ps, n - 1) {
        Ok(x) => x,
        Err(e) => {
            return Err(e);
        },
    };
    let t = match lower_type(&ps[n - 1].ty) {
        Ok(t) => t,
        Err(e) => {
            return Err(e);
        },
    };
    let ghost before = xs@;
    xs.push(ErrorField { name: ps[n - 1].name.name.clone(), ty: t });
    proof {
        assert forall|k: int| 0 <= k < n - 1 implies #[trigger] xs@[k] == before[k] by {}
    }
    Ok(xs)
}

/// Lowering the first `n` struct fields: each keeps its name and gets its lowered type.
fn lower_struct_fields(ps: &Vec<ast::StructField>, n: usize) -> (r: Result<Vec<StructField>, Stop>)
    requires
        n <= ps@.len(),
    ensures
        match lower_types_s(ps@.map_values(|p: ast::StructField| p.ty).take(n as int)) {
            Some(Ok(ts)) => r matches Ok(v) && ts.len() == n && v@.len() == n && forall|k: int|
                0 <= k < n ==> #[trigger] v@[k].name@ == ps@[k].name.name@ && type_v(v@[k].ty) == ts[k],
            Some(Err(e)) => r matches Err(Stop::Error(y)) && err_v(y) == e,
            None => r matches Err(Stop::Stuck),
        },
    decreases n,
{
    let ghost tys = ps@.map_values(|p: ast::StructField| p.ty);
    if n == 0 {
        return Ok(Vec::new());
    }
    proof {
        assert(tys.take(n as int).drop_last() =~= tys.take(n - 1));
        assert(tys.take(n as int).last() == ps@[n - 1].ty);
    }
    let mut xs = match lower_struct_fields(ps, n - 1) {
        Ok(x) => x,
        Err(e) => {
            return Err(e);
        },
    };
    let t = match lower_type(&ps[n - 1].ty) {
        Ok(t) => t,
        Err(e) => {
            return Err(e);
        },
    };
    let ghost before = xs@;
    xs.push(StructField { name: ps[n - 1].name.name.clone(), ty: t });
    proof {
        assert forall|k: int| 0 <= k < n - 1 implies #[trigger] xs@[k] == before[k] by {}
    }
    Ok(xs)
}

/// Lower parameters: each keeps its name and gets its lowered type.
pub fn lower_params(ps: &Vec<ast::Param>) -> (r: Result<Vec<InstructionParam>, Stop>)
    ensures
        item_outcome(lower_params_s(ps@), r, |v: Vec<InstructionParam>| params_v(v@)),
{
    let r = lower_param_list(ps, ps.len());
    proof {
        let tys = ps@.map_values(|p: ast::Param| p.ty);
        assert(tys.take(ps@.len() as int) =~= tys);
        if let Some(Ok(ts)) = lower_types_s(tys) {
            if r is Ok {
                assert(params_v(r->Ok_0@) =~= named(ps@.map_values(|p: ast::Param| p.name.name@), ts));
            }
        }
    }
    r
}

/// Lower an event.
pub fn lower_event(e: &ast::EventDef) -> (r: Result<Event, Stop>)
    ensures
        item_outcome(lower_event_s(*e), r, |v: Event| event_v(v)),
{
    let fields = match lower_event_fields(&e.params, e.params.len()) {
        Ok(x) => x,
        Err(s) => {
            proof {
                let tys = e.params@.map_values(|p: ast::EventParam| p.ty);
                assert(tys.take(e.params@.len() as int) =~= tys);
            }
            return Err(s);
        },
    };
    let r = Event { name: e.name.name.clone(), fields };
    proof {
        let ps = e.params@;
        let tys = ps.map_values(|p: ast::EventParam| p.ty);
        assert(tys.take(ps.len() as int) =~= tys);
        if let Some(Ok(ts)) = lower_types_s(tys) {
            assert(event_v(r).1 =~= Seq::new(ts.len(), |k: int| (ps[k].name.name@, ts[k], ps[k].indexed)));
        }
    }
    Ok(r)
}

/// Lower a custom error.
pub fn lower_error(e: &ast::ErrorDef) -> (r: Result<ProgramError, Stop>)
    ensures
        item_outcome(lower_error_s(*e), r, |v: ProgramError| error_v(v)),
{
    proof {
        let tys = e.params@.map_values(|p: ast::ErrorParam| p.ty);
        assert(tys.take(e.params@.len() as int) =~= tys);
    }
    let fields = match lower_error_fields(&e.params, e.params.len()) {
        Ok(x) => x,
        Err(s) => {
            return Err(s);
        },
    };
    let r = ProgramError { name: e.name.name.clone(), fields };
    proof {
        let ps = e.params@;
        if let Some(Ok(ts)) = lower_types_s(ps.map_values(|p: ast::ErrorParam| p.ty)) {
            assert(error_v(r).1 =~= named(ps.map_values(|p: ast::ErrorParam| p.name.name@), ts));
        }
    }
    Ok(r)
}

/// Lower a struct.
pub fn lower_struct(s: &ast::StructDef) -> (r: Result<StructDef, Stop>)
    ensures
        item_outcome(lower_struct_s(*s), r, |v: StructDef| struct_v(v)),
{
    proof {
        let tys = s.fields@.map_values(|f: ast::StructField| f.ty);
        assert(tys.take(s.fields@.len() as int) =~= tys);
    }
    let fields = match lower_struct_fields(&s.fields, s.fields.len()) {
        Ok(x) => x,
        Err(e) => {
            return Err(e);
        },
    };
    let r = StructDef { name: s.name.name.clone(), fields };
    proof {
        let fs = s.fields@;
        if let Some(Ok(ts)) = lower_types_s(fs.map_values(|f: ast::StructField| f.ty)) {
            assert(struct_v(r).1 =~= named(fs.map_values(|f: ast::StructField| f.name.name@), ts));
        }
    }
    Ok(r)
}

/// Lower an enum: its name and the names of its variants.
pub fn lower_enum(e: &ast::EnumDef) -> (r: EnumDef)
    ensures
        enum_v(r) == lower_enum_s(*e),
{
    let mut variants: Vec<String> = Vec::new();
    let mut i: usize = 0;
    while i < e.variants.len()
        invariant
            i <= e.variants@.len(),
            variants@.len() == i,
            forall|k: int| 0 <= k < i ==> #[trigger] variants@[k]@ == e.variants@[k].name.name@,
        decreases e.variants@.len() - i,
    {
        variants.push(e.variants[i].name.name.clone());
        i = i + 1;
    }
    let r = EnumDef { name: e.name.name.clone(), variants };
    proof {
        assert(enum_v(r).1 =~= lower_enum_s(*e).1);
    }
    r
}

/// Whether a statement, or a block inside it, closes the state account.
fn stmt_contains_selfdestruct(s: &Statement) -> (b: bool)
    ensures
        b == stmt_has_selfdestruct(stmt_v(*s)),
    decreases s, 0nat,
{
    match s {
        Statement::Selfdestruct { .. } => true,
        Statement::If { then_block, else_block, .. } => {
            if prefix_contains_selfdestruct(then_block, then_block.len()) {
                proof {
                    assert(then_block@.take(then_block@.len() as int) =~= then_block@);
                }
                return true;
            }
            proof {
                assert(then_block@.take(then_block@.len() as int) =~= then_block@);
            }
            match else_block {
                Some(b) => {
                    let r = prefix_contains_selfdestruct(b, b.len());
                    proof {
                        assert(b@.take(b@.len() as int) =~= b@);
                    }
                    r
                },
                None => false,
            }
        },
        Statement::While { body, .. } => {
            let r = prefix_contains_selfdestruct(body, body.len());
            proof {
                assert(body@.take(body@.len() as int) =~= body@);
            }
            r
        },
        Statement::For { body, .. } => {
            let r = prefix_contains_selfdestruct(body, body.len());
            proof {
                assert(body@.take(body@.len() as int) =~= body@);
            }
            r
        },
        _ => false,
    }
}

/// Whether one of the first `n` statements closes the state account.
fn prefix_contains_selfdestruct(stmts: &Vec<Statement>, n: usize) -> (b: bool)
    requires
        n <= stmts@.len(),
    ensures
        b == stmts_have_selfdestruct(stmts_v(stmts@.take(n as int))),
    decreases stmts@, n,
{
    if n == 0 {
        return false;
    }
    proof {
        assert(stmts@.take(n as int).drop_last() =~= stmts@.take(n - 1));
        assert(stmts@.take(n as int).last() == stmts@[n - 1]);
        let ss = stmts_v(stmts@.take(n as int));
        assert(ss.drop_last() =~= stmts_v(stmts@.take(n - 1)));
        assert(ss.last() == stmt_v(stmts@[n - 1]));
    }
    prefix_contains_selfdestruct(stmts, n - 1) || stmt_contains_selfdestruct(&stmts[n - 1])
}

/// Whether a list of statements, or a block inside one of them, closes the state
/// account.
pub fn body_contains_selfdestruct(stmts: &Vec<Statement>) -> (b: bool)
    ensures
        b == stmts_have_selfdestruct(stmts_v(stmts@)),
{
    proof {
        assert(stmts@.take(stmts@.len() as int) =~= stmts@);
    }
    prefix_contains_selfdestruct(stmts, stmts.len())
}

/// The modifier invocations as values.
pub open spec fn calls_v(v: Seq<ModifierCall>) -> Seq<(Seq<char>, Seq<crate::ir::ExprV>)> {
    v.map_values(|m: ModifierCall| (m.name@, exprs_v(m.args@)))
}

/// Lower the arguments of the first `n` modifier invocations, first to last.
fn lower_mod_calls(ms: &Vec<ast::ModifierInvocation>, n: usize, ctx: &LoweringContext, c: &mut MappingAccessCollector) -> (r: Result<Vec<ModifierCall>, Stop>)
    requires
        n <= ms@.len(),
    ensures
        match lower_mod_calls_s(ms@.take(n as int), ctx_v(*ctx), coll_v(*old(c))) {
            Lowered::Done(x, st) => r matches Ok(v) && calls_v(v@) == x && coll_v(*final(c)) == st,
            Lowered::Failed(e) => r matches Err(Stop::Error(y)) && err_v(y) == e,
            Lowered::Stuck => r matches Err(Stop::Stuck),
        },
    decreases n,
{
    if n == 0 {
        let v: Vec<ModifierCall> = Vec::new();
        proof {
            assert(calls_v(v@) =~= Seq::<(Seq<char>, Seq<crate::ir::ExprV>)>::empty());
        }
        return Ok(v);
    }
    proof {
        assert(ms@.take(n as int).drop_last() =~= ms@.take(n - 1));
        assert(ms@.take(n as int).last() == ms@[n - 1]);
    }
    let mut xs = match lower_mod_calls(ms, n - 1, ctx, c) {
        Ok(x) => x,
        Err(e) => {
            return Err(e);
        },
    };
    let m = &ms[n - 1];
    proof {
        assert(m.args@.take(m.args@.len() as int) =~= m.args@);
    }
    let args = match lower_args(&m.args, m.args.len(), ctx, c) {
        Ok(x) => x,
        Err(e) => {
            return Err(e);
        },
    };
    let ghost before = xs@;
    xs.push(ModifierCall { name: m.name.name.clone(), args });
    proof {
        assert(calls_v(xs@) =~= calls_v(before).push((m.name.name@, exprs_v(xs@[before.len() as int].args@))));
    }
    Ok(xs)
}

/// Whether a function is public or external.
fn is_public_visibility(v: Option<ast::Visibility>) -> (b: bool)
    ensures
        b == (v == Some(ast::Visibility::Public) || v == Some(ast::Visibility::External)),
{
    match v {
        Some(ast::Visibility::Public) => true,
        Some(ast::Visibility::External) => true,
        _ => false,
    }
}

/// Whether a list of state mutabilities holds the given one.
fn has_mutability(ms: &Vec<ast::StateMutability>, m: ast::StateMutability) -> (b: bool)
    ensures
        b == ms@.contains(m),
{
    let mut i: usize = 0;
    while i < ms.len()
        invariant
            i <= ms@.len(),
            forall|k: int| 0 <= k < i ==> ms@[k] != m,
        decreases ms@.len() - i,
    {
        if ms[i] == m {
            return true;
        }
        i = i + 1;
    }
    false
}

/// Lower the return type of a function: none, its one return type, or an error for
/// more than one.
fn lower_returns(rs: &Vec<ast::ReturnParam>) -> (r: Result<Option<SolanaType>, Stop>)
    ensures
        item_outcome(lower_returns_s(rs@), r, |o: Option<SolanaType>| match o {
            Some(t) => Some(type_v(t)),
            None => None,
        }),
{
    if rs.len() == 0 {
        Ok(None)
    } else if rs.len() == 1 {
        match lower_type(&rs[0].ty) {
            Ok(t) => Ok(Some(t)),
            Err(e) => Err(e),
        }
    } else {
        Err(Stop::Error(crate::codegen_error::CodegenError::UnsupportedFeature("Multiple return values".to_owned())))
    }
}

/// Lower a function with a body: parameters, return type, modifier arguments, then the
/// body, with one collector of what it records.
pub fn lower_function(func: &ast::FnDef, ctx: &LoweringContext) -> (r: Result<Instruction, Stop>)
    requires
        func.body is Some,
    ensures
        item_outcome(lower_function_s(*func, func.body.unwrap().stmts@, ctx_v(*ctx)), r, |i: Instruction| instr_v(i)),
{
    let params = match lower_params(&func.params) {
        Ok(x) => x,
        Err(e) => {
            return Err(e);
        },
    };
    let ret_ty = match lower_returns(&func.return_params) {
        Ok(x) => x,
        Err(e) => {
            return Err(e);
        },
    };
    let is_public = is_public_visibility(func.visibility);
    let is_view = has_mutability(&func.state_mutability, ast::StateMutability::View)
        || has_mutability(&func.state_mutability, ast::StateMutability::Pure);
    let is_payable = has_mutability(&func.state_mutability, ast::StateMutability::Payable);
    let mut c = MappingAccessCollector::new();
    proof {
        assert(func.modifiers@.take(func.modifiers@.len() as int) =~= func.modifiers@);
        assert(coll_v(c) == fresh());
    }
    let modifiers = match lower_mod_calls(&func.modifiers, func.modifiers.len(), ctx, &mut c) {
        Ok(x) => x,
        Err(e) => {
            return Err(e);
        },
    };
    let block = match &func.body {
        Some(b) => b,
        None => {
            return Err(Stop::Stuck);
        },
    };
    proof {
        assert(block.stmts@.take(block.stmts@.len() as int) =~= block.stmts@);
    }
    let body = match lower_block(&block.stmts, block.stmts.len(), ctx, &mut c) {
        Ok(x) => x,
        Err(e) => {
            return Err(e);
        },
    };
    let closes_state = body_contains_selfdestruct(&body);
    Ok(Instruction {
        name: func.name.name.clone(),
        params,
        returns: ret_ty,
        body,
        is_public,
        is_view,
        is_payable,
        uses_token_program: c.uses_token_program,
        uses_sol_transfer: c.uses_sol_transfer,
        modifiers,
        mapping_accesses: c.accesses,
        closes_state,
    })
}

/// Whether one of the modifiers named in a header is `payable`.
fn names_payable_of(ms: &Vec<ast::ModifierInvocation>) -> (b: bool)
    ensures
        b == names_payable(ms@),
{
    let mut i: usize = 0;
    while i < ms.len()
        invariant
            i <= ms@.len(),
            forall|k: int| 0 <= k < i ==> (#[trigger] ms@[k]).name.name@ != "payable"@,
        decreases ms@.len() - i,
    {
        if str_eq(ms[i].name.name.as_str(), "payable") {
            return true;
        }
        i = i + 1;
    }
    false
}

/// Lower a constructor: the instruction `initialize`, public and never closing the
/// state account.
pub fn lower_constructor(ctor: &ast::ConstructorDef, ctx: &LoweringContext) -> (r: Result<Instruction, Stop>)
    ensures
        item_outcome(lower_constructor_s(*ctor, ctx_v(*ctx)), r, |i: Instruction| instr_v(i)),
{
    let params = match lower_params(&ctor.params) {
        Ok(x) => x,
        Err(e) => {
            return Err(e);
        },
    };
    let mut c = MappingAccessCollector::new();
    proof {
        assert(ctor.body.stmts@.take(ctor.body.stmts@.len() as int) =~= ctor.body.stmts@);
        assert(coll_v(c) == fresh());
    }
    let body = match lower_block(&ctor.body.stmts, ctor.body.stmts.len(), ctx, &mut c) {
        Ok(x) => x,
        Err(e) => {
            return Err(e);
        },
    };
    let modifiers: Vec<ModifierCall> = Vec::new();
    proof {
        assert(calls_v(modifiers@) =~= Seq::<(Seq<char>, Seq<crate::ir::ExprV>)>::empty());
    }
    Ok(Instruction {
        name: "initialize".to_owned(),
        params,
        returns: None,
        body,
        is_public: true,
        is_view: false,
        is_payable: names_payable_of(&ctor.modifiers),
        uses_token_program: c.uses_token_program,
        uses_sol_transfer: c.uses_sol_transfer,
        modifiers,
        mapping_accesses: c.accesses,
        closes_state: false,
    })
}

/// Lower a modifier definition.
pub fn lower_modifier(m: &ast::ModifierDef, ctx: &LoweringContext) -> (r: Result<ModifierDefinition, Stop>)
    ensures
        item_outcome(lower_modifier_s(*m, ctx_v(*ctx)), r, |d: ModifierDefinition| moddef_v(d)),
{
    let params = match lower_params(&m.params) {
        Ok(x) => x,
        Err(e) => {
            return Err(e);
        },
    };
    let mut c = MappingAccessCollector::new();
    proof {
        assert(m.body.stmts@.take(m.body.stmts@.len() as int) =~= m.body.stmts@);
        assert(coll_v(c) == fresh());
    }
    let body = match lower_block(&m.body.stmts, m.body.stmts.len(), ctx, &mut c) {
        Ok(x) => x,
        Err(e) => {
            return Err(e);
        },
    };
    Ok(ModifierDefinition { name: m.name.name.clone(), params, body })
}

/// Whether a function carries the attribute `test`.
pub fn has_test_attribute(attrs: &Vec<ast::Attribute>) -> (b: bool)
    ensures
        b == has_test_attr(attrs@),
{
    let mut i: usize = 0;
    while i < attrs.len()
        invariant
            i <= attrs@.len(),
            forall|k: int| 0 <= k < i ==> (#[trigger] attrs@[k]).name.name@ != "test"@,
        decreases attrs@.len() - i,
    {
        if str_eq(attrs[i].name.name.as_str(), "test") {
            return true;
        }
        i = i + 1;
    }
    false
}

/// The failure a test expects: the message of the first `should_fail` attribute when
/// its first argument is a string, the empty text when it has none such, and `None`
/// without the attribute.
pub fn get_should_fail_message(attrs: &Vec<ast::Attribute>) -> (r: Option<String>)
    ensures
        match r {
            Some(m) => should_fail_s(attrs@) == Some(m@),
            None => should_fail_s(attrs@) is None,
        },
{
    let mut i: usize = 0;
    proof {
        assert(attrs@.skip(0) =~= attrs@);
    }
    while i < attrs.len()
        invariant
            i <= attrs@.len(),
            should_fail_s(attrs@) == should_fail_s(attrs@.skip(i as int)),
        decreases attrs@.len() - i,
    {
        proof {
            assert(attrs@.skip(i as int)[0] == attrs@[i as int]);
            assert(attrs@.skip(i as int).drop_first() =~= attrs@.skip(i + 1));
        }
        let a = &attrs[i];
        if str_eq(a.name.name.as_str(), "should_fail") {
            if a.args.len() > 0 {
                match &a.args[0].value {
                    ast::AttributeValue::Literal(ast::Literal::String(m, _)) => {
                        return Some(m.clone());
                    },
                    _ => {},
                }
            }
            return Some(String::new());
        }
        i = i + 1;
    }
    None
}

/// Lower a test function; one without a body has an empty body.
pub fn lower_test_function(func: &ast::FnDef, ctx: &LoweringContext) -> (r: Result<TestFunction, Stop>)
    ensures
        item_outcome(lower_test_s(*func, ctx_v(*ctx)), r, |t: TestFunction| test_v(t)),
{
    let mut c = MappingAccessCollector::new();
    proof {
        assert(coll_v(c) == fresh());
    }
    let body = match &func.body {
        Some(b) => {
            proof {
                assert(b.stmts@.take(b.stmts@.len() as int) =~= b.stmts@);
            }
            match lower_block(&b.stmts, b.stmts.len(), ctx, &mut c) {
                Ok(x) => x,
                Err(e) => {
                    return Err(e);
                },
            }
        },
        None => {
            let v: Vec<Statement> = Vec::new();
            proof {
                assert(stmts_v(v@) =~= Seq::<crate::ir::StmtV>::empty());
            }
            v
        },
    };
    let should_fail = get_should_fail_message(&func.attributes);
    Ok(TestFunction { name: func.name.name.clone(), body, should_fail })
}

} // verus!
