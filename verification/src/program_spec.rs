//! What lowering the declarations of a program gives: events, errors, structs, enums,
//! functions, constructors, modifiers, tests, contracts and whole programs, stated
//! over the values the trees stand for.

use vstd::prelude::*;
use crate::ast;
use crate::codegen_error::ErrV;
use crate::ir::{AccessV, ExprV, StmtV, TypeV};
use crate::lower_spec::{lower_args_s, lower_block_s, lower_type_s, CollV, CtxV, Lowered};
use crate::types::{TypeExpr, TypePath};

verus! {

/// An instruction as a value.
pub struct InstrV {
    pub name: Seq<char>,
    pub params: Seq<(Seq<char>, TypeV)>,
    pub returns_ty: Option<TypeV>,
    pub body: Seq<StmtV>,
    pub is_public: bool,
    pub is_view: bool,
    pub is_payable: bool,
    pub uses_token_program: bool,
    pub uses_sol_transfer: bool,
    pub modifiers: Seq<(Seq<char>, Seq<ExprV>)>,
    pub mapping_accesses: Seq<AccessV>,
    pub closes_state: bool,
}

/// A modifier definition as a value.
pub struct ModDefV {
    pub name: Seq<char>,
    pub params: Seq<(Seq<char>, TypeV)>,
    pub body: Seq<StmtV>,
}

/// A test function as a value.
pub struct TestV {
    pub name: Seq<char>,
    pub body: Seq<StmtV>,
    pub should_fail: Option<Seq<char>>,
}

/// A program as a value.
pub struct ProgramV {
    pub name: Seq<char>,
    pub state: Seq<(Seq<char>, TypeV, bool)>,
    pub mappings: Seq<(Seq<char>, TypeV, TypeV, bool)>,
    pub modifiers: Seq<ModDefV>,
    pub instructions: Seq<InstrV>,
    pub events: Seq<(Seq<char>, Seq<(Seq<char>, TypeV, bool)>)>,
    pub errors: Seq<(Seq<char>, Seq<(Seq<char>, TypeV)>)>,
    pub structs: Seq<(Seq<char>, Seq<(Seq<char>, TypeV)>)>,
    pub enums: Seq<(Seq<char>, Seq<Seq<char>>)>,
    pub tests: Seq<TestV>,
}

/// The outcome of lowering a declaration: a value, an error, or `None` where the
/// lowering stops (a type path without segments, an assertion without its arguments).
pub type Outcome<T> = Option<Result<T, ErrV>>;

/// A collector with nothing recorded.
pub open spec fn fresh() -> CollV {
    CollV { accesses: seq![], uses_token_program: false, uses_sol_transfer: false }
}

/// Lowering types, first to last; the first that fails decides.
pub open spec fn lower_types_s(ts: Seq<TypeExpr>) -> Outcome<Seq<TypeV>>
    decreases ts.len(),
{
    if ts.len() == 0 {
        Some(Ok(seq![]))
    } else {
        match lower_types_s(ts.drop_last()) {
            Some(Ok(xs)) => match lower_type_s(ts.last()) {
                Some(Ok(t)) => Some(Ok(xs.push(t))),
                Some(Err(e)) => Some(Err(e)),
                None => None,
            },
            other => other,
        }
    }
}

/// Names paired with types.
pub open spec fn named(names: Seq<Seq<char>>, ts: Seq<TypeV>) -> Seq<(Seq<char>, TypeV)> {
    Seq::new(ts.len(), |k: int| (names[k], ts[k]))
}

/// Lowering parameters: their names with their lowered types.
pub open spec fn lower_params_s(ps: Seq<ast::Param>) -> Outcome<Seq<(Seq<char>, TypeV)>> {
    match lower_types_s(ps.map_values(|p: ast::Param| p.ty)) {
        Some(Ok(ts)) => Some(Ok(named(ps.map_values(|p: ast::Param| p.name.name@), ts))),
        Some(Err(e)) => Some(Err(e)),
        None => None,
    }
}

/// Lowering an event.
pub open spec fn lower_event_s(e: ast::EventDef) -> Outcome<(Seq<char>, Seq<(Seq<char>, TypeV, bool)>)> {
    let ps = e.params@;
    match lower_types_s(ps.map_values(|p: ast::EventParam| p.ty)) {
        Some(Ok(ts)) => Some(Ok((e.name.name@, Seq::new(ts.len(), |k: int| (ps[k].name.name@, ts[k], ps[k].indexed))))),
        Some(Err(er)) => Some(Err(er)),
        None => None,
    }
}

/// Lowering a custom error.
pub open spec fn lower_error_s(e: ast::ErrorDef) -> Outcome<(Seq<char>, Seq<(Seq<char>, TypeV)>)> {
    let ps = e.params@;
    match lower_types_s(ps.map_values(|p: ast::ErrorParam| p.ty)) {
        Some(Ok(ts)) => Some(Ok((e.name.name@, named(ps.map_values(|p: ast::ErrorParam| p.name.name@), ts)))),
        Some(Err(er)) => Some(Err(er)),
        None => None,
    }
}

/// Lowering a struct.
pub open spec fn lower_struct_s(s: ast::StructDef) -> Outcome<(Seq<char>, Seq<(Seq<char>, TypeV)>)> {
    let fs = s.fields@;
    match lower_types_s(fs.map_values(|f: ast::StructField| f.ty)) {
        Some(Ok(ts)) => Some(Ok((s.name.name@, named(fs.map_values(|f: ast::StructField| f.name.name@), ts)))),
        Some(Err(er)) => Some(Err(er)),
        None => None,
    }
}

/// Lowering an enum: its name and the names of its variants.
pub open spec fn lower_enum_s(e: ast::EnumDef) -> (Seq<char>, Seq<Seq<char>>) {
    (e.name.name@, e.variants@.map_values(|v: ast::EnumVariant| v.name.name@))
}

/// Whether a statement, or a block inside it, closes the state account.
pub open spec fn stmt_has_selfdestruct(s: StmtV) -> bool
    decreases s, 1nat,
{
    match s {
        StmtV::Selfdestruct { .. } => true,
        StmtV::If { then_block, else_block, .. } => stmts_have_selfdestruct(then_block) || match else_block {
            Some(b) => stmts_have_selfdestruct(b),
            None => false,
        },
        StmtV::While { body, .. } => stmts_have_selfdestruct(body),
        StmtV::For { body, .. } => stmts_have_selfdestruct(body),
        _ => false,
    }
}

/// Whether one of the statements closes the state account.
pub open spec fn stmts_have_selfdestruct(ss: Seq<StmtV>) -> bool
    decreases ss, 0nat,
{
    if ss.len() == 0 {
        false
    } else {
        stmts_have_selfdestruct(ss.drop_last()) || stmt_has_selfdestruct(ss.last())
    }
}

/// Lowering the arguments of modifier invocations, first to last.
pub open spec fn lower_mod_calls_s(ms: Seq<ast::ModifierInvocation>, cx: CtxV, st: CollV) -> Lowered<Seq<(Seq<char>, Seq<ExprV>)>>
    decreases ms.len(),
{
    if ms.len() == 0 {
        Lowered::Done(seq![], st)
    } else {
        match lower_mod_calls_s(ms.drop_last(), cx, st) {
            Lowered::Done(xs, st1) => match lower_args_s(ms.last().args@, cx, st1) {
                Lowered::Done(a, st2) => Lowered::Done(xs.push((ms.last().name.name@, a)), st2),
                Lowered::Failed(e) => Lowered::Failed(e),
                Lowered::Stuck => Lowered::Stuck,
            },
            Lowered::Failed(e) => Lowered::Failed(e),
            Lowered::Stuck => Lowered::Stuck,
        }
    }
}

/// The return type of a function: none, its one return type, or an error for more.
pub open spec fn lower_returns_s(rs: Seq<ast::ReturnParam>) -> Outcome<Option<TypeV>> {
    if rs.len() == 0 {
        Some(Ok(None))
    } else if rs.len() == 1 {
        match lower_type_s(rs[0].ty) {
            Some(Ok(t)) => Some(Ok(Some(t))),
            Some(Err(e)) => Some(Err(e)),
            None => None,
        }
    } else {
        Some(Err(ErrV::UnsupportedFeature("Multiple return values"@)))
    }
}

/// Lowering a function with a body: parameters, return type, modifier arguments, then
/// the body, with one collector of what it records.
pub open spec fn lower_function_s(f: ast::FnDef, body: Seq<ast::Stmt>, cx: CtxV) -> Outcome<InstrV> {
    match lower_params_s(f.params@) {
        Some(Ok(params)) => match lower_returns_s(f.return_params@) {
            Some(Ok(ret_ty)) => match lower_mod_calls_s(f.modifiers@, cx, fresh()) {
                Lowered::Done(mods, st1) => match lower_block_s(body, cx, st1) {
                    Lowered::Done(b, st2) => Some(Ok(InstrV {
                        name: f.name.name@,
                        params,
                        returns_ty: ret_ty,
                        body: b,
                        is_public: f.visibility == Some(ast::Visibility::Public) || f.visibility == Some(ast::Visibility::External),
                        is_view: f.state_mutability@.contains(ast::StateMutability::View)
                            || f.state_mutability@.contains(ast::StateMutability::Pure),
                        is_payable: f.state_mutability@.contains(ast::StateMutability::Payable),
                        uses_token_program: st2.uses_token_program,
                        uses_sol_transfer: st2.uses_sol_transfer,
                        modifiers: mods,
                        mapping_accesses: st2.accesses,
                        closes_state: stmts_have_selfdestruct(b),
                    })),
                    Lowered::Failed(e) => Some(Err(e)),
                    Lowered::Stuck => None,
                },
                Lowered::Failed(e) => Some(Err(e)),
                Lowered::Stuck => None,
            },
            Some(Err(e)) => Some(Err(e)),
            None => None,
        },
        Some(Err(e)) => Some(Err(e)),
        None => None,
    }
}

/// Whether one of the modifiers named in a header is `payable`.
pub open spec fn names_payable(ms: Seq<ast::ModifierInvocation>) -> bool {
    exists|k: int| 0 <= k < ms.len() && (#[trigger] ms[k]).name.name@ == "payable"@
}

/// Lowering a constructor: the instruction `initialize`.
pub open spec fn lower_constructor_s(c: ast::ConstructorDef, cx: CtxV) -> Outcome<InstrV> {
    match lower_params_s(c.params@) {
        Some(Ok(params)) => match lower_block_s(c.body.stmts@, cx, fresh()) {
            Lowered::Done(b, st) => Some(Ok(InstrV {
                name: "initialize"@,
                params,
                returns_ty: None,
                body: b,
                is_public: true,
                is_view: false,
                is_payable: names_payable(c.modifiers@),
                uses_token_program: st.uses_token_program,
                uses_sol_transfer: st.uses_sol_transfer,
                modifiers: seq![],
                mapping_accesses: st.accesses,
                closes_state: false,
            })),
            Lowered::Failed(e) => Some(Err(e)),
            Lowered::Stuck => None,
        },
        Some(Err(e)) => Some(Err(e)),
        None => None,
    }
}

/// Lowering a modifier definition.
pub open spec fn lower_modifier_s(m: ast::ModifierDef, cx: CtxV) -> Outcome<ModDefV> {
    match lower_params_s(m.params@) {
        Some(Ok(params)) => match lower_block_s(m.body.stmts@, cx, fresh()) {
            Lowered::Done(b, _) => Some(Ok(ModDefV { name: m.name.name@, params, body: b })),
            Lowered::Failed(e) => Some(Err(e)),
            Lowered::Stuck => None,
        },
        Some(Err(e)) => Some(Err(e)),
        None => None,
    }
}

/// Whether a function carries the attribute `test`.
pub open spec fn has_test_attr(attrs: Seq<ast::Attribute>) -> bool {
    exists|k: int| 0 <= k < attrs.len() && (#[trigger] attrs[k]).name.name@ == "test"@
}

/// The failure a test expects: the message of the first `should_fail` attribute when
/// its first argument is a string, the empty text when it has none such, and `None`
/// without the attribute.
pub open spec fn should_fail_s(attrs: Seq<ast::Attribute>) -> Option<Seq<char>>
    decreases attrs.len(),
{
    if attrs.len() == 0 {
        None
    } else if attrs[0].name.name@ == "should_fail"@ {
        if attrs[0].args@.len() > 0 {
            match attrs[0].args@[0].value {
                ast::AttributeValue::Literal(ast::Literal::String(m, _)) => Some(m@),
                _ => Some(seq![]),
            }
        } else {
            Some(seq![])
        }
    } else {
        should_fail_s(attrs.drop_first())
    }
}

/// Lowering a test function; one without a body has an empty body.
pub open spec fn lower_test_s(f: ast::FnDef, cx: CtxV) -> Outcome<TestV> {
    let body = match f.body {
        Some(b) => b.stmts@,
        None => seq![],
    };
    match lower_block_s(body, cx, fresh()) {
        Lowered::Done(b, _) => Some(Ok(TestV { name: f.name.name@, body: b, should_fail: should_fail_s(f.attributes@) })),
        Lowered::Failed(e) => Some(Err(e)),
        Lowered::Stuck => None,
    }
}

// ---------------------------------------------------------------------------
// Contracts

/// The name a base contract is named by: the first segment of its path, or the empty
/// name.
pub open spec fn base_name(p: TypePath) -> Seq<char> {
    if p.segments@.len() > 0 {
        p.segments@[0].name@
    } else {
        seq![]
    }
}

/// The contract a name stands for: the last contract of the program with that name.
pub open spec fn find_contract(cs: Seq<ast::ContractDef>, name: Seq<char>) -> Option<ast::ContractDef>
    decreases cs.len(),
{
    if cs.len() == 0 {
        None
    } else if cs.last().name.name@ == name {
        Some(cs.last())
    } else {
        find_contract(cs.drop_last(), name)
    }
}

/// The members other than constructors.
pub open spec fn non_ctor(ms: Seq<ast::ContractMember>) -> Seq<ast::ContractMember>
    decreases ms.len(),
{
    if ms.len() == 0 {
        seq![]
    } else if ms.last() is Constructor {
        non_ctor(ms.drop_last())
    } else {
        non_ctor(ms.drop_last()).push(ms.last())
    }
}

/// The members a contract inherits: those of each base that names a contract, but
/// constructors, bases in the order they are named.
pub open spec fn inherited(bases: Seq<TypePath>, cs: Seq<ast::ContractDef>) -> Seq<ast::ContractMember>
    decreases bases.len(),
{
    if bases.len() == 0 {
        seq![]
    } else {
        inherited(bases.drop_last(), cs) + match find_contract(cs, base_name(bases.last())) {
            Some(b) => non_ctor(b.members@),
            None => seq![],
        }
    }
}

/// All the members of a contract: the inherited ones, then its own.
pub open spec fn all_members(c: ast::ContractDef, cs: Seq<ast::ContractDef>) -> Seq<ast::ContractMember> {
    inherited(c.bases@, cs) + c.members@
}

/// Whether a member is a state variable with the name.
pub open spec fn is_var_named(m: ast::ContractMember, name: Seq<char>) -> bool {
    match m {
        ast::ContractMember::StateVar(v) => v.name.name@ == name,
        _ => false,
    }
}

/// Whether a member is a modifier with the name.
pub open spec fn is_modifier_named(m: ast::ContractMember, name: Seq<char>) -> bool {
    match m {
        ast::ContractMember::Modifier(x) => x.name.name@ == name,
        _ => false,
    }
}

/// Whether a member is a function with a body with the name.
pub open spec fn is_fn_named(m: ast::ContractMember, name: Seq<char>) -> bool {
    match m {
        ast::ContractMember::Function(f) => f.body is Some && f.name.name@ == name,
        _ => false,
    }
}

/// Whether one of the members declares a state variable with the name.
pub open spec fn declares_var(ms: Seq<ast::ContractMember>, name: Seq<char>) -> bool {
    exists|k: int| 0 <= k < ms.len() && is_var_named(#[trigger] ms[k], name)
}

/// Whether one of the members declares a modifier with the name.
pub open spec fn declares_modifier(ms: Seq<ast::ContractMember>, name: Seq<char>) -> bool {
    exists|k: int| 0 <= k < ms.len() && is_modifier_named(#[trigger] ms[k], name)
}

/// Whether one of the members declares a function with a body with the name.
pub open spec fn declares_fn(ms: Seq<ast::ContractMember>, name: Seq<char>) -> bool {
    exists|k: int| 0 <= k < ms.len() && is_fn_named(#[trigger] ms[k], name)
}

/// The state of a program: its fields and its mappings, from the state variables in
/// the order they come; of two with one name the first counts.
pub open spec fn state_pass_s(ms: Seq<ast::ContractMember>) -> Outcome<(Seq<(Seq<char>, TypeV, bool)>, Seq<(Seq<char>, TypeV, TypeV, bool)>)>
    decreases ms.len(),
{
    if ms.len() == 0 {
        Some(Ok((seq![], seq![])))
    } else {
        match state_pass_s(ms.drop_last()) {
            Some(Ok((fs, mps))) => match ms.last() {
                ast::ContractMember::StateVar(v) => if declares_var(ms.drop_last(), v.name.name@) {
                    Some(Ok((fs, mps)))
                } else {
                    let is_public = v.visibility == Some(ast::Visibility::Public);
                    match lower_type_s(v.ty) {
                        Some(Ok(t)) => match t {
                            TypeV::Mapping(k, x) => Some(Ok((fs, mps.push((v.name.name@, *k, *x, is_public))))),
                            _ => Some(Ok((fs.push((v.name.name@, t, is_public)), mps))),
                        },
                        Some(Err(e)) => Some(Err(e)),
                        None => None,
                    }
                },
                _ => Some(Ok((fs, mps))),
            },
            other => other,
        }
    }
}

/// The modifiers of a program, from the members taken last to first; of two with one
/// name the later member counts.
pub open spec fn modifiers_s(rs: Seq<ast::ContractMember>, cx: CtxV) -> Outcome<Seq<ModDefV>>
    decreases rs.len(),
{
    if rs.len() == 0 {
        Some(Ok(seq![]))
    } else {
        match modifiers_s(rs.drop_last(), cx) {
            Some(Ok(xs)) => match rs.last() {
                ast::ContractMember::Modifier(m) => if declares_modifier(rs.drop_last(), m.name.name@) {
                    Some(Ok(xs))
                } else {
                    match lower_modifier_s(m, cx) {
                        Some(Ok(d)) => Some(Ok(xs.push(d))),
                        Some(Err(e)) => Some(Err(e)),
                        None => None,
                    }
                },
                _ => Some(Ok(xs)),
            },
            other => other,
        }
    }
}

/// The instructions of the functions with a body, from the members taken last to
/// first; of two with one name the later member counts.
pub open spec fn functions_s(rs: Seq<ast::ContractMember>, cx: CtxV) -> Outcome<Seq<InstrV>>
    decreases rs.len(),
{
    if rs.len() == 0 {
        Some(Ok(seq![]))
    } else {
        match functions_s(rs.drop_last(), cx) {
            Some(Ok(xs)) => match rs.last() {
                ast::ContractMember::Function(f) => match f.body {
                    Some(b) => if declares_fn(rs.drop_last(), f.name.name@) {
                        Some(Ok(xs))
                    } else {
                        match lower_function_s(f, b.stmts@, cx) {
                            Some(Ok(i)) => Some(Ok(xs.push(i))),
                            Some(Err(e)) => Some(Err(e)),
                            None => None,
                        }
                    },
                    None => Some(Ok(xs)),
                },
                _ => Some(Ok(xs)),
            },
            other => other,
        }
    }
}

/// The tests of a program: the functions with the attribute `test`, in order.
pub open spec fn tests_s(ms: Seq<ast::ContractMember>, cx: CtxV) -> Outcome<Seq<TestV>>
    decreases ms.len(),
{
    if ms.len() == 0 {
        Some(Ok(seq![]))
    } else {
        match tests_s(ms.drop_last(), cx) {
            Some(Ok(xs)) => match ms.last() {
                ast::ContractMember::Function(f) => if has_test_attr(f.attributes@) {
                    match lower_test_s(f, cx) {
                        Some(Ok(t)) => Some(Ok(xs.push(t))),
                        Some(Err(e)) => Some(Err(e)),
                        None => None,
                    }
                } else {
                    Some(Ok(xs))
                },
                _ => Some(Ok(xs)),
            },
            other => other,
        }
    }
}

/// The first constructor among the members.
pub open spec fn first_ctor(ms: Seq<ast::ContractMember>) -> Option<ast::ConstructorDef>
    decreases ms.len(),
{
    if ms.len() == 0 {
        None
    } else {
        match ms[0] {
            ast::ContractMember::Constructor(k) => Some(k),
            _ => first_ctor(ms.drop_first()),
        }
    }
}

/// The instructions of a contract: its own constructor first, as `initialize`, then
/// those of its functions.
pub open spec fn instructions_s(c: ast::ContractDef, rs: Seq<ast::ContractMember>, cx: CtxV) -> Outcome<Seq<InstrV>> {
    match functions_s(rs, cx) {
        Some(Ok(ins)) => match first_ctor(c.members@) {
            Some(k) => match lower_constructor_s(k, cx) {
                Some(Ok(i0)) => Some(Ok(seq![i0] + ins)),
                Some(Err(e)) => Some(Err(e)),
                None => None,
            },
            None => Some(Ok(ins)),
        },
        other => other,
    }
}

/// What a program is given of the whole source: events, errors, structs, enums and
/// the names of interfaces.
pub struct DeclsV {
    pub events: Seq<(Seq<char>, Seq<(Seq<char>, TypeV, bool)>)>,
    pub errors: Seq<(Seq<char>, Seq<(Seq<char>, TypeV)>)>,
    pub structs: Seq<(Seq<char>, Seq<(Seq<char>, TypeV)>)>,
    pub enums: Seq<(Seq<char>, Seq<Seq<char>>)>,
    pub interfaces: Seq<Seq<char>>,
}

/// Lowering a contract to a program.
pub open spec fn lower_contract_s(c: ast::ContractDef, cs: Seq<ast::ContractDef>, d: DeclsV) -> Outcome<ProgramV> {
    let all = all_members(c, cs);
    match state_pass_s(all) {
        Some(Ok((fs, mps))) => {
            let cx = CtxV {
                state_fields: fs.map_values(|f: (Seq<char>, TypeV, bool)| f.0),
                mapping_names: mps.map_values(|m: (Seq<char>, TypeV, TypeV, bool)| m.0),
                interface_names: d.interfaces,
            };
            match modifiers_s(all.reverse(), cx) {
                Some(Ok(mods)) => match instructions_s(c, all.reverse(), cx) {
                    Some(Ok(ins)) => match tests_s(all, cx) {
                        Some(Ok(tests)) => Some(Ok(ProgramV {
                            name: c.name.name@,
                            state: fs,
                            mappings: mps,
                            modifiers: mods,
                            instructions: ins,
                            events: d.events,
                            errors: d.errors,
                            structs: d.structs,
                            enums: d.enums,
                            tests,
                        })),
                        Some(Err(e)) => Some(Err(e)),
                        None => None,
                    },
                    Some(Err(e)) => Some(Err(e)),
                    None => None,
                },
                Some(Err(e)) => Some(Err(e)),
                None => None,
            }
        },
        Some(Err(e)) => Some(Err(e)),
        None => None,
    }
}

// ---------------------------------------------------------------------------
// Programs

/// Adding what a member of a contract declares.
pub open spec fn add_member(m: ast::ContractMember, d: DeclsV) -> Outcome<DeclsV> {
    match m {
        ast::ContractMember::Event(e) => match lower_event_s(e) {
            Some(Ok(x)) => Some(Ok(DeclsV { events: d.events.push(x), ..d })),
            Some(Err(er)) => Some(Err(er)),
            None => None,
        },
        ast::ContractMember::Error(e) => match lower_error_s(e) {
            Some(Ok(x)) => Some(Ok(DeclsV { errors: d.errors.push(x), ..d })),
            Some(Err(er)) => Some(Err(er)),
            None => None,
        },
        ast::ContractMember::Struct(s) => match lower_struct_s(s) {
            Some(Ok(x)) => Some(Ok(DeclsV { structs: d.structs.push(x), ..d })),
            Some(Err(er)) => Some(Err(er)),
            None => None,
        },
        ast::ContractMember::Enum(e) => Some(Ok(DeclsV { enums: d.enums.push(lower_enum_s(e)), ..d })),
        _ => Some(Ok(d)),
    }
}

/// Adding what the members of a contract declare, first to last.
pub open spec fn add_members(ms: Seq<ast::ContractMember>, d: DeclsV) -> Outcome<DeclsV>
    decreases ms.len(),
{
    if ms.len() == 0 {
        Some(Ok(d))
    } else {
        match add_members(ms.drop_last(), d) {
            Some(Ok(d1)) => add_member(ms.last(), d1),
            other => other,
        }
    }
}

/// Adding what an item declares; a contract adds what its members declare.
pub open spec fn add_item(it: ast::Item, d: DeclsV) -> Outcome<DeclsV> {
    match it {
        ast::Item::Event(e) => add_member(ast::ContractMember::Event(e), d),
        ast::Item::Error(e) => add_member(ast::ContractMember::Error(e), d),
        ast::Item::Struct(s) => add_member(ast::ContractMember::Struct(s), d),
        ast::Item::Enum(e) => add_member(ast::ContractMember::Enum(e), d),
        ast::Item::Interface(i) => Some(Ok(DeclsV { interfaces: d.interfaces.push(i.name.name@), ..d })),
        ast::Item::Contract(c) => add_members(c.members@, d),
        _ => Some(Ok(d)),
    }
}

/// Nothing declared yet.
pub open spec fn no_decls() -> DeclsV {
    DeclsV { events: seq![], errors: seq![], structs: seq![], enums: seq![], interfaces: seq![] }
}

/// What the items declare, first to last.
pub open spec fn decls_s(items: Seq<ast::Item>) -> Outcome<DeclsV>
    decreases items.len(),
{
    if items.len() == 0 {
        Some(Ok(no_decls()))
    } else {
        match decls_s(items.drop_last()) {
            Some(Ok(d)) => add_item(items.last(), d),
            other => other,
        }
    }
}

/// The contracts among the items, in order.
pub open spec fn contracts_of(items: Seq<ast::Item>) -> Seq<ast::ContractDef>
    decreases items.len(),
{
    if items.len() == 0 {
        seq![]
    } else {
        match items.last() {
            ast::Item::Contract(c) => contracts_of(items.drop_last()).push(c),
            _ => contracts_of(items.drop_last()),
        }
    }
}

/// The programs of the contracts among the items that are not abstract, in order.
pub open spec fn programs_s(items: Seq<ast::Item>, cs: Seq<ast::ContractDef>, d: DeclsV) -> Outcome<Seq<ProgramV>>
    decreases items.len(),
{
    if items.len() == 0 {
        Some(Ok(seq![]))
    } else {
        match programs_s(items.drop_last(), cs, d) {
            Some(Ok(ps)) => match items.last() {
                ast::Item::Contract(c) => if c.is_abstract {
                    Some(Ok(ps))
                } else {
                    match lower_contract_s(c, cs, d) {
                        Some(Ok(p)) => Some(Ok(ps.push(p))),
                        Some(Err(e)) => Some(Err(e)),
                        None => None,
                    }
                },
                _ => Some(Ok(ps)),
            },
            other => other,
        }
    }
}

/// Lowering a whole program: what its items declare, then one program for each contract
/// that is not abstract.
pub open spec fn lower_to_ir_s(p: ast::Program) -> Outcome<Seq<ProgramV>> {
    match decls_s(p.items@) {
        Some(Ok(d)) => programs_s(p.items@, contracts_of(p.items@), d),
        Some(Err(e)) => Some(Err(e)),
        None => None,
    }
}

} // verus!
