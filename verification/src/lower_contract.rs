//! Lowering contracts, with what they inherit, to programs.

use vstd::prelude::*;
use crate::ast;
use crate::codegen_error::{err_v, CodegenError};
use crate::ir::{
    clone_strings, error_v, event_v, struct_v, enum_v, type_v, EnumDef, Event, Instruction, MappingDef,
    ModifierDefinition, ProgramError, ProgramState, SolanaProgram, SolanaType, StateField, StructDef,
    TestFunction,
};
use crate::lower::{ctx_v, lower_type, names_v, LoweringContext, Stop};
use crate::lower_items::{
    lower_enum, lower_error, lower_event, lower_struct,
    has_test_attribute, instr_v, item_outcome, lower_constructor, lower_function, lower_modifier,
    lower_test_function, moddef_v, test_v,
};
use crate::program_spec::{
    add_item, add_member, add_members, decls_s, lower_to_ir_s, no_decls, programs_s,
    all_members, base_name, contracts_of, declares_fn, declares_modifier, declares_var, find_contract,
    first_ctor, functions_s, has_test_attr, inherited, instructions_s, is_fn_named, is_modifier_named,
    is_var_named, lower_contract_s, modifiers_s, non_ctor, state_pass_s, tests_s, DeclsV, InstrV,
    ModDefV, ProgramV, TestV,
};
use crate::lower_spec::CtxV;
use crate::text::str_eq;
use crate::types::TypePath;

verus! {

/// The members a list of references refers to.
pub open spec fn members_v(v: Seq<&ast::ContractMember>) -> Seq<ast::ContractMember> {
    v.map_values(|m: &ast::ContractMember| *m)
}

/// State fields as values.
pub open spec fn fields_v(s: Seq<StateField>) -> Seq<(Seq<char>, crate::ir::TypeV, bool)> {
    s.map_values(|f: StateField| (f.name@, type_v(f.ty), f.is_public))
}

/// Mappings as values.
pub open spec fn maps_v(s: Seq<MappingDef>) -> Seq<(Seq<char>, crate::ir::TypeV, crate::ir::TypeV, bool)> {
    s.map_values(|m: MappingDef| (m.name@, type_v(m.key_ty), type_v(m.value_ty), m.is_public))
}

/// A program as a value.
pub open spec fn program_v(p: SolanaProgram) -> ProgramV {
    ProgramV {
        name: p.name@,
        state: fields_v(p.state.fields@),
        mappings: maps_v(p.mappings@),
        modifiers: p.modifiers@.map_values(|m: ModifierDefinition| moddef_v(m)),
        instructions: p.instructions@.map_values(|i: Instruction| instr_v(i)),
        events: p.events@.map_values(|e: Event| event_v(e)),
        errors: p.errors@.map_values(|e: ProgramError| error_v(e)),
        structs: p.structs@.map_values(|s: StructDef| struct_v(s)),
        enums: p.enums@.map_values(|e: EnumDef| enum_v(e)),
        tests: p.tests@.map_values(|t: TestFunction| test_v(t)),
    }
}

/// What a program is given of the whole source: events, errors, structs, enums and the
/// names of interfaces.
#[derive(Debug)]
pub struct Decls {
    pub events: Vec<Event>,
    pub errors: Vec<ProgramError>,
    pub structs: Vec<StructDef>,
    pub enums: Vec<EnumDef>,
    pub interface_names: Vec<String>,
}

/// What a program is given, as values.
pub open spec fn decls_v(d: Decls) -> DeclsV {
    DeclsV {
        events: d.events@.map_values(|e: Event| event_v(e)),
        errors: d.errors@.map_values(|e: ProgramError| error_v(e)),
        structs: d.structs@.map_values(|s: StructDef| struct_v(s)),
        enums: d.enums@.map_values(|e: EnumDef| enum_v(e)),
        interfaces: names_v(d.interface_names@),
    }
}

/// The contract a name stands for among the first `n` items: the last contract with
/// that name.
fn find_base<'a>(items: &'a Vec<ast::Item>, n: usize, name: &str) -> (r: Option<&'a ast::ContractDef>)
    requires
        n <= items@.len(),
    ensures
        match r {
            Some(c) => find_contract(contracts_of(items@.take(n as int)), name@) == Some(*c),
            None => find_contract(contracts_of(items@.take(n as int)), name@) is None,
        },
    decreases n,
{
    if n == 0 {
        return None;
    }
    proof {
        assert(items@.take(n as int).drop_last() =~= items@.take(n - 1));
        assert(items@.take(n as int).last() == items@[n - 1]);
    }
    match &items[n - 1] {
        ast::Item::Contract(c) => {
            let ghost cs = contracts_of(items@.take(n - 1));
            proof {
                assert(cs.push(*c).drop_last() =~= cs);
            }
            if str_eq(c.name.name.as_str(), name) {
                Some(c)
            } else {
                find_base(items, n - 1, name)
            }
        },
        _ => find_base(items, n - 1, name),
    }
}

/// The name a base contract is named by.
fn base_name_of(p: &TypePath) -> (r: &str)
    ensures
        r@ == base_name(*p),
{
    if p.segments.len() > 0 {
        p.segments[0].name.as_str()
    } else {
        proof {
            reveal_strlit("");
        }
        ""
    }
}

/// Add the members other than constructors.
fn push_non_ctor<'a>(r: &mut Vec<&'a ast::ContractMember>, ms: &'a Vec<ast::ContractMember>)
    ensures
        members_v(final(r)@) == members_v(old(r)@) + non_ctor(ms@),
{
    let ghost r0 = r@;
    let mut j: usize = 0;
    while j < ms.len()
        invariant
            j <= ms@.len(),
            members_v(r@) == members_v(r0) + non_ctor(ms@.take(j as int)),
        decreases ms@.len() - j,
    {
        proof {
            assert(ms@.take(j + 1).drop_last() =~= ms@.take(j as int));
            assert(ms@.take(j + 1).last() == ms@[j as int]);
        }
        let ghost before = r@;
        match &ms[j] {
            ast::ContractMember::Constructor(_) => {},
            m => {
                r.push(m);
                proof {
                    assert(members_v(r@) =~= members_v(before).push(ms@[j as int]));
                }
            },
        }
        proof {
            assert(members_v(r@) =~= members_v(r0) + non_ctor(ms@.take(j + 1)));
        }
        j = j + 1;
    }
    proof {
        assert(ms@.take(ms@.len() as int) =~= ms@);
    }
}

/// All the members of a contract: those it inherits from the bases that name a
/// contract, constructors aside, then its own.
pub fn collect_members<'a>(c: &'a ast::ContractDef, items: &'a Vec<ast::Item>) -> (r: Vec<&'a ast::ContractMember>)
    ensures
        members_v(r@) == all_members(*c, contracts_of(items@)),
{
    let ghost cs = contracts_of(items@);
    proof {
        assert(items@.take(items@.len() as int) =~= items@);
    }
    let mut r: Vec<&'a ast::ContractMember> = Vec::new();
    let mut i: usize = 0;
    proof {
        assert(members_v(r@) =~= inherited(c.bases@.take(0), cs));
    }
    while i < c.bases.len()
        invariant
            i <= c.bases@.len(),
            cs == contracts_of(items@),
            items@.take(items@.len() as int) == items@,
            members_v(r@) == inherited(c.bases@.take(i as int), cs),
        decreases c.bases@.len() - i,
    {
        proof {
            assert(c.bases@.take(i + 1).drop_last() =~= c.bases@.take(i as int));
            assert(c.bases@.take(i + 1).last() == c.bases@[i as int]);
        }
        let name = base_name_of(&c.bases[i]);
        match find_base(items, items.len(), name) {
            Some(b) => {
                push_non_ctor(&mut r, &b.members);
            },
            None => {
                proof {
                    assert(members_v(r@) =~= members_v(r@) + Seq::<ast::ContractMember>::empty());
                }
            },
        }
        i = i + 1;
    }
    proof {
        assert(c.bases@.take(c.bases@.len() as int) =~= c.bases@);
    }
    let ghost r1 = r@;
    let mut j: usize = 0;
    while j < c.members.len()
        invariant
            j <= c.members@.len(),
            members_v(r@) == members_v(r1) + c.members@.take(j as int),
        decreases c.members@.len() - j,
    {
        let ghost before = r@;
        r.push(&c.members[j]);
        proof {
            assert(members_v(r@) =~= members_v(before).push(c.members@[j as int]));
            assert(c.members@.take(j + 1) =~= c.members@.take(j as int).push(c.members@[j as int]));
            assert(members_v(r@) =~= members_v(r1) + c.members@.take(j + 1));
        }
        j = j + 1;
    }
    proof {
        assert(c.members@.take(c.members@.len() as int) =~= c.members@);
    }
    r
}

/// The members in the other order.
fn reversed<'a>(v: &Vec<&'a ast::ContractMember>) -> (r: Vec<&'a ast::ContractMember>)
    ensures
        members_v(r@) == members_v(v@).reverse(),
{
    let mut r: Vec<&'a ast::ContractMember> = Vec::new();
    let mut i: usize = v.len();
    while i > 0
        invariant
            i <= v@.len(),
            r@.len() == v@.len() - i,
            forall|k: int| 0 <= k < r@.len() ==> #[trigger] r@[k] == v@[v@.len() - 1 - k],
        decreases i,
    {
        i = i - 1;
        r.push(v[i]);
    }
    proof {
        assert(members_v(r@) =~= members_v(v@).reverse());
    }
    r
}

/// Whether one of the first `n` members declares a state variable with the name.
fn declares_var_in(all: &Vec<&ast::ContractMember>, n: usize, name: &str) -> (b: bool)
    requires
        n <= all@.len(),
    ensures
        b == declares_var(members_v(all@).take(n as int), name@),
{
    let ghost ms = members_v(all@).take(n as int);
    let mut k: usize = 0;
    while k < n
        invariant
            k <= n,
            n <= all@.len(),
            ms == members_v(all@).take(n as int),
            forall|j: int| 0 <= j < k ==> !is_var_named(#[trigger] ms[j], name@),
        decreases n - k,
    {
        let hit = match all[k] {
            ast::ContractMember::StateVar(v) => str_eq(v.name.name.as_str(), name),
            _ => false,
        };
        proof {
            assert(ms[k as int] == *all@[k as int]);
        }
        if hit {
            return true;
        }
        k = k + 1;
    }
    false
}

/// Whether one of the first `n` members declares a modifier with the name.
fn declares_modifier_in(all: &Vec<&ast::ContractMember>, n: usize, name: &str) -> (b: bool)
    requires
        n <= all@.len(),
    ensures
        b == declares_modifier(members_v(all@).take(n as int), name@),
{
    let ghost ms = members_v(all@).take(n as int);
    let mut k: usize = 0;
    while k < n
        invariant
            k <= n,
            n <= all@.len(),
            ms == members_v(all@).take(n as int),
            forall|j: int| 0 <= j < k ==> !is_modifier_named(#[trigger] ms[j], name@),
        decreases n - k,
    {
        let hit = match all[k] {
            ast::ContractMember::Modifier(m) => str_eq(m.name.name.as_str(), name),
            _ => false,
        };
        proof {
            assert(ms[k as int] == *all@[k as int]);
        }
        if hit {
            return true;
        }
        k = k + 1;
    }
    false
}

/// Whether one of the first `n` members declares a function with a body with the name.
fn declares_fn_in(all: &Vec<&ast::ContractMember>, n: usize, name: &str) -> (b: bool)
    requires
        n <= all@.len(),
    ensures
        b == declares_fn(members_v(all@).take(n as int), name@),
{
    let ghost ms = members_v(all@).take(n as int);
    let mut k: usize = 0;
    while k < n
        invariant
            k <= n,
            n <= all@.len(),
            ms == members_v(all@).take(n as int),
            forall|j: int| 0 <= j < k ==> !is_fn_named(#[trigger] ms[j], name@),
        decreases n - k,
    {
        let hit = match all[k] {
            ast::ContractMember::Function(f) => f.body.is_some() && str_eq(f.name.name.as_str(), name),
            _ => false,
        };
        proof {
            assert(ms[k as int] == *all@[k as int]);
        }
        if hit {
            return true;
        }
        k = k + 1;
    }
    false
}

/// Whether a state variable is public.
fn is_public_var(v: Option<ast::Visibility>) -> (b: bool)
    ensures
        b == (v == Some(ast::Visibility::Public)),
{
    match v {
        Some(ast::Visibility::Public) => true,
        _ => false,
    }
}

/// Collect the state of a program from the first `n` members: its fields, its mappings,
/// and the names of both in the context.
fn state_pass(all: &Vec<&ast::ContractMember>, n: usize, fields: &mut Vec<StateField>, ctx: &mut LoweringContext) -> (r: Result<(), Stop>)
    requires
        n <= all@.len(),
        old(fields)@.len() == 0,
        old(ctx).state_fields@.len() == 0,
        old(ctx).mapping_names@.len() == 0,
        old(ctx).mappings@.len() == 0,
    ensures
        final(ctx).interface_names == old(ctx).interface_names,
        match state_pass_s(members_v(all@).take(n as int)) {
            Some(Ok((fs, mps))) => r is Ok && fields_v(final(fields)@) == fs && maps_v(final(ctx).mappings@) == mps
                && names_v(final(ctx).state_fields@) == fs.map_values(|f: (Seq<char>, crate::ir::TypeV, bool)| f.0)
                && names_v(final(ctx).mapping_names@) == mps.map_values(
                |m: (Seq<char>, crate::ir::TypeV, crate::ir::TypeV, bool)| m.0,
            ),
            Some(Err(e)) => r matches Err(Stop::Error(y)) && err_v(y) == e,
            None => r matches Err(Stop::Stuck),
        },
    decreases n,
{
    let ghost ms = members_v(all@).take(n as int);
    if n == 0 {
        proof {
            assert(fields_v(fields@) =~= Seq::<(Seq<char>, crate::ir::TypeV, bool)>::empty());
            assert(maps_v(ctx.mappings@) =~= Seq::<(Seq<char>, crate::ir::TypeV, crate::ir::TypeV, bool)>::empty());
            assert(names_v(ctx.state_fields@) =~= Seq::<Seq<char>>::empty());
            assert(names_v(ctx.mapping_names@) =~= Seq::<Seq<char>>::empty());
        }
        return Ok(());
    }
    proof {
        assert(ms.drop_last() =~= members_v(all@).take(n - 1));
        assert(ms.last() == *all@[n - 1]);
    }
    match state_pass(all, n - 1, fields, ctx) {
        Ok(()) => {},
        Err(e) => {
            return Err(e);
        },
    }
    let ghost f0 = fields@;
    let ghost m0 = ctx.mappings@;
    let ghost sf0 = ctx.state_fields@;
    let ghost mn0 = ctx.mapping_names@;
    match all[n - 1] {
        ast::ContractMember::StateVar(v) => {
            if declares_var_in(all, n - 1, v.name.name.as_str()) {
                return Ok(());
            }
            let is_public = is_public_var(v.visibility);
            let t = match lower_type(&v.ty) {
                Ok(t) => t,
                Err(e) => {
                    return Err(e);
                },
            };
            match t {
                SolanaType::Mapping(k, x) => {
                    ctx.mapping_names.push(v.name.name.clone());
                    ctx.mappings.push(MappingDef { name: v.name.name.clone(), key_ty: *k, value_ty: *x, is_public });
                    proof {
                        assert(maps_v(ctx.mappings@) =~= maps_v(m0).push(maps_v(ctx.mappings@).last()));
                        assert(names_v(ctx.mapping_names@) =~= names_v(mn0).push(v.name.name@));
                    }
                },
                other => {
                    ctx.state_fields.push(v.name.name.clone());
                    fields.push(StateField { name: v.name.name.clone(), ty: other, is_public });
                    proof {
                        assert(fields_v(fields@) =~= fields_v(f0).push(fields_v(fields@).last()));
                        assert(names_v(ctx.state_fields@) =~= names_v(sf0).push(v.name.name@));
                    }
                },
            }
            Ok(())
        },
        _ => Ok(()),
    }
}

/// Lower the modifiers among the first `n` members, taken as they come; of two with one
/// name the first counts.
fn modifiers_pass(rev: &Vec<&ast::ContractMember>, n: usize, ctx: &LoweringContext, out: &mut Vec<ModifierDefinition>) -> (r: Result<(), Stop>)
    requires
        n <= rev@.len(),
        old(out)@.len() == 0,
    ensures
        item_outcome(
            modifiers_s(members_v(rev@).take(n as int), ctx_v(*ctx)),
            match r {
                Ok(()) => Ok(final(out)@),
                Err(e) => Err(e),
            },
            |v: Seq<ModifierDefinition>| v.map_values(|m: ModifierDefinition| moddef_v(m)),
        ),
    decreases n,
{
    let ghost ms = members_v(rev@).take(n as int);
    if n == 0 {
        proof {
            assert(out@.map_values(|m: ModifierDefinition| moddef_v(m)) =~= Seq::<ModDefV>::empty());
        }
        return Ok(());
    }
    proof {
        assert(ms.drop_last() =~= members_v(rev@).take(n - 1));
        assert(ms.last() == *rev@[n - 1]);
    }
    match modifiers_pass(rev, n - 1, ctx, out) {
        Ok(()) => {},
        Err(e) => {
            return Err(e);
        },
    }
    let ghost o0 = out@;
    match rev[n - 1] {
        ast::ContractMember::Modifier(m) => {
            if declares_modifier_in(rev, n - 1, m.name.name.as_str()) {
                return Ok(());
            }
            let d = match lower_modifier(m, ctx) {
                Ok(d) => d,
                Err(e) => {
                    return Err(e);
                },
            };
            out.push(d);
            proof {
                assert(out@.map_values(|m: ModifierDefinition| moddef_v(m)) =~= o0.map_values(
                    |m: ModifierDefinition| moddef_v(m),
                ).push(moddef_v(out@.last())));
            }
            Ok(())
        },
        _ => Ok(()),
    }
}

/// Lower the functions with a body among the first `n` members, taken as they come; of
/// two with one name the first counts.
fn functions_pass(rev: &Vec<&ast::ContractMember>, n: usize, ctx: &LoweringContext, out: &mut Vec<Instruction>) -> (r: Result<(), Stop>)
    requires
        n <= rev@.len(),
        old(out)@.len() == 0,
    ensures
        item_outcome(
            functions_s(members_v(rev@).take(n as int), ctx_v(*ctx)),
            match r {
                Ok(()) => Ok(final(out)@),
                Err(e) => Err(e),
            },
            |v: Seq<Instruction>| v.map_values(|i: Instruction| instr_v(i)),
        ),
    decreases n,
{
    let ghost ms = members_v(rev@).take(n as int);
    if n == 0 {
        proof {
            assert(out@.map_values(|i: Instruction| instr_v(i)) =~= Seq::<InstrV>::empty());
        }
        return Ok(());
    }
    proof {
        assert(ms.drop_last() =~= members_v(rev@).take(n - 1));
        assert(ms.last() == *rev@[n - 1]);
    }
    match functions_pass(rev, n - 1, ctx, out) {
        Ok(()) => {},
        Err(e) => {
            return Err(e);
        },
    }
    let ghost o0 = out@;
    match rev[n - 1] {
        ast::ContractMember::Function(f) => {
            if f.body.is_none() {
                return Ok(());
            }
            if declares_fn_in(rev, n - 1, f.name.name.as_str()) {
                return Ok(());
            }
            let i = match lower_function(f, ctx) {
                Ok(i) => i,
                Err(e) => {
                    return Err(e);
                },
            };
            out.push(i);
            proof {
                assert(out@.map_values(|i: Instruction| instr_v(i)) =~= o0.map_values(|i: Instruction| instr_v(i)).push(
                    instr_v(out@.last()),
                ));
            }
            Ok(())
        },
        _ => Ok(()),
    }
}

/// Lower the tests among the first `n` members, in order.
fn tests_pass(all: &Vec<&ast::ContractMember>, n: usize, ctx: &LoweringContext, out: &mut Vec<TestFunction>) -> (r: Result<(), Stop>)
    requires
        n <= all@.len(),
        old(out)@.len() == 0,
    ensures
        item_outcome(
            tests_s(members_v(all@).take(n as int), ctx_v(*ctx)),
            match r {
                Ok(()) => Ok(final(out)@),
                Err(e) => Err(e),
            },
            |v: Seq<TestFunction>| v.map_values(|t: TestFunction| test_v(t)),
        ),
    decreases n,
{
    let ghost ms = members_v(all@).take(n as int);
    if n == 0 {
        proof {
            assert(out@.map_values(|t: TestFunction| test_v(t)) =~= Seq::<TestV>::empty());
        }
        return Ok(());
    }
    proof {
        assert(ms.drop_last() =~= members_v(all@).take(n - 1));
        assert(ms.last() == *all@[n - 1]);
    }
    match tests_pass(all, n - 1, ctx, out) {
        Ok(()) => {},
        Err(e) => {
            return Err(e);
        },
    }
    let ghost o0 = out@;
    match all[n - 1] {
        ast::ContractMember::Function(f) => {
            if !has_test_attribute(&f.attributes) {
                return Ok(());
            }
            let t = match lower_test_function(f, ctx) {
                Ok(t) => t,
                Err(e) => {
                    return Err(e);
                },
            };
            out.push(t);
            proof {
                assert(out@.map_values(|t: TestFunction| test_v(t)) =~= o0.map_values(|t: TestFunction| test_v(t)).push(
                    test_v(out@.last()),
                ));
            }
            Ok(())
        },
        _ => Ok(()),
    }
}

/// The first constructor among the members.
fn first_ctor_of(ms: &Vec<ast::ContractMember>) -> (r: Option<&ast::ConstructorDef>)
    ensures
        match r {
            Some(k) => first_ctor(ms@) == Some(*k),
            None => first_ctor(ms@) is None,
        },
{
    let mut i: usize = 0;
    proof {
        assert(ms@.skip(0) =~= ms@);
    }
    while i < ms.len()
        invariant
            i <= ms@.len(),
            first_ctor(ms@) == first_ctor(ms@.skip(i as int)),
        decreases ms@.len() - i,
    {
        proof {
            assert(ms@.skip(i as int)[0] == ms@[i as int]);
            assert(ms@.skip(i as int).drop_first() =~= ms@.skip(i + 1));
        }
        if let ast::ContractMember::Constructor(k) = &ms[i] {
            return Some(k);
        }
        i = i + 1;
    }
    None
}

/// A copy of a list, with the same values.
pub(crate) fn clone_events(v: &Vec<Event>) -> (r: Vec<Event>)
    ensures
        r@.map_values(|x: Event| event_v(x)) == v@.map_values(|x: Event| event_v(x)),
{
    let mut r: Vec<Event> = Vec::new();
    let mut i: usize = 0;
    while i < v.len()
        invariant
            i <= v@.len(),
            r@.len() == i,
            forall|k: int| 0 <= k < i ==> event_v(#[trigger] r@[k]) == event_v(v@[k]),
        decreases v@.len() - i,
    {
        r.push(crate::ir::clone_event(&v[i]));
        i = i + 1;
    }
    proof {
        assert(r@.map_values(|x: Event| event_v(x)) =~= v@.map_values(|x: Event| event_v(x)));
    }
    r
}

/// A copy of a list, with the same values.
fn clone_errors(v: &Vec<ProgramError>) -> (r: Vec<ProgramError>)
    ensures
        r@.map_values(|x: ProgramError| error_v(x)) == v@.map_values(|x: ProgramError| error_v(x)),
{
    let mut r: Vec<ProgramError> = Vec::new();
    let mut i: usize = 0;
    while i < v.len()
        invariant
            i <= v@.len(),
            r@.len() == i,
            forall|k: int| 0 <= k < i ==> error_v(#[trigger] r@[k]) == error_v(v@[k]),
        decreases v@.len() - i,
    {
        r.push(crate::ir::clone_error(&v[i]));
        i = i + 1;
    }
    proof {
        assert(r@.map_values(|x: ProgramError| error_v(x)) =~= v@.map_values(|x: ProgramError| error_v(x)));
    }
    r
}

/// A copy of a list, with the same values.
fn clone_structs(v: &Vec<StructDef>) -> (r: Vec<StructDef>)
    ensures
        r@.map_values(|x: StructDef| struct_v(x)) == v@.map_values(|x: StructDef| struct_v(x)),
{
    let mut r: Vec<StructDef> = Vec::new();
    let mut i: usize = 0;
    while i < v.len()
        invariant
            i <= v@.len(),
            r@.len() == i,
            forall|k: int| 0 <= k < i ==> struct_v(#[trigger] r@[k]) == struct_v(v@[k]),
        decreases v@.len() - i,
    {
        r.push(crate::ir::clone_struct(&v[i]));
        i = i + 1;
    }
    proof {
        assert(r@.map_values(|x: StructDef| struct_v(x)) =~= v@.map_values(|x: StructDef| struct_v(x)));
    }
    r
}

/// A copy of a list, with the same values.
fn clone_enums(v: &Vec<EnumDef>) -> (r: Vec<EnumDef>)
    ensures
        r@.map_values(|x: EnumDef| enum_v(x)) == v@.map_values(|x: EnumDef| enum_v(x)),
{
    let mut r: Vec<EnumDef> = Vec::new();
    let mut i: usize = 0;
    while i < v.len()
        invariant
            i <= v@.len(),
            r@.len() == i,
            forall|k: int| 0 <= k < i ==> enum_v(#[trigger] r@[k]) == enum_v(v@[k]),
        decreases v@.len() - i,
    {
        r.push(crate::ir::clone_enum(&v[i]));
        i = i + 1;
    }
    proof {
        assert(r@.map_values(|x: EnumDef| enum_v(x)) =~= v@.map_values(|x: EnumDef| enum_v(x)));
    }
    r
}

/// Lower a contract, with what it inherits, to a program.
pub fn lower_contract(contract: &ast::ContractDef, items: &Vec<ast::Item>, decls: &Decls) -> (r: Result<SolanaProgram, Stop>)
    ensures
        item_outcome(lower_contract_s(*contract, contracts_of(items@), decls_v(*decls)), r, |p: SolanaProgram| program_v(p)),
{
    let all = collect_members(contract, items);
    let mut fields: Vec<StateField> = Vec::new();
    let mut ctx = LoweringContext::new();
    ctx.interface_names = clone_strings(&decls.interface_names);
    proof {
        assert(members_v(all@).take(all@.len() as int) =~= members_v(all@));
    }
    match state_pass(&all, all.len(), &mut fields, &mut ctx) {
        Ok(()) => {},
        Err(e) => {
            return Err(e);
        },
    }
    let rev = reversed(&all);
    proof {
        assert(members_v(rev@).take(rev@.len() as int) =~= members_v(rev@));
    }
    let mut modifiers: Vec<ModifierDefinition> = Vec::new();
    match modifiers_pass(&rev, rev.len(), &ctx, &mut modifiers) {
        Ok(()) => {},
        Err(e) => {
            return Err(e);
        },
    }
    let mut instructions: Vec<Instruction> = Vec::new();
    match functions_pass(&rev, rev.len(), &ctx, &mut instructions) {
        Ok(()) => {},
        Err(e) => {
            return Err(e);
        },
    }
    match first_ctor_of(&contract.members) {
        Some(k) => {
            let i0 = match lower_constructor(k, &ctx) {
                Ok(i) => i,
                Err(e) => {
                    return Err(e);
                },
            };
            let ghost before = instructions@;
            instructions.insert(0, i0);
            proof {
                assert(instructions@.map_values(|i: Instruction| instr_v(i)) =~= seq![instr_v(instructions@[0])]
                    + before.map_values(|i: Instruction| instr_v(i)));
            }
        },
        None => {},
    }
    let mut tests: Vec<TestFunction> = Vec::new();
    match tests_pass(&all, all.len(), &ctx, &mut tests) {
        Ok(()) => {},
        Err(e) => {
            return Err(e);
        },
    }
    Ok(SolanaProgram {
        name: contract.name.name.clone(),
        state: ProgramState { fields },
        mappings: ctx.mappings,
        modifiers,
        instructions,
        events: clone_events(&decls.events),
        errors: clone_errors(&decls.errors),
        structs: clone_structs(&decls.structs),
        enums: clone_enums(&decls.enums),
        tests,
    })
}

/// The outcome of adding declarations, as the spec gives it.
pub open spec fn decls_outcome(s: crate::program_spec::Outcome<DeclsV>, r: Result<(), Stop>, d: Decls) -> bool {
    match s {
        Some(Ok(x)) => r is Ok && decls_v(d) == x,
        Some(Err(e)) => r matches Err(Stop::Error(y)) && err_v(y) == e,
        None => r matches Err(Stop::Stuck),
    }
}

/// Add what a member of a contract declares.
fn add_member_to(m: &ast::ContractMember, d: &mut Decls) -> (r: Result<(), Stop>)
    ensures
        decls_outcome(add_member(*m, decls_v(*old(d))), r, *final(d)),
{
    match m {
        ast::ContractMember::Event(e) => {
            let x = match lower_event(e) {
                Ok(x) => x,
                Err(er) => {
                    return Err(er);
                },
            };
            let ghost before = d.events@;
            d.events.push(x);
            proof {
                assert(d.events@.map_values(|e: Event| event_v(e)) =~= before.map_values(|e: Event| event_v(e)).push(
                    event_v(x),
                ));
            }
            Ok(())
        },
        ast::ContractMember::Error(e) => {
            let x = match lower_error(e) {
                Ok(x) => x,
                Err(er) => {
                    return Err(er);
                },
            };
            let ghost before = d.errors@;
            d.errors.push(x);
            proof {
                assert(d.errors@.map_values(|e: ProgramError| error_v(e)) =~= before.map_values(
                    |e: ProgramError| error_v(e),
                ).push(error_v(x)));
            }
            Ok(())
        },
        ast::ContractMember::Struct(st) => {
            let x = match lower_struct(st) {
                Ok(x) => x,
                Err(er) => {
                    return Err(er);
                },
            };
            let ghost before = d.structs@;
            d.structs.push(x);
            proof {
                assert(d.structs@.map_values(|s: StructDef| struct_v(s)) =~= before.map_values(
                    |s: StructDef| struct_v(s),
                ).push(struct_v(x)));
            }
            Ok(())
        },
        ast::ContractMember::Enum(e) => {
            let x = lower_enum(e);
            let ghost before = d.enums@;
            d.enums.push(x);
            proof {
                assert(d.enums@.map_values(|e: EnumDef| enum_v(e)) =~= before.map_values(|e: EnumDef| enum_v(e)).push(
                    enum_v(x),
                ));
            }
            Ok(())
        },
        _ => Ok(()),
    }
}

/// Add what the first `n` members of a contract declare.
fn add_members_to(ms: &Vec<ast::ContractMember>, n: usize, d: &mut Decls) -> (r: Result<(), Stop>)
    requires
        n <= ms@.len(),
    ensures
        decls_outcome(add_members(ms@.take(n as int), decls_v(*old(d))), r, *final(d)),
    decreases n,
{
    if n == 0 {
        return Ok(());
    }
    proof {
        assert(ms@.take(n as int).drop_last() =~= ms@.take(n - 1));
        assert(ms@.take(n as int).last() == ms@[n - 1]);
    }
    match add_members_to(ms, n - 1, d) {
        Ok(()) => {},
        Err(e) => {
            return Err(e);
        },
    }
    add_member_to(&ms[n - 1], d)
}

/// Add what an item declares.
fn add_item_to(it: &ast::Item, d: &mut Decls) -> (r: Result<(), Stop>)
    ensures
        decls_outcome(add_item(*it, decls_v(*old(d))), r, *final(d)),
{
    match it {
        ast::Item::Event(e) => match lower_event(e) {
            Ok(x) => {
                let ghost before = d.events@;
                d.events.push(x);
                proof {
                    assert(d.events@.map_values(|e: Event| event_v(e)) =~= before.map_values(|e: Event| event_v(e)).push(
                        event_v(x),
                    ));
                }
                Ok(())
            },
            Err(er) => Err(er),
        },
        ast::Item::Error(e) => match lower_error(e) {
            Ok(x) => {
                let ghost before = d.errors@;
                d.errors.push(x);
                proof {
                    assert(d.errors@.map_values(|e: ProgramError| error_v(e)) =~= before.map_values(
                        |e: ProgramError| error_v(e),
                    ).push(error_v(x)));
                }
                Ok(())
            },
            Err(er) => Err(er),
        },
        ast::Item::Struct(st) => match lower_struct(st) {
            Ok(x) => {
                let ghost before = d.structs@;
                d.structs.push(x);
                proof {
                    assert(d.structs@.map_values(|s: StructDef| struct_v(s)) =~= before.map_values(
                        |s: StructDef| struct_v(s),
                    ).push(struct_v(x)));
                }
                Ok(())
            },
            Err(er) => Err(er),
        },
        ast::Item::Enum(e) => {
            let x = lower_enum(e);
            let ghost before = d.enums@;
            d.enums.push(x);
            proof {
                assert(d.enums@.map_values(|e: EnumDef| enum_v(e)) =~= before.map_values(|e: EnumDef| enum_v(e)).push(
                    enum_v(x),
                ));
            }
            Ok(())
        },
        ast::Item::Interface(i) => {
            let ghost before = d.interface_names@;
            d.interface_names.push(i.name.name.clone());
            proof {
                assert(names_v(d.interface_names@) =~= names_v(before).push(i.name.name@));
            }
            Ok(())
        },
        ast::Item::Contract(c) => {
            proof {
                assert(c.members@.take(c.members@.len() as int) =~= c.members@);
            }
            add_members_to(&c.members, c.members.len(), d)
        },
        _ => Ok(()),
    }
}

/// Collect what the first `n` items declare.
fn decls_pass(items: &Vec<ast::Item>, n: usize, d: &mut Decls) -> (r: Result<(), Stop>)
    requires
        n <= items@.len(),
        decls_v(*old(d)) == no_decls(),
    ensures
        decls_outcome(decls_s(items@.take(n as int)), r, *final(d)),
    decreases n,
{
    if n == 0 {
        return Ok(());
    }
    proof {
        assert(items@.take(n as int).drop_last() =~= items@.take(n - 1));
        assert(items@.take(n as int).last() == items@[n - 1]);
    }
    match decls_pass(items, n - 1, d) {
        Ok(()) => {},
        Err(e) => {
            return Err(e);
        },
    }
    add_item_to(&items[n - 1], d)
}

/// Lower the contracts among the first `n` items that are not abstract.
fn programs_pass(items: &Vec<ast::Item>, n: usize, decls: &Decls, out: &mut Vec<SolanaProgram>) -> (r: Result<(), Stop>)
    requires
        n <= items@.len(),
        old(out)@.len() == 0,
    ensures
        item_outcome(
            programs_s(items@.take(n as int), contracts_of(items@), decls_v(*decls)),
            match r {
                Ok(()) => Ok(final(out)@),
                Err(e) => Err(e),
            },
            |v: Seq<SolanaProgram>| v.map_values(|p: SolanaProgram| program_v(p)),
        ),
    decreases n,
{
    if n == 0 {
        proof {
            assert(out@.map_values(|p: SolanaProgram| program_v(p)) =~= Seq::<ProgramV>::empty());
        }
        return Ok(());
    }
    proof {
        assert(items@.take(n as int).drop_last() =~= items@.take(n - 1));
        assert(items@.take(n as int).last() == items@[n - 1]);
    }
    match programs_pass(items, n - 1, decls, out) {
        Ok(()) => {},
        Err(e) => {
            return Err(e);
        },
    }
    let ghost o0 = out@;
    match &items[n - 1] {
        ast::Item::Contract(c) => {
            if c.is_abstract {
                return Ok(());
            }
            let p = match lower_contract(c, items, decls) {
                Ok(p) => p,
                Err(e) => {
                    return Err(e);
                },
            };
            out.push(p);
            proof {
                assert(out@.map_values(|p: SolanaProgram| program_v(p)) =~= o0.map_values(
                    |p: SolanaProgram| program_v(p),
                ).push(program_v(out@.last())));
            }
            Ok(())
        },
        _ => Ok(()),
    }
}

/// Lower a whole program: what its items declare, then one program for each contract
/// that is not abstract; `None` where the lowering stops (a type path without
/// segments, an assertion call without the arguments it reads).
pub fn try_lower_to_ir(program: &ast::Program) -> (r: Option<Result<Vec<SolanaProgram>, CodegenError>>)
    ensures
        match lower_to_ir_s(*program) {
            Some(Ok(ps)) => r matches Some(Ok(v)) && v@.map_values(|p: SolanaProgram| program_v(p)) == ps,
            Some(Err(e)) => r matches Some(Err(y)) && err_v(y) == e,
            None => r is None,
        },
{
    let mut d = Decls {
        events: Vec::new(),
        errors: Vec::new(),
        structs: Vec::new(),
        enums: Vec::new(),
        interface_names: Vec::new(),
    };
    proof {
        assert(decls_v(d).events =~= Seq::<(Seq<char>, Seq<(Seq<char>, crate::ir::TypeV, bool)>)>::empty());
        assert(decls_v(d).errors =~= Seq::<(Seq<char>, Seq<(Seq<char>, crate::ir::TypeV)>)>::empty());
        assert(decls_v(d).structs =~= Seq::<(Seq<char>, Seq<(Seq<char>, crate::ir::TypeV)>)>::empty());
        assert(decls_v(d).enums =~= Seq::<(Seq<char>, Seq<Seq<char>>)>::empty());
        assert(decls_v(d).interfaces =~= Seq::<Seq<char>>::empty());
        assert(program.items@.take(program.items@.len() as int) =~= program.items@);
    }
    match decls_pass(&program.items, program.items.len(), &mut d) {
        Ok(()) => {},
        Err(Stop::Error(e)) => {
            return Some(Err(e));
        },
        Err(Stop::Stuck) => {
            return None;
        },
    }
    let mut out: Vec<SolanaProgram> = Vec::new();
    match programs_pass(&program.items, program.items.len(), &d, &mut out) {
        Ok(()) => Some(Ok(out)),
        Err(Stop::Error(e)) => Some(Err(e)),
        Err(Stop::Stuck) => None,
    }
}

/// Lower a whole program to one Solana program for each contract that is not abstract.
pub fn lower_to_ir(program: &ast::Program) -> (r: Result<Vec<SolanaProgram>, CodegenError>)
    requires
        lower_to_ir_s(*program) is Some,
    ensures
        match lower_to_ir_s(*program) {
            Some(Ok(ps)) => r matches Ok(v) && v@.map_values(|p: SolanaProgram| program_v(p)) == ps,
            Some(Err(e)) => r matches Err(y) && err_v(y) == e,
            None => false,
        },
{
    match try_lower_to_ir(program) {
        Some(r) => r,
        None => Err(CodegenError::InvalidState("lowering stopped".to_owned())),
    }
}

} // verus!
