//! What holds of a generated project as a whole: a handler in `lib.rs` and an account
//! context in `instructions.rs` for every public instruction, an entry account in
//! `state.rs` for every mapping, and a modifier that only wraps leaves the body as it is.

use vstd::prelude::*;
use crate::gen_spec::{
    access_account_text, access_accounts_text, context_text, gen_stmts, join, pascal, seeds_accesses, signer_accounts_text,
    state_account_text, type_to_rust_s, GenV,
};
use crate::ir::{AccessV, StmtV, TypeV};
use crate::lower_spec::snake;
use crate::program_spec::{InstrV, ModDefV, ProgramV};
use crate::project::{project_s, gen_for};
use crate::idl::{idl_accounts, idl_errors_s};
use crate::project_spec::{
    after_helpers, after_lib, contexts_s, entries_text, entry_text, handler_s, handlers_s, inl_stmt, inl_stmts,
    instructions_rs_s, lib_rs_s, occurs, signer_names, state_rs_s,
};

verus! {

/// A text occurs in itself.
pub proof fn lemma_occurs_self(p: Seq<char>)
    ensures
        occurs(p, p),
{
    let z: int = 0;
    assert(p.subrange(z, z + p.len()) =~= p);
}

/// What occurs in a text occurs in the text with more on either side.
pub proof fn lemma_occurs_within(a: Seq<char>, b: Seq<char>, c: Seq<char>, p: Seq<char>)
    requires
        occurs(b, p),
    ensures
        occurs(a + b + c, p),
{
    let i = choose|i: int| 0 <= i && i + p.len() <= b.len() && #[trigger] b.subrange(i, i + p.len()) == p;
    let j = a.len() + i;
    assert((a + b + c).subrange(j, j + p.len()) =~= b.subrange(i, i + p.len()));
}

/// The start of a text occurs in it.
pub proof fn lemma_occurs_start(p: Seq<char>, rest: Seq<char>)
    ensures
        occurs(p + rest, p),
{
    let z: int = 0;
    assert((p + rest).subrange(z, z + p.len()) =~= p);
}

/// A handler written for a prefix of the instructions stays in the handlers of all.
proof fn lemma_handlers_grow(ins: Seq<InstrV>, ms: Seq<ModDefV>, g: GenV, j: int, p: Seq<char>)
    requires
        0 <= j <= ins.len(),
        occurs(handlers_s(ins.take(j), ms, g), p),
    ensures
        occurs(handlers_s(ins, ms, g), p),
    decreases ins.len() - j,
{
    if j < ins.len() {
        assert(ins.take(j + 1).drop_last() =~= ins.take(j));
        let rest = if ins[j].is_public { handler_s(ins[j], ms, g) + "\n"@ } else { Seq::<char>::empty() };
        assert(handlers_s(ins.take(j + 1), ms, g) == handlers_s(ins.take(j), ms, g) + rest);
        lemma_occurs_within(seq![], handlers_s(ins.take(j), ms, g), rest, p);
        assert(seq![] + handlers_s(ins.take(j), ms, g) + rest =~= handlers_s(ins.take(j), ms, g) + rest);
        lemma_handlers_grow(ins, ms, g, j + 1, p);
    } else {
        assert(ins.take(j) =~= ins);
    }
}

/// A context written for a prefix of the instructions stays in the contexts of all.
proof fn lemma_contexts_grow(ins: Seq<InstrV>, name: Seq<char>, g: GenV, j: int, p: Seq<char>)
    requires
        0 <= j <= ins.len(),
        occurs(contexts_s(ins.take(j), name, g), p),
    ensures
        occurs(contexts_s(ins, name, g), p),
    decreases ins.len() - j,
{
    if j < ins.len() {
        assert(ins.take(j + 1).drop_last() =~= ins.take(j));
        let rest = if ins[j].is_public { context_text(ins[j], name, g) + "\n"@ } else { Seq::<char>::empty() };
        assert(contexts_s(ins.take(j + 1), name, g) == contexts_s(ins.take(j), name, g) + rest);
        lemma_occurs_within(seq![], contexts_s(ins.take(j), name, g), rest, p);
        assert(seq![] + contexts_s(ins.take(j), name, g) + rest =~= contexts_s(ins.take(j), name, g) + rest);
        lemma_contexts_grow(ins, name, g, j + 1, p);
    } else {
        assert(ins.take(j) =~= ins);
    }
}

/// An entry account written for a prefix of the mappings stays in the entries of all.
proof fn lemma_entries_grow(ms: Seq<(Seq<char>, TypeV, TypeV, bool)>, j: int, p: Seq<char>)
    requires
        0 <= j <= ms.len(),
        occurs(entries_text(ms.take(j)), p),
    ensures
        occurs(entries_text(ms), p),
    decreases ms.len() - j,
{
    if j < ms.len() {
        assert(ms.take(j + 1).drop_last() =~= ms.take(j));
        assert(entries_text(ms.take(j + 1)) == entries_text(ms.take(j)) + entry_text(ms[j]));
        lemma_occurs_within(seq![], entries_text(ms.take(j)), entry_text(ms[j]), p);
        assert(seq![] + entries_text(ms.take(j)) + entry_text(ms[j]) =~= entries_text(ms.take(j)) + entry_text(ms[j]));
        lemma_entries_grow(ms, j + 1, p);
    } else {
        assert(ms.take(j) =~= ms);
    }
}

/// The head of the handler of an instruction: its name in snake case and its context
/// type.
pub open spec fn handler_head(i: InstrV) -> Seq<char> {
    "    pub fn "@ + snake(i.name) + "(ctx: Context<"@ + pascal(i.name) + ">"@
}

/// Every public instruction of a program gets a handler in `lib.rs`, named after it in
/// snake case and taking the accounts context named after it in Pascal case.
pub proof fn law_handler_per_public_instruction(p: ProgramV, g: GenV, k: int)
    requires
        0 <= k < p.instructions.len(),
        p.instructions[k].is_public,
    ensures
        occurs(lib_rs_s(p, g), handler_head(p.instructions[k])),
{
    let i = p.instructions[k];
    let h = after_helpers(p.instructions, g);
    let ms = p.modifiers;
    let head = handler_head(i);
    let hs = handler_s(i, ms, h);
    assert(hs =~= head + hs.subrange(head.len() as int, hs.len() as int));
    lemma_occurs_start(head, hs.subrange(head.len() as int, hs.len() as int));
    let ins = p.instructions;
    assert(ins.take(k + 1).drop_last() =~= ins.take(k));
    assert(ins.take(k + 1).last() == i);
    lemma_occurs_within(handlers_s(ins.take(k), ms, h), hs, "\n"@, head);
    assert(handlers_s(ins.take(k + 1), ms, h) == handlers_s(ins.take(k), ms, h) + hs + "\n"@);
    lemma_handlers_grow(ins, ms, h, k + 1, head);
    let all = handlers_s(ins, ms, h);
    let before = lib_rs_s(p, g).subrange(0, lib_rs_s(p, g).len() - all.len() - "\n}\n"@.len());
    assert(lib_rs_s(p, g) =~= before + all + "\n}\n"@);
    lemma_occurs_within(before, all, "\n}\n"@, head);
}

/// Every public instruction of a program gets its accounts context in
/// `instructions.rs`.
pub proof fn law_context_per_public_instruction(p: ProgramV, g: GenV, k: int)
    requires
        0 <= k < p.instructions.len(),
        p.instructions[k].is_public,
    ensures
        occurs(instructions_rs_s(p, g), context_text(p.instructions[k], p.name, g)),
{
    let ins = p.instructions;
    let c = context_text(ins[k], p.name, g);
    lemma_occurs_self(c);
    assert(ins.take(k + 1).drop_last() =~= ins.take(k));
    assert(ins.take(k + 1).last() == ins[k]);
    lemma_occurs_within(contexts_s(ins.take(k), p.name, g), c, "\n"@, c);
    assert(contexts_s(ins.take(k + 1), p.name, g) == contexts_s(ins.take(k), p.name, g) + c + "\n"@);
    lemma_contexts_grow(ins, p.name, g, k + 1, c);
    let all = contexts_s(ins, p.name, g);
    let before = instructions_rs_s(p, g).subrange(0, instructions_rs_s(p, g).len() - all.len());
    assert(instructions_rs_s(p, g) =~= before + all + Seq::<char>::empty());
    lemma_occurs_within(before, all, Seq::<char>::empty(), c);
}

/// Every mapping of a program gets the account of its entries in `state.rs`.
pub proof fn law_entry_account_per_mapping(p: ProgramV, k: int)
    requires
        0 <= k < p.mappings.len(),
    ensures
        occurs(state_rs_s(p), entry_text(p.mappings[k])),
{
    let ms = p.mappings;
    let e = entry_text(ms[k]);
    lemma_occurs_self(e);
    assert(ms.take(k + 1).drop_last() =~= ms.take(k));
    assert(ms.take(k + 1).last() == ms[k]);
    lemma_occurs_within(entries_text(ms.take(k)), e, Seq::<char>::empty(), e);
    assert(entries_text(ms.take(k)) + e + Seq::<char>::empty() =~= entries_text(ms.take(k + 1)));
    lemma_entries_grow(ms, k + 1, e);
    let all = entries_text(ms);
    let before = state_rs_s(p).subrange(0, state_rs_s(p).len() - all.len());
    assert(state_rs_s(p) =~= before + all + Seq::<char>::empty());
    lemma_occurs_within(before, all, Seq::<char>::empty(), e);
}

/// In a generated project, every public instruction has its handler in `lib.rs` and its
/// context in `instructions.rs`, and every mapping its entry account in `state.rs`.
pub proof fn law_project_covers_program(p: ProgramV, g: GenV)
    ensures
        forall|k: int| 0 <= k < p.instructions.len() && p.instructions[k].is_public
            ==> occurs(project_s(p, g).lib_rs, #[trigger] handler_head(p.instructions[k])),
        forall|k: int| 0 <= k < p.instructions.len() && p.instructions[k].is_public
            ==> occurs(project_s(p, g).instructions_rs, #[trigger] context_text(p.instructions[k], p.name, after_lib(p, gen_for(p, g)))),
        forall|k: int| 0 <= k < p.mappings.len() ==> occurs(project_s(p, g).state_rs, #[trigger] entry_text(p.mappings[k])),
{
    assert forall|k: int| 0 <= k < p.instructions.len() && p.instructions[k].is_public implies
        occurs(project_s(p, g).lib_rs, #[trigger] handler_head(p.instructions[k])) by {
        law_handler_per_public_instruction(p, gen_for(p, g), k);
    }
    assert forall|k: int| 0 <= k < p.instructions.len() && p.instructions[k].is_public implies
        occurs(project_s(p, g).instructions_rs, #[trigger] context_text(p.instructions[k], p.name, after_lib(p, gen_for(p, g)))) by {
        law_context_per_public_instruction(p, after_lib(p, gen_for(p, g)), k);
    }
    assert forall|k: int| 0 <= k < p.mappings.len() implies occurs(project_s(p, g).state_rs, #[trigger] entry_text(p.mappings[k])) by {
        law_entry_account_per_mapping(p, k);
    }
}

/// A modifier whose body is only the placeholder leaves the function body as it is.
pub proof fn law_bare_modifier_keeps_body(inner: Seq<StmtV>, n: nat, g: GenV)
    ensures
        inl_stmts(seq![StmtV::Placeholder], inner, n, g) == gen_stmts(inner, n, g),
{
    let ss = seq![StmtV::Placeholder];
    assert(ss.drop_last() =~= Seq::<StmtV>::empty());
    assert(ss.last() == StmtV::Placeholder);
    assert(inl_stmt(StmtV::Placeholder, inner, n, g) == gen_stmts(inner, n, g));
    assert(inl_stmts(ss.drop_last(), inner, n, g) == Seq::<char>::empty());
    assert(inl_stmts(ss, inner, n, g) == inl_stmts(ss.drop_last(), inner, n, g) + inl_stmt(ss.last(), inner, n, g));
    assert(Seq::<char>::empty() + gen_stmts(inner, n, g) =~= gen_stmts(inner, n, g));
}

/// The parameters that are signers are read from the accounts of the context: each of
/// them is among the signer names the handler has in scope.
pub proof fn law_signers_in_scope(ps: Seq<(Seq<char>, TypeV)>, k: int)
    requires
        0 <= k < ps.len(),
        ps[k].1 == TypeV::Signer,
    ensures
        signer_names(ps).contains(snake(ps[k].0)),
    decreases ps.len(),
{
    if k == ps.len() - 1 {
        assert(signer_names(ps) == signer_names(ps.drop_last()).push(snake(ps[k].0)));
        assert(signer_names(ps)[signer_names(ps).len() - 1] == snake(ps[k].0));
    } else {
        assert(ps.drop_last()[k] == ps[k]);
        law_signers_in_scope(ps.drop_last(), k);
        let prev = signer_names(ps.drop_last());
        let j = choose|j: int| 0 <= j < prev.len() && prev[j] == snake(ps[k].0);
        if ps.last().1 == TypeV::Signer {
            assert(signer_names(ps) == prev.push(snake(ps.last().0)));
            assert(signer_names(ps)[j] == prev[j]);
        } else {
            assert(signer_names(ps) == prev);
        }
    }
}

/// The errors of an IDL have distinct codes, rising from 6000 in the order of the
/// program's errors.
pub proof fn law_idl_error_codes(p: ProgramV)
    ensures
        idl_errors_s(p)[0].0 == 6000,
        forall|j: int, k: int| 0 <= j < k < idl_errors_s(p).len() ==> #[trigger] idl_errors_s(p)[j].0 < #[trigger] idl_errors_s(p)[k].0,
{
}

/// Every instruction of an IDL takes the state account, written unless the instruction
/// only reads, then the signer.
pub proof fn law_idl_state_then_signer(i: InstrV, lowered: Seq<char>)
    ensures
        idl_accounts(i, lowered)[0] == ("state"@, !i.is_view, false),
        idl_accounts(i, lowered)[1] == ("signer"@, true, true),
{
}

/// An account written for a prefix of the mapping accesses stays in the accounts of all.
proof fn lemma_access_accounts_grow(accs: Seq<AccessV>, g: GenV, j: int, p: Seq<char>)
    requires
        0 <= j <= accs.len(),
        occurs(access_accounts_text(accs.take(j), g), p),
    ensures
        occurs(access_accounts_text(accs, g), p),
    decreases accs.len() - j,
{
    if j < accs.len() {
        assert(accs.take(j + 1).drop_last() =~= accs.take(j));
        assert(access_accounts_text(accs.take(j + 1), g) == access_accounts_text(accs.take(j), g) + access_account_text(accs[j], g));
        lemma_occurs_within(seq![], access_accounts_text(accs.take(j), g), access_account_text(accs[j], g), p);
        assert(seq![] + access_accounts_text(accs.take(j), g) + access_account_text(accs[j], g)
            =~= access_accounts_text(accs.take(j), g) + access_account_text(accs[j], g));
        lemma_access_accounts_grow(accs, g, j + 1, p);
    } else {
        assert(accs.take(j) =~= accs);
    }
}

/// Every mapping access of an instruction gets a derived account in its context, with
/// the seeds of its keys.
pub proof fn law_account_per_mapping_access(i: InstrV, program_name: Seq<char>, g: GenV, k: int)
    requires
        0 <= k < i.mapping_accesses.len(),
    ensures
        occurs(context_text(i, program_name, g), access_account_text(i.mapping_accesses[k], g)),
{
    let accs = i.mapping_accesses;
    let a = access_account_text(accs[k], g);
    lemma_occurs_self(a);
    assert(accs.take(k + 1).drop_last() =~= accs.take(k));
    assert(accs.take(k + 1).last() == accs[k]);
    lemma_occurs_within(access_accounts_text(accs.take(k), g), a, Seq::<char>::empty(), a);
    assert(access_accounts_text(accs.take(k), g) + a + Seq::<char>::empty() =~= access_accounts_text(accs.take(k + 1), g));
    lemma_access_accounts_grow(accs, g, k + 1, a);
    let all = access_accounts_text(accs, g);
    let c = context_text(i, program_name, g);
    let state_name = pascal(program_name) + "State"@;
    let seeds = seeds_accesses(i.mapping_accesses, i.params);
    let head = "#[derive(Accounts)]\n"@ + (if seeds.len() > 0 {
        "#[instruction("@ + join(seeds.map_values(|p: (Seq<char>, TypeV)| snake(p.0) + ": "@ + type_to_rust_s(p.1)), ", "@) + ")]\n"@
    } else {
        Seq::<char>::empty()
    }) + "pub struct "@ + pascal(i.name) + "<'info> {\n"@ + state_account_text(i, state_name)
        + "    #[account(mut)]\n    pub signer: Signer<'info>,\n"@ + signer_accounts_text(i.params);
    let tail = c.subrange((head.len() + all.len()) as int, c.len() as int);
    assert(c =~= head + all + tail);
    lemma_occurs_within(head, all, tail, a);
}

} // verus!
