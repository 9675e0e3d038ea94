//! What the files of a generated Anchor project hold, stated over the values the
//! intermediate representation stands for.

use vstd::prelude::*;
use crate::gen_spec::{
    context_bad, context_text, gen_expr, stmts_depth, gen_stmt, gen_stmts, has_sol, indent, innermost_s, join, max_len_s, pascal,
    stmt_bad, stmts_bad, type_to_rust_s, GenV,
};
use crate::ir::{ExprV, StmtV, TypeV};
use crate::lower_spec::snake;
use crate::program_spec::{InstrV, ModDefV, ProgramV, TestV};
use crate::project_text::{README_CLIENT, README_END, README_INTRO, README_USAGE};

verus! {

/// Whether `p` occurs in `s`.
pub open spec fn occurs(s: Seq<char>, p: Seq<char>) -> bool {
    exists|i: int| 0 <= i && i + p.len() <= s.len() && #[trigger] s.subrange(i, i + p.len()) == p
}

/// A line with an attribute, where there is one.
pub open spec fn attr_line(a: Option<Seq<char>>) -> Seq<char> {
    match a {
        Some(t) => "    "@ + t + "\n"@,
        None => Seq::<char>::empty(),
    }
}

/// A public field of a generated struct.
pub open spec fn field_line(name: Seq<char>, t: TypeV) -> Seq<char> {
    "    pub "@ + snake(name) + ": "@ + type_to_rust_s(t) + ",\n"@
}

/// The variants of a generated enum, the first marked as the default.
pub open spec fn variants_text(vs: Seq<Seq<char>>) -> Seq<char>
    decreases vs.len(),
{
    if vs.len() == 0 {
        seq![]
    } else {
        variants_text(vs.drop_last()) + (if vs.len() == 1 { "    #[default]\n"@ } else { Seq::<char>::empty() })
            + "    "@ + pascal(vs.last()) + ",\n"@
    }
}

/// The declaration of a user enum.
pub open spec fn enum_text(e: (Seq<char>, Seq<Seq<char>>)) -> Seq<char> {
    "#[derive(AnchorSerialize, AnchorDeserialize, Clone, Copy, PartialEq, Eq, Default)]\n"@ + "pub enum "@ + pascal(e.0)
        + " {\n"@ + variants_text(e.1) + "}\n\n"@
}

/// The declarations of user enums, one after the other.
pub open spec fn enums_text(es: Seq<(Seq<char>, Seq<Seq<char>>)>) -> Seq<char>
    decreases es.len(),
{
    if es.len() == 0 {
        seq![]
    } else {
        enums_text(es.drop_last()) + enum_text(es.last())
    }
}

/// The fields of a user struct.
pub open spec fn struct_fields_text(fs: Seq<(Seq<char>, TypeV)>) -> Seq<char>
    decreases fs.len(),
{
    if fs.len() == 0 {
        seq![]
    } else {
        struct_fields_text(fs.drop_last()) + field_line(fs.last().0, fs.last().1)
    }
}

/// The declaration of a user struct.
pub open spec fn struct_text(s: (Seq<char>, Seq<(Seq<char>, TypeV)>)) -> Seq<char> {
    "#[derive(AnchorSerialize, AnchorDeserialize, Clone, Default)]\n"@ + "pub struct "@ + pascal(s.0) + " {\n"@
        + struct_fields_text(s.1) + "}\n\n"@
}

/// The declarations of user structs, one after the other.
pub open spec fn structs_text(ss: Seq<(Seq<char>, Seq<(Seq<char>, TypeV)>)>) -> Seq<char>
    decreases ss.len(),
{
    if ss.len() == 0 {
        seq![]
    } else {
        structs_text(ss.drop_last()) + struct_text(ss.last())
    }
}

/// The fields of the state account, each with the length bound it needs.
pub open spec fn state_fields_text(fs: Seq<(Seq<char>, TypeV, bool)>) -> Seq<char>
    decreases fs.len(),
{
    if fs.len() == 0 {
        seq![]
    } else {
        state_fields_text(fs.drop_last()) + attr_line(max_len_s(fs.last().1)) + field_line(fs.last().0, fs.last().1)
    }
}

/// The account of the entries of a mapping: its key and the innermost value.
pub open spec fn entry_text(m: (Seq<char>, TypeV, TypeV, bool)) -> Seq<char> {
    let inner = innermost_s(m.2);
    "/// PDA account for "@ + m.0 + " mapping entries\n#[account]\n#[derive(InitSpace)]\npub struct "@ + pascal(m.0)
        + "Entry"@ + " {\n"@ + attr_line(max_len_s(m.1)) + "    /// The key for this entry\n    pub key: "@
        + type_to_rust_s(m.1) + ",\n"@ + attr_line(max_len_s(inner)) + "    /// The value stored at this key\n    pub value: "@
        + type_to_rust_s(inner) + ",\n"@ + "}\n\n"@
}

/// The entry accounts of mappings, one after the other.
pub open spec fn entries_text(ms: Seq<(Seq<char>, TypeV, TypeV, bool)>) -> Seq<char>
    decreases ms.len(),
{
    if ms.len() == 0 {
        seq![]
    } else {
        entries_text(ms.drop_last()) + entry_text(ms.last())
    }
}

/// `state.rs`: user enums, user structs, the state account and the entry accounts.
pub open spec fn state_rs_s(p: ProgramV) -> Seq<char> {
    "//! Program state definitions\n\nuse anchor_lang::prelude::*;\n\n"@ + enums_text(p.enums) + structs_text(p.structs)
        + "#[account]\n"@ + "#[derive(InitSpace)]\n"@ + "pub struct "@ + pascal(p.name) + "State {\n"@
        + state_fields_text(p.state) + "}\n\n"@ + entries_text(p.mappings)
}

/// The variants of the custom errors.
pub open spec fn errors_text(es: Seq<(Seq<char>, Seq<(Seq<char>, TypeV)>)>) -> Seq<char>
    decreases es.len(),
{
    if es.len() == 0 {
        seq![]
    } else {
        errors_text(es.drop_last()) + "    #[msg(\""@ + es.last().0 + "\")]\n    "@ + pascal(es.last().0) + ",\n"@
    }
}

/// `error.rs`: the error for a failed requirement, then one per declared error.
pub open spec fn error_rs_s(p: ProgramV) -> Seq<char> {
    "//! Custom error definitions\n\nuse anchor_lang::prelude::*;\n\n#[error_code]\npub enum CustomError {\n    #[msg(\"Requirement failed\")]\n    RequireFailed,\n"@
        + errors_text(p.errors) + "}\n"@
}

/// The fields of an event.
pub open spec fn event_fields_text(fs: Seq<(Seq<char>, TypeV, bool)>) -> Seq<char>
    decreases fs.len(),
{
    if fs.len() == 0 {
        seq![]
    } else {
        event_fields_text(fs.drop_last()) + field_line(fs.last().0, fs.last().1)
    }
}

/// The event structs, one after the other.
pub open spec fn events_text(es: Seq<(Seq<char>, Seq<(Seq<char>, TypeV, bool)>)>) -> Seq<char>
    decreases es.len(),
{
    if es.len() == 0 {
        seq![]
    } else {
        events_text(es.drop_last()) + "#[event]\n"@ + "pub struct "@ + pascal(es.last().0) + " {\n"@
            + event_fields_text(es.last().1) + "}\n\n"@
    }
}

/// `events.rs`: one struct per event.
pub open spec fn events_rs_s(p: ProgramV) -> Seq<char> {
    "//! Event definitions\n\nuse anchor_lang::prelude::*;\n\n"@ + events_text(p.events)
}

/// Whether one of the instructions uses the token program.
pub open spec fn any_token(ins: Seq<InstrV>) -> bool {
    exists|k: int| 0 <= k < ins.len() && #[trigger] ins[k].uses_token_program
}

/// Whether one of the public instructions uses the token program.
pub open spec fn any_public_token(ins: Seq<InstrV>) -> bool {
    exists|k: int| 0 <= k < ins.len() && #[trigger] ins[k].uses_token_program && ins[k].is_public
}

/// `Anchor.toml` for the program.
pub open spec fn anchor_toml_s(p: ProgramV) -> Seq<char> {
    "[features]\nseeds = false\nskip-lint = false\n\n[programs.localnet]\n"@ + snake(p.name)
        + " = \"11111111111111111111111111111111\"\n\n[registry]\nurl = \"https://api.apr.dev\"\n\n[provider]\ncluster = \"localnet\"\nwallet = \"~/.config/solana/id.json\"\n\n[scripts]\ntest = \"yarn run ts-mocha -p ./tsconfig.json -t 1000000 tests/**/*.ts\"\n"@
}

/// `Cargo.toml` of the program, with the token crate where an instruction needs it.
pub open spec fn cargo_toml_s(p: ProgramV) -> Seq<char> {
    let n = snake(p.name);
    let deps = "anchor-lang = { version = \"0.32.0\", features = [\"init-if-needed\"] }\n"@
        + (if any_token(p.instructions) { "anchor-spl = \"0.32.0\"\n"@ } else { Seq::<char>::empty() });
    "[package]\nname = \""@ + n
        + "\"\nversion = \"0.1.0\"\ndescription = \"Generated by SolScript compiler\"\nedition = \"2021\"\n\n[lib]\ncrate-type = [\"cdylib\", \"lib\"]\nname = \""@
        + n
        + "\"\n\n[features]\nno-entrypoint = []\nno-idl = []\nno-log-ix-name = []\ncpi = [\"no-entrypoint\"]\ndefault = []\n\n[dependencies]\n"@
        + deps + "\n"@
}

/// `package.json` of the client.
pub open spec fn package_json_s(p: ProgramV) -> Seq<char> {
    "{\n  \"name\": \""@ + snake(p.name) + "-client\",\n  \"version\": \"0.1.0\",\n  \"description\": \"Generated client for "@
        + p.name
        + " Solana program\",\n  \"main\": \"app/client.ts\",\n  \"scripts\": {\n    \"test\": \"anchor test\",\n    \"build\": \"anchor build\",\n    \"deploy\": \"anchor deploy\"\n  },\n  \"dependencies\": {\n    \"@coral-xyz/anchor\": \"^0.32.0\",\n    \"@solana/web3.js\": \"^1.95.0\"\n  },\n  \"devDependencies\": {\n    \"@types/chai\": \"^4.3.0\",\n    \"@types/mocha\": \"^10.0.0\",\n    \"chai\": \"^4.3.0\",\n    \"mocha\": \"^10.2.0\",\n    \"ts-mocha\": \"^10.0.0\",\n    \"typescript\": \"^5.0.0\"\n  }\n}\n"@
}

/// The list items of the public instructions, each in snake case.
pub open spec fn public_items(ins: Seq<InstrV>) -> Seq<Seq<char>>
    decreases ins.len(),
{
    if ins.len() == 0 {
        seq![]
    } else if ins.last().is_public {
        public_items(ins.drop_last()).push("- `"@ + snake(ins.last().name) + "`"@)
    } else {
        public_items(ins.drop_last())
    }
}

/// The README: the name, the list of public instructions and how to use the client.
pub open spec fn readme_s(p: ProgramV) -> Seq<char> {
    "# "@ + p.name + README_INTRO@ + join(public_items(p.instructions), "\n"@) + README_USAGE@ + pascal(p.name)
        + README_CLIENT@ + pascal(p.name) + README_END@
}

/// The names of the parameters that are signers, in snake case.
pub open spec fn signer_names(ps: Seq<(Seq<char>, TypeV)>) -> Seq<Seq<char>>
    decreases ps.len(),
{
    if ps.len() == 0 {
        seq![]
    } else if ps.last().1 == TypeV::Signer {
        signer_names(ps.drop_last()).push(snake(ps.last().0))
    } else {
        signer_names(ps.drop_last())
    }
}

/// A statement of a modifier with its placeholder replaced by the body it wraps; an `if`
/// is followed into, so that a placeholder inside it is replaced too.
pub open spec fn inl_stmt(s: StmtV, inner: Seq<StmtV>, n: nat, g: GenV) -> Seq<char>
    decreases s, 1nat,
{
    match s {
        StmtV::Placeholder => gen_stmts(inner, n, g),
        StmtV::If { condition, then_block, else_block } => indent(n) + "if "@ + gen_expr(condition, g) + " {\n"@
            + inl_stmts(then_block, inner, n + 1, g) + (match else_block {
            Some(b) => indent(n) + "} else {\n"@ + inl_stmts(b, inner, n + 1, g),
            None => Seq::<char>::empty(),
        }) + indent(n) + "}\n"@,
        _ => gen_stmt(s, n, g),
    }
}

/// The statements of a modifier with the placeholder replaced, one after the other.
pub open spec fn inl_stmts(ss: Seq<StmtV>, inner: Seq<StmtV>, n: nat, g: GenV) -> Seq<char>
    decreases ss, 0nat,
{
    if ss.len() == 0 {
        seq![]
    } else {
        inl_stmts(ss.drop_last(), inner, n, g) + inl_stmt(ss.last(), inner, n, g)
    }
}

/// Whether a transfer of lamports is written where a modifier's statement is inlined.
pub open spec fn inl_bad(s: StmtV, inner: Seq<StmtV>) -> bool
    decreases s, 1nat,
{
    match s {
        StmtV::Placeholder => stmts_bad(inner),
        StmtV::If { condition, then_block, else_block } => has_sol(condition) || inl_bads(then_block, inner) || (match else_block {
            Some(b) => inl_bads(b, inner),
            None => false,
        }),
        _ => stmt_bad(s),
    }
}

/// Whether a transfer of lamports is written where a modifier's statements are inlined.
pub open spec fn inl_bads(ss: Seq<StmtV>, inner: Seq<StmtV>) -> bool
    decreases ss, 0nat,
{
    if ss.len() == 0 {
        false
    } else {
        inl_bads(ss.drop_last(), inner) || inl_bad(ss.last(), inner)
    }
}

/// The first modifier definition with the name.
pub open spec fn find_moddef(ms: Seq<ModDefV>, name: Seq<char>) -> Option<ModDefV>
    decreases ms.len(),
{
    if ms.len() == 0 {
        None
    } else {
        match find_moddef(ms.drop_last(), name) {
            Some(m) => Some(m),
            None => if ms.last().name == name {
                Some(ms.last())
            } else {
                None
            },
        }
    }
}

/// The body of an instruction as one modifier wraps it.
pub open spec fn mod_text(call: Seq<char>, body: Seq<StmtV>, ms: Seq<ModDefV>, g: GenV) -> Seq<char> {
    match find_moddef(ms, call) {
        Some(m) => inl_stmts(m.body, body, 2, g),
        None => "        // Modifier: "@ + call + " (definition not found)\n"@ + gen_stmts(body, 2, g),
    }
}

/// Whether a transfer of lamports is written where one modifier wraps the body.
pub open spec fn mod_bad(call: Seq<char>, body: Seq<StmtV>, ms: Seq<ModDefV>) -> bool {
    match find_moddef(ms, call) {
        Some(m) => inl_bads(m.body, body),
        None => stmts_bad(body),
    }
}

/// The body of an instruction as each of its modifiers wraps it, one after the other.
pub open spec fn mods_text(calls: Seq<(Seq<char>, Seq<ExprV>)>, body: Seq<StmtV>, ms: Seq<ModDefV>, g: GenV) -> Seq<char>
    decreases calls.len(),
{
    if calls.len() == 0 {
        seq![]
    } else {
        mods_text(calls.drop_last(), body, ms, g) + mod_text(calls.last().0, body, ms, g)
    }
}

/// Whether a transfer of lamports is written where the modifiers wrap the body.
pub open spec fn mods_bad(calls: Seq<(Seq<char>, Seq<ExprV>)>, body: Seq<StmtV>, ms: Seq<ModDefV>) -> bool
    decreases calls.len(),
{
    if calls.len() == 0 {
        false
    } else {
        mods_bad(calls.drop_last(), body, ms) || mod_bad(calls.last().0, body, ms)
    }
}

/// The generator with the signers of an instruction's parameters in scope.
pub open spec fn with_signers(g: GenV, ps: Seq<(Seq<char>, TypeV)>) -> GenV {
    GenV { signer_params: signer_names(ps), ..g }
}

/// The body of an instruction handler: the statements, inside its modifiers where it has
/// any, and `Ok(())` where nothing returns.
pub open spec fn instr_body_s(i: InstrV, ms: Seq<ModDefV>, g: GenV) -> Seq<char> {
    let h = with_signers(g, i.params);
    let b = if i.modifiers.len() == 0 { gen_stmts(i.body, 2, h) } else { mods_text(i.modifiers, i.body, ms, h) };
    if i.returns_ty is None && !occurs(b, "Ok("@) {
        b + "        Ok(())\n"@
    } else {
        b
    }
}

/// Whether a transfer of lamports is written in the body of an instruction handler.
pub open spec fn instr_bad(i: InstrV, ms: Seq<ModDefV>) -> bool {
    if i.modifiers.len() == 0 {
        stmts_bad(i.body)
    } else {
        mods_bad(i.modifiers, i.body, ms)
    }
}

/// A parameter of a generated function.
pub open spec fn param_text(q: (Seq<char>, TypeV)) -> Seq<char> {
    snake(q.0) + ": "@ + type_to_rust_s(q.1)
}

/// The parameters of a handler: those that are not signers, which the context holds.
pub open spec fn handler_params(ps: Seq<(Seq<char>, TypeV)>) -> Seq<Seq<char>>
    decreases ps.len(),
{
    if ps.len() == 0 {
        seq![]
    } else if ps.last().1 == TypeV::Signer {
        handler_params(ps.drop_last())
    } else {
        handler_params(ps.drop_last()).push(param_text(ps.last()))
    }
}

/// The result type of a generated function.
pub open spec fn ret_text(r: Option<TypeV>) -> Seq<char> {
    match r {
        Some(t) => "Result<"@ + type_to_rust_s(t) + ">"@,
        None => "Result<()>"@,
    }
}

/// The handler of a public instruction inside the program module.
pub open spec fn handler_s(i: InstrV, ms: Seq<ModDefV>, g: GenV) -> Seq<char> {
    let ps = handler_params(i.params);
    "    pub fn "@ + snake(i.name) + "(ctx: Context<"@ + pascal(i.name) + ">"@
        + (if ps.len() == 0 { Seq::<char>::empty() } else { ", "@ + join(ps, ", "@) }) + ") -> "@ + ret_text(i.returns_ty)
        + " {\n"@ + instr_body_s(i, ms, g) + "\n    }\n"@
}

/// The handlers of the public instructions, each followed by an empty line.
pub open spec fn handlers_s(ins: Seq<InstrV>, ms: Seq<ModDefV>, g: GenV) -> Seq<char>
    decreases ins.len(),
{
    if ins.len() == 0 {
        seq![]
    } else {
        handlers_s(ins.drop_last(), ms, g) + (if ins.last().is_public { handler_s(ins.last(), ms, g) + "\n"@ } else { Seq::<char>::empty() })
    }
}

/// Whether a transfer of lamports is written in a handler.
pub open spec fn handlers_bad(ins: Seq<InstrV>, ms: Seq<ModDefV>) -> bool
    decreases ins.len(),
{
    if ins.len() == 0 {
        false
    } else {
        handlers_bad(ins.drop_last(), ms) || (ins.last().is_public && instr_bad(ins.last(), ms))
    }
}

/// The signers in scope after the handlers: those of the last public instruction.
pub open spec fn last_signers(ins: Seq<InstrV>, prev: Seq<Seq<char>>) -> Seq<Seq<char>>
    decreases ins.len(),
{
    if ins.len() == 0 {
        prev
    } else if ins.last().is_public {
        signer_names(ins.last().params)
    } else {
        last_signers(ins.drop_last(), prev)
    }
}

/// The statements of a helper function, each followed by an empty line.
pub open spec fn helper_lines(ss: Seq<StmtV>, g: GenV) -> Seq<char>
    decreases ss.len(),
{
    if ss.len() == 0 {
        seq![]
    } else {
        helper_lines(ss.drop_last(), g) + gen_stmt(ss.last(), 1, g) + "\n"@
    }
}

/// The body of a helper function, with `Ok(())` where nothing returns.
pub open spec fn helper_body_s(i: InstrV, g: GenV) -> Seq<char> {
    let b = helper_lines(i.body, g);
    if i.returns_ty is None && !occurs(b, "Ok(())"@) {
        b + "    Ok(())\n"@
    } else {
        b
    }
}

/// A non-public instruction as a function outside the program module, which takes the
/// state account as its first parameter.
pub open spec fn helper_s(i: InstrV, program_name: Seq<char>, g: GenV) -> Seq<char> {
    let ps = seq!["state: "@ + "&mut crate::state::"@ + pascal(program_name) + "State"@]
        + i.params.map_values(|q: (Seq<char>, TypeV)| param_text(q));
    "/// Internal helper function: "@ + i.name + "\nfn "@ + snake(i.name) + "("@ + join(ps, ", "@) + ") -> "@
        + ret_text(i.returns_ty) + " {\n"@ + helper_body_s(i, GenV { in_helper: true, ..g }) + "\n}\n"@
}

/// The helper functions, each followed by an empty line.
pub open spec fn helpers_s(ins: Seq<InstrV>, program_name: Seq<char>, g: GenV) -> Seq<char>
    decreases ins.len(),
{
    if ins.len() == 0 {
        seq![]
    } else {
        helpers_s(ins.drop_last(), program_name, g) + (if ins.last().is_public {
            Seq::<char>::empty()
        } else {
            helper_s(ins.last(), program_name, g) + "\n"@
        })
    }
}

/// Whether a transfer of lamports is written in a helper function.
pub open spec fn helpers_bad(ins: Seq<InstrV>) -> bool
    decreases ins.len(),
{
    if ins.len() == 0 {
        false
    } else {
        helpers_bad(ins.drop_last()) || (!ins.last().is_public && stmts_bad(ins.last().body))
    }
}

/// Whether there is a non-public instruction.
pub open spec fn has_helper(ins: Seq<InstrV>) -> bool
    decreases ins.len(),
{
    if ins.len() == 0 {
        false
    } else {
        has_helper(ins.drop_last()) || !ins.last().is_public
    }
}

/// The generator as the handlers find it: out of helper bodies where any was written.
pub open spec fn after_helpers(ins: Seq<InstrV>, g: GenV) -> GenV {
    if has_helper(ins) { GenV { in_helper: false, ..g } } else { g }
}

/// `lib.rs`: the imports, the modules, the helper functions and the program module with
/// a handler per public instruction.
pub open spec fn lib_rs_s(p: ProgramV, g: GenV) -> Seq<char> {
    "//! Generated by SolScript compiler\n//! Contract: "@ + p.name + "\n\n"@ + "use anchor_lang::prelude::*;\n"@
        + (if any_token(p.instructions) { "use anchor_spl::token::CpiContext;\n"@ } else { Seq::<char>::empty() })
        + "\nmod state;\nmod instructions;\nmod error;\nmod events;\n\npub use state::*;\npub use instructions::*;\npub use error::*;\n// Events are accessed via events:: prefix to avoid name collisions\n\ndeclare_id!(\"11111111111111111111111111111111\");\n\n"@
        + helpers_s(p.instructions, p.name, g) + "\n\n#[program]\npub mod "@ + snake(p.name) + " {\n    use super::*;\n\n"@
        + handlers_s(p.instructions, p.modifiers, after_helpers(p.instructions, g)) + "\n}\n"@
}

/// The generator after `lib.rs`: out of helper bodies, with the signers of the last
/// handler in scope.
pub open spec fn after_lib(p: ProgramV, g: GenV) -> GenV {
    let h = after_helpers(p.instructions, g);
    GenV { signer_params: last_signers(p.instructions, h.signer_params), ..h }
}

/// The account contexts of the public instructions, each followed by an empty line.
pub open spec fn contexts_s(ins: Seq<InstrV>, program_name: Seq<char>, g: GenV) -> Seq<char>
    decreases ins.len(),
{
    if ins.len() == 0 {
        seq![]
    } else {
        contexts_s(ins.drop_last(), program_name, g) + (if ins.last().is_public {
            context_text(ins.last(), program_name, g) + "\n"@
        } else {
            Seq::<char>::empty()
        })
    }
}

/// Whether a transfer of lamports is written in an account context.
pub open spec fn contexts_bad(ins: Seq<InstrV>) -> bool
    decreases ins.len(),
{
    if ins.len() == 0 {
        false
    } else {
        contexts_bad(ins.drop_last()) || (ins.last().is_public && context_bad(ins.last()))
    }
}

/// `instructions.rs`: an account context per public instruction.
pub open spec fn instructions_rs_s(p: ProgramV, g: GenV) -> Seq<char> {
    "//! Instruction account contexts\n\nuse anchor_lang::prelude::*;\n"@
        + (if any_public_token(p.instructions) { "use anchor_spl::token::Token;\n"@ } else { Seq::<char>::empty() })
        + "use crate::state::*;\n\n"@ + contexts_s(p.instructions, p.name, g)
}

/// A generated unit test: its attributes, its statements and the closing brace.
pub open spec fn test_text(t: TestV, g: GenV) -> Seq<char> {
    let n = snake(t.name);
    let head = match t.should_fail {
        Some(m) => if m.len() == 0 {
            "    #[test]\n    #[should_panic]\n    fn "@ + n + "() {\n"@
        } else {
            "    #[test]\n    #[should_panic(expected = \""@ + m + "\")]\n    fn "@ + n + "() {\n"@
        },
        None => "    #[test]\n    fn "@ + n + "() {\n"@,
    };
    head + gen_stmts(t.body, 2, g) + "    }\n\n"@
}

/// The generated unit tests, one after the other.
pub open spec fn tests_text(ts: Seq<TestV>, g: GenV) -> Seq<char>
    decreases ts.len(),
{
    if ts.len() == 0 {
        seq![]
    } else {
        tests_text(ts.drop_last(), g) + test_text(ts.last(), g)
    }
}

/// The unit tests of the program, inside a test module; nothing where it has none.
pub open spec fn rust_tests_s(ts: Seq<TestV>, g: GenV) -> Seq<char> {
    if ts.len() == 0 {
        seq![]
    } else {
        "//! Generated tests from SolScript #[test] functions\n\n#[cfg(test)]\nmod solscript_tests {\n    use super::*;\n\n"@
            + tests_text(ts, g) + "}\n"@
    }
}

/// Whether a transfer of lamports is written in a unit test.
pub open spec fn tests_bad(ts: Seq<TestV>) -> bool
    decreases ts.len(),
{
    if ts.len() == 0 {
        false
    } else {
        tests_bad(ts.drop_last()) || stmts_bad(ts.last().body)
    }
}

/// Whether blocks nest in statements no deeper than the generator can indent them.
pub open spec fn shallow(ss: Seq<StmtV>) -> bool {
    stmts_depth(ss) < usize::MAX / 4
}

/// Whether the bodies of a program's instructions, modifiers and tests are shallow.
pub open spec fn program_shallow(p: ProgramV) -> bool {
    &&& forall|k: int| 0 <= k < p.instructions.len() ==> #[trigger] shallow(p.instructions[k].body)
    &&& forall|k: int| 0 <= k < p.modifiers.len() ==> #[trigger] shallow(p.modifiers[k].body)
    &&& forall|k: int| 0 <= k < p.tests.len() ==> #[trigger] shallow(p.tests[k].body)
}

} // verus!
