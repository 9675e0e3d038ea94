//! The files of a generated Anchor project: `state.rs`, `error.rs`, `events.rs` and the
//! manifests around the program.

use vstd::prelude::*;
use crate::gen_spec::{innermost_s, max_len_s, pascal, type_to_rust_s};
use crate::ir::{opt_str_v, type_v, EnumDef, Event, MappingDef, ProgramError, SolanaProgram, SolanaType, StateField, StructDef};
use crate::lower::to_snake_case;
use crate::lower_contract::program_v;
use crate::lower_spec::snake;
use crate::project_spec::{public_items, readme_s, any_public_token, any_token, anchor_toml_s, cargo_toml_s, error_rs_s, errors_text, event_fields_text, events_rs_s, events_text, package_json_s, attr_line, entries_text, entry_text, enum_text, enums_text, field_line, state_fields_text, state_rs_s, struct_fields_text, struct_text, structs_text, variants_text};
use crate::project_text::{GITIGNORE, README_CLIENT, README_END, README_INTRO, README_USAGE};
use crate::rust_gen::{join_strings, strs_v, get_max_len_attribute, innermost_value_type, to_pascal_case, type_to_rust};
use crate::text::push_str;

verus! {

/// A line with an attribute, where there is one.
fn attr_line_of(a: &Option<String>) -> (r: String)
    ensures
        r@ == attr_line(opt_str_v(*a)),
{
    match a {
        Some(t) => {
            let mut s = "    ".to_owned();
            push_str(&mut s, t.as_str());
            push_str(&mut s, "\n");
            s
        },
        None => String::new(),
    }
}

/// A public field of a generated struct.
fn field_line_of(name: &str, ty: &SolanaType) -> (r: String)
    ensures
        r@ == field_line(name@, type_v(*ty)),
{
    let mut s = "    pub ".to_owned();
    let n = to_snake_case(name);
    push_str(&mut s, n.as_str());
    push_str(&mut s, ": ");
    let t = type_to_rust(ty);
    push_str(&mut s, t.as_str());
    push_str(&mut s, ",\n");
    s
}

/// The declaration of a user enum.
fn enum_text_of(e: &EnumDef) -> (r: String)
    ensures
        r@ == enum_text(crate::ir::enum_v(*e)),
{
    let ghost vs = crate::ir::enum_v(*e).1;
    let mut body = String::new();
    let mut i: usize = 0;
    while i < e.variants.len()
        invariant
            i <= e.variants@.len(),
            vs == crate::ir::enum_v(*e).1,
            vs.len() == e.variants@.len(),
            body@ == variants_text(vs.take(i as int)),
        decreases e.variants@.len() - i,
    {
        proof {
            assert(vs.take(i + 1).drop_last() =~= vs.take(i as int));
            assert(vs.take(i + 1).last() == e.variants@[i as int]@);
        }
        if i == 0 {
            push_str(&mut body, "    #[default]\n");
        }
        push_str(&mut body, "    ");
        let v = to_pascal_case(e.variants[i].as_str());
        push_str(&mut body, v.as_str());
        push_str(&mut body, ",\n");
        i = i + 1;
    }
    proof {
        assert(vs.take(i as int) =~= vs);
    }
    let mut s = "#[derive(AnchorSerialize, AnchorDeserialize, Clone, Copy, PartialEq, Eq, Default)]\n".to_owned();
    push_str(&mut s, "pub enum ");
    let n = to_pascal_case(e.name.as_str());
    push_str(&mut s, n.as_str());
    push_str(&mut s, " {\n");
    push_str(&mut s, body.as_str());
    push_str(&mut s, "}\n\n");
    s
}

/// The declaration of a user struct.
fn struct_text_of(d: &StructDef) -> (r: String)
    ensures
        r@ == struct_text(crate::ir::struct_v(*d)),
{
    let ghost fs = crate::ir::struct_v(*d).1;
    let mut body = String::new();
    let mut i: usize = 0;
    while i < d.fields.len()
        invariant
            i <= d.fields@.len(),
            fs == crate::ir::struct_v(*d).1,
            fs.len() == d.fields@.len(),
            body@ == struct_fields_text(fs.take(i as int)),
        decreases d.fields@.len() - i,
    {
        proof {
            assert(fs.take(i + 1).drop_last() =~= fs.take(i as int));
            assert(fs.take(i + 1).last() == fs[i as int]);
        }
        let f = field_line_of(d.fields[i].name.as_str(), &d.fields[i].ty);
        push_str(&mut body, f.as_str());
        i = i + 1;
    }
    proof {
        assert(fs.take(i as int) =~= fs);
    }
    let mut s = "#[derive(AnchorSerialize, AnchorDeserialize, Clone, Default)]\n".to_owned();
    push_str(&mut s, "pub struct ");
    let n = to_pascal_case(d.name.as_str());
    push_str(&mut s, n.as_str());
    push_str(&mut s, " {\n");
    push_str(&mut s, body.as_str());
    push_str(&mut s, "}\n\n");
    s
}

/// A field of the state account, with the length bound it needs.
fn state_field_of(f: &StateField) -> (r: String)
    ensures
        r@ == attr_line(max_len_s(type_v(f.ty))) + field_line(f.name@, type_v(f.ty)),
{
    let a = get_max_len_attribute(&f.ty);
    let mut s = attr_line_of(&a);
    let l = field_line_of(f.name.as_str(), &f.ty);
    push_str(&mut s, l.as_str());
    s
}

/// The account of the entries of a mapping.
fn entry_text_of(m: &MappingDef) -> (r: String)
    ensures
        r@ == entry_text((m.name@, type_v(m.key_ty), type_v(m.value_ty), m.is_public)),
{
    let inner = innermost_value_type(&m.value_ty);
    let value_type = type_to_rust(&inner);
    let key_type = type_to_rust(&m.key_ty);
    let key_attr = get_max_len_attribute(&m.key_ty);
    let value_attr = get_max_len_attribute(&inner);
    let mut s = "/// PDA account for ".to_owned();
    push_str(&mut s, m.name.as_str());
    push_str(&mut s, " mapping entries\n#[account]\n#[derive(InitSpace)]\npub struct ");
    let n = to_pascal_case(m.name.as_str());
    push_str(&mut s, n.as_str());
    push_str(&mut s, "Entry");
    push_str(&mut s, " {\n");
    let ka = attr_line_of(&key_attr);
    push_str(&mut s, ka.as_str());
    push_str(&mut s, "    /// The key for this entry\n    pub key: ");
    push_str(&mut s, key_type.as_str());
    push_str(&mut s, ",\n");
    let va = attr_line_of(&value_attr);
    push_str(&mut s, va.as_str());
    push_str(&mut s, "    /// The value stored at this key\n    pub value: ");
    push_str(&mut s, value_type.as_str());
    push_str(&mut s, ",\n");
    push_str(&mut s, "}\n\n");
    s
}

/// `state.rs`: user enums, user structs, the state account and an account for the
/// entries of each mapping.
pub fn generate_state_rs(program: &SolanaProgram) -> (r: String)
    ensures
        r@ == state_rs_s(program_v(*program)),
{
    let ghost pv = program_v(*program);
    let mut s = "//! Program state definitions\n\nuse anchor_lang::prelude::*;\n\n".to_owned();
    let ghost head = s@;
    let mut i: usize = 0;
    while i < program.enums.len()
        invariant
            i <= program.enums@.len(),
            pv == program_v(*program),
            s@ == head + enums_text(pv.enums.take(i as int)),
        decreases program.enums@.len() - i,
    {
        proof {
            assert(pv.enums.take(i + 1).drop_last() =~= pv.enums.take(i as int));
            assert(pv.enums.take(i + 1).last() == pv.enums[i as int]);
        }
        let e = enum_text_of(&program.enums[i]);
        push_str(&mut s, e.as_str());
        i = i + 1;
    }
    proof {
        assert(pv.enums.take(i as int) =~= pv.enums);
    }
    let ghost head = s@;
    let mut i: usize = 0;
    while i < program.structs.len()
        invariant
            i <= program.structs@.len(),
            pv == program_v(*program),
            s@ == head + structs_text(pv.structs.take(i as int)),
        decreases program.structs@.len() - i,
    {
        proof {
            assert(pv.structs.take(i + 1).drop_last() =~= pv.structs.take(i as int));
            assert(pv.structs.take(i + 1).last() == pv.structs[i as int]);
        }
        let d = struct_text_of(&program.structs[i]);
        push_str(&mut s, d.as_str());
        i = i + 1;
    }
    proof {
        assert(pv.structs.take(i as int) =~= pv.structs);
    }
    push_str(&mut s, "#[account]\n");
    push_str(&mut s, "#[derive(InitSpace)]\n");
    push_str(&mut s, "pub struct ");
    let n = to_pascal_case(program.name.as_str());
    push_str(&mut s, n.as_str());
    push_str(&mut s, "State {\n");
    let ghost head = s@;
    let fs = &program.state.fields;
    let mut i: usize = 0;
    while i < fs.len()
        invariant
            i <= fs@.len(),
            pv == program_v(*program),
            fs == &program.state.fields,
            s@ == head + state_fields_text(pv.state.take(i as int)),
        decreases fs@.len() - i,
    {
        proof {
            assert(pv.state.take(i + 1).drop_last() =~= pv.state.take(i as int));
            assert(pv.state.take(i + 1).last() == pv.state[i as int]);
        }
        let f = state_field_of(&fs[i]);
        push_str(&mut s, f.as_str());
        i = i + 1;
    }
    proof {
        assert(pv.state.take(i as int) =~= pv.state);
    }
    push_str(&mut s, "}\n\n");
    let ghost head = s@;
    let mut i: usize = 0;
    while i < program.mappings.len()
        invariant
            i <= program.mappings@.len(),
            pv == program_v(*program),
            s@ == head + entries_text(pv.mappings.take(i as int)),
        decreases program.mappings@.len() - i,
    {
        proof {
            assert(pv.mappings.take(i + 1).drop_last() =~= pv.mappings.take(i as int));
            assert(pv.mappings.take(i + 1).last() == pv.mappings[i as int]);
        }
        let m = entry_text_of(&program.mappings[i]);
        push_str(&mut s, m.as_str());
        i = i + 1;
    }
    proof {
        assert(pv.mappings.take(i as int) =~= pv.mappings);
    }
    s
}

/// `error.rs`: the error for a failed requirement, then one variant per declared error.
pub fn generate_error_rs(program: &SolanaProgram) -> (r: String)
    ensures
        r@ == error_rs_s(program_v(*program)),
{
    let ghost pv = program_v(*program);
    let mut s = "//! Custom error definitions\n\nuse anchor_lang::prelude::*;\n\n#[error_code]\npub enum CustomError {\n    #[msg(\"Requirement failed\")]\n    RequireFailed,\n".to_owned();
    let ghost head = s@;
    let mut i: usize = 0;
    while i < program.errors.len()
        invariant
            i <= program.errors@.len(),
            pv == program_v(*program),
            s@ == head + errors_text(pv.errors.take(i as int)),
        decreases program.errors@.len() - i,
    {
        proof {
            assert(pv.errors.take(i + 1).drop_last() =~= pv.errors.take(i as int));
            assert(pv.errors.take(i + 1).last() == pv.errors[i as int]);
        }
        let e: &ProgramError = &program.errors[i];
        push_str(&mut s, "    #[msg(\"");
        push_str(&mut s, e.name.as_str());
        push_str(&mut s, "\")]\n    ");
        let n = to_pascal_case(e.name.as_str());
        push_str(&mut s, n.as_str());
        push_str(&mut s, ",\n");
        i = i + 1;
    }
    proof {
        assert(pv.errors.take(i as int) =~= pv.errors);
    }
    push_str(&mut s, "}\n");
    s
}

/// The struct of an event.
fn event_text_of(e: &Event) -> (r: String)
    ensures
        r@ == "#[event]\n"@ + "pub struct "@ + pascal(crate::ir::event_v(*e).0) + " {\n"@
            + event_fields_text(crate::ir::event_v(*e).1) + "}\n\n"@,
{
    let ghost fs = crate::ir::event_v(*e).1;
    let mut body = String::new();
    let mut i: usize = 0;
    while i < e.fields.len()
        invariant
            i <= e.fields@.len(),
            fs == crate::ir::event_v(*e).1,
            fs.len() == e.fields@.len(),
            body@ == event_fields_text(fs.take(i as int)),
        decreases e.fields@.len() - i,
    {
        proof {
            assert(fs.take(i + 1).drop_last() =~= fs.take(i as int));
            assert(fs.take(i + 1).last() == fs[i as int]);
        }
        let f = field_line_of(e.fields[i].name.as_str(), &e.fields[i].ty);
        push_str(&mut body, f.as_str());
        i = i + 1;
    }
    proof {
        assert(fs.take(i as int) =~= fs);
    }
    let mut s = "#[event]\n".to_owned();
    push_str(&mut s, "pub struct ");
    let n = to_pascal_case(e.name.as_str());
    push_str(&mut s, n.as_str());
    push_str(&mut s, " {\n");
    push_str(&mut s, body.as_str());
    push_str(&mut s, "}\n\n");
    s
}

/// `events.rs`: one struct per event.
pub fn generate_events_rs(program: &SolanaProgram) -> (r: String)
    ensures
        r@ == events_rs_s(program_v(*program)),
{
    let ghost pv = program_v(*program);
    let mut s = "//! Event definitions\n\nuse anchor_lang::prelude::*;\n\n".to_owned();
    let ghost head = s@;
    let mut i: usize = 0;
    while i < program.events.len()
        invariant
            i <= program.events@.len(),
            pv == program_v(*program),
            s@ == head + events_text(pv.events.take(i as int)),
        decreases program.events@.len() - i,
    {
        proof {
            assert(pv.events.take(i + 1).drop_last() =~= pv.events.take(i as int));
            assert(pv.events.take(i + 1).last() == pv.events[i as int]);
        }
        let e = event_text_of(&program.events[i]);
        push_str(&mut s, e.as_str());
        i = i + 1;
    }
    proof {
        assert(pv.events.take(i as int) =~= pv.events);
    }
    s
}

/// Whether one of the instructions uses the token program; with `public_only`, one of
/// the public ones.
pub(crate) fn uses_token(program: &SolanaProgram, public_only: bool) -> (b: bool)
    ensures
        b == (if public_only { any_public_token(program_v(*program).instructions) } else { any_token(program_v(*program).instructions) }),
{
    let ghost is = program_v(*program).instructions;
    let mut i: usize = 0;
    while i < program.instructions.len()
        invariant
            i <= program.instructions@.len(),
            is == program_v(*program).instructions,
            is.len() == program.instructions@.len(),
            forall|k: int| 0 <= k < i ==> !(#[trigger] is[k].uses_token_program && (is[k].is_public || !public_only)),
        decreases program.instructions@.len() - i,
    {
        let ins = &program.instructions[i];
        if ins.uses_token_program && (ins.is_public || !public_only) {
            proof {
                assert(is[i as int].uses_token_program);
            }
            return true;
        }
        i = i + 1;
    }
    false
}

/// `Anchor.toml` for the program.
pub fn generate_anchor_toml(program: &SolanaProgram) -> (r: String)
    ensures
        r@ == anchor_toml_s(program_v(*program)),
{
    let mut s = "[features]\nseeds = false\nskip-lint = false\n\n[programs.localnet]\n".to_owned();
    let n = to_snake_case(program.name.as_str());
    push_str(&mut s, n.as_str());
    push_str(&mut s, " = \"11111111111111111111111111111111\"\n\n[registry]\nurl = \"https://api.apr.dev\"\n\n[provider]\ncluster = \"localnet\"\nwallet = \"~/.config/solana/id.json\"\n\n[scripts]\ntest = \"yarn run ts-mocha -p ./tsconfig.json -t 1000000 tests/**/*.ts\"\n");
    s
}

/// `Cargo.toml` of the program, with the token crate where an instruction needs it.
pub fn generate_cargo_toml(program: &SolanaProgram) -> (r: String)
    ensures
        r@ == cargo_toml_s(program_v(*program)),
{
    let n = to_snake_case(program.name.as_str());
    let mut deps = "anchor-lang = { version = \"0.32.0\", features = [\"init-if-needed\"] }\n".to_owned();
    if uses_token(program, false) {
        push_str(&mut deps, "anchor-spl = \"0.32.0\"\n");
    }
    let mut s = "[package]\nname = \"".to_owned();
    push_str(&mut s, n.as_str());
    push_str(&mut s, "\"\nversion = \"0.1.0\"\ndescription = \"Generated by SolScript compiler\"\nedition = \"2021\"\n\n[lib]\ncrate-type = [\"cdylib\", \"lib\"]\nname = \"");
    push_str(&mut s, n.as_str());
    push_str(&mut s, "\"\n\n[features]\nno-entrypoint = []\nno-idl = []\nno-log-ix-name = []\ncpi = [\"no-entrypoint\"]\ndefault = []\n\n[dependencies]\n");
    push_str(&mut s, deps.as_str());
    push_str(&mut s, "\n");
    s
}

/// `package.json` of the client.
pub fn generate_package_json(program: &SolanaProgram) -> (r: String)
    ensures
        r@ == package_json_s(program_v(*program)),
{
    let mut s = "{\n  \"name\": \"".to_owned();
    let n = to_snake_case(program.name.as_str());
    push_str(&mut s, n.as_str());
    push_str(&mut s, "-client\",\n  \"version\": \"0.1.0\",\n  \"description\": \"Generated client for ");
    push_str(&mut s, program.name.as_str());
    push_str(&mut s, " Solana program\",\n  \"main\": \"app/client.ts\",\n  \"scripts\": {\n    \"test\": \"anchor test\",\n    \"build\": \"anchor build\",\n    \"deploy\": \"anchor deploy\"\n  },\n  \"dependencies\": {\n    \"@coral-xyz/anchor\": \"^0.32.0\",\n    \"@solana/web3.js\": \"^1.95.0\"\n  },\n  \"devDependencies\": {\n    \"@types/chai\": \"^4.3.0\",\n    \"@types/mocha\": \"^10.0.0\",\n    \"chai\": \"^4.3.0\",\n    \"mocha\": \"^10.2.0\",\n    \"ts-mocha\": \"^10.0.0\",\n    \"typescript\": \"^5.0.0\"\n  }\n}\n");
    s
}

/// The list items of the first `n` instructions that are public.
fn public_items_of(program: &SolanaProgram, n: usize) -> (r: Vec<String>)
    requires
        n <= program.instructions@.len(),
    ensures
        strs_v(r@) == public_items(program_v(*program).instructions.take(n as int)),
    decreases n,
{
    if n == 0 {
        let v: Vec<String> = Vec::new();
        proof {
            assert(strs_v(v@) =~= Seq::<Seq<char>>::empty());
        }
        return v;
    }
    let ghost is = program_v(*program).instructions;
    proof {
        assert(is.take(n as int).drop_last() =~= is.take(n - 1));
        assert(is.take(n as int).last() == is[n - 1]);
    }
    let mut v = public_items_of(program, n - 1);
    let ins = &program.instructions[n - 1];
    if ins.is_public {
        let mut item = "- `".to_owned();
        let sn = to_snake_case(ins.name.as_str());
        push_str(&mut item, sn.as_str());
        push_str(&mut item, "`");
        let ghost old_v = v@;
        v.push(item);
        proof {
            assert(strs_v(v@) =~= strs_v(old_v).push(item@));
        }
    }
    v
}

/// The README: the name, the list of public instructions and how to use the client.
pub fn generate_readme(program: &SolanaProgram) -> (r: String)
    ensures
        r@ == readme_s(program_v(*program)),
{
    let items = public_items_of(program, program.instructions.len());
    proof {
        assert(program_v(*program).instructions.take(program.instructions@.len() as int) =~= program_v(*program).instructions);
    }
    let list = join_strings(&items, "\n");
    let pn = to_pascal_case(program.name.as_str());
    let mut s = "# ".to_owned();
    push_str(&mut s, program.name.as_str());
    push_str(&mut s, README_INTRO);
    push_str(&mut s, list.as_str());
    push_str(&mut s, README_USAGE);
    push_str(&mut s, pn.as_str());
    push_str(&mut s, README_CLIENT);
    push_str(&mut s, pn.as_str());
    push_str(&mut s, README_END);
    s
}

/// The ignore file of a generated project.
pub fn generate_gitignore() -> (r: String)
    ensures
        r@ == GITIGNORE@,
{
    GITIGNORE.to_owned()
}

} // verus!
