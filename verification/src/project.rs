//! A whole generated Anchor project: the text of each file, for the most derived of the
//! deployable programs.

use vstd::prelude::*;
use crate::ast;
use crate::codegen_error::{err_v, CodegenError, ErrV};
use crate::gen_spec::{context_bad, gen_stmts, stmt_depth, stmts_bad, stmts_depth, GenV};
use crate::handler_gen::moddefs_v;
use crate::ir::{event_v, stmt_v, stmts_v, Event, Instruction, SolanaProgram, Statement, TestFunction, TypeV};
use crate::lower::{names_v, to_snake_case};
use crate::lower_contract::{clone_events, lower_to_ir, program_v};
use crate::lower_items::test_v;
use crate::lower_spec::snake;
use crate::program_spec::{lower_to_ir_s, InstrV, ProgramV, TestV};
use crate::project_gen::{
    generate_anchor_toml, generate_cargo_toml, generate_error_rs, generate_events_rs, generate_gitignore,
    generate_package_json, generate_readme, generate_state_rs, uses_token,
};
use crate::project_spec::{
    after_lib, anchor_toml_s, any_public_token, cargo_toml_s, contexts_bad, contexts_s, error_rs_s, events_rs_s,
    handlers_bad, helpers_bad, instructions_rs_s, lib_rs_s, package_json_s, program_shallow, readme_s, rust_tests_s,
    shallow, state_rs_s, test_text, tests_bad, tests_text,
};
use crate::project_text::GITIGNORE;
use crate::rust_gen::{events_v, text_outcome, RustGenerator};
use crate::text::{chars_of, push_str};

verus! {

/// The files of a generated Anchor project.
#[derive(Debug)]
pub struct GeneratedProject {
    /// The program module with its handlers and helper functions (`lib.rs`).
    pub lib_rs: String,
    /// The state account, the entry accounts and the user types (`state.rs`).
    pub state_rs: String,
    /// The account contexts (`instructions.rs`).
    pub instructions_rs: String,
    /// The custom errors (`error.rs`).
    pub error_rs: String,
    /// The events (`events.rs`).
    pub events_rs: String,
    /// `Anchor.toml`.
    pub anchor_toml: String,
    /// `Cargo.toml` of the program.
    pub cargo_toml: String,
    /// The TypeScript client; the generator leaves it empty for the caller to fill.
    pub client_ts: String,
    /// The TypeScript tests; the generator leaves them empty for the caller to fill.
    pub tests_ts: String,
    /// The IDL as JSON; the generator leaves it empty for the caller, which serialises the
    /// IDL value, to fill.
    pub idl_json: String,
    /// `package.json` of the client.
    pub package_json: String,
    /// `README.md`.
    pub readme: String,
    /// `.gitignore`.
    pub gitignore: String,
    /// The unit tests from the program's test functions.
    pub rust_tests: String,
    /// Whether the program has test functions.
    pub has_tests: bool,
}

/// The files of a generated project as values.
pub struct ProjectV {
    pub lib_rs: Seq<char>,
    pub state_rs: Seq<char>,
    pub instructions_rs: Seq<char>,
    pub error_rs: Seq<char>,
    pub events_rs: Seq<char>,
    pub anchor_toml: Seq<char>,
    pub cargo_toml: Seq<char>,
    pub client_ts: Seq<char>,
    pub tests_ts: Seq<char>,
    pub idl_json: Seq<char>,
    pub package_json: Seq<char>,
    pub readme: Seq<char>,
    pub gitignore: Seq<char>,
    pub rust_tests: Seq<char>,
    pub has_tests: bool,
}

/// A generated project as a value.
pub open spec fn project_v(g: GeneratedProject) -> ProjectV {
    ProjectV {
        lib_rs: g.lib_rs@,
        state_rs: g.state_rs@,
        instructions_rs: g.instructions_rs@,
        error_rs: g.error_rs@,
        events_rs: g.events_rs@,
        anchor_toml: g.anchor_toml@,
        cargo_toml: g.cargo_toml@,
        client_ts: g.client_ts@,
        tests_ts: g.tests_ts@,
        idl_json: g.idl_json@,
        package_json: g.package_json@,
        readme: g.readme@,
        gitignore: g.gitignore@,
        rust_tests: g.rust_tests@,
        has_tests: g.has_tests,
    }
}

/// The names of the events and of their fields.
pub open spec fn ev_names(es: Seq<(Seq<char>, Seq<(Seq<char>, TypeV, bool)>)>) -> Seq<(Seq<char>, Seq<Seq<char>>)> {
    es.map_values(|e: (Seq<char>, Seq<(Seq<char>, TypeV, bool)>)| (e.0, e.1.map_values(|f: (Seq<char>, TypeV, bool)| f.0)))
}

/// The names of the non-public instructions, in snake case.
pub open spec fn internal_names(ins: Seq<InstrV>) -> Seq<Seq<char>>
    decreases ins.len(),
{
    if ins.len() == 0 {
        seq![]
    } else if ins.last().is_public {
        internal_names(ins.drop_last())
    } else {
        internal_names(ins.drop_last()).push(snake(ins.last().name))
    }
}

/// The generator as it writes a program: its events and its internal functions known.
pub open spec fn gen_for(p: ProgramV, g: GenV) -> GenV {
    GenV { events: ev_names(p.events), internal: internal_names(p.instructions), ..g }
}

/// Whether a transfer of lamports is written somewhere in the project of a program.
pub open spec fn project_bad(p: ProgramV) -> bool {
    helpers_bad(p.instructions) || handlers_bad(p.instructions, p.modifiers) || contexts_bad(p.instructions) || tests_bad(p.tests)
}

/// The project of a program, written by a generator in the given state.
pub open spec fn project_s(p: ProgramV, g: GenV) -> ProjectV {
    let g1 = gen_for(p, g);
    let g2 = after_lib(p, g1);
    ProjectV {
        lib_rs: lib_rs_s(p, g1),
        state_rs: state_rs_s(p),
        instructions_rs: instructions_rs_s(p, g2),
        error_rs: error_rs_s(p),
        events_rs: events_rs_s(p),
        anchor_toml: anchor_toml_s(p),
        cargo_toml: cargo_toml_s(p),
        client_ts: seq![],
        tests_ts: seq![],
        idl_json: seq![],
        package_json: package_json_s(p),
        readme: readme_s(p),
        gitignore: GITIGNORE@,
        rust_tests: rust_tests_s(p.tests, g2),
        has_tests: p.tests.len() > 0,
    }
}

/// A generator that knows no events, signers or internal functions.
pub open spec fn fresh_gen() -> GenV {
    GenV { events: seq![], signer_params: seq![], internal: seq![], in_helper: false }
}

/// The error for a source with no deployable contract.
pub open spec fn no_program_err() -> ErrV {
    ErrV::MissingElement("No deployable contracts found (abstract contracts cannot be deployed)"@)
}

/// What a generator in state `g` makes of a list of programs: the project of the last
/// one, the most derived; an error where it holds a transfer of lamports, or where the
/// list is empty.
pub open spec fn generate_s(ps: Seq<SolanaProgram>, g: GenV) -> Result<ProjectV, ErrV> {
    if ps.len() == 0 {
        Err(no_program_err())
    } else if project_bad(program_v(ps.last())) {
        Err(crate::gen_spec::sol_err())
    } else {
        Ok(project_s(program_v(ps.last()), g))
    }
}

/// Only the last program of a list counts: generating from the list gives, field by
/// field, what generating from its last program alone gives, and no program at all is
/// the missing-element error.
pub proof fn law_generate_last_only(ps: Seq<SolanaProgram>, g: GenV)
    ensures
        ps.len() > 0 ==> generate_s(ps, g) == generate_s(ps.subrange(ps.len() - 1, ps.len() as int), g),
        ps.len() == 0 ==> generate_s(ps, g) == Err::<ProjectV, ErrV>(no_program_err()),
{
    if ps.len() > 0 {
        assert(ps.subrange(ps.len() - 1, ps.len() as int).last() == ps.last());
    }
}

/// The error for statements nested deeper than the generator can indent.
pub open spec fn too_deep_err() -> ErrV {
    ErrV::UnsupportedFeature("statements nested deeper than can be indented"@)
}

/// The names of the events of a program as the generator keeps them.
proof fn lemma_events_names(v: Seq<Event>)
    ensures
        events_v(v) == ev_names(v.map_values(|e: Event| event_v(e))),
{
    let a = events_v(v);
    let b = ev_names(v.map_values(|e: Event| event_v(e)));
    assert forall|k: int| 0 <= k < v.len() implies #[trigger] a[k] == b[k] by {
        assert(a[k].1 =~= b[k].1);
    }
    assert(a =~= b);
}

/// The largest nesting depth the check below tells apart.
pub open spec fn depth_cap() -> nat {
    (usize::MAX / 4) as nat
}

/// How deep blocks nest in a statement, or the cap where it is deeper.
fn stmt_depth_capped(s: &Statement) -> (r: usize)
    ensures
        r as nat == if stmt_depth(stmt_v(*s)) < depth_cap() { stmt_depth(stmt_v(*s)) } else { depth_cap() },
    decreases s, 1nat,
{
    let cap: usize = usize::MAX / 4;
    match s {
        Statement::If { then_block, else_block, .. } => {
            proof {
                assert(then_block@.take(then_block@.len() as int) =~= then_block@);
            }
            let t = stmts_depth_capped(then_block, then_block.len());
            let m = match else_block {
                Some(b) => {
                    proof {
                        assert(b@.take(b@.len() as int) =~= b@);
                    }
                    let e = stmts_depth_capped(b, b.len());
                    if e > t { e } else { t }
                },
                None => t,
            };
            if m >= cap { cap } else { m + 1 }
        },
        Statement::While { body, .. } => {
            proof {
                assert(body@.take(body@.len() as int) =~= body@);
            }
            let b = stmts_depth_capped(body, body.len());
            if b >= cap { cap } else { b + 1 }
        },
        Statement::For { init, body, .. } => {
            proof {
                assert(body@.take(body@.len() as int) =~= body@);
            }
            let b = stmts_depth_capped(body, body.len());
            let b1 = if b >= cap { cap } else { b + 1 };
            match init {
                Some(x) => {
                    let d = stmt_depth_capped(x);
                    if d > b1 { d } else { b1 }
                },
                None => b1,
            }
        },
        _ => 0,
    }
}

/// How deep blocks nest in the first `n` statements, or the cap where they are deeper.
fn stmts_depth_capped(ss: &Vec<Statement>, n: usize) -> (r: usize)
    requires
        n <= ss@.len(),
    ensures
        r as nat == if stmts_depth(stmts_v(ss@.take(n as int))) < depth_cap() { stmts_depth(stmts_v(ss@.take(n as int))) } else { depth_cap() },
    decreases ss@, n,
{
    if n == 0 {
        return 0;
    }
    proof {
        assert(ss@.take(n as int).drop_last() =~= ss@.take(n - 1));
        assert(ss@.take(n as int).last() == ss@[n - 1]);
        let xs = stmts_v(ss@.take(n as int));
        assert(xs.drop_last() =~= stmts_v(ss@.take(n - 1)));
        assert(xs.last() == stmt_v(ss@[n - 1]));
    }
    let a = stmts_depth_capped(ss, n - 1);
    let b = stmt_depth_capped(&ss[n - 1]);
    if a > b { a } else { b }
}

/// Whether blocks in the statements nest no deeper than the generator can indent them.
fn is_shallow(ss: &Vec<Statement>) -> (b: bool)
    ensures
        b == shallow(stmts_v(ss@)),
{
    proof {
        assert(ss@.take(ss@.len() as int) =~= ss@);
    }
    stmts_depth_capped(ss, ss.len()) < usize::MAX / 4
}

/// Whether the bodies of a program's instructions, modifiers and tests are shallow.
pub fn program_is_shallow(p: &SolanaProgram) -> (b: bool)
    ensures
        b == program_shallow(program_v(*p)),
{
    let ghost pv = program_v(*p);
    let mut i: usize = 0;
    while i < p.instructions.len()
        invariant
            i <= p.instructions@.len(),
            pv == program_v(*p),
            forall|k: int| 0 <= k < i ==> #[trigger] shallow(pv.instructions[k].body),
        decreases p.instructions@.len() - i,
    {
        if !is_shallow(&p.instructions[i].body) {
            proof {
                assert(!shallow(pv.instructions[i as int].body));
            }
            return false;
        }
        i = i + 1;
    }
    let mut i: usize = 0;
    while i < p.modifiers.len()
        invariant
            i <= p.modifiers@.len(),
            pv == program_v(*p),
            forall|k: int| 0 <= k < p.instructions@.len() ==> #[trigger] shallow(pv.instructions[k].body),
            forall|k: int| 0 <= k < i ==> #[trigger] shallow(pv.modifiers[k].body),
        decreases p.modifiers@.len() - i,
    {
        if !is_shallow(&p.modifiers[i].body) {
            proof {
                assert(!shallow(pv.modifiers[i as int].body));
            }
            return false;
        }
        i = i + 1;
    }
    let mut i: usize = 0;
    while i < p.tests.len()
        invariant
            i <= p.tests@.len(),
            pv == program_v(*p),
            forall|k: int| 0 <= k < p.instructions@.len() ==> #[trigger] shallow(pv.instructions[k].body),
            forall|k: int| 0 <= k < p.modifiers@.len() ==> #[trigger] shallow(pv.modifiers[k].body),
            forall|k: int| 0 <= k < i ==> #[trigger] shallow(pv.tests[k].body),
        decreases p.tests@.len() - i,
    {
        if !is_shallow(&p.tests[i].body) {
            proof {
                assert(!shallow(pv.tests[i as int].body));
            }
            return false;
        }
        i = i + 1;
    }
    true
}

/// The names of the first `n` instructions that are not public, in snake case.
fn internal_names_of(program: &SolanaProgram, n: usize) -> (r: Vec<String>)
    requires
        n <= program.instructions@.len(),
    ensures
        names_v(r@) == internal_names(program_v(*program).instructions.take(n as int)),
    decreases n,
{
    if n == 0 {
        let v: Vec<String> = Vec::new();
        proof {
            assert(names_v(v@) =~= Seq::<Seq<char>>::empty());
        }
        return v;
    }
    let ghost ins = program_v(*program).instructions;
    proof {
        assert(ins.take(n as int).drop_last() =~= ins.take(n - 1));
        assert(ins.take(n as int).last() == ins[n - 1]);
    }
    let mut v = internal_names_of(program, n - 1);
    let i: &Instruction = &program.instructions[n - 1];
    if !i.is_public {
        let x = to_snake_case(i.name.as_str());
        let ghost before = v@;
        v.push(x);
        proof {
            assert(names_v(v@) =~= names_v(before).push(x@));
        }
    }
    v
}

/// A prefix of the instructions whose contexts write a transfer of lamports makes them all
/// do so.
proof fn lemma_contexts_bad_prefix(ins: Seq<InstrV>, j: int)
    requires
        0 <= j <= ins.len(),
        contexts_bad(ins.take(j)),
    ensures
        contexts_bad(ins),
    decreases ins.len() - j,
{
    if j < ins.len() {
        assert(ins.take(j + 1).drop_last() =~= ins.take(j));
        lemma_contexts_bad_prefix(ins, j + 1);
    } else {
        assert(ins.take(j) =~= ins);
    }
}

/// A prefix of the tests that writes a transfer of lamports makes them all do so.
proof fn lemma_tests_bad_prefix(ts: Seq<TestV>, j: int)
    requires
        0 <= j <= ts.len(),
        tests_bad(ts.take(j)),
    ensures
        tests_bad(ts),
    decreases ts.len() - j,
{
    if j < ts.len() {
        assert(ts.take(j + 1).drop_last() =~= ts.take(j));
        lemma_tests_bad_prefix(ts, j + 1);
    } else {
        assert(ts.take(j) =~= ts);
    }
}

impl RustGenerator {
    /// `instructions.rs`: an account context per public instruction.
    pub fn generate_instructions_rs(&self, program: &SolanaProgram) -> (r: Result<String, CodegenError>)
        ensures
            text_outcome(contexts_bad(program_v(*program).instructions), instructions_rs_s(program_v(*program), self.gen_v()), r),
    {
        let ghost pv = program_v(*program);
        let mut s = "//! Instruction account contexts\n\nuse anchor_lang::prelude::*;\n".to_owned();
        if uses_token(program, true) {
            push_str(&mut s, "use anchor_spl::token::Token;\n");
        }
        push_str(&mut s, "use crate::state::*;\n\n");
        let ghost head = s@;
        let mut i: usize = 0;
        while i < program.instructions.len()
            invariant
                i <= program.instructions@.len(),
                pv == program_v(*program),
                s@ == head + contexts_s(pv.instructions.take(i as int), program.name@, self.gen_v()),
                !contexts_bad(pv.instructions.take(i as int)),
            decreases program.instructions@.len() - i,
        {
            proof {
                assert(pv.instructions.take(i + 1).drop_last() =~= pv.instructions.take(i as int));
                assert(pv.instructions.take(i + 1).last() == pv.instructions[i as int]);
            }
            let ins = &program.instructions[i];
            if ins.is_public {
                let c = match self.generate_context_struct(ins, program) {
                    Ok(c) => c,
                    Err(e) => {
                        proof {
                            lemma_contexts_bad_prefix(pv.instructions, i + 1);
                        }
                        return Err(e);
                    },
                };
                push_str(&mut s, c.as_str());
                push_str(&mut s, "\n");
            }
            i = i + 1;
        }
        proof {
            assert(pv.instructions.take(i as int) =~= pv.instructions);
        }
        Ok(s)
    }

    /// A generated unit test: its attributes, its statements and the closing brace.
    fn generate_rust_test(&self, test: &TestFunction) -> (r: Result<String, CodegenError>)
        requires
            shallow(stmts_v(test.body@)),
        ensures
            text_outcome(stmts_bad(stmts_v(test.body@)), test_text(test_v(*test), self.gen_v()), r),
    {
        let name = to_snake_case(test.name.as_str());
        let mut s = match &test.should_fail {
            Some(m) => {
                let cs = chars_of(m.as_str());
                if cs.len() == 0 {
                    "    #[test]\n    #[should_panic]\n    fn ".to_owned()
                } else {
                    let mut h = "    #[test]\n    #[should_panic(expected = \"".to_owned();
                    push_str(&mut h, m.as_str());
                    push_str(&mut h, "\")]\n    fn ");
                    h
                }
            },
            None => "    #[test]\n    fn ".to_owned(),
        };
        push_str(&mut s, name.as_str());
        push_str(&mut s, "() {\n");
        proof {
            assert(test.body@.take(test.body@.len() as int) =~= test.body@);
        }
        let b = self.generate_statements(&test.body, test.body.len(), 2)?;
        push_str(&mut s, b.as_str());
        push_str(&mut s, "    }\n\n");
        Ok(s)
    }

    /// The unit tests of the program, inside a test module; nothing where it has none.
    pub fn generate_rust_tests(&self, program: &SolanaProgram) -> (r: Result<String, CodegenError>)
        requires
            program_shallow(program_v(*program)),
        ensures
            text_outcome(tests_bad(program_v(*program).tests), rust_tests_s(program_v(*program).tests, self.gen_v()), r),
    {
        let ghost pv = program_v(*program);
        if program.tests.len() == 0 {
            return Ok(String::new());
        }
        let mut s = "//! Generated tests from SolScript #[test] functions\n\n#[cfg(test)]\nmod solscript_tests {\n    use super::*;\n\n".to_owned();
        let ghost head = s@;
        let mut i: usize = 0;
        while i < program.tests.len()
            invariant
                i <= program.tests@.len(),
                pv == program_v(*program),
                program_shallow(pv),
                s@ == head + tests_text(pv.tests.take(i as int), self.gen_v()),
                !tests_bad(pv.tests.take(i as int)),
            decreases program.tests@.len() - i,
        {
            proof {
                assert(pv.tests.take(i + 1).drop_last() =~= pv.tests.take(i as int));
                assert(pv.tests.take(i + 1).last() == pv.tests[i as int]);
                assert(shallow(pv.tests[i as int].body));
            }
            let t = match self.generate_rust_test(&program.tests[i]) {
                Ok(t) => t,
                Err(e) => {
                    proof {
                        lemma_tests_bad_prefix(pv.tests, i + 1);
                    }
                    return Err(e);
                },
            };
            push_str(&mut s, t.as_str());
            i = i + 1;
        }
        proof {
            assert(pv.tests.take(i as int) =~= pv.tests);
        }
        push_str(&mut s, "}\n");
        Ok(s)
    }

    /// The project of the last program, the most derived one: its events and internal
    /// functions become known to the generator, then each file is written. No program
    /// is an error.
    pub fn generate(&mut self, programs: &Vec<SolanaProgram>) -> (r: Result<GeneratedProject, CodegenError>)
        requires
            programs@.len() > 0 ==> program_shallow(program_v(programs@.last())),
        ensures
            match r {
                Ok(x) => generate_s(programs@, old(self).gen_v()) == Ok::<ProjectV, ErrV>(project_v(x)),
                Err(e) => generate_s(programs@, old(self).gen_v()) == Err::<ProjectV, ErrV>(err_v(e)),
            },
            programs@.len() == 0 ==> (r matches Err(e) && err_v(e) == no_program_err()),
            programs@.len() > 0 ==> {
                let p = program_v(programs@.last());
                if project_bad(p) {
                    r matches Err(e) && err_v(e) == crate::gen_spec::sol_err()
                } else {
                    r matches Ok(x) && project_v(x) == project_s(p, old(self).gen_v())
                }
            },
    {
        if programs.len() == 0 {
            return Err(CodegenError::MissingElement(
                "No deployable contracts found (abstract contracts cannot be deployed)".to_owned(),
            ));
        }
        let program = &programs[programs.len() - 1];
        let ghost pv = program_v(*program);
        let ghost g0 = self.gen_v();
        let events = clone_events(&program.events);
        proof {
            lemma_events_names(events@);
            lemma_events_names(program.events@);
            assert(events_v(events@) == ev_names(pv.events));
        }
        self.set_events(events);
        let internal = internal_names_of(program, program.instructions.len());
        proof {
            assert(pv.instructions.take(program.instructions@.len() as int) =~= pv.instructions);
        }
        self.set_internal(internal);
        proof {
            assert(self.gen_v() == gen_for(pv, g0));
        }
        let lib_rs = self.generate_lib_rs(program)?;
        let state_rs = generate_state_rs(program);
        let instructions_rs = self.generate_instructions_rs(program)?;
        let error_rs = generate_error_rs(program);
        let events_rs = generate_events_rs(program);
        let anchor_toml = generate_anchor_toml(program);
        let cargo_toml = generate_cargo_toml(program);
        let package_json = generate_package_json(program);
        let readme = generate_readme(program);
        let gitignore = generate_gitignore();
        let rust_tests = self.generate_rust_tests(program)?;
        let has_tests = program.tests.len() > 0;
        Ok(GeneratedProject {
            lib_rs,
            state_rs,
            instructions_rs,
            error_rs,
            events_rs,
            anchor_toml,
            cargo_toml,
            client_ts: String::new(),
            tests_ts: String::new(),
            idl_json: String::new(),
            package_json,
            readme,
            gitignore,
            rust_tests,
            has_tests,
        })
    }
}

/// Lower a source program and generate the project of its most derived deployable
/// contract. A lowering error is returned as it is; statements nested deeper than the
/// generator can indent are refused.
pub fn generate(program: &ast::Program) -> (r: Result<GeneratedProject, CodegenError>)
    requires
        lower_to_ir_s(*program) is Some,
    ensures
        match lower_to_ir_s(*program) {
            Some(Err(e)) => r matches Err(y) && err_v(y) == e,
            Some(Ok(ps)) => if ps.len() == 0 {
                r matches Err(y) && err_v(y) == no_program_err()
            } else if !program_shallow(ps.last()) {
                r matches Err(y) && err_v(y) == too_deep_err()
            } else if project_bad(ps.last()) {
                r matches Err(y) && err_v(y) == crate::gen_spec::sol_err()
            } else {
                r matches Ok(x) && project_v(x) == project_s(ps.last(), fresh_gen())
            },
            None => false,
        },
{
    let ir = lower_to_ir(program)?;
    let ghost ps = ir@.map_values(|p: SolanaProgram| program_v(p));
    if ir.len() > 0 {
        proof {
            assert(ps.last() == program_v(ir@.last()));
        }
        if !program_is_shallow(&ir[ir.len() - 1]) {
            return Err(CodegenError::UnsupportedFeature("statements nested deeper than can be indented".to_owned()));
        }
    }
    let mut generator = RustGenerator::new();
    generator.generate(&ir)
}

} // verus!
