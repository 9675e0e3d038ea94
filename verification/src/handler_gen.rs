//! The program module of a generated project: a handler per public instruction, with
//! the bodies of its modifiers inlined, and a helper function per internal one.

use vstd::prelude::*;
use crate::codegen_error::{err_v, CodegenError};
use crate::gen_spec::{gen_stmt, gen_stmts, indent, join, pascal, sol_err, stmt_bad, stmt_depth, stmts_bad, stmts_depth, GenV};
use crate::ir::{ExprV, StmtV, Instruction, type_v, params_v, stmt_v, stmts_v, InstructionParam, ModifierDefinition, SolanaProgram, SolanaType, Statement, TypeV};
use crate::lower::{names_v, to_snake_case};
use crate::lower_items::moddef_v;
use crate::lower_spec::snake;
use crate::program_spec::{InstrV, ModDefV};
use crate::lower_contract::program_v;
use crate::lower_items::instr_v;
use crate::project_spec::{any_token, after_helpers, after_lib, has_helper, helper_body_s, helper_lines, helper_s, helpers_bad, helpers_s, lib_rs_s, handler_s, handlers_bad, handlers_s, instr_bad, instr_body_s, last_signers, mods_bad, mods_text, program_shallow, shallow, with_signers, ret_text, find_moddef, handler_params, inl_bad, inl_bads, inl_stmt, inl_stmts, occurs, param_text, signer_names};
use crate::rust_gen::{chars_match_at, indent_str, join_strings, strs_v, text_outcome, to_pascal_case, type_to_rust, RustGenerator};
use crate::text::{chars_of, push_str, str_eq};
use crate::project_gen::uses_token;

verus! {

/// Whether `p` occurs in `s`.
pub fn contains_text(s: &str, p: &str) -> (b: bool)
    ensures
        b == occurs(s@, p@),
{
    let cs = chars_of(s);
    let ps = chars_of(p);
    if ps.len() > cs.len() {
        return false;
    }
    let last = cs.len() - ps.len();
    let mut i: usize = 0;
    while i < last
        invariant
            cs@ == s@,
            ps@ == p@,
            ps@.len() <= cs@.len(),
            last == cs@.len() - ps@.len(),
            i <= last,
            forall|j: int| 0 <= j < i ==> #[trigger] cs@.subrange(j, j + ps@.len()) != ps@,
        decreases last - i,
    {
        if chars_match_at(&cs, i, &ps) {
            return true;
        }
        i = i + 1;
    }
    if chars_match_at(&cs, last, &ps) {
        return true;
    }
    proof {
        assert forall|j: int| 0 <= j && j + p@.len() <= s@.len() implies #[trigger] s@.subrange(j, j + p@.len()) != p@ by {
            assert(j <= last);
        }
    }
    false
}

/// The names of the parameters that are signers, in snake case.
fn signer_names_of(ps: &Vec<InstructionParam>) -> (r: Vec<String>)
    ensures
        names_v(r@) == signer_names(params_v(ps@)),
{
    let ghost pv = params_v(ps@);
    let mut r: Vec<String> = Vec::new();
    let mut i: usize = 0;
    proof {
        assert(names_v(r@) =~= Seq::<Seq<char>>::empty());
    }
    while i < ps.len()
        invariant
            i <= ps@.len(),
            pv == params_v(ps@),
            names_v(r@) == signer_names(pv.take(i as int)),
        decreases ps@.len() - i,
    {
        proof {
            assert(pv.take(i + 1).drop_last() =~= pv.take(i as int));
            assert(pv.take(i + 1).last() == pv[i as int]);
        }
        if matches!(ps[i].ty, SolanaType::Signer) {
            let n = to_snake_case(ps[i].name.as_str());
            let ghost before = r@;
            r.push(n);
            proof {
                assert(names_v(r@) =~= names_v(before).push(n@));
            }
        }
        i = i + 1;
    }
    proof {
        assert(pv.take(i as int) =~= pv);
    }
    r
}

/// A parameter of a generated function.
fn param_text_of(p: &InstructionParam) -> (r: String)
    ensures
        r@ == param_text(crate::ir::param_v(*p)),
{
    let mut s = to_snake_case(p.name.as_str());
    push_str(&mut s, ": ");
    let t = type_to_rust(&p.ty);
    push_str(&mut s, t.as_str());
    s
}

/// The parameters of a handler: those that are not signers.
fn handler_params_of(ps: &Vec<InstructionParam>) -> (r: Vec<String>)
    ensures
        strs_v(r@) == handler_params(params_v(ps@)),
{
    let ghost pv = params_v(ps@);
    let mut r: Vec<String> = Vec::new();
    let mut i: usize = 0;
    proof {
        assert(strs_v(r@) =~= Seq::<Seq<char>>::empty());
    }
    while i < ps.len()
        invariant
            i <= ps@.len(),
            pv == params_v(ps@),
            strs_v(r@) == handler_params(pv.take(i as int)),
        decreases ps@.len() - i,
    {
        proof {
            assert(pv.take(i + 1).drop_last() =~= pv.take(i as int));
            assert(pv.take(i + 1).last() == pv[i as int]);
        }
        if !matches!(ps[i].ty, SolanaType::Signer) {
            let t = param_text_of(&ps[i]);
            let ghost before = r@;
            r.push(t);
            proof {
                assert(strs_v(r@) =~= strs_v(before).push(t@));
            }
        }
        i = i + 1;
    }
    proof {
        assert(pv.take(i as int) =~= pv);
    }
    r
}

/// The modifier definitions as values.
pub open spec fn moddefs_v(ms: Seq<ModifierDefinition>) -> Seq<ModDefV> {
    ms.map_values(|d: ModifierDefinition| moddef_v(d))
}

/// Where the first of the first `n` modifier definitions with the name stands.
fn find_moddef_at(ms: &Vec<ModifierDefinition>, n: usize, name: &str) -> (r: Option<usize>)
    requires
        n <= ms@.len(),
    ensures
        match r {
            Some(k) => k < n && find_moddef(moddefs_v(ms@.take(n as int)), name@) == Some(moddef_v(ms@[k as int])),
            None => find_moddef(moddefs_v(ms@.take(n as int)), name@) is None,
        },
    decreases n,
{
    let ghost vs = moddefs_v(ms@.take(n as int));
    if n == 0 {
        proof {
            assert(vs.len() == 0);
        }
        return None;
    }
    proof {
        assert(vs.drop_last() =~= moddefs_v(ms@.take(n - 1)));
        assert(vs.last() == moddef_v(ms@[n - 1]));
    }
    match find_moddef_at(ms, n - 1, name) {
        Some(k) => Some(k),
        None => {
            if str_eq(ms[n - 1].name.as_str(), name) {
                Some(n - 1)
            } else {
                None
            }
        },
    }
}

/// The result type of a generated function.
fn ret_text_of(r: &Option<SolanaType>) -> (s: String)
    ensures
        s@ == ret_text(match *r {
            Some(t) => Some(type_v(t)),
            None => None,
        }),
{
    match r {
        Some(t) => {
            let mut s = "Result<".to_owned();
            let x = type_to_rust(t);
            push_str(&mut s, x.as_str());
            push_str(&mut s, ">");
            s
        },
        None => "Result<()>".to_owned(),
    }
}

impl RustGenerator {
    /// A statement of a modifier with its placeholder replaced by the body it wraps.
    fn generate_inlined_statement(&self, stmt: &Statement, inner: &Vec<Statement>, indent: usize) -> (r: Result<String, CodegenError>)
        requires
            indent + stmt_depth(stmt_v(*stmt)) + stmts_depth(stmts_v(inner@)) < usize::MAX,
        ensures
            text_outcome(inl_bad(stmt_v(*stmt), stmts_v(inner@)), inl_stmt(stmt_v(*stmt), stmts_v(inner@), indent as nat, self.gen_v()), r),
        decreases stmt, 1nat,
    {
        match stmt {
            Statement::Placeholder => {
                proof {
                    assert(inner@.take(inner@.len() as int) =~= inner@);
                }
                self.generate_statements(inner, inner.len(), indent)
            },
            Statement::If { condition, then_block, else_block } => {
                let ind = indent_str(indent);
                let c = self.generate_expression(condition)?;
                let mut s = ind.clone();
                push_str(&mut s, "if ");
                push_str(&mut s, c.as_str());
                push_str(&mut s, " {\n");
                proof {
                    assert(then_block@.take(then_block@.len() as int) =~= then_block@);
                }
                let t = self.generate_inlined_statements(then_block, then_block.len(), inner, indent + 1)?;
                push_str(&mut s, t.as_str());
                match else_block {
                    Some(b) => {
                        proof {
                            assert(b@.take(b@.len() as int) =~= b@);
                        }
                        let e = self.generate_inlined_statements(b, b.len(), inner, indent + 1)?;
                        let mut tail = ind.clone();
                        push_str(&mut tail, "} else {\n");
                        push_str(&mut tail, e.as_str());
                        push_str(&mut s, tail.as_str());
                    },
                    None => {},
                }
                push_str(&mut s, ind.as_str());
                push_str(&mut s, "}\n");
                Ok(s)
            },
            _ => self.generate_statement(stmt, indent),
        }
    }

    /// The first `n` statements of a modifier with the placeholder replaced.
    fn generate_inlined_statements(&self, ss: &Vec<Statement>, n: usize, inner: &Vec<Statement>, indent: usize) -> (r: Result<String, CodegenError>)
        requires
            n <= ss@.len(),
            indent + stmts_depth(stmts_v(ss@.take(n as int))) + stmts_depth(stmts_v(inner@)) < usize::MAX,
        ensures
            text_outcome(
                inl_bads(stmts_v(ss@.take(n as int)), stmts_v(inner@)),
                inl_stmts(stmts_v(ss@.take(n as int)), stmts_v(inner@), indent as nat, self.gen_v()),
                r,
            ),
        decreases ss@, n,
    {
        if n == 0 {
            return Ok(String::new());
        }
        proof {
            assert(ss@.take(n as int).drop_last() =~= ss@.take(n - 1));
            assert(ss@.take(n as int).last() == ss@[n - 1]);
            let xs = stmts_v(ss@.take(n as int));
            assert(xs.drop_last() =~= stmts_v(ss@.take(n - 1)));
            assert(xs.last() == stmt_v(ss@[n - 1]));
        }
        let mut s = self.generate_inlined_statements(ss, n - 1, inner, indent)?;
        let x = self.generate_inlined_statement(&ss[n - 1], inner, indent)?;
        push_str(&mut s, x.as_str());
        Ok(s)
    }

    /// The body of an instruction handler: the statements, inside its modifiers where it
    /// has any, and `Ok(())` where nothing returns; the instruction's signers are in scope.
    fn generate_instruction_body(&mut self, instruction: &Instruction, program: &SolanaProgram) -> (r: Result<String, CodegenError>)
        requires
            shallow(stmts_v(instruction.body@)),
            forall|k: int| 0 <= k < program.modifiers@.len() ==> #[trigger] shallow(moddef_v(program.modifiers@[k]).body),
        ensures
            final(self).gen_v() == with_signers(old(self).gen_v(), params_v(instruction.params@)),
            text_outcome(
                instr_bad(instr_v(*instruction), moddefs_v(program.modifiers@)),
                instr_body_s(instr_v(*instruction), moddefs_v(program.modifiers@), old(self).gen_v()),
                r,
            ),
    {
        let names = signer_names_of(&instruction.params);
        self.set_signers(names);
        let ghost g = self.gen_v();
        let ghost iv = instr_v(*instruction);
        let ghost ms = moddefs_v(program.modifiers@);
        let body = &instruction.body;
        proof {
            assert(body@.take(body@.len() as int) =~= body@);
            assert(program.modifiers@.take(program.modifiers@.len() as int) =~= program.modifiers@);
        }
        let mut out: String;
        if instruction.modifiers.len() == 0 {
            out = self.generate_statements(body, body.len(), 2)?;
        } else {
            out = String::new();
            let calls = &instruction.modifiers;
            let mut i: usize = 0;
            while i < calls.len()
                invariant
                    i <= calls@.len(),
                    g == self.gen_v(),
                    g == with_signers(old(self).gen_v(), params_v(instruction.params@)),
                    iv == instr_v(*instruction),
                    ms == moddefs_v(program.modifiers@),
                    body == &instruction.body,
                    calls == &instruction.modifiers,
                    body@.take(body@.len() as int) == body@,
                    program.modifiers@.take(program.modifiers@.len() as int) == program.modifiers@,
                    shallow(stmts_v(instruction.body@)),
                    forall|k: int| 0 <= k < program.modifiers@.len() ==> #[trigger] shallow(moddef_v(program.modifiers@[k]).body),
                    out@ == mods_text(iv.modifiers.take(i as int), iv.body, ms, g),
                    !mods_bad(iv.modifiers.take(i as int), iv.body, ms),
                decreases calls@.len() - i,
            {
                proof {
                    assert(iv.modifiers.take(i + 1).drop_last() =~= iv.modifiers.take(i as int));
                    assert(iv.modifiers.take(i + 1).last() == iv.modifiers[i as int]);
                }
                match find_moddef_at(&program.modifiers, program.modifiers.len(), calls[i].name.as_str()) {
                    Some(k) => {
                        let m = &program.modifiers[k];
                        proof {
                            assert(shallow(moddef_v(program.modifiers@[k as int]).body));
                            assert(m.body@.take(m.body@.len() as int) =~= m.body@);
                        }
                        let x = match self.generate_inlined_statements(&m.body, m.body.len(), body, 2) {
                            Ok(x) => x,
                            Err(e) => {
                                proof {
                                    lemma_mods_bad_prefix(iv.modifiers, iv.body, ms, i + 1);
                                }
                                return Err(e);
                            },
                        };
                        push_str(&mut out, x.as_str());
                    },
                    None => {
                        push_str(&mut out, "        // Modifier: ");
                        push_str(&mut out, calls[i].name.as_str());
                        push_str(&mut out, " (definition not found)\n");
                        let x = match self.generate_statements(body, body.len(), 2) {
                            Ok(x) => x,
                            Err(e) => {
                                proof {
                                    lemma_mods_bad_prefix(iv.modifiers, iv.body, ms, i + 1);
                                }
                                return Err(e);
                            },
                        };
                        push_str(&mut out, x.as_str());
                    },
                }
                i = i + 1;
            }
            proof {
                assert(iv.modifiers.take(i as int) =~= iv.modifiers);
            }
        }
        if instruction.returns.is_none() && !contains_text(out.as_str(), "Ok(") {
            push_str(&mut out, "        Ok(())\n");
        }
        Ok(out)
    }

    /// The handler of a public instruction inside the program module.
    fn generate_instruction_handler(&mut self, instruction: &Instruction, program: &SolanaProgram) -> (r: Result<String, CodegenError>)
        requires
            shallow(stmts_v(instruction.body@)),
            forall|k: int| 0 <= k < program.modifiers@.len() ==> #[trigger] shallow(moddef_v(program.modifiers@[k]).body),
        ensures
            final(self).gen_v() == with_signers(old(self).gen_v(), params_v(instruction.params@)),
            text_outcome(
                instr_bad(instr_v(*instruction), moddefs_v(program.modifiers@)),
                handler_s(instr_v(*instruction), moddefs_v(program.modifiers@), old(self).gen_v()),
                r,
            ),
    {
        let name = to_snake_case(instruction.name.as_str());
        let ctx_type = to_pascal_case(instruction.name.as_str());
        let params = handler_params_of(&instruction.params);
        let params_str = if params.len() == 0 {
            String::new()
        } else {
            let mut x = ", ".to_owned();
            let j = join_strings(&params, ", ");
            push_str(&mut x, j.as_str());
            x
        };
        let return_type = ret_text_of(&instruction.returns);
        let body = self.generate_instruction_body(instruction, program)?;
        let mut s = "    pub fn ".to_owned();
        push_str(&mut s, name.as_str());
        push_str(&mut s, "(ctx: Context<");
        push_str(&mut s, ctx_type.as_str());
        push_str(&mut s, ">");
        push_str(&mut s, params_str.as_str());
        push_str(&mut s, ") -> ");
        push_str(&mut s, return_type.as_str());
        push_str(&mut s, " {\n");
        push_str(&mut s, body.as_str());
        push_str(&mut s, "\n    }\n");
        Ok(s)
    }

    /// The handlers of the public instructions, each followed by an empty line.
    fn generate_instruction_handlers(&mut self, program: &SolanaProgram) -> (r: Result<String, CodegenError>)
        requires
            program_shallow(program_v(*program)),
        ensures
            final(self).gen_v().events == old(self).gen_v().events,
            final(self).gen_v().internal == old(self).gen_v().internal,
            final(self).gen_v().in_helper == old(self).gen_v().in_helper,
            r is Ok ==> final(self).gen_v().signer_params == last_signers(program_v(*program).instructions, old(self).gen_v().signer_params),
            text_outcome(
                handlers_bad(program_v(*program).instructions, program_v(*program).modifiers),
                handlers_s(program_v(*program).instructions, program_v(*program).modifiers, old(self).gen_v()),
                r,
            ),
    {
        let ghost g0 = self.gen_v();
        let ghost pv = program_v(*program);
        proof {
            assert(pv.modifiers == moddefs_v(program.modifiers@));
        }
        let mut out = String::new();
        let mut i: usize = 0;
        while i < program.instructions.len()
            invariant
                i <= program.instructions@.len(),
                pv == program_v(*program),
                g0 == old(self).gen_v(),
                pv.modifiers == moddefs_v(program.modifiers@),
                program_shallow(pv),
                self.gen_v() == (GenV { signer_params: last_signers(pv.instructions.take(i as int), g0.signer_params), ..g0 }),
                out@ == handlers_s(pv.instructions.take(i as int), pv.modifiers, g0),
                !handlers_bad(pv.instructions.take(i as int), pv.modifiers),
            decreases program.instructions@.len() - i,
        {
            proof {
                assert(pv.instructions.take(i + 1).drop_last() =~= pv.instructions.take(i as int));
                assert(pv.instructions.take(i + 1).last() == pv.instructions[i as int]);
                assert(shallow(pv.instructions[i as int].body));
                assert forall|k: int| 0 <= k < program.modifiers@.len() implies #[trigger] shallow(moddef_v(program.modifiers@[k]).body) by {
                    assert(shallow(pv.modifiers[k].body));
                }
            }
            let ins = &program.instructions[i];
            if ins.is_public {
                let h = match self.generate_instruction_handler(ins, program) {
                    Ok(h) => h,
                    Err(e) => {
                        proof {
                            lemma_handlers_bad_prefix(pv.instructions, pv.modifiers, i + 1);
                        }
                        return Err(e);
                    },
                };
                push_str(&mut out, h.as_str());
                push_str(&mut out, "\n");
            }
            i = i + 1;
        }
        proof {
            assert(pv.instructions.take(i as int) =~= pv.instructions);
        }
        Ok(out)
    }
}

impl RustGenerator {
    /// The first `n` statements of a helper function, each followed by an empty line.
    fn generate_helper_lines(&self, ss: &Vec<Statement>, n: usize) -> (r: Result<String, CodegenError>)
        requires
            n <= ss@.len(),
            1 + stmts_depth(stmts_v(ss@.take(n as int))) < usize::MAX,
        ensures
            text_outcome(stmts_bad(stmts_v(ss@.take(n as int))), helper_lines(stmts_v(ss@.take(n as int)), self.gen_v()), r),
        decreases n,
    {
        if n == 0 {
            return Ok(String::new());
        }
        proof {
            assert(ss@.take(n as int).drop_last() =~= ss@.take(n - 1));
            assert(ss@.take(n as int).last() == ss@[n - 1]);
            let xs = stmts_v(ss@.take(n as int));
            assert(xs.drop_last() =~= stmts_v(ss@.take(n - 1)));
            assert(xs.last() == stmt_v(ss@[n - 1]));
        }
        let mut s = self.generate_helper_lines(ss, n - 1)?;
        let x = self.generate_statement(&ss[n - 1], 1)?;
        push_str(&mut s, x.as_str());
        push_str(&mut s, "\n");
        Ok(s)
    }

    /// The body of a helper function, with `Ok(())` where nothing returns.
    fn generate_helper_body(&self, instruction: &Instruction) -> (r: Result<String, CodegenError>)
        requires
            shallow(stmts_v(instruction.body@)),
        ensures
            text_outcome(stmts_bad(stmts_v(instruction.body@)), helper_body_s(instr_v(*instruction), self.gen_v()), r),
    {
        proof {
            assert(instruction.body@.take(instruction.body@.len() as int) =~= instruction.body@);
        }
        let mut body = self.generate_helper_lines(&instruction.body, instruction.body.len())?;
        if instruction.returns.is_none() && !contains_text(body.as_str(), "Ok(())") {
            push_str(&mut body, "    Ok(())\n");
        }
        Ok(body)
    }

    /// A non-public instruction as a function outside the program module, which takes the
    /// state account as its first parameter; its body is written as a helper's.
    fn generate_helper_function(&mut self, instruction: &Instruction, program: &SolanaProgram) -> (r: Result<String, CodegenError>)
        requires
            shallow(stmts_v(instruction.body@)),
        ensures
            final(self).gen_v() == (GenV { in_helper: false, ..old(self).gen_v() }),
            text_outcome(stmts_bad(stmts_v(instruction.body@)), helper_s(instr_v(*instruction), program.name@, old(self).gen_v()), r),
    {
        let ghost pv = params_v(instruction.params@);
        let name = to_snake_case(instruction.name.as_str());
        let mut first = "state: ".to_owned();
        push_str(&mut first, "&mut crate::state::");
        let pn = to_pascal_case(program.name.as_str());
        push_str(&mut first, pn.as_str());
        push_str(&mut first, "State");
        let mut all: Vec<String> = Vec::new();
        all.push(first);
        let ghost head = seq![all@[0]@];
        let mut i: usize = 0;
        proof {
            assert(strs_v(all@) =~= head + pv.take(0).map_values(|q: (Seq<char>, TypeV)| param_text(q)));
        }
        while i < instruction.params.len()
            invariant
                i <= instruction.params@.len(),
                pv == params_v(instruction.params@),
                strs_v(all@) == head + pv.take(i as int).map_values(|q: (Seq<char>, TypeV)| param_text(q)),
            decreases instruction.params@.len() - i,
        {
            let t = param_text_of(&instruction.params[i]);
            let ghost before = all@;
            all.push(t);
            proof {
                assert(pv.take(i + 1).map_values(|q: (Seq<char>, TypeV)| param_text(q))
                    =~= pv.take(i as int).map_values(|q: (Seq<char>, TypeV)| param_text(q)).push(param_text(pv[i as int])));
                assert(strs_v(all@) =~= strs_v(before).push(t@));
            }
            i = i + 1;
        }
        proof {
            assert(pv.take(i as int) =~= pv);
        }
        let params_str = join_strings(&all, ", ");
        let return_type = ret_text_of(&instruction.returns);
        self.set_in_helper(true);
        let body = self.generate_helper_body(instruction);
        self.set_in_helper(false);
        let body = body?;
        let mut s = "/// Internal helper function: ".to_owned();
        push_str(&mut s, instruction.name.as_str());
        push_str(&mut s, "\nfn ");
        push_str(&mut s, name.as_str());
        push_str(&mut s, "(");
        push_str(&mut s, params_str.as_str());
        push_str(&mut s, ") -> ");
        push_str(&mut s, return_type.as_str());
        push_str(&mut s, " {\n");
        push_str(&mut s, body.as_str());
        push_str(&mut s, "\n}\n");
        Ok(s)
    }

    /// The helper functions of the non-public instructions, each followed by an empty line.
    fn generate_helper_functions(&mut self, program: &SolanaProgram) -> (r: Result<String, CodegenError>)
        requires
            program_shallow(program_v(*program)),
        ensures
            r is Ok ==> final(self).gen_v() == after_helpers(program_v(*program).instructions, old(self).gen_v()),
            r is Err ==> final(self).gen_v() == (GenV { in_helper: false, ..old(self).gen_v() }),
            text_outcome(
                helpers_bad(program_v(*program).instructions),
                helpers_s(program_v(*program).instructions, program.name@, old(self).gen_v()),
                r,
            ),
    {
        let ghost g0 = self.gen_v();
        let ghost pv = program_v(*program);
        let mut out = String::new();
        let mut i: usize = 0;
        while i < program.instructions.len()
            invariant
                i <= program.instructions@.len(),
                pv == program_v(*program),
                g0 == old(self).gen_v(),
                program_shallow(pv),
                self.gen_v() == after_helpers(pv.instructions.take(i as int), g0),
                out@ == helpers_s(pv.instructions.take(i as int), program.name@, g0),
                !helpers_bad(pv.instructions.take(i as int)),
            decreases program.instructions@.len() - i,
        {
            proof {
                assert(pv.instructions.take(i + 1).drop_last() =~= pv.instructions.take(i as int));
                assert(pv.instructions.take(i + 1).last() == pv.instructions[i as int]);
                assert(shallow(pv.instructions[i as int].body));
            }
            let ins = &program.instructions[i];
            if !ins.is_public {
                let h = match self.generate_helper_function(ins, program) {
                    Ok(h) => h,
                    Err(e) => {
                        proof {
                            lemma_helpers_bad_prefix(pv.instructions, i + 1);
                        }
                        return Err(e);
                    },
                };
                push_str(&mut out, h.as_str());
                push_str(&mut out, "\n");
            }
            i = i + 1;
        }
        proof {
            assert(pv.instructions.take(i as int) =~= pv.instructions);
        }
        Ok(out)
    }

    /// `lib.rs`: the imports, the modules, the helper functions and the program module
    /// with a handler per public instruction.
    pub fn generate_lib_rs(&mut self, program: &SolanaProgram) -> (r: Result<String, CodegenError>)
        requires
            program_shallow(program_v(*program)),
        ensures
            r is Ok ==> final(self).gen_v() == after_lib(program_v(*program), old(self).gen_v()),
            final(self).gen_v().events == old(self).gen_v().events,
            final(self).gen_v().internal == old(self).gen_v().internal,
            text_outcome(
                helpers_bad(program_v(*program).instructions) || handlers_bad(program_v(*program).instructions, program_v(*program).modifiers),
                lib_rs_s(program_v(*program), old(self).gen_v()),
                r,
            ),
    {
        let ghost g0 = self.gen_v();
        let name = to_snake_case(program.name.as_str());
        let mut imports = "use anchor_lang::prelude::*;\n".to_owned();
        if uses_token(program, false) {
            push_str(&mut imports, "use anchor_spl::token::CpiContext;\n");
        }
        let helper_fns = self.generate_helper_functions(program)?;
        let handlers = self.generate_instruction_handlers(program)?;
        let mut s = "//! Generated by SolScript compiler\n//! Contract: ".to_owned();
        push_str(&mut s, program.name.as_str());
        push_str(&mut s, "\n\n");
        push_str(&mut s, imports.as_str());
        push_str(&mut s, "\nmod state;\nmod instructions;\nmod error;\nmod events;\n\npub use state::*;\npub use instructions::*;\npub use error::*;\n// Events are accessed via events:: prefix to avoid name collisions\n\ndeclare_id!(\"11111111111111111111111111111111\");\n\n");
        push_str(&mut s, helper_fns.as_str());
        push_str(&mut s, "\n\n#[program]\npub mod ");
        push_str(&mut s, name.as_str());
        push_str(&mut s, " {\n    use super::*;\n\n");
        push_str(&mut s, handlers.as_str());
        push_str(&mut s, "\n}\n");
        proof {
            let pv = program_v(*program);
            assert(helper_fns@ == helpers_s(pv.instructions, pv.name, g0));
            assert(handlers@ == handlers_s(pv.instructions, pv.modifiers, after_helpers(pv.instructions, g0)));
            assert(imports@ == "use anchor_lang::prelude::*;\n"@
                + (if any_token(pv.instructions) { "use anchor_spl::token::CpiContext;\n"@ } else { Seq::<char>::empty() }));
            assert(s@ =~= lib_rs_s(pv, g0));
        }
        Ok(s)
    }
}

/// A prefix of the instructions whose helper functions write a transfer of lamports
/// makes them all do so.
proof fn lemma_helpers_bad_prefix(ins: Seq<InstrV>, j: int)
    requires
        0 <= j <= ins.len(),
        helpers_bad(ins.take(j)),
    ensures
        helpers_bad(ins),
    decreases ins.len() - j,
{
    if j < ins.len() {
        assert(ins.take(j + 1).drop_last() =~= ins.take(j));
        lemma_helpers_bad_prefix(ins, j + 1);
    } else {
        assert(ins.take(j) =~= ins);
    }
}

/// A prefix of the modifiers that writes a transfer of lamports makes them all do so.
proof fn lemma_mods_bad_prefix(calls: Seq<(Seq<char>, Seq<ExprV>)>, body: Seq<StmtV>, ms: Seq<ModDefV>, j: int)
    requires
        0 <= j <= calls.len(),
        mods_bad(calls.take(j), body, ms),
    ensures
        mods_bad(calls, body, ms),
    decreases calls.len() - j,
{
    if j < calls.len() {
        assert(calls.take(j + 1).drop_last() =~= calls.take(j));
        lemma_mods_bad_prefix(calls, body, ms, j + 1);
    } else {
        assert(calls.take(j) =~= calls);
    }
}

/// A prefix of the instructions whose handlers write a transfer of lamports makes them
/// all do so.
proof fn lemma_handlers_bad_prefix(ins: Seq<InstrV>, ms: Seq<ModDefV>, j: int)
    requires
        0 <= j <= ins.len(),
        handlers_bad(ins.take(j), ms),
    ensures
        handlers_bad(ins, ms),
    decreases ins.len() - j,
{
    if j < ins.len() {
        assert(ins.take(j + 1).drop_last() =~= ins.take(j));
        lemma_handlers_bad_prefix(ins, ms, j + 1);
    } else {
        assert(ins.take(j) =~= ins);
    }
}

} // verus!
