//! The Anchor code generator: Rust text for the intermediate representation.

use vstd::prelude::*;
use crate::codegen_error::{err_v, CodegenError};
use crate::gen_spec::{
    access_account_text, access_accounts_text, access_bad, context_bad, context_text, seeds_accesses,
    signer_accounts_text, state_account_text,
    has_name,
    find_param, innermost_s, key_seed_bad, key_seed_s, max_len_s, remove_all, seeds_expr, seeds_exprs,
    emit_field, find_event, gen_stmt, gen_stmts, indent, stmt_bad, stmt_depth, stmts_bad, stmts_depth,
    assert_text, binop_text, cpi_accounts, cpi_data, cpi_text, escape_quotes, gen_expr, gen_exprs, gen_lit,
    has_sol, has_sol_all, int_seq, join, pascal, pascal_piece, sol_err, token_text, type_to_rust_s, unop_text,
    GenV,
};
use crate::ir::{access_v, accesses_v, InstructionParam, MappingAccess, SolanaProgram, clone_type, params_v, Instruction, TypeV, stmt_v, stmts_v, Statement, exprs_v, expr_v, lit_v, type_v, BinaryOp, Event, EventField, ExprV, Expression, Literal, SolanaType, UnaryOp};
use crate::lower::{contains_name, names_v, to_snake_case};
use crate::lower_spec::snake;
use crate::lower_items::instr_v;
use crate::chars::{upper_first, to_uppercase_first};
use crate::text::{chars_of, dec_seq, dec_string_i128, dec_string_u128, push_char, push_str, str_eq};

verus! {

/// The texts of a list of strings.
pub open spec fn strs_v(v: Seq<String>) -> Seq<Seq<char>> {
    v.map_values(|s: String| s@)
}

/// The events of a program as the generator reads them: names and field names.
pub open spec fn events_v(v: Seq<Event>) -> Seq<(Seq<char>, Seq<Seq<char>>)> {
    v.map_values(|e: Event| (e.name@, e.fields@.map_values(|f: EventField| f.name@)))
}

/// The generator of Anchor projects from programs.
#[derive(Debug)]
pub struct RustGenerator {
    events: Vec<Event>,
    signer_params: Vec<String>,
    internal_functions: Vec<String>,
    in_helper_function: bool,
}

/// The outcome of writing an expression: its text, or the error for a transfer of
/// lamports in it.
pub open spec fn text_outcome(bad: bool, text: Seq<char>, r: Result<String, CodegenError>) -> bool {
    if bad {
        r matches Err(y) && err_v(y) == sol_err()
    } else {
        r matches Ok(s) && s@ == text
    }
}

/// Texts joined with a separator between each two.
pub fn join_strings(v: &Vec<String>, sep: &str) -> (r: String)
    ensures
        r@ == join(strs_v(v@), sep@),
{
    let mut r = String::new();
    let mut i: usize = 0;
    while i < v.len()
        invariant
            i <= v@.len(),
            r@ == join(strs_v(v@.take(i as int)), sep@),
        decreases v@.len() - i,
    {
        proof {
            assert(strs_v(v@.take(i + 1)).drop_last() =~= strs_v(v@.take(i as int)));
            assert(strs_v(v@.take(i + 1)).last() == v@[i as int]@);
        }
        if i > 0 {
            push_str(&mut r, sep);
        }
        push_str(&mut r, v[i].as_str());
        proof {
            if i == 0 {
                assert(strs_v(v@.take(1)) =~= seq![v@[0]@]);
                assert(r@ =~= v@[0]@);
            }
        }
        i = i + 1;
    }
    proof {
        assert(v@.take(v@.len() as int) =~= v@);
    }
    r
}

/// A name in Pascal case: each `_` is dropped and the character after it, like the
/// first, becomes its capital.
pub fn to_pascal_case(s: &str) -> (r: String)
    ensures
        r@ == pascal(s@),
{
    let cs = chars_of(s);
    let mut out = String::new();
    let mut capitalize_next = true;
    let mut i: usize = 0;
    while i < cs.len()
        invariant
            i <= cs@.len(),
            cs@ == s@,
            out@ == pascal(cs@.take(i as int)),
            capitalize_next == (i == 0 || cs@[i - 1] == '_'),
        decreases cs@.len() - i,
    {
        let c = cs[i];
        let ghost t = cs@.take(i + 1);
        proof {
            assert(t.drop_last() =~= cs@.take(i as int));
            assert(t[i as int] == c);
            if i > 0 {
                assert(t[i - 1] == cs@[i - 1]);
            }
        }
        if c == '_' {
            capitalize_next = true;
        } else if capitalize_next {
            push_char(&mut out, to_uppercase_first(c));
            capitalize_next = false;
        } else {
            push_char(&mut out, c);
        }
        proof {
            assert(out@ =~= pascal(cs@.take(i as int)) + pascal_piece(t, i as int));
        }
        i = i + 1;
    }
    proof {
        assert(cs@.take(cs@.len() as int) =~= cs@);
    }
    out
}

/// A string with each `"` preceded by a backslash.
pub fn escape_quotes_of(s: &str) -> (r: String)
    ensures
        r@ == escape_quotes(s@),
{
    let cs = chars_of(s);
    let mut out = String::new();
    let mut i: usize = 0;
    while i < cs.len()
        invariant
            i <= cs@.len(),
            cs@ == s@,
            out@ == escape_quotes(cs@.take(i as int)),
        decreases cs@.len() - i,
    {
        proof {
            assert(cs@.take(i + 1).drop_last() =~= cs@.take(i as int));
        }
        if cs[i] == '"' {
            push_char(&mut out, '\\');
            push_char(&mut out, '"');
        } else {
            push_char(&mut out, cs[i]);
        }
        proof {
            assert(out@ =~= escape_quotes(cs@.take(i as int)) + (if cs@[i as int] == '"' {
                seq!['\\', '"']
            } else {
                seq![cs@[i as int]]
            }));
        }
        i = i + 1;
    }
    proof {
        assert(cs@.take(cs@.len() as int) =~= cs@);
    }
    out
}

/// The text of a literal.
pub fn generate_literal(lit: &Literal) -> (r: String)
    ensures
        r@ == gen_lit(lit_v(*lit)),
{
    match lit {
        Literal::Bool(b) => if *b {
            "true".to_owned()
        } else {
            "false".to_owned()
        },
        Literal::Int(n) => {
            let mut s = dec_string_i128(*n);
            push_str(&mut s, "i128");
            s
        },
        Literal::Uint(n) => {
            let mut s = dec_string_u128(*n);
            push_str(&mut s, "u128");
            s
        },
        Literal::String(x) => {
            let mut s = "\"".to_owned();
            let e = escape_quotes_of(x.as_str());
            push_str(&mut s, e.as_str());
            push_str(&mut s, "\"");
            s
        },
        Literal::Pubkey(x) => {
            let mut s = "Pubkey::default() /* ".to_owned();
            push_str(&mut s, x.as_str());
            push_str(&mut s, " */");
            s
        },
        Literal::ZeroAddress => "Pubkey::default()".to_owned(),
        Literal::ZeroBytes(n) => {
            let mut s = "[0u8; ".to_owned();
            let d = dec_string_u128(*n as u128);
            push_str(&mut s, d.as_str());
            push_str(&mut s, "]");
            s
        },
    }
}

/// The text of a binary operator.
fn binop_str(op: BinaryOp) -> (r: &'static str)
    ensures
        r@ == binop_text(op),
{
    match op {
        BinaryOp::Add => "+",
        BinaryOp::Sub => "-",
        BinaryOp::Mul => "*",
        BinaryOp::Div => "/",
        BinaryOp::Rem => "%",
        BinaryOp::Eq => "==",
        BinaryOp::Ne => "!=",
        BinaryOp::Lt => "<",
        BinaryOp::Le => "<=",
        BinaryOp::Gt => ">",
        BinaryOp::Ge => ">=",
        BinaryOp::And => "&&",
        BinaryOp::Or => "||",
        BinaryOp::BitAnd => "&",
        BinaryOp::BitOr => "|",
        BinaryOp::BitXor => "^",
        BinaryOp::Shl => "<<",
        BinaryOp::Shr => ">>",
    }
}

/// The text of a unary operator.
fn unop_str(op: UnaryOp) -> (r: &'static str)
    ensures
        r@ == unop_text(op),
{
    match op {
        UnaryOp::Neg => "-",
        UnaryOp::Not => "!",
        UnaryOp::BitNot => "!",
    }
}

/// The Rust type a type becomes.
pub fn type_to_rust(ty: &SolanaType) -> (r: String)
    ensures
        r@ == type_to_rust_s(type_v(*ty)),
    decreases ty,
{
    match ty {
        SolanaType::U8 => "u8".to_owned(),
        SolanaType::U16 => "u16".to_owned(),
        SolanaType::U32 => "u32".to_owned(),
        SolanaType::U64 => "u64".to_owned(),
        SolanaType::U128 => "u128".to_owned(),
        SolanaType::I8 => "i8".to_owned(),
        SolanaType::I16 => "i16".to_owned(),
        SolanaType::I32 => "i32".to_owned(),
        SolanaType::I64 => "i64".to_owned(),
        SolanaType::I128 => "i128".to_owned(),
        SolanaType::Bool => "bool".to_owned(),
        SolanaType::Pubkey => "Pubkey".to_owned(),
        SolanaType::Signer => "Pubkey".to_owned(),
        SolanaType::String => "String".to_owned(),
        SolanaType::Bytes => "Vec<u8>".to_owned(),
        SolanaType::FixedBytes(n) => {
            let mut s = "[u8; ".to_owned();
            let d = dec_string_u128(*n as u128);
            push_str(&mut s, d.as_str());
            push_str(&mut s, "]");
            s
        },
        SolanaType::Array(e, n) => {
            let mut s = "[".to_owned();
            let t = type_to_rust(e);
            push_str(&mut s, t.as_str());
            push_str(&mut s, "; ");
            let d = dec_string_u128(*n as u128);
            push_str(&mut s, d.as_str());
            push_str(&mut s, "]");
            s
        },
        SolanaType::Vec(e) => {
            let mut s = "Vec<".to_owned();
            let t = type_to_rust(e);
            push_str(&mut s, t.as_str());
            push_str(&mut s, ">");
            s
        },
        SolanaType::Option(e) => {
            let mut s = "Option<".to_owned();
            let t = type_to_rust(e);
            push_str(&mut s, t.as_str());
            push_str(&mut s, ">");
            s
        },
        SolanaType::Mapping(_, _) => "/* Mapping - use PDAs */".to_owned(),
        SolanaType::Custom(name) => to_pascal_case(name.as_str()),
    }
}

/// An assertion: `assert!(..)` or `assert!(.., "message")`.
fn assert_str(head: &str, body: String, message: &Option<String>) -> (r: String)
    ensures
        r@ == assert_text(head@, body@, crate::ir::opt_str_v(*message)),
{
    let mut s = head.to_owned();
    push_str(&mut s, body.as_str());
    match message {
        Some(m) => {
            push_str(&mut s, ", \"");
            push_str(&mut s, m.as_str());
            push_str(&mut s, "\")");
        },
        None => {
            push_str(&mut s, ")");
        },
    }
    s
}

/// A call of a token instruction through the token program.
fn token_str(kind: &str, f1: &str, f2: &str, func: &str, a: &str, b: &str, c: &str, amount: &str) -> (r: String)
    ensures
        r@ == token_text(kind@, f1@, f2@, func@, a@, b@, c@, amount@),
{
    let mut s = "{\n            let cpi_accounts = anchor_spl::token::".to_owned();
    push_str(&mut s, kind);
    push_str(&mut s, " {\n                ");
    push_str(&mut s, f1);
    push_str(&mut s, ": ctx.accounts.");
    let sa = to_snake_case(a);
    push_str(&mut s, sa.as_str());
    push_str(&mut s, ".to_account_info(),\n                ");
    push_str(&mut s, f2);
    push_str(&mut s, ": ctx.accounts.");
    let sb = to_snake_case(b);
    push_str(&mut s, sb.as_str());
    push_str(&mut s, ".to_account_info(),\n                authority: ctx.accounts.");
    let sc = to_snake_case(c);
    push_str(&mut s, sc.as_str());
    push_str(&mut s, ".to_account_info(),\n            };\n            let cpi_program = ctx.accounts.token_program.to_account_info();\n            anchor_spl::token::");
    push_str(&mut s, func);
    push_str(&mut s, "(CpiContext::new(cpi_program, cpi_accounts), ");
    push_str(&mut s, amount);
    push_str(&mut s, " as u64)?\n        }");
    s
}

/// A call into another program.
fn cpi_str(program: &str, interface_name: &str, method: &str, args: &Vec<String>) -> (r: String)
    ensures
        r@ == cpi_text(program@, interface_name@, method@, strs_v(args@)),
{
    let ms = to_snake_case(method);
    let mut d0 = "let discriminator = anchor_lang::solana_program::hash::hash(b\"global:".to_owned();
    push_str(&mut d0, ms.as_str());
    push_str(&mut d0, "\").to_bytes();");
    let mut data: Vec<String> = Vec::new();
    data.push(d0);
    data.push("let mut data = discriminator[..8].to_vec();".to_owned());
    let mut metas: Vec<String> = Vec::new();
    let ghost f = |a: Seq<char>| "AnchorSerialize::serialize(&("@ + a + "), &mut data).unwrap();"@;
    let ghost h = |a: Seq<char>| "AccountMeta::new("@ + a + ", false)"@;
    let ghost head = strs_v(data@);
    let mut i: usize = 0;
    while i < args.len()
        invariant
            i <= args@.len(),
            head.len() == 2,
            strs_v(data@) == head + strs_v(args@.take(i as int)).map_values(f),
            strs_v(metas@) == strs_v(args@.take(i as int)).map_values(h),
            f == (|a: Seq<char>| "AnchorSerialize::serialize(&("@ + a + "), &mut data).unwrap();"@),
            h == (|a: Seq<char>| "AccountMeta::new("@ + a + ", false)"@),
        decreases args@.len() - i,
    {
        let mut x = "AnchorSerialize::serialize(&(".to_owned();
        push_str(&mut x, args[i].as_str());
        push_str(&mut x, "), &mut data).unwrap();");
        let mut y = "AccountMeta::new(".to_owned();
        push_str(&mut y, args[i].as_str());
        push_str(&mut y, ", false)");
        let ghost d_before = data@;
        let ghost m_before = metas@;
        data.push(x);
        metas.push(y);
        proof {
            assert(strs_v(args@.take(i + 1)) =~= strs_v(args@.take(i as int)).push(args@[i as int]@));
            assert(strs_v(data@) =~= strs_v(d_before).push(x@));
            assert(strs_v(metas@) =~= strs_v(m_before).push(y@));
            assert(strs_v(data@) =~= head + strs_v(args@.take(i + 1)).map_values(f));
            assert(strs_v(metas@) =~= strs_v(args@.take(i + 1)).map_values(h));
        }
        i = i + 1;
    }
    proof {
        assert(args@.take(args@.len() as int) =~= args@);
        assert(head =~= seq![
            "let discriminator = anchor_lang::solana_program::hash::hash(b\"global:"@ + snake(method@) + "\").to_bytes();"@,
            "let mut data = discriminator[..8].to_vec();"@,
        ]);
        assert(strs_v(data@) =~= cpi_data(method@, strs_v(args@)));
    }
    let accounts = if args.len() == 0 {
        "vec![]".to_owned()
    } else {
        let mut a = "vec![".to_owned();
        let j = join_strings(&metas, ", ");
        push_str(&mut a, j.as_str());
        push_str(&mut a, "]");
        a
    };
    let mut s = "{\n            use anchor_lang::prelude::*;\n            // CPI to ".to_owned();
    push_str(&mut s, interface_name);
    push_str(&mut s, ".");
    push_str(&mut s, method);
    push_str(&mut s, "\n            let cpi_program = ");
    push_str(&mut s, program);
    push_str(&mut s, ";\n\n            // Build instruction data with Anchor discriminator\n            ");
    let dj = join_strings(&data, "\n            ");
    push_str(&mut s, dj.as_str());
    push_str(&mut s, "\n\n            // Build the instruction\n            let ix = anchor_lang::solana_program::instruction::Instruction {\n                program_id: cpi_program,\n                accounts: ");
    push_str(&mut s, accounts.as_str());
    push_str(&mut s, ",\n                data,\n            };\n\n            // Execute CPI\n            // Note: You may need to add the appropriate account_infos based on your context\n            anchor_lang::solana_program::program::invoke(\n                &ix,\n                &[cpi_program.to_account_info()],\n            )?\n        }");
    s
}

impl RustGenerator {
    /// What the generator reads of its surroundings.
    pub closed spec fn gen_v(&self) -> GenV {
        GenV {
            events: events_v(self.events@),
            signer_params: names_v(self.signer_params@),
            internal: names_v(self.internal_functions@),
            in_helper: self.in_helper_function,
        }
    }

    /// A generator that knows no events, signers or internal functions.
    pub fn new() -> (g: RustGenerator)
        ensures
            g.gen_v() == (GenV { events: seq![], signer_params: seq![], internal: seq![], in_helper: false }),
    {
        let g = RustGenerator {
            events: Vec::new(),
            signer_params: Vec::new(),
            internal_functions: Vec::new(),
            in_helper_function: false,
        };
        proof {
            assert(events_v(g.events@) =~= Seq::<(Seq<char>, Seq<Seq<char>>)>::empty());
            assert(names_v(g.signer_params@) =~= Seq::<Seq<char>>::empty());
            assert(names_v(g.internal_functions@) =~= Seq::<Seq<char>>::empty());
        }
        g
    }

    /// Replace the names of the signer parameters in scope.
    pub(crate) fn set_signers(&mut self, names: Vec<String>)
        ensures
            final(self).gen_v() == (GenV { signer_params: names_v(names@), ..old(self).gen_v() }),
    {
        self.signer_params = names;
    }

    /// Replace the names of the internal functions.
    pub(crate) fn set_internal(&mut self, names: Vec<String>)
        ensures
            final(self).gen_v() == (GenV { internal: names_v(names@), ..old(self).gen_v() }),
    {
        self.internal_functions = names;
    }

    /// Replace the events whose fields `emit` names.
    pub(crate) fn set_events(&mut self, events: Vec<Event>)
        ensures
            final(self).gen_v() == (GenV { events: events_v(events@), ..old(self).gen_v() }),
    {
        self.events = events;
    }

    /// Say whether the text being written is the body of a helper function.
    pub(crate) fn set_in_helper(&mut self, b: bool)
        ensures
            final(self).gen_v() == (GenV { in_helper: b, ..old(self).gen_v() }),
    {
        self.in_helper_function = b;
    }

    /// The text of an expression; a transfer of lamports has none.
    pub fn generate_expression(&self, expr: &Expression) -> (r: Result<String, CodegenError>)
        ensures
            text_outcome(has_sol(expr_v(*expr)), gen_expr(expr_v(*expr), self.gen_v()), r),
        decreases expr, 2nat,
    {
        match expr {
            Expression::Literal(l) => Ok(generate_literal(l)),
            Expression::Var(name) => {
                let sn = to_snake_case(name.as_str());
                if contains_name(&self.signer_params, sn.as_str()) {
                    let mut s = "ctx.accounts.".to_owned();
                    push_str(&mut s, sn.as_str());
                    push_str(&mut s, ".key()");
                    Ok(s)
                } else {
                    Ok(sn)
                }
            },
            Expression::StateAccess(f) => {
                let sn = to_snake_case(f.as_str());
                let mut s = if self.in_helper_function {
                    "state.".to_owned()
                } else {
                    "ctx.accounts.state.".to_owned()
                };
                push_str(&mut s, sn.as_str());
                Ok(s)
            },
            Expression::MappingAccess { account_name, .. } => {
                let mut s = "ctx.accounts.".to_owned();
                let sn = to_snake_case(account_name.as_str());
                push_str(&mut s, sn.as_str());
                push_str(&mut s, ".value");
                Ok(s)
            },
            Expression::MsgSender => Ok("ctx.accounts.signer.key()".to_owned()),
            Expression::MsgValue => Ok("0u64 /* msg.value not supported */".to_owned()),
            Expression::BlockTimestamp => Ok("Clock::get()?.unix_timestamp as u64".to_owned()),
            Expression::ClockSlot => Ok("Clock::get()?.slot".to_owned()),
            Expression::ClockEpoch => Ok("Clock::get()?.epoch".to_owned()),
            Expression::ClockUnixTimestamp => Ok("Clock::get()?.unix_timestamp".to_owned()),
            Expression::RentMinimumBalance { data_len } => {
                let x = self.generate_expression(data_len)?;
                let mut s = "Rent::get()?.minimum_balance(".to_owned();
                push_str(&mut s, x.as_str());
                push_str(&mut s, " as usize)");
                Ok(s)
            },
            Expression::RentIsExempt { lamports, data_len } => {
                let l = self.generate_expression(lamports)?;
                let d = self.generate_expression(data_len)?;
                let mut s = "Rent::get()?.is_exempt(".to_owned();
                push_str(&mut s, l.as_str());
                push_str(&mut s, ", ");
                push_str(&mut s, d.as_str());
                push_str(&mut s, " as usize)");
                Ok(s)
            },
            Expression::Binary { op, left, right } => {
                let l = self.generate_expression(left)?;
                let r = self.generate_expression(right)?;
                let mut s = "(".to_owned();
                push_str(&mut s, l.as_str());
                push_str(&mut s, " ");
                push_str(&mut s, binop_str(*op));
                push_str(&mut s, " ");
                push_str(&mut s, r.as_str());
                push_str(&mut s, ")");
                Ok(s)
            },
            Expression::Unary { op, expr } => {
                let x = self.generate_expression(expr)?;
                let mut s = "(".to_owned();
                push_str(&mut s, unop_str(*op));
                push_str(&mut s, x.as_str());
                push_str(&mut s, ")");
                Ok(s)
            },
            Expression::Call { .. } => self.generate_call(expr),
            Expression::MethodCall { .. } => self.generate_method_call(expr),
            Expression::CpiCall { program, interface_name, method, args } => {
                let p = self.generate_expression(program)?;
                proof {
                    assert(args@.take(args@.len() as int) =~= args@);
                }
                let xs = self.generate_expressions(args, args.len())?;
                Ok(cpi_str(p.as_str(), interface_name.as_str(), method.as_str(), &xs))
            },
            Expression::InterfaceCast { program_id, .. } => self.generate_expression(program_id),
            Expression::SolTransfer { .. } => Err(CodegenError::UnsupportedFeature("SOL transfers".to_owned())),
            Expression::TokenTransfer { .. } => self.generate_token(expr),
            Expression::TokenMint { .. } => self.generate_token(expr),
            Expression::TokenBurn { .. } => self.generate_token(expr),
            Expression::GetATA { owner, mint } => {
                let o = self.generate_expression(owner)?;
                let m = self.generate_expression(mint)?;
                let mut s = "anchor_spl::associated_token::get_associated_token_address(&".to_owned();
                push_str(&mut s, o.as_str());
                push_str(&mut s, ", &");
                push_str(&mut s, m.as_str());
                push_str(&mut s, ")");
                Ok(s)
            },
            Expression::Index { expr, index } => {
                let x = self.generate_expression(expr)?;
                let i = self.generate_expression(index)?;
                let mut s = x;
                push_str(&mut s, "[");
                push_str(&mut s, i.as_str());
                push_str(&mut s, " as usize]");
                Ok(s)
            },
            Expression::Field { expr, field } => {
                let x = self.generate_expression(expr)?;
                if str_eq(field.as_str(), "length") {
                    let mut s = "(".to_owned();
                    push_str(&mut s, x.as_str());
                    push_str(&mut s, ".len() as u128)");
                    Ok(s)
                } else {
                    let mut s = x;
                    push_str(&mut s, ".");
                    let sn = to_snake_case(field.as_str());
                    push_str(&mut s, sn.as_str());
                    Ok(s)
                }
            },
            Expression::Ternary { condition, then_expr, else_expr } => {
                let c = self.generate_expression(condition)?;
                let t = self.generate_expression(then_expr)?;
                let e = self.generate_expression(else_expr)?;
                let mut s = "if ".to_owned();
                push_str(&mut s, c.as_str());
                push_str(&mut s, " { ");
                push_str(&mut s, t.as_str());
                push_str(&mut s, " } else { ");
                push_str(&mut s, e.as_str());
                push_str(&mut s, " }");
                Ok(s)
            },
            _ => self.generate_assert(expr),
        }
    }

    /// The texts of the first `n` expressions, in order.
    fn generate_expressions(&self, es: &Vec<Expression>, n: usize) -> (r: Result<Vec<String>, CodegenError>)
        requires
            n <= es@.len(),
        ensures
            if has_sol_all(exprs_v(es@.take(n as int))) {
                r matches Err(y) && err_v(y) == sol_err()
            } else {
                r matches Ok(v) && strs_v(v@) == gen_exprs(exprs_v(es@.take(n as int)), self.gen_v())
            },
        decreases es@, n,
    {
        if n == 0 {
            let v: Vec<String> = Vec::new();
            proof {
                assert(strs_v(v@) =~= Seq::<Seq<char>>::empty());
            }
            return Ok(v);
        }
        proof {
            assert(es@.take(n as int).drop_last() =~= es@.take(n - 1));
            assert(es@.take(n as int).last() == es@[n - 1]);
            let xs = exprs_v(es@.take(n as int));
            assert(xs.drop_last() =~= exprs_v(es@.take(n - 1)));
            assert(xs.last() == expr_v(es@[n - 1]));
        }
        let mut v = self.generate_expressions(es, n - 1)?;
        let x = self.generate_expression(&es[n - 1])?;
        let ghost before = v@;
        v.push(x);
        proof {
            assert(strs_v(v@) =~= strs_v(before).push(x@));
        }
        Ok(v)
    }

    /// The text of a call of a function; an internal function is given the state first.
    fn generate_call(&self, expr: &Expression) -> (r: Result<String, CodegenError>)
        requires
            expr is Call,
        ensures
            text_outcome(has_sol(expr_v(*expr)), gen_expr(expr_v(*expr), self.gen_v()), r),
        decreases expr, 1nat,
    {
        match expr {
            Expression::Call { func, args } => {
                let name = to_snake_case(func.as_str());
                proof {
                    assert(args@.take(args@.len() as int) =~= args@);
                }
                let mut xs = self.generate_expressions(args, args.len())?;
                if contains_name(&self.internal_functions, name.as_str()) {
                    let state_arg = if self.in_helper_function {
                        "state".to_owned()
                    } else {
                        "&mut ctx.accounts.state".to_owned()
                    };
                    let ghost before = xs@;
                    xs.insert(0, state_arg);
                    proof {
                        assert(strs_v(xs@) =~= seq![xs@[0]@] + strs_v(before));
                    }
                    let mut s = name;
                    push_str(&mut s, "(");
                    let j = join_strings(&xs, ", ");
                    push_str(&mut s, j.as_str());
                    push_str(&mut s, ")?");
                    Ok(s)
                } else {
                    let mut s = name;
                    push_str(&mut s, "(");
                    let j = join_strings(&xs, ", ");
                    push_str(&mut s, j.as_str());
                    push_str(&mut s, ")");
                    Ok(s)
                }
            },
            _ => Ok(String::new()),
        }
    }

    /// The text of a method call; `__assign__` with one argument is an assignment.
    fn generate_method_call(&self, expr: &Expression) -> (r: Result<String, CodegenError>)
        requires
            expr is MethodCall,
        ensures
            text_outcome(has_sol(expr_v(*expr)), gen_expr(expr_v(*expr), self.gen_v()), r),
        decreases expr, 1nat,
    {
        match expr {
            Expression::MethodCall { receiver, method, args } => {
                proof {
                    assert(args@.take(args@.len() as int) =~= args@);
                    crate::lower::lemma_exprs_v(args@);
                }
                if str_eq(method.as_str(), "__assign__") && args.len() == 1 {
                    proof {
                        let xs = exprs_v(args@);
                        reveal_with_fuel(has_sol_all, 2);
                        reveal_with_fuel(gen_exprs, 2);
                        assert(xs.drop_last() =~= Seq::<ExprV>::empty());
                        assert(xs.last() == expr_v(args@[0]));
                        assert(has_sol_all(xs) == has_sol(expr_v(args@[0])));
                        assert(gen_exprs(xs, self.gen_v())[0] == gen_expr(expr_v(args@[0]), self.gen_v()));
                    }
                    let t = self.generate_expression(receiver)?;
                    let v = self.generate_expression(&args[0])?;
                    let mut s = t;
                    push_str(&mut s, " = ");
                    push_str(&mut s, v.as_str());
                    return Ok(s);
                }
                let recv = self.generate_expression(receiver)?;
                let xs = self.generate_expressions(args, args.len())?;
                let mut s = recv;
                push_str(&mut s, ".");
                let sn = to_snake_case(method.as_str());
                push_str(&mut s, sn.as_str());
                push_str(&mut s, "(");
                let j = join_strings(&xs, ", ");
                push_str(&mut s, j.as_str());
                push_str(&mut s, ")");
                Ok(s)
            },
            _ => Ok(String::new()),
        }
    }

    /// The text of a token transfer, mint or burn.
    fn generate_token(&self, expr: &Expression) -> (r: Result<String, CodegenError>)
        requires
            expr is TokenTransfer || expr is TokenMint || expr is TokenBurn,
        ensures
            text_outcome(has_sol(expr_v(*expr)), gen_expr(expr_v(*expr), self.gen_v()), r),
        decreases expr, 1nat,
    {
        match expr {
            Expression::TokenTransfer { from, to, authority, amount } => {
                let a = self.generate_expression(from)?;
                let b = self.generate_expression(to)?;
                let c = self.generate_expression(authority)?;
                let d = self.generate_expression(amount)?;
                Ok(token_str("Transfer", "from", "to", "transfer", a.as_str(), b.as_str(), c.as_str(), d.as_str()))
            },
            Expression::TokenMint { mint, to, authority, amount } => {
                let a = self.generate_expression(mint)?;
                let b = self.generate_expression(to)?;
                let c = self.generate_expression(authority)?;
                let d = self.generate_expression(amount)?;
                Ok(token_str("MintTo", "mint", "to", "mint_to", a.as_str(), b.as_str(), c.as_str(), d.as_str()))
            },
            Expression::TokenBurn { from, mint, authority, amount } => {
                let a = self.generate_expression(from)?;
                let b = self.generate_expression(mint)?;
                let c = self.generate_expression(authority)?;
                let d = self.generate_expression(amount)?;
                Ok(token_str("Burn", "from", "mint", "burn", a.as_str(), b.as_str(), c.as_str(), d.as_str()))
            },
            _ => Ok(String::new()),
        }
    }

    /// The text of an assertion.
    fn generate_assert(&self, expr: &Expression) -> (r: Result<String, CodegenError>)
        requires
            expr is Assert || expr is AssertEq || expr is AssertNe || expr is AssertGt || expr is AssertGe
                || expr is AssertLt || expr is AssertLe,
        ensures
            text_outcome(has_sol(expr_v(*expr)), gen_expr(expr_v(*expr), self.gen_v()), r),
        decreases expr, 1nat,
    {
        match expr {
            Expression::Assert { condition, message } => {
                let c = self.generate_expression(condition)?;
                Ok(assert_str("assert!(", c, message))
            },
            Expression::AssertEq { left, right, message } => {
                let l = self.generate_expression(left)?;
                let r = self.generate_expression(right)?;
                let mut body = l;
                push_str(&mut body, ", ");
                push_str(&mut body, r.as_str());
                Ok(assert_str("assert_eq!(", body, message))
            },
            Expression::AssertNe { left, right, message } => {
                let l = self.generate_expression(left)?;
                let r = self.generate_expression(right)?;
                let mut body = l;
                push_str(&mut body, ", ");
                push_str(&mut body, r.as_str());
                Ok(assert_str("assert_ne!(", body, message))
            },
            Expression::AssertGt { left, right, message } => {
                let l = self.generate_expression(left)?;
                let r = self.generate_expression(right)?;
                let mut body = l;
                push_str(&mut body, " > ");
                push_str(&mut body, r.as_str());
                Ok(assert_str("assert!(", body, message))
            },
            Expression::AssertGe { left, right, message } => {
                let l = self.generate_expression(left)?;
                let r = self.generate_expression(right)?;
                let mut body = l;
                push_str(&mut body, " >= ");
                push_str(&mut body, r.as_str());
                Ok(assert_str("assert!(", body, message))
            },
            Expression::AssertLt { left, right, message } => {
                let l = self.generate_expression(left)?;
                let r = self.generate_expression(right)?;
                let mut body = l;
                push_str(&mut body, " < ");
                push_str(&mut body, r.as_str());
                Ok(assert_str("assert!(", body, message))
            },
            Expression::AssertLe { left, right, message } => {
                let l = self.generate_expression(left)?;
                let r = self.generate_expression(right)?;
                let mut body = l;
                push_str(&mut body, " <= ");
                push_str(&mut body, r.as_str());
                Ok(assert_str("assert!(", body, message))
            },
            _ => Ok(String::new()),
        }
    }
}

/// Indentation: four spaces for each level.
pub fn indent_str(n: usize) -> (r: String)
    ensures
        r@ == indent(n as nat),
{
    let mut r = String::new();
    let mut i: usize = 0;
    while i < n
        invariant
            i <= n,
            r@ == indent(i as nat),
        decreases n - i,
    {
        push_str(&mut r, "    ");
        i = i + 1;
    }
    r
}

impl RustGenerator {
    /// The field names of the first event with the name.
    fn find_event_fields(&self, name: &str) -> (r: Option<&Vec<EventField>>)
        ensures
            match r {
                Some(fs) => find_event(self.gen_v().events, name@) == Some(fs@.map_values(|f: EventField| f.name@)),
                None => find_event(self.gen_v().events, name@) is None,
            },
    {
        let ghost evs = events_v(self.events@);
        let mut i: usize = 0;
        proof {
            assert(evs.skip(0) =~= evs);
        }
        while i < self.events.len()
            invariant
                i <= self.events@.len(),
                evs == events_v(self.events@),
                find_event(evs, name@) == find_event(evs.skip(i as int), name@),
            decreases self.events@.len() - i,
        {
            proof {
                assert(evs.skip(i as int)[0] == evs[i as int]);
                assert(evs.skip(i as int).drop_first() =~= evs.skip(i + 1));
            }
            if str_eq(self.events[i].name.as_str(), name) {
                return Some(&self.events[i].fields);
            }
            i = i + 1;
        }
        None
    }

    /// The text of an `emit!` of an event with the given argument texts.
    fn generate_emit(&self, ind: &str, event: &str, vals: &Vec<String>) -> (r: String)
        ensures
            r@ == ind@ + "emit!(events::"@ + pascal(event@) + " { "@ + join(
                Seq::new(strs_v(vals@).len(), |i: int| emit_field(self.gen_v().events, event@, i) + ": "@ + strs_v(vals@)[i]),
                ", "@,
            ) + " });\n"@,
    {
        let found = self.find_event_fields(event);
        let mut parts: Vec<String> = Vec::new();
        let ghost want = Seq::new(strs_v(vals@).len(), |i: int| emit_field(self.gen_v().events, event@, i) + ": "@ + strs_v(vals@)[i]);
        let mut i: usize = 0;
        while i < vals.len()
            invariant
                i <= vals@.len(),
                parts@.len() == i,
                want == Seq::new(strs_v(vals@).len(), |i: int| emit_field(self.gen_v().events, event@, i) + ": "@ + strs_v(vals@)[i]),
                forall|k: int| 0 <= k < i ==> #[trigger] parts@[k]@ == want[k],
                match found {
                    Some(fs) => find_event(self.gen_v().events, event@) == Some(fs@.map_values(|f: EventField| f.name@)),
                    None => find_event(self.gen_v().events, event@) is None,
                },
            decreases vals@.len() - i,
        {
            let mut p = match found {
                Some(fs) => if i < fs.len() {
                    to_snake_case(fs[i].name.as_str())
                } else {
                    let mut x = "field".to_owned();
                    let d = dec_string_u128(i as u128);
                    push_str(&mut x, d.as_str());
                    x
                },
                None => {
                    let mut x = "field".to_owned();
                    let d = dec_string_u128(i as u128);
                    push_str(&mut x, d.as_str());
                    x
                },
            };
            push_str(&mut p, ": ");
            push_str(&mut p, vals[i].as_str());
            proof {
                assert(p@ == want[i as int]);
            }
            parts.push(p);
            i = i + 1;
        }
        proof {
            assert(strs_v(parts@) =~= want);
        }
        let mut s = ind.to_owned();
        push_str(&mut s, "emit!(events::");
        let pe = to_pascal_case(event);
        push_str(&mut s, pe.as_str());
        push_str(&mut s, " { ");
        let j = join_strings(&parts, ", ");
        push_str(&mut s, j.as_str());
        push_str(&mut s, " });\n");
        s
    }

    /// The text of a statement at an indentation; a transfer of lamports in it has none.
    pub fn generate_statement(&self, stmt: &Statement, indent: usize) -> (r: Result<String, CodegenError>)
        requires
            indent + stmt_depth(stmt_v(*stmt)) < usize::MAX,
        ensures
            text_outcome(stmt_bad(stmt_v(*stmt)), gen_stmt(stmt_v(*stmt), indent as nat, self.gen_v()), r),
        decreases stmt, 1nat,
    {
        let ind = indent_str(indent);
        match stmt {
            Statement::VarDecl { name, ty, value } => {
                let mut s = ind;
                push_str(&mut s, "let ");
                let sn = to_snake_case(name.as_str());
                push_str(&mut s, sn.as_str());
                push_str(&mut s, ": ");
                let t = type_to_rust(ty);
                push_str(&mut s, t.as_str());
                push_str(&mut s, " = ");
                match value {
                    Some(e) => {
                        let x = self.generate_expression(e)?;
                        push_str(&mut s, x.as_str());
                    },
                    None => {
                        push_str(&mut s, "Default::default()");
                    },
                }
                push_str(&mut s, ";\n");
                Ok(s)
            },
            Statement::Assign { target, value } => {
                let t = self.generate_expression(target)?;
                let v = self.generate_expression(value)?;
                let mut s = ind;
                push_str(&mut s, t.as_str());
                push_str(&mut s, " = ");
                push_str(&mut s, v.as_str());
                push_str(&mut s, ";\n");
                Ok(s)
            },
            Statement::If { .. } => self.generate_if(stmt, indent),
            Statement::While { condition, body } => {
                let c = self.generate_expression(condition)?;
                proof {
                    assert(body@.take(body@.len() as int) =~= body@);
                }
                let b = self.generate_statements(body, body.len(), indent + 1)?;
                let mut s = ind.clone();
                push_str(&mut s, "while ");
                push_str(&mut s, c.as_str());
                push_str(&mut s, " {\n");
                push_str(&mut s, b.as_str());
                push_str(&mut s, ind.as_str());
                push_str(&mut s, "}\n");
                Ok(s)
            },
            Statement::For { .. } => self.generate_for(stmt, indent),
            Statement::Return(v) => match v {
                Some(e) => {
                    let x = self.generate_expression(e)?;
                    let mut s = ind;
                    push_str(&mut s, "Ok(");
                    push_str(&mut s, x.as_str());
                    push_str(&mut s, ")\n");
                    Ok(s)
                },
                None => {
                    let mut s = ind;
                    push_str(&mut s, "Ok(())\n");
                    Ok(s)
                },
            },
            Statement::Emit { event, args } => {
                proof {
                    assert(args@.take(args@.len() as int) =~= args@);
                }
                let vals = self.generate_expressions(args, args.len())?;
                Ok(self.generate_emit(ind.as_str(), event.as_str(), &vals))
            },
            Statement::Require { condition, .. } => {
                let c = self.generate_expression(condition)?;
                let mut s = ind;
                push_str(&mut s, "require!(");
                push_str(&mut s, c.as_str());
                push_str(&mut s, ", CustomError::RequireFailed);\n");
                Ok(s)
            },
            Statement::RevertWithError { error_name, .. } => {
                let mut s = ind;
                push_str(&mut s, "return Err(error!(CustomError::");
                let p = to_pascal_case(error_name.as_str());
                push_str(&mut s, p.as_str());
                push_str(&mut s, "));\n");
                Ok(s)
            },
            Statement::Delete(t) => {
                let x = self.generate_expression(t)?;
                let mut s = ind;
                push_str(&mut s, x.as_str());
                push_str(&mut s, " = Default::default();\n");
                Ok(s)
            },
            Statement::Selfdestruct { .. } => {
                let mut s = ind;
                push_str(&mut s, "// State account will be closed, rent sent to recipient\n");
                Ok(s)
            },
            Statement::Expr(e) => {
                let x = self.generate_expression(e)?;
                let mut s = ind;
                push_str(&mut s, x.as_str());
                push_str(&mut s, ";\n");
                Ok(s)
            },
            Statement::Placeholder => Ok(String::new()),
        }
    }

    /// The text of an `if` statement.
    fn generate_if(&self, stmt: &Statement, indent: usize) -> (r: Result<String, CodegenError>)
        requires
            stmt is If,
            indent + stmt_depth(stmt_v(*stmt)) < usize::MAX,
        ensures
            text_outcome(stmt_bad(stmt_v(*stmt)), gen_stmt(stmt_v(*stmt), indent as nat, self.gen_v()), r),
        decreases stmt, 0nat,
    {
        match stmt {
            Statement::If { condition, then_block, else_block } => {
                let ind = indent_str(indent);
                let c = self.generate_expression(condition)?;
                proof {
                    assert(then_block@.take(then_block@.len() as int) =~= then_block@);
                }
                let t = self.generate_statements(then_block, then_block.len(), indent + 1)?;
                let mut s = ind.clone();
                push_str(&mut s, "if ");
                push_str(&mut s, c.as_str());
                push_str(&mut s, " {\n");
                push_str(&mut s, t.as_str());
                push_str(&mut s, ind.as_str());
                push_str(&mut s, "}");
                match else_block {
                    Some(b) => {
                        proof {
                            assert(b@.take(b@.len() as int) =~= b@);
                        }
                        let e = self.generate_statements(b, b.len(), indent + 1)?;
                        let mut tail = " else {\n".to_owned();
                        push_str(&mut tail, e.as_str());
                        push_str(&mut tail, ind.as_str());
                        push_str(&mut tail, "}");
                        push_str(&mut s, tail.as_str());
                    },
                    None => {},
                }
                push_str(&mut s, "\n");
                Ok(s)
            },
            _ => Ok(String::new()),
        }
    }

    /// The text of a `for` statement: its start, then a `while` loop with the step at the
    /// end of the body.
    fn generate_for(&self, stmt: &Statement, indent: usize) -> (r: Result<String, CodegenError>)
        requires
            stmt is For,
            indent + stmt_depth(stmt_v(*stmt)) < usize::MAX,
        ensures
            text_outcome(stmt_bad(stmt_v(*stmt)), gen_stmt(stmt_v(*stmt), indent as nat, self.gen_v()), r),
        decreases stmt, 0nat,
    {
        match stmt {
            Statement::For { init, condition, update, body } => {
                let ind = indent_str(indent);
                let mut s = match init {
                    Some(b) => self.generate_statement(b, indent)?,
                    None => String::new(),
                };
                let c = match condition {
                    Some(c) => self.generate_expression(c)?,
                    None => "true".to_owned(),
                };
                push_str(&mut s, ind.as_str());
                push_str(&mut s, "while ");
                push_str(&mut s, c.as_str());
                push_str(&mut s, " {\n");
                proof {
                    assert(body@.take(body@.len() as int) =~= body@);
                }
                let b = self.generate_statements(body, body.len(), indent + 1)?;
                push_str(&mut s, b.as_str());
                match update {
                    Some(u) => {
                        let x = self.generate_expression(u)?;
                        let mut tail = ind.clone();
                        push_str(&mut tail, "    ");
                        push_str(&mut tail, x.as_str());
                        push_str(&mut tail, ";\n");
                        push_str(&mut s, tail.as_str());
                    },
                    None => {},
                }
                push_str(&mut s, ind.as_str());
                push_str(&mut s, "}\n");
                Ok(s)
            },
            _ => Ok(String::new()),
        }
    }

    /// The text of the first `n` statements at an indentation, one after the other.
    pub fn generate_statements(&self, ss: &Vec<Statement>, n: usize, indent: usize) -> (r: Result<String, CodegenError>)
        requires
            n <= ss@.len(),
            indent + stmts_depth(stmts_v(ss@.take(n as int))) < usize::MAX,
        ensures
            text_outcome(stmts_bad(stmts_v(ss@.take(n as int))), gen_stmts(stmts_v(ss@.take(n as int)), indent as nat, self.gen_v()), r),
        decreases ss@, n,
    {
        if n == 0 {
            return Ok(String::new());
        }
        proof {
            assert(ss@.take(n as int).drop_last() =~= ss@.take(n - 1));
            assert(ss@.take(n as int).last() == ss@[n - 1]);
            let xs = stmts_v(ss@.take(n as int));
            assert(xs.drop_last() =~= stmts_v(ss@.take(n - 1)));
            assert(xs.last() == stmt_v(ss@[n - 1]));
        }
        let mut s = self.generate_statements(ss, n - 1, indent)?;
        let x = self.generate_statement(&ss[n - 1], indent)?;
        push_str(&mut s, x.as_str());
        Ok(s)
    }
}

/// The `#[max_len(..)]` attribute a type needs in an account: strings, bytes and
/// vectors have one; an option has that of what it holds.
pub fn get_max_len_attribute(ty: &SolanaType) -> (r: Option<String>)
    ensures
        crate::ir::opt_str_v(r) == max_len_s(type_v(*ty)),
    decreases ty,
{
    match ty {
        SolanaType::String => Some("#[max_len(200)]".to_owned()),
        SolanaType::Bytes => Some("#[max_len(1000)]".to_owned()),
        SolanaType::Vec(e) => if get_max_len_attribute(e).is_some() {
            let inner = match &**e {
                SolanaType::String => "200",
                SolanaType::Bytes => "1000",
                _ => "100",
            };
            let mut s = "#[max_len(100, ".to_owned();
            push_str(&mut s, inner);
            push_str(&mut s, ")]");
            Some(s)
        } else {
            Some("#[max_len(100)]".to_owned())
        },
        SolanaType::Option(e) => get_max_len_attribute(e),
        _ => None,
    }
}

/// The value type a mapping stores in the end, through nested mappings.
pub fn innermost_value_type(ty: &SolanaType) -> (r: SolanaType)
    ensures
        type_v(r) == innermost_s(type_v(*ty)),
    decreases ty,
{
    match ty {
        SolanaType::Mapping(_, v) => innermost_value_type(v),
        other => clone_type(other),
    }
}

/// Whether the pattern stands in the characters at `i`.
pub(crate) fn chars_match_at(cs: &Vec<char>, i: usize, ps: &Vec<char>) -> (b: bool)
    requires
        i + ps@.len() <= cs@.len(),
    ensures
        b == (cs@.subrange(i as int, i + ps@.len()) == ps@),
{
    let mut k: usize = 0;
    while k < ps.len()
        invariant
            k <= ps@.len(),
            i + ps.len() <= cs.len(),
            forall|j: int| 0 <= j < k ==> cs@[i + j] == ps@[j],
        decreases ps@.len() - k,
    {
        if cs[i + k] != ps[k] {
            proof {
                assert(cs@.subrange(i as int, i + ps@.len())[k as int] == cs@[i + k]);
            }
            return false;
        }
        k = k + 1;
    }
    proof {
        assert(cs@.subrange(i as int, i + ps@.len()) =~= ps@);
    }
    true
}

/// A text with each occurrence of a pattern, from the left, taken out.
pub fn remove_all_of(s: &str, p: &str) -> (r: String)
    ensures
        r@ == remove_all(s@, p@),
{
    let cs = chars_of(s);
    let ps = chars_of(p);
    let n = cs.len();
    let m = ps.len();
    if m == 0 {
        return s.to_owned();
    }
    let mut out = String::new();
    let mut i: usize = 0;
    proof {
        assert(cs@.skip(0) =~= cs@);
    }
    while i < n
        invariant
            i <= n,
            n == cs@.len(),
            m == ps@.len(),
            m > 0,
            cs@ == s@,
            ps@ == p@,
            remove_all(s@, p@) == out@ + remove_all(cs@.skip(i as int), p@),
        decreases n - i,
    {
        let ghost rest = cs@.skip(i as int);
        let hit = m <= n - i && chars_match_at(&cs, i, &ps);
        if hit {
            proof {
                assert(rest.take(m as int) =~= cs@.subrange(i as int, i + m));
                assert(rest.skip(m as int) =~= cs@.skip(i + m));
            }
            i = i + m;
        } else {
            proof {
                if rest.len() >= m {
                    assert(rest.take(m as int) =~= cs@.subrange(i as int, i + m));
                }
                assert(rest.skip(1) =~= cs@.skip(i + 1));
                assert(rest =~= seq![cs@[i as int]] + cs@.skip(i + 1));
            }
            push_char(&mut out, cs[i]);
            proof {
                assert(out@ + remove_all(cs@.skip(i + 1), p@) =~= (out@.drop_last() + seq![cs@[i as int]]) + remove_all(cs@.skip(i + 1), p@));
            }
            i = i + 1;
        }
    }
    proof {
        assert(cs@.skip(n as int) =~= Seq::<char>::empty());
        assert(out@ + Seq::<char>::empty() =~= out@);
    }
    out
}

/// Parameters with their types, as values.
pub open spec fn seeds_v(v: Seq<(String, SolanaType)>) -> Seq<(Seq<char>, TypeV)> {
    v.map_values(|p: (String, SolanaType)| (p.0@, type_v(p.1)))
}

impl RustGenerator {
    /// The seed text of a key expression, as it stands in an account attribute.
    pub fn generate_key_seed_expr(&self, key_expr: &Expression) -> (r: Result<String, CodegenError>)
        ensures
            text_outcome(key_seed_bad(expr_v(*key_expr)), key_seed_s(expr_v(*key_expr), self.gen_v()), r),
    {
        match key_expr {
            Expression::MsgSender => Ok("signer.key()".to_owned()),
            Expression::Var(name) => Ok(to_snake_case(name.as_str())),
            Expression::Literal(Literal::Pubkey(s)) => {
                let mut r = "Pubkey::default() /* ".to_owned();
                push_str(&mut r, s.as_str());
                push_str(&mut r, " */");
                Ok(r)
            },
            Expression::Literal(Literal::ZeroAddress) => Ok("Pubkey::default()".to_owned()),
            Expression::Literal(Literal::ZeroBytes(n)) => {
                let mut r = "[0u8; ".to_owned();
                let d = dec_string_u128(*n as u128);
                push_str(&mut r, d.as_str());
                push_str(&mut r, "]");
                Ok(r)
            },
            Expression::StateAccess(f) => {
                let mut r = "state.".to_owned();
                let sn = to_snake_case(f.as_str());
                push_str(&mut r, sn.as_str());
                Ok(r)
            },
            _ => {
                let x = self.generate_expression(key_expr)?;
                Ok(remove_all_of(x.as_str(), "ctx.accounts."))
            },
        }
    }

    /// The parameters the first `n` expressions use, added in order to those found before.
    fn collect_seed_list(&self, es: &Vec<Expression>, n: usize, instruction: &Instruction, params: &mut Vec<(String, SolanaType)>)
        requires
            n <= es@.len(),
        ensures
            seeds_v(final(params)@) == seeds_exprs(exprs_v(es@.take(n as int)), params_v(instruction.params@), seeds_v(old(params)@)),
        decreases es@, n,
    {
        if n == 0 {
            return;
        }
        proof {
            assert(es@.take(n as int).drop_last() =~= es@.take(n - 1));
            assert(es@.take(n as int).last() == es@[n - 1]);
            let xs = exprs_v(es@.take(n as int));
            assert(xs.drop_last() =~= exprs_v(es@.take(n - 1)));
        }
        self.collect_seed_list(es, n - 1, instruction, params);
        self.collect_seed_params(&es[n - 1], instruction, params);
    }

    /// Add a variable that names a parameter, unless a parameter with its name is there.
    fn collect_seed_var(&self, name: &String, instruction: &Instruction, params: &mut Vec<(String, SolanaType)>)
        ensures
            seeds_v(final(params)@) == match find_param(params_v(instruction.params@), name@) {
                Some(p) => if has_name(seeds_v(old(params)@), name@) {
                    seeds_v(old(params)@)
                } else {
                    seeds_v(old(params)@).push(p)
                },
                None => seeds_v(old(params)@),
            },
    {
        let ghost ps = params_v(instruction.params@);
        let mut j: usize = 0;
        proof {
            assert(ps.skip(0) =~= ps);
        }
        while j < instruction.params.len() && !str_eq(instruction.params[j].name.as_str(), name.as_str())
            invariant
                j <= instruction.params@.len(),
                ps == params_v(instruction.params@),
                find_param(ps, name@) == find_param(ps.skip(j as int), name@),
            decreases instruction.params@.len() - j,
        {
            proof {
                assert(ps.skip(j as int)[0] == ps[j as int]);
                assert(ps.skip(j as int).drop_first() =~= ps.skip(j + 1));
            }
            j = j + 1;
        }
        proof {
            if j < instruction.params.len() {
                assert(ps.skip(j as int)[0] == ps[j as int]);
            } else {
                assert(ps.skip(j as int) =~= Seq::<(Seq<char>, TypeV)>::empty());
            }
        }
        if j < instruction.params.len() {
            let mut seen = false;
            let mut k: usize = 0;
            while k < params.len()
                invariant
                    k <= params@.len(),
                    seen == (exists|q: int| 0 <= q < k && (#[trigger] seeds_v(params@)[q]).0 == name@),
                decreases params@.len() - k,
            {
                if str_eq(params[k].0.as_str(), name.as_str()) {
                    seen = true;
                }
                proof {
                    assert(seeds_v(params@)[k as int].0 == params@[k as int].0@);
                }
                k = k + 1;
            }
            if !seen {
                let ghost before = params@;
                params.push((instruction.params[j].name.clone(), clone_type(&instruction.params[j].ty)));
                proof {
                    assert(seeds_v(params@) =~= seeds_v(before).push((name@, type_v(instruction.params@[j as int].ty))));
                }
            }
        }
    }

    /// Add the parameters a seed expression uses to those found before: the variables that
    /// name a parameter, through method calls and binary operations.
    pub fn collect_seed_params(&self, key_expr: &Expression, instruction: &Instruction, params: &mut Vec<(String, SolanaType)>)
        ensures
            seeds_v(final(params)@) == seeds_expr(expr_v(*key_expr), params_v(instruction.params@), seeds_v(old(params)@)),
        decreases key_expr, 1nat,
    {
        match key_expr {
            Expression::Var(name) => self.collect_seed_var(name, instruction, params),
            Expression::MethodCall { receiver, args, .. } => {
                self.collect_seed_params(receiver, instruction, params);
                proof {
                    assert(args@.take(args@.len() as int) =~= args@);
                }
                self.collect_seed_list(args, args.len(), instruction, params);
            },
            Expression::Binary { left, right, .. } => {
                self.collect_seed_params(left, instruction, params);
                self.collect_seed_params(right, instruction, params);
            },
            _ => {},
        }
    }
}

/// The state account of a context struct.
fn state_account_str(i: &Instruction, state_name: &str) -> (r: String)
    ensures
        r@ == state_account_text(instr_v(*i), state_name@),
{
    if str_eq(i.name.as_str(), "initialize") {
        let mut s = "    #[account(\n        init,\n        payer = signer,\n        space = 8 + ".to_owned();
        push_str(&mut s, state_name);
        push_str(&mut s, "::INIT_SPACE\n    )]\n    pub state: Account<'info, ");
        push_str(&mut s, state_name);
        push_str(&mut s, ">,\n");
        s
    } else if i.is_view {
        let mut s = "    pub state: Account<'info, ".to_owned();
        push_str(&mut s, state_name);
        push_str(&mut s, ">,\n");
        s
    } else if i.closes_state {
        let mut s = "    #[account(mut, close = signer)]\n    pub state: Account<'info, ".to_owned();
        push_str(&mut s, state_name);
        push_str(&mut s, ">,\n");
        s
    } else {
        let mut s = "    #[account(mut)]\n    pub state: Account<'info, ".to_owned();
        push_str(&mut s, state_name);
        push_str(&mut s, ">,\n");
        s
    }
}

/// The accounts for the signers among the parameters.
fn signer_accounts_str(ps: &Vec<InstructionParam>) -> (r: String)
    ensures
        r@ == signer_accounts_text(params_v(ps@)),
{
    let mut s = String::new();
    let mut i: usize = 0;
    while i < ps.len()
        invariant
            i <= ps@.len(),
            s@ == signer_accounts_text(params_v(ps@.take(i as int))),
        decreases ps@.len() - i,
    {
        proof {
            assert(params_v(ps@.take(i + 1)).drop_last() =~= params_v(ps@.take(i as int)));
            assert(params_v(ps@.take(i + 1)).last() == (ps@[i as int].name@, type_v(ps@[i as int].ty)));
        }
        let ghost before = s@;
        if let SolanaType::Signer = ps[i].ty {
            let mut x = "    pub ".to_owned();
            let sn = to_snake_case(ps[i].name.as_str());
            push_str(&mut x, sn.as_str());
            push_str(&mut x, ": Signer<'info>,\n");
            push_str(&mut s, x.as_str());
        } else {
            proof {
                assert(s@ =~= before + Seq::<char>::empty());
            }
        }
        i = i + 1;
    }
    proof {
        assert(ps@.take(ps@.len() as int) =~= ps@);
    }
    s
}

impl RustGenerator {
    /// The account of a mapping access in a context struct.
    fn generate_access_account(&self, a: &MappingAccess) -> (r: Result<String, CodegenError>)
        ensures
            text_outcome(access_bad(access_v(*a)), access_account_text(access_v(*a), self.gen_v()), r),
    {
        let keys = &a.key_exprs;
        let ghost g = self.gen_v();
        proof {
            crate::lower::lemma_exprs_v(keys@);
        }
        let mut parts: Vec<String> = Vec::new();
        let mut i: usize = 0;
        while i < keys.len()
            invariant
                i <= keys@.len(),
                g == self.gen_v(),
                keys@ == a.key_exprs@,
                exprs_v(keys@).len() == keys@.len(),
                forall|k: int| 0 <= k < keys@.len() ==> #[trigger] exprs_v(keys@)[k] == expr_v(keys@[k]),
                parts@.len() == i,
                forall|j: int| 0 <= j < i ==> #[trigger] parts@[j]@ == key_seed_s(expr_v(keys@[j]), g) + ".as_ref()"@,
                forall|j: int| 0 <= j < i ==> !key_seed_bad(expr_v(#[trigger] keys@[j])),
            decreases keys@.len() - i,
        {
            let mut x = match self.generate_key_seed_expr(&keys[i]) {
                Ok(x) => x,
                Err(e) => {
                    proof {
                        assert(access_v(*a).key_exprs[i as int] == expr_v(keys@[i as int]));
                    }
                    return Err(e);
                },
            };
            push_str(&mut x, ".as_ref()");
            parts.push(x);
            i = i + 1;
        }
        proof {
            assert(strs_v(parts@) =~= access_v(*a).key_exprs.map_values(|k: ExprV| key_seed_s(k, g) + ".as_ref()"@));
            assert forall|k: int| 0 <= k < access_v(*a).key_exprs.len() implies !key_seed_bad(#[trigger] access_v(*a).key_exprs[k]) by {
                assert(access_v(*a).key_exprs[k] == expr_v(keys@[k]));
            }
        }
        let seeds = join_strings(&parts, ", ");
        let mut entry = to_pascal_case(a.mapping_name.as_str());
        push_str(&mut entry, "Entry");
        let mapping = to_snake_case(a.mapping_name.as_str());
        let account = to_snake_case(a.account_name.as_str());
        let mut s = if a.is_write {
            let mut s = "    #[account(\n        init_if_needed,\n        payer = signer,\n        space = 8 + ".to_owned();
            push_str(&mut s, entry.as_str());
            push_str(&mut s, "::INIT_SPACE,\n        seeds = [b\"");
            s
        } else {
            "    #[account(\n        seeds = [b\"".to_owned()
        };
        push_str(&mut s, mapping.as_str());
        push_str(&mut s, "\", ");
        push_str(&mut s, seeds.as_str());
        push_str(&mut s, "],\n        bump\n    )]\n    pub ");
        push_str(&mut s, account.as_str());
        push_str(&mut s, ": Account<'info, ");
        push_str(&mut s, entry.as_str());
        push_str(&mut s, ">,\n");
        Ok(s)
    }

    /// The accounts struct of an instruction: its state account, the signer, signers among
    /// its parameters, an account for each mapping access, and the programs it needs.
    pub fn generate_context_struct(&self, instruction: &Instruction, program: &SolanaProgram) -> (r: Result<String, CodegenError>)
        ensures
            text_outcome(context_bad(instr_v(*instruction)), context_text(instr_v(*instruction), program.name@, self.gen_v()), r),
    {
        let ghost iv = instr_v(*instruction);
        let ghost ps = params_v(instruction.params@);
        let mas = &instruction.mapping_accesses;
        proof {
            crate::ir::lemma_accesses_v_len(mas@);
        }
        let name = to_pascal_case(instruction.name.as_str());
        let mut state_name = to_pascal_case(program.name.as_str());
        push_str(&mut state_name, "State");
        let mut seed_params: Vec<(String, SolanaType)> = Vec::new();
        let mut i: usize = 0;
        proof {
            assert(seeds_v(seed_params@) =~= Seq::<(Seq<char>, TypeV)>::empty());
        }
        while i < mas.len()
            invariant
                i <= mas@.len(),
                ps == params_v(instruction.params@),
                seeds_v(seed_params@) == seeds_accesses(accesses_v(mas@.take(i as int)), ps),
            decreases mas@.len() - i,
        {
            proof {
                assert(mas@.take(i + 1).drop_last() =~= mas@.take(i as int));
                assert(mas@.take(i + 1).last() == mas@[i as int]);
                let xs = accesses_v(mas@.take(i + 1));
                assert(xs.drop_last() =~= accesses_v(mas@.take(i as int)));
                assert(xs.last() == access_v(mas@[i as int]));
                let keys = mas@[i as int].key_exprs@;
                assert(keys.take(keys.len() as int) =~= keys);
            }
            self.collect_seed_list(&mas[i].key_exprs, mas[i].key_exprs.len(), instruction, &mut seed_params);
            i = i + 1;
        }
        proof {
            assert(mas@.take(mas@.len() as int) =~= mas@);
        }
        let attr = if seed_params.len() > 0 {
            let mut parts: Vec<String> = Vec::new();
            let mut k: usize = 0;
            while k < seed_params.len()
                invariant
                    k <= seed_params@.len(),
                    parts@.len() == k,
                    forall|j: int| 0 <= j < k ==> #[trigger] parts@[j]@ == snake(seeds_v(seed_params@)[j].0) + ": "@
                        + type_to_rust_s(seeds_v(seed_params@)[j].1),
                decreases seed_params@.len() - k,
            {
                let mut x = to_snake_case(seed_params[k].0.as_str());
                push_str(&mut x, ": ");
                let t = type_to_rust(&seed_params[k].1);
                push_str(&mut x, t.as_str());
                parts.push(x);
                k = k + 1;
            }
            proof {
                assert(strs_v(parts@) =~= seeds_v(seed_params@).map_values(
                    |p: (Seq<char>, TypeV)| snake(p.0) + ": "@ + type_to_rust_s(p.1),
                ));
            }
            let mut a = "#[instruction(".to_owned();
            let j = join_strings(&parts, ", ");
            push_str(&mut a, j.as_str());
            push_str(&mut a, ")]\n");
            a
        } else {
            String::new()
        };
        let state = state_account_str(instruction, state_name.as_str());
        let signers = signer_accounts_str(&instruction.params);
        let mut accounts = String::new();
        let mut any_write = false;
        let mut k: usize = 0;
        while k < mas.len()
            invariant
                k <= mas@.len(),
                mas@ == instruction.mapping_accesses@,
                accesses_v(mas@).len() == mas@.len(),
                accounts@ == access_accounts_text(accesses_v(mas@.take(k as int)), self.gen_v()),
                forall|j: int| 0 <= j < k ==> !access_bad(#[trigger] accesses_v(mas@)[j]),
                any_write == (exists|j: int| 0 <= j < k && (#[trigger] accesses_v(mas@)[j]).is_write),
            decreases mas@.len() - k,
        {
            proof {
                assert(mas@.take(k + 1).drop_last() =~= mas@.take(k as int));
                assert(mas@.take(k + 1).last() == mas@[k as int]);
                let xs = accesses_v(mas@.take(k + 1));
                assert(xs.drop_last() =~= accesses_v(mas@.take(k as int)));
                assert(xs.last() == access_v(mas@[k as int]));
                crate::lower_stmt::lemma_accesses_v_index(mas@, k as int);
            }
            let x = match self.generate_access_account(&mas[k]) {
                Ok(x) => x,
                Err(e) => {
                    proof {
                        assert(access_bad(access_v(mas@[k as int])));
                        crate::lower_stmt::lemma_accesses_v_index(mas@, k as int);
                        assert(access_bad(accesses_v(mas@)[k as int]));
                        assert(instr_v(*instruction).mapping_accesses == accesses_v(mas@));
                    }
                    return Err(e);
                },
            };
            push_str(&mut accounts, x.as_str());
            if mas[k].is_write {
                any_write = true;
            }
            k = k + 1;
        }
        let needs_system = str_eq(instruction.name.as_str(), "initialize") || any_write || instruction.is_payable;
        let system = if needs_system {
            "    pub system_program: Program<'info, System>,\n".to_owned()
        } else {
            String::new()
        };
        let token = if instruction.uses_token_program {
            "    pub token_program: Program<'info, Token>,\n".to_owned()
        } else {
            String::new()
        };
        let mut s = "#[derive(Accounts)]\n".to_owned();
        push_str(&mut s, attr.as_str());
        push_str(&mut s, "pub struct ");
        push_str(&mut s, name.as_str());
        push_str(&mut s, "<'info> {\n");
        push_str(&mut s, state.as_str());
        push_str(&mut s, "    #[account(mut)]\n    pub signer: Signer<'info>,\n");
        push_str(&mut s, signers.as_str());
        push_str(&mut s, accounts.as_str());
        push_str(&mut s, system.as_str());
        push_str(&mut s, token.as_str());
        push_str(&mut s, "}\n");
        proof {
            assert(seeds_v(seed_params@) == seeds_accesses(iv.mapping_accesses, iv.params));
        }
        Ok(s)
    }
}

} // verus!
