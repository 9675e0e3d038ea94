//! What the Anchor code generator writes, stated over the values of the intermediate
//! representation.

use vstd::prelude::*;
use crate::chars::upper_first;
use crate::codegen_error::ErrV;
use crate::ir::{AccessV, BinaryOp, ExprV, LitV, StmtV, TypeV, UnaryOp};
use crate::program_spec::InstrV;
use crate::lower_spec::snake;
use crate::text::dec_seq;

verus! {

/// What the generator reads of its surroundings: the events of the program (names and
/// field names), the parameters that are signers, the internal functions, and whether it
/// writes the body of a helper function.
pub struct GenV {
    pub events: Seq<(Seq<char>, Seq<Seq<char>>)>,
    pub signer_params: Seq<Seq<char>>,
    pub internal: Seq<Seq<char>>,
    pub in_helper: bool,
}

/// The error for a transfer of lamports, which the generator has no code for.
pub open spec fn sol_err() -> ErrV {
    ErrV::UnsupportedFeature("SOL transfers"@)
}

/// Texts joined with a separator between each two.
pub open spec fn join(ss: Seq<Seq<char>>, sep: Seq<char>) -> Seq<char>
    decreases ss.len(),
{
    if ss.len() == 0 {
        seq![]
    } else if ss.len() == 1 {
        ss[0]
    } else {
        join(ss.drop_last(), sep) + sep + ss.last()
    }
}

/// A name in Pascal case: each `_` is dropped and the character after it, like the
/// first, becomes its capital.
pub open spec fn pascal(s: Seq<char>) -> Seq<char>
    decreases s.len(),
{
    if s.len() == 0 {
        seq![]
    } else {
        pascal(s.drop_last()) + pascal_piece(s, s.len() - 1)
    }
}

/// What character `i` becomes in Pascal case.
pub open spec fn pascal_piece(s: Seq<char>, i: int) -> Seq<char> {
    if s[i] == '_' {
        seq![]
    } else if i == 0 || s[i - 1] == '_' {
        seq![upper_first(s[i])]
    } else {
        seq![s[i]]
    }
}

/// Indentation: four spaces for each level.
pub open spec fn indent(n: nat) -> Seq<char>
    decreases n,
{
    if n == 0 {
        seq![]
    } else {
        indent((n - 1) as nat) + "    "@
    }
}

/// A string with each `"` preceded by a backslash.
pub open spec fn escape_quotes(s: Seq<char>) -> Seq<char>
    decreases s.len(),
{
    if s.len() == 0 {
        seq![]
    } else {
        escape_quotes(s.drop_last()) + if s.last() == '"' {
            seq!['\\', '"']
        } else {
            seq![s.last()]
        }
    }
}

/// The decimal notation of an integer, with `-` before a negative one.
pub open spec fn int_seq(n: int) -> Seq<char> {
    if n < 0 {
        seq!['-'] + dec_seq((-n) as nat)
    } else {
        dec_seq(n as nat)
    }
}

/// The Rust type a type becomes.
pub open spec fn type_to_rust_s(t: TypeV) -> Seq<char>
    decreases t,
{
    match t {
        TypeV::U8 => "u8"@,
        TypeV::U16 => "u16"@,
        TypeV::U32 => "u32"@,
        TypeV::U64 => "u64"@,
        TypeV::U128 => "u128"@,
        TypeV::I8 => "i8"@,
        TypeV::I16 => "i16"@,
        TypeV::I32 => "i32"@,
        TypeV::I64 => "i64"@,
        TypeV::I128 => "i128"@,
        TypeV::Bool => "bool"@,
        TypeV::Pubkey => "Pubkey"@,
        TypeV::Signer => "Pubkey"@,
        TypeV::String => "String"@,
        TypeV::Bytes => "Vec<u8>"@,
        TypeV::FixedBytes(n) => "[u8; "@ + dec_seq(n as nat) + "]"@,
        TypeV::Array(e, n) => "["@ + type_to_rust_s(*e) + "; "@ + dec_seq(n as nat) + "]"@,
        TypeV::Vec(e) => "Vec<"@ + type_to_rust_s(*e) + ">"@,
        TypeV::Option(e) => "Option<"@ + type_to_rust_s(*e) + ">"@,
        TypeV::Mapping(_, _) => "/* Mapping - use PDAs */"@,
        TypeV::Custom(name) => pascal(name),
    }
}

/// The text of a literal.
pub open spec fn gen_lit(l: LitV) -> Seq<char> {
    match l {
        LitV::Bool(b) => if b { "true"@ } else { "false"@ },
        LitV::Int(n) => int_seq(n as int) + "i128"@,
        LitV::Uint(n) => dec_seq(n as nat) + "u128"@,
        LitV::String(s) => "\""@ + escape_quotes(s) + "\""@,
        LitV::Pubkey(s) => "Pubkey::default() /* "@ + s + " */"@,
        LitV::ZeroAddress => "Pubkey::default()"@,
        LitV::ZeroBytes(n) => "[0u8; "@ + dec_seq(n as nat) + "]"@,
    }
}

/// The text of a binary operator.
pub open spec fn binop_text(op: BinaryOp) -> Seq<char> {
    match op {
        BinaryOp::Add => "+"@,
        BinaryOp::Sub => "-"@,
        BinaryOp::Mul => "*"@,
        BinaryOp::Div => "/"@,
        BinaryOp::Rem => "%"@,
        BinaryOp::Eq => "=="@,
        BinaryOp::Ne => "!="@,
        BinaryOp::Lt => "<"@,
        BinaryOp::Le => "<="@,
        BinaryOp::Gt => ">"@,
        BinaryOp::Ge => ">="@,
        BinaryOp::And => "&&"@,
        BinaryOp::Or => "||"@,
        BinaryOp::BitAnd => "&"@,
        BinaryOp::BitOr => "|"@,
        BinaryOp::BitXor => "^"@,
        BinaryOp::Shl => "<<"@,
        BinaryOp::Shr => ">>"@,
    }
}

/// The text of a unary operator.
pub open spec fn unop_text(op: UnaryOp) -> Seq<char> {
    match op {
        UnaryOp::Neg => "-"@,
        UnaryOp::Not => "!"@,
        UnaryOp::BitNot => "!"@,
    }
}

/// Whether an expression holds a transfer of lamports where the generator writes it.
pub open spec fn has_sol(e: ExprV) -> bool
    decreases e, 1nat,
{
    match e {
        ExprV::SolTransfer { .. } => true,
        ExprV::RentMinimumBalance { data_len } => has_sol(*data_len),
        ExprV::RentIsExempt { lamports, data_len } => has_sol(*lamports) || has_sol(*data_len),
        ExprV::Binary { left, right, .. } => has_sol(*left) || has_sol(*right),
        ExprV::Unary { expr, .. } => has_sol(*expr),
        ExprV::Call { args, .. } => has_sol_all(args),
        ExprV::MethodCall { receiver, args, .. } => has_sol(*receiver) || has_sol_all(args),
        ExprV::CpiCall { program, args, .. } => has_sol(*program) || has_sol_all(args),
        ExprV::InterfaceCast { program_id, .. } => has_sol(*program_id),
        ExprV::TokenTransfer { from, to, authority, amount } => has_sol(*from) || has_sol(*to) || has_sol(*authority) || has_sol(*amount),
        ExprV::TokenMint { mint, to, authority, amount } => has_sol(*mint) || has_sol(*to) || has_sol(*authority) || has_sol(*amount),
        ExprV::TokenBurn { from, mint, authority, amount } => has_sol(*from) || has_sol(*mint) || has_sol(*authority) || has_sol(*amount),
        ExprV::GetATA { owner, mint } => has_sol(*owner) || has_sol(*mint),
        ExprV::Index { expr, index } => has_sol(*expr) || has_sol(*index),
        ExprV::Field { expr, .. } => has_sol(*expr),
        ExprV::Ternary { condition, then_expr, else_expr } => has_sol(*condition) || has_sol(*then_expr) || has_sol(*else_expr),
        ExprV::Assert { condition, .. } => has_sol(*condition),
        ExprV::AssertEq { left, right, .. } => has_sol(*left) || has_sol(*right),
        ExprV::AssertNe { left, right, .. } => has_sol(*left) || has_sol(*right),
        ExprV::AssertGt { left, right, .. } => has_sol(*left) || has_sol(*right),
        ExprV::AssertGe { left, right, .. } => has_sol(*left) || has_sol(*right),
        ExprV::AssertLt { left, right, .. } => has_sol(*left) || has_sol(*right),
        ExprV::AssertLe { left, right, .. } => has_sol(*left) || has_sol(*right),
        _ => false,
    }
}

/// Whether one of the expressions holds a transfer of lamports.
pub open spec fn has_sol_all(es: Seq<ExprV>) -> bool
    decreases es, 0nat,
{
    if es.len() == 0 {
        false
    } else {
        has_sol_all(es.drop_last()) || has_sol(es.last())
    }
}

/// An assertion: `assert!(..)` or `assert!(.., "message")`.
pub open spec fn assert_text(head: Seq<char>, body: Seq<char>, message: Option<Seq<char>>) -> Seq<char> {
    match message {
        Some(m) => head + body + ", \""@ + m + "\")"@,
        None => head + body + ")"@,
    }
}

/// A call of a token instruction through the token program.
pub open spec fn token_text(kind: Seq<char>, f1: Seq<char>, f2: Seq<char>, func: Seq<char>, a: Seq<char>, b: Seq<char>, c: Seq<char>, amount: Seq<char>) -> Seq<char> {
    "{\n            let cpi_accounts = anchor_spl::token::"@ + kind + " {\n                "@ + f1 + ": ctx.accounts."@ + snake(a) + ".to_account_info(),\n                "@ + f2 + ": ctx.accounts."@ + snake(b) + ".to_account_info(),\n                authority: ctx.accounts."@ + snake(c) + ".to_account_info(),\n            };\n            let cpi_program = ctx.accounts.token_program.to_account_info();\n            anchor_spl::token::"@ + func + "(CpiContext::new(cpi_program, cpi_accounts), "@ + amount + " as u64)?\n        }"@
}

/// The statements that serialise the data of a call into another program.
pub open spec fn cpi_data(method: Seq<char>, args: Seq<Seq<char>>) -> Seq<Seq<char>> {
    seq![
        "let discriminator = anchor_lang::solana_program::hash::hash(b\"global:"@ + snake(method) + "\").to_bytes();"@,
        "let mut data = discriminator[..8].to_vec();"@,
    ] + args.map_values(|a: Seq<char>| "AnchorSerialize::serialize(&("@ + a + "), &mut data).unwrap();"@)
}

/// The accounts of a call into another program: one for each argument.
pub open spec fn cpi_accounts(args: Seq<Seq<char>>) -> Seq<char> {
    if args.len() == 0 {
        "vec![]"@
    } else {
        "vec!["@ + join(args.map_values(|a: Seq<char>| "AccountMeta::new("@ + a + ", false)"@), ", "@) + "]"@
    }
}

/// A call into another program.
pub open spec fn cpi_text(program: Seq<char>, interface_name: Seq<char>, method: Seq<char>, args: Seq<Seq<char>>) -> Seq<char> {
    "{\n            use anchor_lang::prelude::*;\n            // CPI to "@ + interface_name + "."@ + method + "\n            let cpi_program = "@ + program + ";\n\n            // Build instruction data with Anchor discriminator\n            "@ + join(cpi_data(method, args), "\n            "@)
        + "\n\n            // Build the instruction\n            let ix = anchor_lang::solana_program::instruction::Instruction {\n                program_id: cpi_program,\n                accounts: "@ + cpi_accounts(args) + ",\n                data,\n            };\n\n            // Execute CPI\n            // Note: You may need to add the appropriate account_infos based on your context\n            anchor_lang::solana_program::program::invoke(\n                &ix,\n                &[cpi_program.to_account_info()],\n            )?\n        }"@
}

/// The text of an expression.
pub open spec fn gen_expr(e: ExprV, g: GenV) -> Seq<char>
    decreases e, 1nat,
{
    match e {
        ExprV::Literal(l) => gen_lit(l),
        ExprV::Var(name) => if g.signer_params.contains(snake(name)) {
            "ctx.accounts."@ + snake(name) + ".key()"@
        } else {
            snake(name)
        },
        ExprV::StateAccess(f) => if g.in_helper {
            "state."@ + snake(f)
        } else {
            "ctx.accounts.state."@ + snake(f)
        },
        ExprV::MappingAccess { account_name, .. } => "ctx.accounts."@ + snake(account_name) + ".value"@,
        ExprV::MsgSender => "ctx.accounts.signer.key()"@,
        ExprV::MsgValue => "0u64 /* msg.value not supported */"@,
        ExprV::BlockTimestamp => "Clock::get()?.unix_timestamp as u64"@,
        ExprV::ClockSlot => "Clock::get()?.slot"@,
        ExprV::ClockEpoch => "Clock::get()?.epoch"@,
        ExprV::ClockUnixTimestamp => "Clock::get()?.unix_timestamp"@,
        ExprV::RentMinimumBalance { data_len } => "Rent::get()?.minimum_balance("@ + gen_expr(*data_len, g) + " as usize)"@,
        ExprV::RentIsExempt { lamports, data_len } => "Rent::get()?.is_exempt("@ + gen_expr(*lamports, g) + ", "@
            + gen_expr(*data_len, g) + " as usize)"@,
        ExprV::Binary { op, left, right } => "("@ + gen_expr(*left, g) + " "@ + binop_text(op) + " "@ + gen_expr(*right, g)
            + ")"@,
        ExprV::Unary { op, expr } => "("@ + unop_text(op) + gen_expr(*expr, g) + ")"@,
        ExprV::Call { func, args } => if g.internal.contains(snake(func)) {
            snake(func) + "("@ + join(seq![if g.in_helper { "state"@ } else { "&mut ctx.accounts.state"@ }] + gen_exprs(args, g), ", "@)
                + ")?"@
        } else {
            snake(func) + "("@ + join(gen_exprs(args, g), ", "@) + ")"@
        },
        ExprV::MethodCall { receiver, method, args } => if method == "__assign__"@ && args.len() == 1 {
            gen_expr(*receiver, g) + " = "@ + gen_exprs(args, g)[0]
        } else {
            gen_expr(*receiver, g) + "."@ + snake(method) + "("@ + join(gen_exprs(args, g), ", "@) + ")"@
        },
        ExprV::CpiCall { program, interface_name, method, args } => cpi_text(gen_expr(*program, g), interface_name, method, gen_exprs(args, g)),
        ExprV::InterfaceCast { program_id, .. } => gen_expr(*program_id, g),
        ExprV::TokenTransfer { from, to, authority, amount } => token_text("Transfer"@, "from"@, "to"@, "transfer"@,
            gen_expr(*from, g), gen_expr(*to, g), gen_expr(*authority, g), gen_expr(*amount, g)),
        ExprV::TokenMint { mint, to, authority, amount } => token_text("MintTo"@, "mint"@, "to"@, "mint_to"@,
            gen_expr(*mint, g), gen_expr(*to, g), gen_expr(*authority, g), gen_expr(*amount, g)),
        ExprV::TokenBurn { from, mint, authority, amount } => token_text("Burn"@, "from"@, "mint"@, "burn"@,
            gen_expr(*from, g), gen_expr(*mint, g), gen_expr(*authority, g), gen_expr(*amount, g)),
        ExprV::SolTransfer { .. } => seq![],
        ExprV::GetATA { owner, mint } => "anchor_spl::associated_token::get_associated_token_address(&"@ + gen_expr(*owner, g)
            + ", &"@ + gen_expr(*mint, g) + ")"@,
        ExprV::Index { expr, index } => gen_expr(*expr, g) + "["@ + gen_expr(*index, g) + " as usize]"@,
        ExprV::Field { expr, field } => if field == "length"@ {
            "("@ + gen_expr(*expr, g) + ".len() as u128)"@
        } else {
            gen_expr(*expr, g) + "."@ + snake(field)
        },
        ExprV::Ternary { condition, then_expr, else_expr } => "if "@ + gen_expr(*condition, g) + " { "@ + gen_expr(*then_expr, g)
            + " } else { "@ + gen_expr(*else_expr, g) + " }"@,
        ExprV::Assert { condition, message } => assert_text("assert!("@, gen_expr(*condition, g), message),
        ExprV::AssertEq { left, right, message } => assert_text("assert_eq!("@, gen_expr(*left, g) + ", "@ + gen_expr(*right, g), message),
        ExprV::AssertNe { left, right, message } => assert_text("assert_ne!("@, gen_expr(*left, g) + ", "@ + gen_expr(*right, g), message),
        ExprV::AssertGt { left, right, message } => assert_text("assert!("@, gen_expr(*left, g) + " > "@ + gen_expr(*right, g), message),
        ExprV::AssertGe { left, right, message } => assert_text("assert!("@, gen_expr(*left, g) + " >= "@ + gen_expr(*right, g), message),
        ExprV::AssertLt { left, right, message } => assert_text("assert!("@, gen_expr(*left, g) + " < "@ + gen_expr(*right, g), message),
        ExprV::AssertLe { left, right, message } => assert_text("assert!("@, gen_expr(*left, g) + " <= "@ + gen_expr(*right, g), message),
    }
}

/// The texts of expressions, in order.
pub open spec fn gen_exprs(es: Seq<ExprV>, g: GenV) -> Seq<Seq<char>>
    decreases es, 0nat,
{
    if es.len() == 0 {
        seq![]
    } else {
        gen_exprs(es.drop_last(), g).push(gen_expr(es.last(), g))
    }
}

/// Whether a statement holds a transfer of lamports where the generator writes it.
pub open spec fn stmt_bad(s: StmtV) -> bool
    decreases s, 1nat,
{
    match s {
        StmtV::VarDecl { value, .. } => match value {
            Some(e) => has_sol(e),
            None => false,
        },
        StmtV::Assign { target, value } => has_sol(target) || has_sol(value),
        StmtV::If { condition, then_block, else_block } => has_sol(condition) || stmts_bad(then_block) || (match else_block {
            Some(b) => stmts_bad(b),
            None => false,
        }),
        StmtV::While { condition, body } => has_sol(condition) || stmts_bad(body),
        StmtV::For { init, condition, update, body } => (match init {
            Some(b) => stmt_bad(*b),
            None => false,
        }) || (match condition {
            Some(c) => has_sol(c),
            None => false,
        }) || stmts_bad(body) || (match update {
            Some(u) => has_sol(u),
            None => false,
        }),
        StmtV::Return(v) => match v {
            Some(e) => has_sol(e),
            None => false,
        },
        StmtV::Emit { args, .. } => has_sol_all(args),
        StmtV::Require { condition, .. } => has_sol(condition),
        StmtV::Delete(t) => has_sol(t),
        StmtV::Expr(e) => has_sol(e),
        _ => false,
    }
}

/// Whether one of the statements holds a transfer of lamports.
pub open spec fn stmts_bad(ss: Seq<StmtV>) -> bool
    decreases ss, 0nat,
{
    if ss.len() == 0 {
        false
    } else {
        stmts_bad(ss.drop_last()) || stmt_bad(ss.last())
    }
}

/// How deep blocks nest inside a statement.
pub open spec fn stmt_depth(s: StmtV) -> nat
    decreases s, 1nat,
{
    match s {
        StmtV::If { then_block, else_block, .. } => match else_block {
            Some(b) => if stmts_depth(b) > stmts_depth(then_block) {
                1 + stmts_depth(b)
            } else {
                1 + stmts_depth(then_block)
            },
            None => 1 + stmts_depth(then_block),
        },
        StmtV::While { body, .. } => 1 + stmts_depth(body),
        StmtV::For { init, body, .. } => match init {
            Some(b) => if stmt_depth(*b) > 1 + stmts_depth(body) {
                stmt_depth(*b)
            } else {
                1 + stmts_depth(body)
            },
            None => 1 + stmts_depth(body),
        },
        _ => 0,
    }
}

/// How deep blocks nest inside statements.
pub open spec fn stmts_depth(ss: Seq<StmtV>) -> nat
    decreases ss, 0nat,
{
    if ss.len() == 0 {
        0
    } else if stmts_depth(ss.drop_last()) > stmt_depth(ss.last()) {
        stmts_depth(ss.drop_last())
    } else {
        stmt_depth(ss.last())
    }
}

/// The field names of the first event with the name.
pub open spec fn find_event(evs: Seq<(Seq<char>, Seq<Seq<char>>)>, name: Seq<char>) -> Option<Seq<Seq<char>>>
    decreases evs.len(),
{
    if evs.len() == 0 {
        None
    } else if evs[0].0 == name {
        Some(evs[0].1)
    } else {
        find_event(evs.drop_first(), name)
    }
}

/// The field an argument of an event is written to: the event's field in that place,
/// or `field` and the place.
pub open spec fn emit_field(evs: Seq<(Seq<char>, Seq<Seq<char>>)>, event: Seq<char>, i: int) -> Seq<char> {
    match find_event(evs, event) {
        Some(fs) => if i < fs.len() {
            snake(fs[i])
        } else {
            "field"@ + dec_seq(i as nat)
        },
        None => "field"@ + dec_seq(i as nat),
    }
}

/// The text of a statement at an indentation.
pub open spec fn gen_stmt(s: StmtV, n: nat, g: GenV) -> Seq<char>
    decreases s, 1nat,
{
    let ind = indent(n);
    match s {
        StmtV::VarDecl { name, ty, value } => ind + "let "@ + snake(name) + ": "@ + type_to_rust_s(ty) + " = "@ + (match value {
            Some(e) => gen_expr(e, g),
            None => "Default::default()"@,
        }) + ";\n"@,
        StmtV::Assign { target, value } => ind + gen_expr(target, g) + " = "@ + gen_expr(value, g) + ";\n"@,
        StmtV::If { condition, then_block, else_block } => ind + "if "@ + gen_expr(condition, g) + " {\n"@ + gen_stmts(then_block, n + 1, g)
            + ind + "}"@ + (match else_block {
            Some(b) => " else {\n"@ + gen_stmts(b, n + 1, g) + ind + "}"@,
            None => Seq::<char>::empty(),
        }) + "\n"@,
        StmtV::While { condition, body } => ind + "while "@ + gen_expr(condition, g) + " {\n"@ + gen_stmts(body, n + 1, g) + ind
            + "}\n"@,
        StmtV::For { init, condition, update, body } => (match init {
            Some(b) => gen_stmt(*b, n, g),
            None => Seq::<char>::empty(),
        }) + ind + "while "@ + (match condition {
            Some(c) => gen_expr(c, g),
            None => "true"@,
        }) + " {\n"@ + gen_stmts(body, n + 1, g) + (match update {
            Some(u) => ind + "    "@ + gen_expr(u, g) + ";\n"@,
            None => Seq::<char>::empty(),
        }) + ind + "}\n"@,
        StmtV::Return(v) => match v {
            Some(e) => ind + "Ok("@ + gen_expr(e, g) + ")\n"@,
            None => ind + "Ok(())\n"@,
        },
        StmtV::Emit { event, args } => {
            let vals = gen_exprs(args, g);
            ind + "emit!(events::"@ + pascal(event) + " { "@ + join(
                Seq::new(vals.len(), |i: int| emit_field(g.events, event, i) + ": "@ + vals[i]),
                ", "@,
            ) + " });\n"@
        },
        StmtV::Require { condition, .. } => ind + "require!("@ + gen_expr(condition, g) + ", CustomError::RequireFailed);\n"@,
        StmtV::RevertWithError { error_name, .. } => ind + "return Err(error!(CustomError::"@ + pascal(error_name) + "));\n"@,
        StmtV::Delete(t) => ind + gen_expr(t, g) + " = Default::default();\n"@,
        StmtV::Selfdestruct { .. } => ind + "// State account will be closed, rent sent to recipient\n"@,
        StmtV::Expr(e) => ind + gen_expr(e, g) + ";\n"@,
        StmtV::Placeholder => Seq::<char>::empty(),
    }
}

/// The text of statements at an indentation, one after the other.
pub open spec fn gen_stmts(ss: Seq<StmtV>, n: nat, g: GenV) -> Seq<char>
    decreases ss, 0nat,
{
    if ss.len() == 0 {
        seq![]
    } else {
        gen_stmts(ss.drop_last(), n, g) + gen_stmt(ss.last(), n, g)
    }
}

/// The `#[max_len(..)]` attribute a type needs in an account: strings, bytes and
/// vectors have one; an option has that of what it holds.
pub open spec fn max_len_s(t: TypeV) -> Option<Seq<char>>
    decreases t,
{
    match t {
        TypeV::String => Some("#[max_len(200)]"@),
        TypeV::Bytes => Some("#[max_len(1000)]"@),
        TypeV::Vec(e) => if max_len_s(*e) is Some {
            Some("#[max_len(100, "@ + match *e {
                TypeV::String => "200"@,
                TypeV::Bytes => "1000"@,
                _ => "100"@,
            } + ")]"@)
        } else {
            Some("#[max_len(100)]"@)
        },
        TypeV::Option(e) => max_len_s(*e),
        _ => None,
    }
}

/// The value type a mapping stores in the end, through nested mappings.
pub open spec fn innermost_s(t: TypeV) -> TypeV
    decreases t,
{
    match t {
        TypeV::Mapping(_, v) => innermost_s(*v),
        other => other,
    }
}

/// The first parameter with the name.
pub open spec fn find_param(ps: Seq<(Seq<char>, TypeV)>, name: Seq<char>) -> Option<(Seq<char>, TypeV)>
    decreases ps.len(),
{
    if ps.len() == 0 {
        None
    } else if ps[0].0 == name {
        Some(ps[0])
    } else {
        find_param(ps.drop_first(), name)
    }
}

/// Whether a list of parameters holds one with the name.
pub open spec fn has_name(acc: Seq<(Seq<char>, TypeV)>, name: Seq<char>) -> bool {
    exists|k: int| 0 <= k < acc.len() && (#[trigger] acc[k]).0 == name
}

/// The parameters a seed expression uses, added in order to those found before: the
/// variables that name a parameter, through method calls and binary operations.
pub open spec fn seeds_expr(e: ExprV, ps: Seq<(Seq<char>, TypeV)>, acc: Seq<(Seq<char>, TypeV)>) -> Seq<(Seq<char>, TypeV)>
    decreases e, 1nat,
{
    match e {
        ExprV::Var(name) => match find_param(ps, name) {
            Some(p) => if has_name(acc, name) {
                acc
            } else {
                acc.push(p)
            },
            None => acc,
        },
        ExprV::MethodCall { receiver, args, .. } => seeds_exprs(args, ps, seeds_expr(*receiver, ps, acc)),
        ExprV::Binary { left, right, .. } => seeds_expr(*right, ps, seeds_expr(*left, ps, acc)),
        _ => acc,
    }
}

/// The parameters seed expressions use, first to last.
pub open spec fn seeds_exprs(es: Seq<ExprV>, ps: Seq<(Seq<char>, TypeV)>, acc: Seq<(Seq<char>, TypeV)>) -> Seq<(Seq<char>, TypeV)>
    decreases es, 0nat,
{
    if es.len() == 0 {
        acc
    } else {
        seeds_expr(es.last(), ps, seeds_exprs(es.drop_last(), ps, acc))
    }
}

/// The parameters the keys of mapping accesses use, first to last.
pub open spec fn seeds_accesses(accs: Seq<AccessV>, ps: Seq<(Seq<char>, TypeV)>) -> Seq<(Seq<char>, TypeV)>
    decreases accs.len(),
{
    if accs.len() == 0 {
        seq![]
    } else {
        seeds_exprs(accs.last().key_exprs, ps, seeds_accesses(accs.drop_last(), ps))
    }
}

/// A text with each occurrence of a pattern, from the left, taken out.
pub open spec fn remove_all(s: Seq<char>, p: Seq<char>) -> Seq<char>
    decreases s.len(),
{
    if p.len() == 0 || s.len() < p.len() {
        s
    } else if s.take(p.len() as int) == p {
        remove_all(s.skip(p.len() as int), p)
    } else {
        seq![s[0]] + remove_all(s.skip(1), p)
    }
}

/// Whether the seed text of a key expression has a transfer of lamports in it.
pub open spec fn key_seed_bad(e: ExprV) -> bool {
    match e {
        ExprV::MsgSender | ExprV::Var(_) | ExprV::StateAccess(_) => false,
        ExprV::Literal(LitV::Pubkey(_)) | ExprV::Literal(LitV::ZeroAddress) | ExprV::Literal(LitV::ZeroBytes(_)) => false,
        _ => has_sol(e),
    }
}

/// The seed text of a key expression, as it stands in an account attribute.
pub open spec fn key_seed_s(e: ExprV, g: GenV) -> Seq<char> {
    match e {
        ExprV::MsgSender => "signer.key()"@,
        ExprV::Var(name) => snake(name),
        ExprV::Literal(LitV::Pubkey(s)) => "Pubkey::default() /* "@ + s + " */"@,
        ExprV::Literal(LitV::ZeroAddress) => "Pubkey::default()"@,
        ExprV::Literal(LitV::ZeroBytes(n)) => "[0u8; "@ + dec_seq(n as nat) + "]"@,
        ExprV::StateAccess(f) => "state."@ + snake(f),
        _ => remove_all(gen_expr(e, g), "ctx.accounts."@),
    }
}

/// The account of a mapping access in a context struct.
pub open spec fn access_account_text(a: AccessV, g: GenV) -> Seq<char> {
    let entry = pascal(a.mapping_name) + "Entry"@;
    let seeds = join(a.key_exprs.map_values(|k: ExprV| key_seed_s(k, g) + ".as_ref()"@), ", "@);
    if a.is_write {
        "    #[account(\n        init_if_needed,\n        payer = signer,\n        space = 8 + "@ + entry + "::INIT_SPACE,\n        seeds = [b\""@ + snake(a.mapping_name) + "\", "@ + seeds + "],\n        bump\n    )]\n    pub "@ + snake(a.account_name) + ": Account<'info, "@ + entry
            + ">,\n"@
    } else {
        "    #[account(\n        seeds = [b\""@ + snake(a.mapping_name) + "\", "@ + seeds + "],\n        bump\n    )]\n    pub "@ + snake(a.account_name) + ": Account<'info, "@ + entry + ">,\n"@
    }
}

/// Whether the seed text of one of the keys of an access has a transfer of lamports.
pub open spec fn access_bad(a: AccessV) -> bool {
    exists|k: int| 0 <= k < a.key_exprs.len() && key_seed_bad(#[trigger] a.key_exprs[k])
}

/// The state account of a context struct.
pub open spec fn state_account_text(i: InstrV, state_name: Seq<char>) -> Seq<char> {
    if i.name == "initialize"@ {
        "    #[account(\n        init,\n        payer = signer,\n        space = 8 + "@ + state_name + "::INIT_SPACE\n    )]\n    pub state: Account<'info, "@ + state_name + ">,\n"@
    } else if i.is_view {
        "    pub state: Account<'info, "@ + state_name + ">,\n"@
    } else if i.closes_state {
        "    #[account(mut, close = signer)]\n    pub state: Account<'info, "@ + state_name + ">,\n"@
    } else {
        "    #[account(mut)]\n    pub state: Account<'info, "@ + state_name + ">,\n"@
    }
}

/// The accounts for the signers among the parameters.
pub open spec fn signer_accounts_text(ps: Seq<(Seq<char>, TypeV)>) -> Seq<char>
    decreases ps.len(),
{
    if ps.len() == 0 {
        seq![]
    } else {
        signer_accounts_text(ps.drop_last()) + if ps.last().1 == TypeV::Signer {
            "    pub "@ + snake(ps.last().0) + ": Signer<'info>,\n"@
        } else {
            Seq::<char>::empty()
        }
    }
}

/// The accounts for the mapping accesses, one after the other.
pub open spec fn access_accounts_text(accs: Seq<AccessV>, g: GenV) -> Seq<char>
    decreases accs.len(),
{
    if accs.len() == 0 {
        seq![]
    } else {
        access_accounts_text(accs.drop_last(), g) + access_account_text(accs.last(), g)
    }
}

/// Whether a context struct's seeds have a transfer of lamports in them.
pub open spec fn context_bad(i: InstrV) -> bool {
    exists|k: int| 0 <= k < i.mapping_accesses.len() && access_bad(#[trigger] i.mapping_accesses[k])
}

/// The accounts struct of an instruction.
pub open spec fn context_text(i: InstrV, program_name: Seq<char>, g: GenV) -> Seq<char> {
    let state_name = pascal(program_name) + "State"@;
    let seeds = seeds_accesses(i.mapping_accesses, i.params);
    "#[derive(Accounts)]\n"@ + (if seeds.len() > 0 {
        "#[instruction("@ + join(seeds.map_values(|p: (Seq<char>, TypeV)| snake(p.0) + ": "@ + type_to_rust_s(p.1)), ", "@) + ")]\n"@
    } else {
        Seq::<char>::empty()
    }) + "pub struct "@ + pascal(i.name) + "<'info> {\n"@ + state_account_text(i, state_name)
        + "    #[account(mut)]\n    pub signer: Signer<'info>,\n"@ + signer_accounts_text(i.params)
        + access_accounts_text(i.mapping_accesses, g) + (if i.name == "initialize"@ || (exists|k: int|
        0 <= k < i.mapping_accesses.len() && (#[trigger] i.mapping_accesses[k]).is_write) || i.is_payable {
        "    pub system_program: Program<'info, System>,\n"@
    } else {
        Seq::<char>::empty()
    }) + (if i.uses_token_program {
        "    pub token_program: Program<'info, Token>,\n"@
    } else {
        Seq::<char>::empty()
    }) + "}\n"@
}

} // verus!
