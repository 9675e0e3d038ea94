//! Rust text for the Solana representation.

use solscript::codegen_error::CodegenError;
use solscript::ir::{
    BinaryOp, Event, EventField, Expression, Instruction, InstructionParam, Literal, MappingAccess, ProgramState,
    SolanaProgram, SolanaType, Statement, UnaryOp,
};
use solscript::rust_gen::{
    escape_quotes_of, generate_literal, get_max_len_attribute, indent_str, innermost_value_type, join_strings,
    remove_all_of, to_pascal_case, type_to_rust, RustGenerator,
};

fn var(n: &str) -> Box<Expression> {
    Box::new(Expression::Var(n.to_string()))
}

#[test]
fn literals() {
    assert_eq!(generate_literal(&Literal::Bool(true)), "true");
    assert_eq!(generate_literal(&Literal::Int(-42)), "-42i128");
    assert_eq!(generate_literal(&Literal::Int(i128::MIN)), "-170141183460469231731687303715884105728i128");
    assert_eq!(generate_literal(&Literal::Uint(7)), "7u128");
    assert_eq!(generate_literal(&Literal::String("say \"hi\"".to_string())), "\"say \\\"hi\\\"\"");
    assert_eq!(generate_literal(&Literal::ZeroAddress), "Pubkey::default()");
    assert_eq!(generate_literal(&Literal::ZeroBytes(32)), "[0u8; 32]");
    assert_eq!(generate_literal(&Literal::Pubkey("abc".to_string())), "Pubkey::default() /* abc */");
}

#[test]
fn expressions() {
    let g = RustGenerator::new();
    let e = Expression::Binary { op: BinaryOp::Add, left: var("fooBar"), right: Box::new(Expression::Literal(Literal::Uint(1))) };
    assert_eq!(g.generate_expression(&e).unwrap(), "(foo_bar + 1u128)");
    let s = Expression::StateAccess("totalSupply".to_string());
    assert_eq!(g.generate_expression(&s).unwrap(), "ctx.accounts.state.total_supply");
    let u = Expression::Unary { op: UnaryOp::Not, expr: var("ok") };
    assert_eq!(g.generate_expression(&u).unwrap(), "(!ok)");
    let f = Expression::Field { expr: var("items"), field: "length".to_string() };
    assert_eq!(g.generate_expression(&f).unwrap(), "(items.len() as u128)");
    let i = Expression::Index { expr: var("items"), index: var("k") };
    assert_eq!(g.generate_expression(&i).unwrap(), "items[k as usize]");
    let t = Expression::Ternary { condition: var("c"), then_expr: var("a"), else_expr: var("b") };
    assert_eq!(g.generate_expression(&t).unwrap(), "if c { a } else { b }");
    let c = Expression::Call { func: "doThing".to_string(), args: vec![Expression::Var("x".to_string()), Expression::MsgSender] };
    assert_eq!(g.generate_expression(&c).unwrap(), "do_thing(x, ctx.accounts.signer.key())");
    let a = Expression::MethodCall { receiver: var("count"), method: "__assign__".to_string(), args: vec![Expression::Literal(Literal::Uint(0))] };
    assert_eq!(g.generate_expression(&a).unwrap(), "count = 0u128");
    let m = Expression::MappingAccess { mapping_name: "balanceOf".to_string(), keys: vec![], account_name: "balanceOf_entry_0".to_string() };
    assert_eq!(g.generate_expression(&m).unwrap(), "ctx.accounts.balance_of_entry_0.value");
    let eq = Expression::AssertEq { left: var("a"), right: var("b"), message: Some("m".to_string()) };
    assert_eq!(g.generate_expression(&eq).unwrap(), "assert_eq!(a, b, \"m\")");
    let gt = Expression::AssertGt { left: var("a"), right: var("b"), message: None };
    assert_eq!(g.generate_expression(&gt).unwrap(), "assert!(a > b)");
}

#[test]
fn sol_transfer_has_no_code() {
    let g = RustGenerator::new();
    let e = Expression::Binary {
        op: BinaryOp::Add,
        left: var("a"),
        right: Box::new(Expression::SolTransfer { to: var("to"), amount: var("amount") }),
    };
    match g.generate_expression(&e) {
        Err(CodegenError::UnsupportedFeature(m)) => assert_eq!(m, "SOL transfers"),
        other => panic!("unexpected: {:?}", other),
    }
}

#[test]
fn token_transfer_text() {
    let g = RustGenerator::new();
    let e = Expression::TokenTransfer { from: var("fromAcct"), to: var("toAcct"), authority: var("auth"), amount: var("amt") };
    let text = g.generate_expression(&e).unwrap();
    assert!(text.contains("anchor_spl::token::Transfer {"));
    assert!(text.contains("from: ctx.accounts.from_acct.to_account_info(),"));
    assert!(text.contains("anchor_spl::token::transfer(CpiContext::new(cpi_program, cpi_accounts), amt as u64)?"));
}

#[test]
fn statements() {
    let g = RustGenerator::new();
    let decl = Statement::VarDecl { name: "myVar".to_string(), ty: SolanaType::U64, value: None };
    assert_eq!(g.generate_statement(&decl, 1).unwrap(), "    let my_var: u64 = Default::default();\n");
    let ret = Statement::Return(None);
    assert_eq!(g.generate_statement(&ret, 2).unwrap(), "        Ok(())\n");
    let req = Statement::Require { condition: *var("ok"), message: Some("no".to_string()) };
    assert_eq!(g.generate_statement(&req, 0).unwrap(), "require!(ok, CustomError::RequireFailed);\n");
    let iff = Statement::If {
        condition: *var("c"),
        then_block: vec![Statement::Expr(Expression::Var("x".to_string()))],
        else_block: Some(vec![Statement::Expr(Expression::Var("y".to_string()))]),
    };
    assert_eq!(g.generate_statement(&iff, 0).unwrap(), "if c {\n    x;\n} else {\n    y;\n}\n");
    let fr = Statement::For {
        init: Some(Box::new(Statement::VarDecl { name: "i".to_string(), ty: SolanaType::U8, value: Some(Expression::Literal(Literal::Uint(0))) })),
        condition: None,
        update: Some(Expression::Var("step".to_string())),
        body: vec![],
    };
    assert_eq!(g.generate_statement(&fr, 0).unwrap(), "let i: u8 = 0u128;\nwhile true {\n    step;\n}\n");
    let emit = Statement::Emit { event: "my_event".to_string(), args: vec![Expression::Var("a".to_string())] };
    assert_eq!(g.generate_statement(&emit, 0).unwrap(), "emit!(events::MyEvent { field0: a });\n");
    let rev = Statement::RevertWithError { error_name: "not_allowed".to_string(), args: vec![] };
    assert_eq!(g.generate_statement(&rev, 0).unwrap(), "return Err(error!(CustomError::NotAllowed));\n");
    assert_eq!(g.generate_statement(&Statement::Placeholder, 3).unwrap(), "");
}

#[test]
fn types_and_attributes() {
    assert_eq!(type_to_rust(&SolanaType::Array(Box::new(SolanaType::U8), 4)), "[u8; 4]");
    assert_eq!(type_to_rust(&SolanaType::Vec(Box::new(SolanaType::Pubkey))), "Vec<Pubkey>");
    assert_eq!(type_to_rust(&SolanaType::Custom("my_struct".to_string())), "MyStruct");
    assert_eq!(type_to_rust(&SolanaType::Signer), "Pubkey");
    assert_eq!(get_max_len_attribute(&SolanaType::String), Some("#[max_len(200)]".to_string()));
    assert_eq!(get_max_len_attribute(&SolanaType::Vec(Box::new(SolanaType::String))), Some("#[max_len(100, 200)]".to_string()));
    assert_eq!(get_max_len_attribute(&SolanaType::Vec(Box::new(SolanaType::U8))), Some("#[max_len(100)]".to_string()));
    assert_eq!(get_max_len_attribute(&SolanaType::U64), None);
    let nested = SolanaType::Mapping(Box::new(SolanaType::Pubkey), Box::new(SolanaType::Mapping(Box::new(SolanaType::Pubkey), Box::new(SolanaType::Bool))));
    assert!(matches!(innermost_value_type(&nested), SolanaType::Bool));
}

#[test]
fn text_helpers() {
    assert_eq!(to_pascal_case("my_token_name"), "MyTokenName");
    assert_eq!(to_pascal_case("counter"), "Counter");
    assert_eq!(remove_all_of("ctx.accounts.state.x + ctx.accounts.y", "ctx.accounts."), "state.x + y");
    assert_eq!(escape_quotes_of("a\"b"), "a\\\"b");
    assert_eq!(indent_str(2), "        ");
    assert_eq!(join_strings(&vec!["a".to_string(), "b".to_string(), "c".to_string()], ", "), "a, b, c");
    assert_eq!(join_strings(&vec![], ", "), "");
}

fn program_with(instruction: Instruction) -> SolanaProgram {
    SolanaProgram {
        name: "my_vault".to_string(),
        state: ProgramState { fields: vec![] },
        mappings: vec![],
        modifiers: vec![],
        instructions: vec![instruction],
        events: vec![Event { name: "E".to_string(), fields: vec![EventField { name: "x".to_string(), ty: SolanaType::U8, indexed: false }] }],
        errors: vec![],
        structs: vec![],
        enums: vec![],
        tests: vec![],
    }
}

fn instruction(name: &str, is_view: bool, accesses: Vec<MappingAccess>, params: Vec<InstructionParam>) -> Instruction {
    Instruction {
        name: name.to_string(),
        params,
        returns: None,
        body: vec![],
        is_public: true,
        is_view,
        is_payable: false,
        uses_token_program: false,
        uses_sol_transfer: false,
        modifiers: vec![],
        mapping_accesses: accesses,
        closes_state: false,
    }
}

#[test]
fn context_struct_for_initialize() {
    let g = RustGenerator::new();
    let i = instruction("initialize", false, vec![], vec![]);
    let p = program_with(instruction("initialize", false, vec![], vec![]));
    let text = g.generate_context_struct(&i, &p).unwrap();
    assert!(text.starts_with("#[derive(Accounts)]\npub struct Initialize<'info> {\n"));
    assert!(text.contains("space = 8 + MyVaultState::INIT_SPACE"));
    assert!(text.contains("pub system_program: Program<'info, System>,\n"));
    assert!(text.ends_with("}\n"));
}

#[test]
fn context_struct_for_view_has_no_system_program() {
    let g = RustGenerator::new();
    let i = instruction("get_balance", true, vec![], vec![]);
    let p = program_with(instruction("get_balance", true, vec![], vec![]));
    let text = g.generate_context_struct(&i, &p).unwrap();
    assert!(text.contains("    pub state: Account<'info, MyVaultState>,\n"));
    assert!(!text.contains("system_program"));
}

#[test]
fn context_struct_with_mapping_seeds() {
    let g = RustGenerator::new();
    let access = MappingAccess {
        mapping_name: "balanceOf".to_string(),
        key_exprs: vec![Expression::Var("owner".to_string())],
        is_write: true,
        should_close: false,
        account_name: "balance_of_entry_0".to_string(),
    };
    let params = vec![InstructionParam { name: "owner".to_string(), ty: SolanaType::Pubkey }];
    let i = instruction("deposit", false, vec![access], params);
    let p = program_with(instruction("deposit", false, vec![], vec![]));
    let text = g.generate_context_struct(&i, &p).unwrap();
    assert!(text.contains("#[instruction(owner: Pubkey)]\n"));
    assert!(text.contains("seeds = [b\"balance_of\", owner.as_ref()],"));
    assert!(text.contains("pub balance_of_entry_0: Account<'info, BalanceOfEntry>,\n"));
    assert!(text.contains("init_if_needed"));
    assert!(text.contains("pub system_program: Program<'info, System>,\n"));
}

#[test]
fn key_seed_expressions() {
    let g = RustGenerator::new();
    assert_eq!(g.generate_key_seed_expr(&Expression::MsgSender).unwrap(), "signer.key()");
    assert_eq!(g.generate_key_seed_expr(&Expression::StateAccess("ownerKey".to_string())).unwrap(), "state.owner_key");
    let e = Expression::MethodCall { receiver: Box::new(Expression::StateAccess("a".to_string())), method: "key".to_string(), args: vec![] };
    assert_eq!(g.generate_key_seed_expr(&e).unwrap(), "state.a.key()");
}

#[test]
fn only_the_last_program_is_generated() {
    let source = "contract A { uint256 public a; function setA(uint256 v) public { a = v; } } contract B { uint256 public b; function setB(uint256 v) public { b = v; } }";
    let program = solscript::parse(source).unwrap();
    let mut both = solscript::lower_contract::try_lower_to_ir(&program).unwrap().unwrap();
    assert_eq!(both.len(), 2);
    let from_both = RustGenerator::new().generate(&both).unwrap();
    let last = both.pop().unwrap();
    let from_last = RustGenerator::new().generate(&vec![last]).unwrap();
    assert_eq!(from_both.lib_rs, from_last.lib_rs);
    assert_eq!(from_both.state_rs, from_last.state_rs);
    assert_eq!(from_both.instructions_rs, from_last.instructions_rs);
    assert_eq!(from_both.error_rs, from_last.error_rs);
    assert_eq!(from_both.events_rs, from_last.events_rs);
    assert_eq!(from_both.anchor_toml, from_last.anchor_toml);
    assert_eq!(from_both.cargo_toml, from_last.cargo_toml);
    assert_eq!(from_both.package_json, from_last.package_json);
    assert_eq!(from_both.readme, from_last.readme);
    assert_eq!(from_both.rust_tests, from_last.rust_tests);
    assert!(from_both.lib_rs.contains("set_b"));
    assert!(!from_both.lib_rs.contains("set_a"));
    match RustGenerator::new().generate(&Vec::new()) {
        Err(CodegenError::MissingElement(_)) => {}
        _ => panic!("no program is a missing-element error"),
    }
}
