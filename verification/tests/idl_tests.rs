//! The IDL of lowered programs.

use solscript::idl::{
    idl_instruction, solana_type_to_idl_type, to_camel_case, to_camel_case_lower, to_snake_case_idl, IdlGenerator, IdlType,
    IdlTypeDefType,
};
use solscript::ir::SolanaType;
use solscript::lower_contract::lower_to_ir;
use solscript::parse;

fn program_of(source: &str) -> solscript::ir::SolanaProgram {
    let program = parse(source).expect("parses");
    let mut programs = lower_to_ir(&program).expect("lowers");
    programs.pop().expect("one program")
}

#[test]
fn names_in_camel_and_snake_case() {
    assert_eq!(to_camel_case("total_supply"), "TotalSupply");
    assert_eq!(to_camel_case("my-token_name"), "MyTokenName");
    assert_eq!(to_camel_case("__x"), "X");
    assert_eq!(to_camel_case_lower("total_supply"), "totalSupply");
    assert_eq!(to_camel_case_lower("balanceOf"), "balanceOf");
    assert_eq!(to_camel_case_lower(""), "");
    assert_eq!(to_snake_case_idl("MyToken"), "my_token");
    assert_eq!(to_snake_case_idl("ERC20"), "e_r_c20");
}

#[test]
fn type_mapping() {
    match solana_type_to_idl_type(&SolanaType::U128) {
        IdlType::Primitive(p) => assert_eq!(p, "u128"),
        other => panic!("unexpected {:?}", other),
    }
    match solana_type_to_idl_type(&SolanaType::Pubkey) {
        IdlType::Primitive(p) => assert_eq!(p, "publicKey"),
        other => panic!("unexpected {:?}", other),
    }
    match solana_type_to_idl_type(&SolanaType::FixedBytes(32)) {
        IdlType::Array(inner, n) => {
            assert_eq!(n, 32);
            assert!(matches!(*inner, IdlType::Primitive(ref p) if p == "u8"));
        }
        other => panic!("unexpected {:?}", other),
    }
    match solana_type_to_idl_type(&SolanaType::Vec(Box::new(SolanaType::Bool))) {
        IdlType::Vec(inner) => assert!(matches!(*inner, IdlType::Primitive(ref p) if p == "bool")),
        other => panic!("unexpected {:?}", other),
    }
    match solana_type_to_idl_type(&SolanaType::Mapping(Box::new(SolanaType::Pubkey), Box::new(SolanaType::U64))) {
        IdlType::Primitive(p) => assert_eq!(p, "bytes"),
        other => panic!("unexpected {:?}", other),
    }
    match solana_type_to_idl_type(&SolanaType::Custom("Point".to_string())) {
        IdlType::Defined(p) => assert_eq!(p, "Point"),
        other => panic!("unexpected {:?}", other),
    }
}

#[test]
fn idl_of_a_token() {
    let source = r#"
        struct Point { uint256 x; }
        enum Status { Open, Closed }
        contract MyToken {
            mapping(address => uint256) public balances;
            uint256 public total_supply;
            event Moved(address indexed from_addr, uint256 amount);
            error NotEnough(uint256 have);
            error Locked();
            constructor() {
                total_supply = 0;
            }
            function balance_of(address account) public view returns (uint256) {
                return balances[account];
            }
        }
    "#;
    let ir = program_of(source);
    let mut g = IdlGenerator::new();
    let idl = g.generate(&ir);
    assert_eq!(idl.version, "0.1.0");
    assert_eq!(idl.name, "my_token");
    assert_eq!(idl.metadata.address, "11111111111111111111111111111111");

    let init = idl.instructions.iter().find(|i| i.name == "initialize").expect("constructor");
    let names: Vec<&str> = init.accounts.iter().map(|a| a.name.as_str()).collect();
    assert_eq!(names, vec!["state", "signer", "systemProgram"]);
    assert!(init.accounts[0].is_mut);
    assert!(init.accounts[1].is_signer);

    let bal = idl.instructions.iter().find(|i| i.name == "balanceOf").expect("balance_of");
    assert!(!bal.accounts[0].is_mut);
    assert_eq!(bal.accounts.len(), 3);
    assert_eq!(bal.accounts[2].name, "balances_entry_0");
    assert_eq!(bal.args.len(), 1);
    assert_eq!(bal.args[0].name, "account");
    assert!(matches!(bal.returns, Some(IdlType::Primitive(ref p)) if p == "u128"));

    assert_eq!(idl.accounts[0].name, "MyTokenState");
    assert_eq!(idl.accounts[0].ty.kind, "struct");
    assert_eq!(idl.accounts[0].ty.fields[0].name, "totalSupply");
    assert_eq!(idl.accounts[1].name, "BalancesEntry");
    assert_eq!(idl.accounts[1].ty.fields[0].name, "value");

    assert_eq!(idl.types.len(), 2);
    assert_eq!(idl.types[0].name, "Point");
    assert!(matches!(idl.types[0].ty, IdlTypeDefType::Struct { .. }));
    match &idl.types[1].ty {
        IdlTypeDefType::Enum { variants } => {
            let vs: Vec<&str> = variants.iter().map(|v| v.name.as_str()).collect();
            assert_eq!(vs, vec!["Open", "Closed"]);
        }
        other => panic!("unexpected {:?}", other),
    }

    assert_eq!(idl.events[0].name, "Moved");
    assert_eq!(idl.events[0].fields[0].name, "fromAddr");
    assert!(idl.events[0].fields[0].index);
    assert!(!idl.events[0].fields[1].index);

    let codes: Vec<u32> = idl.errors.iter().map(|e| e.code).collect();
    assert_eq!(codes, vec![6000, 6001, 6002]);
    assert_eq!(idl.errors[0].name, "RequireFailed");
    assert_eq!(idl.errors[0].msg, "Requirement failed");
    assert_eq!(idl.errors[2].name, "Locked");
    assert_eq!(idl.errors[2].msg, "Locked");
}

#[test]
fn initialize_is_matched_in_any_case() {
    let ir = program_of("contract A { function Initialize() public {} function other() public {} }");
    let upper = ir.instructions.iter().find(|i| i.name == "Initialize").unwrap();
    let lowered = upper.name.to_lowercase();
    let i = idl_instruction(upper, &lowered);
    assert_eq!(i.accounts.len(), 3);
    assert_eq!(i.accounts[2].name, "systemProgram");
    let other = ir.instructions.iter().find(|i| i.name == "other").unwrap();
    let j = idl_instruction(other, "other");
    assert_eq!(j.accounts.len(), 2);
}
