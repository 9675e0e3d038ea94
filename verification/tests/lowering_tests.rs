//! Lowering parsed programs to the Solana representation.

use solscript::codegen_error::CodegenError;
use solscript::ir::{Expression, SolanaType, Statement};
use solscript::lower::to_snake_case;
use solscript::lower_contract::{lower_to_ir, try_lower_to_ir};
use solscript::parse;

fn lower(source: &str) -> Option<Result<Vec<solscript::ir::SolanaProgram>, CodegenError>> {
    let program = parse(source).expect("parses");
    try_lower_to_ir(&program)
}

#[test]
fn one_program_per_deployable_contract() {
    let source = r#"
        abstract contract Base {
            uint256 public total;
        }
        contract Token is Base {
            mapping(address => uint256) public balanceOf;
        }
        contract Other {
            bool public flag;
        }
    "#;
    let programs = lower(source).unwrap().unwrap();
    let names: Vec<String> = programs.iter().map(|p| p.name.clone()).collect();
    assert_eq!(names, vec!["Token".to_string(), "Other".to_string()]);
    // The derived contract holds the inherited field and its own mapping.
    assert_eq!(programs[0].state.fields.len(), 1);
    assert_eq!(programs[0].state.fields[0].name, "total");
    assert_eq!(programs[0].mappings.len(), 1);
    assert_eq!(programs[0].mappings[0].name, "balanceOf");
    assert!(matches!(programs[0].mappings[0].key_ty, SolanaType::Pubkey));
    assert!(matches!(programs[0].mappings[0].value_ty, SolanaType::U128));
}

#[test]
fn constructor_becomes_first_instruction_initialize() {
    let source = r#"
        contract Counter {
            uint256 public count;
            function increment() public {
                count += 1;
            }
            constructor(uint256 start) {
                count = start;
            }
        }
    "#;
    let programs = lower(source).unwrap().unwrap();
    let p = &programs[0];
    assert_eq!(p.instructions.len(), 2);
    assert_eq!(p.instructions[0].name, "initialize");
    assert!(p.instructions[0].is_public);
    assert!(!p.instructions[0].is_view);
    assert_eq!(p.instructions[0].params.len(), 1);
    assert_eq!(p.instructions[1].name, "increment");
}

#[test]
fn mapping_accesses_get_numbered_accounts() {
    let source = r#"
        contract Token {
            mapping(address => uint256) public balanceOf;
            function transfer(address to, uint256 amount) public {
                balanceOf[msg.sender] -= amount;
                balanceOf[to] += amount;
            }
        }
    "#;
    let programs = lower(source).unwrap().unwrap();
    let t = &programs[0].instructions[0];
    let names: Vec<String> = t.mapping_accesses.iter().map(|a| a.account_name.clone()).collect();
    assert_eq!(names, vec!["balance_of_entry_0".to_string(), "balance_of_entry_1".to_string()]);
    assert!(t.mapping_accesses.iter().all(|a| a.mapping_name == "balanceOf" && a.is_write && !a.should_close));
}

#[test]
fn delete_of_mapping_entry_closes_its_account() {
    let source = r#"
        contract Registry {
            mapping(address => uint256) public entries;
            function clear(address who) public {
                delete entries[who];
            }
        }
    "#;
    let programs = lower(source).unwrap().unwrap();
    let i = &programs[0].instructions[0];
    assert_eq!(i.mapping_accesses.len(), 1);
    assert!(i.mapping_accesses[0].should_close);
    assert!(matches!(i.body[0], Statement::Delete(Expression::MappingAccess { .. })));
}

#[test]
fn child_function_overrides_parent() {
    let source = r#"
        contract Base {
            function value() public view returns (uint256) {
                return 1;
            }
            function other() public {
            }
        }
        contract Child is Base {
            function value() public view returns (uint256) {
                return 2;
            }
        }
    "#;
    let programs = lower(source).unwrap().unwrap();
    let child = &programs[1];
    let names: Vec<String> = child.instructions.iter().map(|i| i.name.clone()).collect();
    assert_eq!(names, vec!["value".to_string(), "other".to_string()]);
    match &child.instructions[0].body[0] {
        Statement::Return(Some(Expression::Literal(solscript::ir::Literal::Uint(n)))) => assert_eq!(*n, 2),
        other => panic!("unexpected body: {:?}", other),
    }
}

#[test]
fn selfdestruct_closes_state() {
    let source = r#"
        contract Box {
            function destroy(address to) public {
                if (true) {
                    selfdestruct(to);
                }
            }
            function keep() public {
            }
        }
    "#;
    let programs = lower(source).unwrap().unwrap();
    // Functions are lowered last member first, so `keep` comes before `destroy`.
    assert_eq!(programs[0].instructions[0].name, "keep");
    assert!(!programs[0].instructions[0].closes_state);
    assert_eq!(programs[0].instructions[1].name, "destroy");
    assert!(programs[0].instructions[1].closes_state);
}

#[test]
fn multiple_return_values_are_refused() {
    let source = r#"
        contract Pair {
            function both() public returns (uint256, uint256) {
                return 1;
            }
        }
    "#;
    match lower(source) {
        Some(Err(CodegenError::UnsupportedFeature(m))) => assert_eq!(m, "Multiple return values"),
        other => panic!("unexpected: {:?}", other),
    }
}

#[test]
fn invalid_bytes_size_is_refused() {
    let source = r#"
        contract B {
            bytes40 public data;
        }
    "#;
    match lower(source) {
        Some(Err(CodegenError::UnsupportedFeature(m))) => assert_eq!(m, "Invalid bytes size: 40"),
        other => panic!("unexpected: {:?}", other),
    }
}

#[test]
fn assert_without_arguments_stops() {
    let source = r#"
        contract T {
            function check() public {
                assert();
            }
        }
    "#;
    assert!(lower(source).is_none());
}

#[test]
fn lower_to_ir_on_accepted_program() {
    let program = parse("contract A { uint8 public x; }").unwrap();
    let programs = lower_to_ir(&program).unwrap();
    assert_eq!(programs.len(), 1);
    assert!(matches!(programs[0].state.fields[0].ty, SolanaType::U8));
    assert!(programs[0].state.fields[0].is_public);
}

#[test]
fn events_and_errors_of_the_whole_source_go_to_each_program() {
    let source = r#"
        event Ping(address indexed who);
        contract A {
            error Nope(uint256 code);
        }
        contract B {
        }
    "#;
    let programs = lower(source).unwrap().unwrap();
    assert_eq!(programs.len(), 2);
    for p in &programs {
        assert_eq!(p.events.len(), 1);
        assert_eq!(p.events[0].name, "Ping");
        assert!(p.events[0].fields[0].indexed);
        assert_eq!(p.errors.len(), 1);
        assert_eq!(p.errors[0].name, "Nope");
    }
}

#[test]
fn snake_case_of_names() {
    assert_eq!(to_snake_case("balanceOf"), "balance_of");
    assert_eq!(to_snake_case("MyToken"), "my_token");
    assert_eq!(to_snake_case("ABC"), "abc");
    assert_eq!(to_snake_case("already_snake"), "already_snake");
}
