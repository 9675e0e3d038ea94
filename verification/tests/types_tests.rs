//! Primitive types and the names of type expressions.

use solscript::ast::{ContractMember, Item};
use solscript::parse;
use solscript::types::PrimitiveType;

#[test]
fn primitive_names_round_trip() {
    for name in ["uint8", "uint256", "int128", "bool", "address", "string", "bytes", "bytes1", "bytes32"] {
        let p = PrimitiveType::parse(name).unwrap_or_else(|| panic!("{} should parse", name));
        assert_eq!(p.as_str(), name);
    }
    assert!(PrimitiveType::parse("uint7").is_none());
    assert!(PrimitiveType::parse("bytes33").is_none());
}

#[test]
fn primitive_sizes() {
    assert_eq!(PrimitiveType::parse("uint8").unwrap().byte_size(), Some(1));
    assert_eq!(PrimitiveType::parse("uint256").unwrap().byte_size(), Some(32));
    assert_eq!(PrimitiveType::parse("address").unwrap().byte_size(), Some(20));
}

#[test]
fn type_expression_names() {
    let p = parse("contract C { mapping(address => uint256[]) public m; uint8[3][] public a; }").unwrap();
    let names: Vec<String> = match &p.items[0] {
        Item::Contract(c) => c
            .members
            .iter()
            .filter_map(|m| match m {
                ContractMember::StateVar(v) => Some(v.ty.name()),
                _ => None,
            })
            .collect(),
        _ => vec![],
    };
    assert_eq!(names, vec!["mapping(address => uint256[])".to_string(), "uint8[3][]".to_string()]);
}
