//! Writing programs back in the canonical layout.

use solscript::formatter::{format_program, indent_each_line, needs_formatting, normalize_whitespace};
use solscript::parse;

#[test]
fn formats_a_contract() {
    let source = "contract Counter is Base, Other { uint256 public count; event Bumped(address indexed who, uint256 by); \
                  constructor(uint256 start) { count = start; } \
                  modifier onlyOwner() { _; } \
                  function bump(uint256 by) public onlyOwner returns (uint256) { count += by; return count; } }";
    let program = parse(source).expect("parses");
    let text = format_program(&program);
    let expected = "contract Counter is Base, Other {\n\
                    \x20   uint256 public count;\n\
                    \x20   event Bumped(address indexed who, uint256 by);\n\
                    \x20   constructor(uint256 start) {\n\
                    \x20       // ... constructor body\n\
                    \x20   }\n\
                    \n\
                    \x20   modifier onlyOwner() {\n\
                    \x20       // ... modifier body\n\
                    \x20       _;\n\
                    \x20   }\n\
                    \n\
                    \x20   function bump(uint256 by) public onlyOwner returns (uint256) {\n\
                    \x20       // ... function body\n\
                    \x20   }\n\
                    \n\
                    }\n";
    assert_eq!(text, expected);
}

#[test]
fn formats_items_of_every_kind() {
    let source = r#"
        import { A, B } from "./lib.sol";
        struct Point { uint256 x; uint256[] ys; }
        enum Color { Red, Green }
        event Done(bool ok);
        error Bad(uint8 code);
        interface IToken { function balanceOf(address who) external view returns (uint256); }
        function helper(mapping(address => uint256) m) public;
    "#;
    let program = parse(source).expect("parses");
    let text = format_program(&program);
    let expected = "import { A, B } from \"./lib.sol\";\n\
                    \nstruct Point {\n    uint256 x;\n    uint256[] ys;\n}\n\
                    \nenum Color {\n    Red,\n    Green\n}\n\
                    \nevent Done(bool ok);\n\
                    \nerror Bad(uint8 code);\n\
                    \ninterface IToken {\n    function balanceOf(address who) external view returns (uint256);\n}\n\
                    \nfunction helper(mapping(address => uint256) m) public;\n\n";
    assert_eq!(text, expected);
}

#[test]
fn nested_struct_and_enum_are_indented() {
    let source = "contract C { struct P { uint8 a; } enum E { X } }";
    let program = parse(source).expect("parses");
    let text = format_program(&program);
    assert_eq!(text, "contract C {\n    struct P {\n        uint8 a;\n    }\n    enum E {\n        X\n    }\n}\n");
}

#[test]
fn indents_each_line() {
    assert_eq!(indent_each_line("a\nb\n"), "    a\n    b\n");
    assert_eq!(indent_each_line("a\r\nb"), "    a\n    b\n");
    assert_eq!(indent_each_line(""), "");
    assert_eq!(indent_each_line("\n"), "    \n");
}

#[test]
fn normalizes_whitespace() {
    assert_eq!(normalize_whitespace("  a  \n\n\t b\r\n   \n"), "a\nb");
    assert_eq!(normalize_whitespace(""), "");
    assert_eq!(normalize_whitespace("x"), "x");
}

#[test]
fn decides_whether_to_format() {
    assert!(!needs_formatting("a\n  b\n", "a\nb"));
    assert!(needs_formatting("a b", "a  b"));
    let program = parse("contract A { uint8 x; }").unwrap();
    let formatted = format_program(&program);
    assert!(!needs_formatting(&formatted, &formatted));
    assert!(needs_formatting("contract A { uint8 x; }", &formatted));
}

#[test]
fn normalizing_twice_is_normalizing_once() {
    for text in ["  a \r\n\n b  \n", "", "\n\n", "x\ty\n  z", "contract A {\n    uint8 x;\n}\n"] {
        let once = normalize_whitespace(text);
        assert_eq!(normalize_whitespace(&once), once);
    }
}
