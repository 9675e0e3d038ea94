//! Hovers, definitions, completions and formatting for the language server.

use solscript::lsp::{
    completions_for_prefix, find_definition, format_program, get_builtin_completions, get_builtin_hover,
    get_keyword_completions, get_keyword_hover, get_member_completions, get_symbol_completions, get_type_completions,
    get_type_hover, hover_text, CompletionKind,
};
use solscript::lsp::{word_at_checked, word_at_offset};
use solscript::parse;

const SOURCE: &str = r#"contract Vault is Base {
    uint256 public total;
    function deposit(uint256 amount) public returns (bool) {
        total += amount;
        return true;
    }
}
struct Point {
    uint256 x;
    uint256 y;
}
enum Color { Red, Green }
event Moved(address indexed who, uint256 by);
error Bad(uint256 code);
"#;

#[test]
fn definitions_are_found_in_order() {
    let p = parse(SOURCE).unwrap();
    let vault = find_definition(&p, "Vault").unwrap();
    assert_eq!(vault.start, 0);
    let total = find_definition(&p, "total").unwrap();
    assert_eq!(&SOURCE[total.start..total.end], "uint256 public total;");
    let y = find_definition(&p, "y").unwrap();
    assert_eq!(&SOURCE[y.start..y.end], "uint256 y;");
    let green = find_definition(&p, "Green").unwrap();
    assert_eq!(&SOURCE[green.start..green.end], "Green");
    assert!(find_definition(&p, "missing").is_none());
}

#[test]
fn built_in_type_and_keyword_hovers() {
    assert_eq!(get_builtin_hover("msg").unwrap(), "**msg** - Transaction message context\n\nProperties:\n- `sender`: Address of the transaction signer\n- `value`: Amount of SOL sent (in lamports)");
    assert_eq!(get_builtin_hover("assertLt").unwrap(), "**assertLt** - Comparison assertion\n\nAsserts comparison is true (for tests).");
    assert_eq!(get_type_hover("uint8").unwrap(), "**uint8** - 8-bit unsigned integer\n\nRange: 0 to 255");
    assert_eq!(get_keyword_hover("view").unwrap(), "**view** - View modifier\n\nFunction does not modify state (read-only).");
    assert!(get_builtin_hover("nothing").is_none());
    assert!(get_type_hover("nothing").is_none());
    assert!(get_keyword_hover("nothing").is_none());
}

#[test]
fn symbol_hovers() {
    let p = Some(parse(SOURCE).unwrap());
    assert_eq!(hover_text(&p, "Vault").unwrap(), "**contract Vault** is Base\n\n1 state variable(s), 1 function(s)");
    assert_eq!(hover_text(&p, "total").unwrap(), "**total** `uint256 public`\n\nState variable in contract `Vault`");
    assert_eq!(hover_text(&p, "deposit").unwrap(), "```solscript\nfunction deposit(uint256 amount) public returns (bool)\n```\n\nFunction in contract `Vault`");
    assert_eq!(hover_text(&p, "Point").unwrap(), "```solscript\nstruct Point {\n    uint256 x;\n    uint256 y;\n}\n```");
    assert_eq!(hover_text(&p, "Color").unwrap(), "```solscript\nenum Color { Red, Green }\n```");
    assert_eq!(hover_text(&p, "Moved").unwrap(), "```solscript\nevent Moved(address indexed who, uint256 by);\n```");
    assert_eq!(hover_text(&p, "Bad").unwrap(), "```solscript\nerror Bad(uint256 code);\n```");
    // A built-in comes before a symbol of the same name.
    assert!(hover_text(&p, "msg").unwrap().starts_with("**msg**"));
    assert!(hover_text(&p, "unknown").is_none());
    assert!(hover_text(&None, "Vault").is_none());
}

#[test]
fn completion_tables() {
    let k = get_keyword_completions();
    assert_eq!(k.len(), 25);
    assert_eq!(k[0].label, "contract");
    assert_eq!(k[0].insert_text.as_deref(), Some("contract ${1:Name} {\n\t$0\n}"));
    assert!(k.iter().all(|c| c.kind == CompletionKind::Keyword && c.snippet));
    let t = get_type_completions();
    assert_eq!(t.len(), 17);
    assert_eq!(t[16].label, "bytes32");
    assert!(t.iter().all(|c| c.insert_text.is_none() && !c.snippet));
    let b = get_builtin_completions();
    assert_eq!(b.len(), 9);
    assert_eq!(b[0].label, "msg.sender");
}

#[test]
fn member_and_symbol_completions() {
    let p = Some(parse(SOURCE).unwrap());
    let msg = get_member_completions(&p, "msg");
    let labels: Vec<&str> = msg.iter().map(|c| c.label.as_str()).collect();
    assert_eq!(labels, vec!["sender", "value"]);
    let point = get_member_completions(&p, "Point");
    let labels: Vec<&str> = point.iter().map(|c| c.label.as_str()).collect();
    assert_eq!(labels, vec!["x", "y"]);
    assert_eq!(point[0].detail.as_deref(), Some("uint256"));
    let syms = get_symbol_completions(p.as_ref().unwrap());
    let labels: Vec<&str> = syms.iter().map(|c| c.label.as_str()).collect();
    assert_eq!(labels, vec!["Vault", "total", "deposit", "Point", "Color", "Moved", "Bad"]);
    assert_eq!(syms[1].detail.as_deref(), Some("State variable: uint256"));
}

#[test]
fn completions_after_a_dot() {
    let p = Some(parse(SOURCE).unwrap());
    let c = completions_for_prefix(&p, "    x = clock.");
    let labels: Vec<&str> = c.iter().map(|c| c.label.as_str()).collect();
    assert_eq!(labels, vec!["unix_timestamp", "slot", "epoch"]);
    let all = completions_for_prefix(&p, "    ui");
    assert_eq!(all.len(), 25 + 17 + 7 + 9);
}

#[test]
fn formatting_a_program() {
    let p = parse(SOURCE).unwrap();
    let text = format_program(&p);
    assert_eq!(
        text,
        "contract Vault is Base {\n    uint256 public total;\n    function deposit(uint256 amount) public returns (bool) {\n        // ...\n    }\n\n}\n\nevent Moved(address indexed who, uint256 by);\n\nerror Bad(uint256 code);\n\n"
    );
}

#[test]
fn word_at_an_offset() {
    let text = "contract Foo { uint256 my_total; }";
    assert_eq!(word_at_offset(text, 10), Some("Foo".to_string()));
    assert_eq!(word_at_offset(text, 12), Some("Foo".to_string()));
    assert_eq!(word_at_offset(text, 0), Some("contract".to_string()));
    assert_eq!(word_at_offset(text, 25), Some("my_total".to_string()));
    assert_eq!(word_at_offset(text, 14), None);
    assert_eq!(word_at_offset("", 0), None);
    assert_eq!(word_at_checked("x + y", 4), Some(Some("y".to_string())));
    // `é` is two bytes, the second of which does not read as a letter: the word would
    // end inside the character.
    assert_eq!(word_at_checked("aé", 0), None);
    assert_eq!(word_at_checked("a é", 0), Some(Some("a".to_string())));
}
