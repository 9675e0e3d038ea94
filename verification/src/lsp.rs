//! What the language server answers of a program: hovers, definitions and completions.

use vstd::prelude::*;
use crate::ast;
use crate::gen_spec::join;
use crate::span::Span;
use crate::text::{concat, dec_seq, dec_string, dec_string_u128, push_str, str_eq};
use crate::rust_gen::{join_strings, strs_v};
use crate::chars::{alnum_prop, is_alphanumeric};
use crate::text::chars_of;
use crate::type_names::{path_name_s, type_name_s};
use crate::types::TypePath;
use vstd::string::StringSliceAdditionalSpecFns;
use vstd::utf8::{
    encode_utf8, encode_utf8_valid_utf8, is_char_boundary, is_char_boundary_iff_not_is_continuation_byte,
};

verus! {

/// The hover text of a built-in object or function.
pub open spec fn get_builtin_hover_s(word: Seq<char>) -> Option<Seq<char>> {
    if word == "msg"@ {
        Some("**msg** - Transaction message context\n\nProperties:\n- `sender`: Address of the transaction signer\n- `value`: Amount of SOL sent (in lamports)"@)
    } else if word == "sender"@ {
        Some("**msg.sender** - Transaction signer\n\n`address` - The public key of the account that signed the transaction"@)
    } else if word == "block"@ {
        Some("**block** - Block information\n\nProperties:\n- `timestamp`: Current block timestamp\n- `number`: Current block number (slot)"@)
    } else if word == "clock"@ {
        Some("**clock** - Solana Clock sysvar\n\nProperties:\n- `unix_timestamp`: Unix timestamp (i64)\n- `slot`: Current slot (u64)\n- `epoch`: Current epoch (u64)"@)
    } else if word == "rent"@ {
        Some("**rent** - Solana Rent sysvar\n\nMethods:\n- `minimumBalance(dataSize: uint64)`: Get minimum rent-exempt balance\n- `isExempt(lamports: uint64, dataSize: uint64)`: Check if account is rent-exempt"@)
    } else if word == "token"@ {
        Some("**token** - SPL Token operations\n\nMethods:\n- `transfer(from, to, authority, amount)`: Transfer tokens\n- `mint(mint, to, authority, amount)`: Mint tokens\n- `burn(from, mint, authority, amount)`: Burn tokens"@)
    } else if word == "require"@ {
        Some("**require** - Condition check\n\n```solscript\nrequire(condition, \"error message\");\n```\nReverts if condition is false."@)
    } else if word == "revert"@ {
        Some("**revert** - Abort execution\n\n```solscript\nrevert(\"error message\");\nrevert CustomError(args);\n```\nAborts execution with an error."@)
    } else if word == "emit"@ {
        Some("**emit** - Event emission\n\n```solscript\nemit EventName(arg1, arg2);\n```\nEmits an event to the transaction log."@)
    } else if word == "assert"@ {
        Some("**assert** - Test assertion\n\n```solscript\nassert(condition);\nassert(condition, \"message\");\n```\nAsserts condition is true (for tests)."@)
    } else if word == "assertEq"@ {
        Some("**assertEq** - Equality assertion\n\n```solscript\nassertEq(left, right);\nassertEq(left, right, \"message\");\n```\nAsserts left equals right (for tests)."@)
    } else if word == "assertNe"@ {
        Some("**assertNe** - Inequality assertion\n\n```solscript\nassertNe(left, right);\nassertNe(left, right, \"message\");\n```\nAsserts left does not equal right (for tests)."@)
    } else if word == "assertGt"@ || word == "assertGe"@ || word == "assertLt"@ || word == "assertLe"@ {
        Some("**"@ + word + "** - Comparison assertion\n\nAsserts comparison is true (for tests)."@)
    } else {
        None
    }
}

/// The hover text of a built-in object or function.
pub fn get_builtin_hover(word: &str) -> (r: Option<String>)
    ensures
        crate::ir::opt_str_v(r) == get_builtin_hover_s(word@),
{
    if str_eq(word, "msg") {
        return Some("**msg** - Transaction message context\n\nProperties:\n- `sender`: Address of the transaction signer\n- `value`: Amount of SOL sent (in lamports)".to_owned());
    }
    if str_eq(word, "sender") {
        return Some("**msg.sender** - Transaction signer\n\n`address` - The public key of the account that signed the transaction".to_owned());
    }
    if str_eq(word, "block") {
        return Some("**block** - Block information\n\nProperties:\n- `timestamp`: Current block timestamp\n- `number`: Current block number (slot)".to_owned());
    }
    if str_eq(word, "clock") {
        return Some("**clock** - Solana Clock sysvar\n\nProperties:\n- `unix_timestamp`: Unix timestamp (i64)\n- `slot`: Current slot (u64)\n- `epoch`: Current epoch (u64)".to_owned());
    }
    if str_eq(word, "rent") {
        return Some("**rent** - Solana Rent sysvar\n\nMethods:\n- `minimumBalance(dataSize: uint64)`: Get minimum rent-exempt balance\n- `isExempt(lamports: uint64, dataSize: uint64)`: Check if account is rent-exempt".to_owned());
    }
    if str_eq(word, "token") {
        return Some("**token** - SPL Token operations\n\nMethods:\n- `transfer(from, to, authority, amount)`: Transfer tokens\n- `mint(mint, to, authority, amount)`: Mint tokens\n- `burn(from, mint, authority, amount)`: Burn tokens".to_owned());
    }
    if str_eq(word, "require") {
        return Some("**require** - Condition check\n\n```solscript\nrequire(condition, \"error message\");\n```\nReverts if condition is false.".to_owned());
    }
    if str_eq(word, "revert") {
        return Some("**revert** - Abort execution\n\n```solscript\nrevert(\"error message\");\nrevert CustomError(args);\n```\nAborts execution with an error.".to_owned());
    }
    if str_eq(word, "emit") {
        return Some("**emit** - Event emission\n\n```solscript\nemit EventName(arg1, arg2);\n```\nEmits an event to the transaction log.".to_owned());
    }
    if str_eq(word, "assert") {
        return Some("**assert** - Test assertion\n\n```solscript\nassert(condition);\nassert(condition, \"message\");\n```\nAsserts condition is true (for tests).".to_owned());
    }
    if str_eq(word, "assertEq") {
        return Some("**assertEq** - Equality assertion\n\n```solscript\nassertEq(left, right);\nassertEq(left, right, \"message\");\n```\nAsserts left equals right (for tests).".to_owned());
    }
    if str_eq(word, "assertNe") {
        return Some("**assertNe** - Inequality assertion\n\n```solscript\nassertNe(left, right);\nassertNe(left, right, \"message\");\n```\nAsserts left does not equal right (for tests).".to_owned());
    }
    if str_eq(word, "assertGt") || str_eq(word, "assertGe") || str_eq(word, "assertLt") || str_eq(word, "assertLe") {
        let mut s = "**".to_owned();
        push_str(&mut s, word);
        push_str(&mut s, "** - Comparison assertion\n\nAsserts comparison is true (for tests).");
        return Some(s);
    }
    None
}

/// The hover text of a type name.
pub open spec fn get_type_hover_s(word: Seq<char>) -> Option<Seq<char>> {
    if word == "uint8"@ {
        Some("**"@ + word + "** - 8-bit unsigned integer\n\nRange: 0 to 255"@)
    } else if word == "uint16"@ {
        Some("**"@ + word + "** - 16-bit unsigned integer\n\nRange: 0 to 65,535"@)
    } else if word == "uint32"@ {
        Some("**"@ + word + "** - 32-bit unsigned integer\n\nRange: 0 to 4,294,967,295"@)
    } else if word == "uint64"@ {
        Some("**"@ + word + "** - 64-bit unsigned integer\n\nRange: 0 to 18,446,744,073,709,551,615"@)
    } else if word == "uint128"@ {
        Some("**"@ + word + "** - 128-bit unsigned integer\n\nVery large positive numbers"@)
    } else if word == "uint256"@ {
        Some("**"@ + word + "** - 256-bit unsigned integer\n\nMaximum precision integer"@)
    } else if word == "int8"@ {
        Some("**"@ + word + "** - 8-bit signed integer\n\nRange: -128 to 127"@)
    } else if word == "int16"@ {
        Some("**"@ + word + "** - 16-bit signed integer\n\nRange: -32,768 to 32,767"@)
    } else if word == "int32"@ {
        Some("**"@ + word + "** - 32-bit signed integer\n\nRange: -2,147,483,648 to 2,147,483,647"@)
    } else if word == "int64"@ {
        Some("**"@ + word + "** - 64-bit signed integer\n\nLarge signed numbers"@)
    } else if word == "int128"@ {
        Some("**"@ + word + "** - 128-bit signed integer\n\nVery large signed numbers"@)
    } else if word == "int256"@ {
        Some("**"@ + word + "** - 256-bit signed integer\n\nMaximum precision signed integer"@)
    } else if word == "bool"@ {
        Some("**"@ + word + "** - Boolean type\n\nValues: `true` or `false`"@)
    } else if word == "string"@ {
        Some("**"@ + word + "** - String type\n\nUTF-8 encoded text"@)
    } else if word == "address"@ {
        Some("**"@ + word + "** - Address type\n\n32-byte Solana public key (Pubkey)"@)
    } else if word == "bytes"@ {
        Some("**"@ + word + "** - Dynamic byte array\n\nVariable-length byte sequence"@)
    } else if word == "bytes32"@ {
        Some("**"@ + word + "** - Fixed 32-byte array\n\n32-byte fixed-length array"@)
    } else if word == "signer"@ {
        Some("**"@ + word + "** - Signer type\n\nAn address parameter that must sign the transaction"@)
    } else {
        None
    }
}

/// The hover text of a type name.
pub fn get_type_hover(word: &str) -> (r: Option<String>)
    ensures
        crate::ir::opt_str_v(r) == get_type_hover_s(word@),
{
    if str_eq(word, "uint8") {
        return Some(concat(concat("**", word).as_str(), "** - 8-bit unsigned integer\n\nRange: 0 to 255"));
    }
    if str_eq(word, "uint16") {
        return Some(concat(concat("**", word).as_str(), "** - 16-bit unsigned integer\n\nRange: 0 to 65,535"));
    }
    if str_eq(word, "uint32") {
        return Some(concat(concat("**", word).as_str(), "** - 32-bit unsigned integer\n\nRange: 0 to 4,294,967,295"));
    }
    if str_eq(word, "uint64") {
        return Some(concat(concat("**", word).as_str(), "** - 64-bit unsigned integer\n\nRange: 0 to 18,446,744,073,709,551,615"));
    }
    if str_eq(word, "uint128") {
        return Some(concat(concat("**", word).as_str(), "** - 128-bit unsigned integer\n\nVery large positive numbers"));
    }
    if str_eq(word, "uint256") {
        return Some(concat(concat("**", word).as_str(), "** - 256-bit unsigned integer\n\nMaximum precision integer"));
    }
    if str_eq(word, "int8") {
        return Some(concat(concat("**", word).as_str(), "** - 8-bit signed integer\n\nRange: -128 to 127"));
    }
    if str_eq(word, "int16") {
        return Some(concat(concat("**", word).as_str(), "** - 16-bit signed integer\n\nRange: -32,768 to 32,767"));
    }
    if str_eq(word, "int32") {
        return Some(concat(concat("**", word).as_str(), "** - 32-bit signed integer\n\nRange: -2,147,483,648 to 2,147,483,647"));
    }
    if str_eq(word, "int64") {
        return Some(concat(concat("**", word).as_str(), "** - 64-bit signed integer\n\nLarge signed numbers"));
    }
    if str_eq(word, "int128") {
        return Some(concat(concat("**", word).as_str(), "** - 128-bit signed integer\n\nVery large signed numbers"));
    }
    if str_eq(word, "int256") {
        return Some(concat(concat("**", word).as_str(), "** - 256-bit signed integer\n\nMaximum precision signed integer"));
    }
    if str_eq(word, "bool") {
        return Some(concat(concat("**", word).as_str(), "** - Boolean type\n\nValues: `true` or `false`"));
    }
    if str_eq(word, "string") {
        return Some(concat(concat("**", word).as_str(), "** - String type\n\nUTF-8 encoded text"));
    }
    if str_eq(word, "address") {
        return Some(concat(concat("**", word).as_str(), "** - Address type\n\n32-byte Solana public key (Pubkey)"));
    }
    if str_eq(word, "bytes") {
        return Some(concat(concat("**", word).as_str(), "** - Dynamic byte array\n\nVariable-length byte sequence"));
    }
    if str_eq(word, "bytes32") {
        return Some(concat(concat("**", word).as_str(), "** - Fixed 32-byte array\n\n32-byte fixed-length array"));
    }
    if str_eq(word, "signer") {
        return Some(concat(concat("**", word).as_str(), "** - Signer type\n\nAn address parameter that must sign the transaction"));
    }
    None
}

/// The hover text of a keyword.
pub open spec fn get_keyword_hover_s(word: Seq<char>) -> Option<Seq<char>> {
    if word == "contract"@ {
        Some("**"@ + word + "** - Contract declaration\n\n```solscript\ncontract Name {\n    // state and functions\n}\n```"@)
    } else if word == "function"@ {
        Some("**"@ + word + "** - Function declaration\n\n```solscript\nfunction name(params) public returns (Type) {\n    // body\n}\n```"@)
    } else if word == "constructor"@ {
        Some("**"@ + word + "** - Constructor declaration\n\n```solscript\nconstructor(params) {\n    // initialization\n}\n```\nCalled once when the contract is deployed."@)
    } else if word == "modifier"@ {
        Some("**"@ + word + "** - Modifier declaration\n\n```solscript\nmodifier onlyOwner() {\n    require(msg.sender == owner);\n    _;\n}\n```\nModifiers add conditions to functions."@)
    } else if word == "event"@ {
        Some("**"@ + word + "** - Event declaration\n\n```solscript\nevent Transfer(address indexed from, address indexed to, uint256 amount);\n```\nEvents are logged in transactions."@)
    } else if word == "error"@ {
        Some("**"@ + word + "** - Custom error declaration\n\n```solscript\nerror InsufficientBalance(uint256 available, uint256 required);\n```\nCustom errors for revert."@)
    } else if word == "struct"@ {
        Some("**"@ + word + "** - Struct declaration\n\n```solscript\nstruct Point {\n    uint256 x;\n    uint256 y;\n}\n```"@)
    } else if word == "enum"@ {
        Some("**"@ + word + "** - Enum declaration\n\n```solscript\nenum Status { Pending, Active, Completed }\n```"@)
    } else if word == "interface"@ {
        Some("**"@ + word + "** - Interface declaration\n\n```solscript\ninterface IERC20 {\n    function transfer(address to, uint256 amount) external;\n}\n```\nInterfaces for cross-program invocation."@)
    } else if word == "mapping"@ {
        Some("**"@ + word + "** - Mapping type\n\n```solscript\nmapping(address => uint256) balances;\n```\nKey-value storage (stored as PDAs)."@)
    } else if word == "public"@ {
        Some("**"@ + word + "** - Public visibility\n\nFunction can be called externally."@)
    } else if word == "private"@ {
        Some("**"@ + word + "** - Private visibility\n\nFunction can only be called internally."@)
    } else if word == "internal"@ {
        Some("**"@ + word + "** - Internal visibility\n\nFunction can be called internally or by derived contracts."@)
    } else if word == "external"@ {
        Some("**"@ + word + "** - External visibility\n\nFunction can only be called from outside."@)
    } else if word == "view"@ {
        Some("**"@ + word + "** - View modifier\n\nFunction does not modify state (read-only)."@)
    } else if word == "pure"@ {
        Some("**"@ + word + "** - Pure modifier\n\nFunction does not read or modify state."@)
    } else if word == "payable"@ {
        Some("**"@ + word + "** - Payable modifier\n\nFunction can receive SOL."@)
    } else if word == "abstract"@ {
        Some("**"@ + word + "** - Abstract contract\n\nCannot be deployed directly, must be inherited."@)
    } else if word == "is"@ {
        Some("**"@ + word + "** - Inheritance\n\n```solscript\ncontract Child is Parent { }\n```"@)
    } else {
        None
    }
}

/// The hover text of a keyword.
pub fn get_keyword_hover(word: &str) -> (r: Option<String>)
    ensures
        crate::ir::opt_str_v(r) == get_keyword_hover_s(word@),
{
    if str_eq(word, "contract") {
        return Some(concat(concat("**", word).as_str(), "** - Contract declaration\n\n```solscript\ncontract Name {\n    // state and functions\n}\n```"));
    }
    if str_eq(word, "function") {
        return Some(concat(concat("**", word).as_str(), "** - Function declaration\n\n```solscript\nfunction name(params) public returns (Type) {\n    // body\n}\n```"));
    }
    if str_eq(word, "constructor") {
        return Some(concat(concat("**", word).as_str(), "** - Constructor declaration\n\n```solscript\nconstructor(params) {\n    // initialization\n}\n```\nCalled once when the contract is deployed."));
    }
    if str_eq(word, "modifier") {
        return Some(concat(concat("**", word).as_str(), "** - Modifier declaration\n\n```solscript\nmodifier onlyOwner() {\n    require(msg.sender == owner);\n    _;\n}\n```\nModifiers add conditions to functions."));
    }
    if str_eq(word, "event") {
        return Some(concat(concat("**", word).as_str(), "** - Event declaration\n\n```solscript\nevent Transfer(address indexed from, address indexed to, uint256 amount);\n```\nEvents are logged in transactions."));
    }
    if str_eq(word, "error") {
        return Some(concat(concat("**", word).as_str(), "** - Custom error declaration\n\n```solscript\nerror InsufficientBalance(uint256 available, uint256 required);\n```\nCustom errors for revert."));
    }
    if str_eq(word, "struct") {
        return Some(concat(concat("**", word).as_str(), "** - Struct declaration\n\n```solscript\nstruct Point {\n    uint256 x;\n    uint256 y;\n}\n```"));
    }
    if str_eq(word, "enum") {
        return Some(concat(concat("**", word).as_str(), "** - Enum declaration\n\n```solscript\nenum Status { Pending, Active, Completed }\n```"));
    }
    if str_eq(word, "interface") {
        return Some(concat(concat("**", word).as_str(), "** - Interface declaration\n\n```solscript\ninterface IERC20 {\n    function transfer(address to, uint256 amount) external;\n}\n```\nInterfaces for cross-program invocation."));
    }
    if str_eq(word, "mapping") {
        return Some(concat(concat("**", word).as_str(), "** - Mapping type\n\n```solscript\nmapping(address => uint256) balances;\n```\nKey-value storage (stored as PDAs)."));
    }
    if str_eq(word, "public") {
        return Some(concat(concat("**", word).as_str(), "** - Public visibility\n\nFunction can be called externally."));
    }
    if str_eq(word, "private") {
        return Some(concat(concat("**", word).as_str(), "** - Private visibility\n\nFunction can only be called internally."));
    }
    if str_eq(word, "internal") {
        return Some(concat(concat("**", word).as_str(), "** - Internal visibility\n\nFunction can be called internally or by derived contracts."));
    }
    if str_eq(word, "external") {
        return Some(concat(concat("**", word).as_str(), "** - External visibility\n\nFunction can only be called from outside."));
    }
    if str_eq(word, "view") {
        return Some(concat(concat("**", word).as_str(), "** - View modifier\n\nFunction does not modify state (read-only)."));
    }
    if str_eq(word, "pure") {
        return Some(concat(concat("**", word).as_str(), "** - Pure modifier\n\nFunction does not read or modify state."));
    }
    if str_eq(word, "payable") {
        return Some(concat(concat("**", word).as_str(), "** - Payable modifier\n\nFunction can receive SOL."));
    }
    if str_eq(word, "abstract") {
        return Some(concat(concat("**", word).as_str(), "** - Abstract contract\n\nCannot be deployed directly, must be inherited."));
    }
    if str_eq(word, "is") {
        return Some(concat(concat("**", word).as_str(), "** - Inheritance\n\n```solscript\ncontract Child is Parent { }\n```"));
    }
    None
}


/// What a search for a symbol finds: a text, a stop at a type path without segments,
/// which has no name to show, or nothing.
pub enum Hit {
    Found(Seq<char>),
    Stuck,
    Miss,
}

/// Each type's name between a prefix, a middle, a name and a suffix; `None` where a
/// type has no name.
pub open spec fn typed_list(pairs: Seq<(crate::types::TypeExpr, Seq<char>)>, pre: Seq<char>, mid: Seq<char>, post: Seq<char>) -> Option<Seq<Seq<char>>>
    decreases pairs.len(),
{
    if pairs.len() == 0 {
        Some(seq![])
    } else {
        match typed_list(pairs.drop_last(), pre, mid, post) {
            Some(xs) => match type_name_s(pairs.last().0) {
                Some(t) => Some(xs.push(pre + t + mid + pairs.last().1 + post)),
                None => None,
            },
            None => None,
        }
    }
}

/// The names of paths; `None` where one has no segments.
pub open spec fn path_names(ps: Seq<TypePath>) -> Option<Seq<Seq<char>>>
    decreases ps.len(),
{
    if ps.len() == 0 {
        Some(seq![])
    } else {
        match path_names(ps.drop_last()) {
            Some(xs) => match path_name_s(ps.last()) {
                Some(n) => Some(xs.push(n)),
                None => None,
            },
            None => None,
        }
    }
}

/// How many members are state variables.
pub open spec fn count_vars(ms: Seq<ast::ContractMember>) -> nat
    decreases ms.len(),
{
    if ms.len() == 0 {
        0
    } else {
        count_vars(ms.drop_last()) + if ms.last() is StateVar { 1nat } else { 0nat }
    }
}

/// How many members are functions.
pub open spec fn count_fns(ms: Seq<ast::ContractMember>) -> nat
    decreases ms.len(),
{
    if ms.len() == 0 {
        0
    } else {
        count_fns(ms.drop_last()) + if ms.last() is Function { 1nat } else { 0nat }
    }
}

/// A visibility in lower case.
pub open spec fn vis_text(v: ast::Visibility) -> Seq<char> {
    match v {
        ast::Visibility::Public => "public"@,
        ast::Visibility::Private => "private"@,
        ast::Visibility::Internal => "internal"@,
        ast::Visibility::External => "external"@,
    }
}

/// The hover text of a contract.
pub open spec fn contract_hover(c: ast::ContractDef, word: Seq<char>) -> Option<Seq<char>> {
    match path_names(c.bases@) {
        Some(ns) => Some("**contract "@ + word + "**"@ + (if c.bases@.len() > 0 {
            " is "@ + join(ns, ", "@)
        } else {
            Seq::<char>::empty()
        }) + "\n\n"@ + dec_seq(count_vars(c.members@)) + " state variable(s), "@ + dec_seq(count_fns(c.members@))
            + " function(s)"@),
        None => None,
    }
}

/// The parameters of a function as hover text shows them.
pub open spec fn params_pairs(ps: Seq<ast::Param>) -> Seq<(crate::types::TypeExpr, Seq<char>)> {
    ps.map_values(|p: ast::Param| (p.ty, p.name.name@))
}

/// The return types of a function as hover text shows them.
pub open spec fn returns_pairs(ps: Seq<ast::ReturnParam>) -> Seq<(crate::types::TypeExpr, Seq<char>)> {
    ps.map_values(|p: ast::ReturnParam| (p.ty, Seq::<char>::empty()))
}

/// The hover text of a function.
pub open spec fn fn_hover(f: ast::FnDef, cname: Seq<char>, word: Seq<char>) -> Option<Seq<char>> {
    match typed_list(params_pairs(f.params@), seq![], " "@, seq![]) {
        Some(ps) => match typed_list(returns_pairs(f.return_params@), seq![], seq![], seq![]) {
            Some(rs) => Some("```solscript\nfunction "@ + word + "("@ + join(ps, ", "@) + ")"@ + match f.visibility {
                Some(v) => " "@ + vis_text(v),
                None => Seq::<char>::empty(),
            } + (if f.return_params@.len() == 0 {
                Seq::<char>::empty()
            } else {
                " returns ("@ + join(rs, ", "@) + ")"@
            }) + "\n```\n\nFunction in contract `"@ + cname + "`"@),
            None => None,
        },
        None => None,
    }
}

/// The hover of the first member with the name: a state variable or a function.
pub open spec fn members_hover(ms: Seq<ast::ContractMember>, cname: Seq<char>, word: Seq<char>) -> Hit
    decreases ms.len(),
{
    if ms.len() == 0 {
        Hit::Miss
    } else {
        match ms[0] {
            ast::ContractMember::StateVar(v) => if v.name.name@ == word {
                match type_name_s(v.ty) {
                    Some(t) => Hit::Found("**"@ + word + "** `"@ + t + " "@ + match v.visibility {
                        Some(x) => vis_text(x),
                        None => Seq::<char>::empty(),
                    } + "`\n\nState variable in contract `"@ + cname + "`"@),
                    None => Hit::Stuck,
                }
            } else {
                members_hover(ms.drop_first(), cname, word)
            },
            ast::ContractMember::Function(f) => if f.name.name@ == word {
                match fn_hover(f, cname, word) {
                    Some(t) => Hit::Found(t),
                    None => Hit::Stuck,
                }
            } else {
                members_hover(ms.drop_first(), cname, word)
            },
            _ => members_hover(ms.drop_first(), cname, word),
        }
    }
}

/// A text as a hit, or a stop.
pub open spec fn found_or_stuck(t: Option<Seq<char>>) -> Hit {
    match t {
        Some(x) => Hit::Found(x),
        None => Hit::Stuck,
    }
}

/// The hover an item gives a word.
pub open spec fn item_hover(it: ast::Item, word: Seq<char>) -> Hit {
    match it {
        ast::Item::Contract(c) => if c.name.name@ == word {
            found_or_stuck(contract_hover(c, word))
        } else {
            members_hover(c.members@, c.name.name@, word)
        },
        ast::Item::Struct(s) => if s.name.name@ == word {
            found_or_stuck(match typed_list(s.fields@.map_values(|f: ast::StructField| (f.ty, f.name.name@)), "    "@, " "@, ";"@) {
                Some(fs) => Some("```solscript\nstruct "@ + word + " {\n"@ + join(fs, "\n"@) + "\n}\n```"@),
                None => None,
            })
        } else {
            Hit::Miss
        },
        ast::Item::Enum(e) => if e.name.name@ == word {
            Hit::Found("```solscript\nenum "@ + word + " { "@ + join(e.variants@.map_values(|v: ast::EnumVariant| v.name.name@), ", "@)
                + " }\n```"@)
        } else {
            Hit::Miss
        },
        ast::Item::Event(e) => if e.name.name@ == word {
            found_or_stuck(match typed_list(
                e.params@.map_values(|p: ast::EventParam| (p.ty, (if p.indexed { "indexed "@ } else { Seq::<char>::empty() }) + p.name.name@)),
                seq![],
                " "@,
                seq![],
            ) {
                Some(ps) => Some("```solscript\nevent "@ + word + "("@ + join(ps, ", "@) + ");\n```"@),
                None => None,
            })
        } else {
            Hit::Miss
        },
        ast::Item::Error(e) => if e.name.name@ == word {
            found_or_stuck(match typed_list(e.params@.map_values(|p: ast::ErrorParam| (p.ty, p.name.name@)), seq![], " "@, seq![]) {
                Some(ps) => Some("```solscript\nerror "@ + word + "("@ + join(ps, ", "@) + ");\n```"@),
                None => None,
            })
        } else {
            Hit::Miss
        },
        _ => Hit::Miss,
    }
}

/// The hover of the first item that has one for the word.
pub open spec fn items_hover(items: Seq<ast::Item>, word: Seq<char>) -> Hit
    decreases items.len(),
{
    if items.len() == 0 {
        Hit::Miss
    } else {
        match item_hover(items[0], word) {
            Hit::Miss => items_hover(items.drop_first(), word),
            other => other,
        }
    }
}

/// Where the first of a list of names equal to the word is declared.
pub open spec fn first_named(names: Seq<(Seq<char>, Span)>, word: Seq<char>) -> Option<Span>
    decreases names.len(),
{
    if names.len() == 0 {
        None
    } else if names[0].0 == word {
        Some(names[0].1)
    } else {
        first_named(names.drop_first(), word)
    }
}

/// Where a member of a contract is declared when it is the one named: state variables,
/// functions, modifiers, events and errors by their names, a constructor by the word
/// `constructor`.
pub open spec fn member_def(m: ast::ContractMember, word: Seq<char>) -> Option<Span> {
    match m {
        ast::ContractMember::StateVar(v) => if v.name.name@ == word { Some(v.span) } else { None },
        ast::ContractMember::Function(f) => if f.name.name@ == word { Some(f.span) } else { None },
        ast::ContractMember::Constructor(c) => if word == "constructor"@ { Some(c.span) } else { None },
        ast::ContractMember::Modifier(x) => if x.name.name@ == word { Some(x.span) } else { None },
        ast::ContractMember::Event(e) => if e.name.name@ == word { Some(e.span) } else { None },
        ast::ContractMember::Error(e) => if e.name.name@ == word { Some(e.span) } else { None },
        _ => None,
    }
}

/// Where the first member that is the one named is declared.
pub open spec fn members_def(ms: Seq<ast::ContractMember>, word: Seq<char>) -> Option<Span>
    decreases ms.len(),
{
    if ms.len() == 0 {
        None
    } else {
        match member_def(ms[0], word) {
            Some(s) => Some(s),
            None => members_def(ms.drop_first(), word),
        }
    }
}

/// Where an item, or a part of it, that is the one named is declared: the item itself
/// first, then its members, fields, variants or signatures.
pub open spec fn item_def(it: ast::Item, word: Seq<char>) -> Option<Span> {
    match it {
        ast::Item::Contract(c) => if c.name.name@ == word { Some(c.span) } else { members_def(c.members@, word) },
        ast::Item::Struct(s) => if s.name.name@ == word {
            Some(s.span)
        } else {
            first_named(s.fields@.map_values(|f: ast::StructField| (f.name.name@, f.span)), word)
        },
        ast::Item::Enum(e) => if e.name.name@ == word {
            Some(e.span)
        } else {
            first_named(e.variants@.map_values(|v: ast::EnumVariant| (v.name.name@, v.span)), word)
        },
        ast::Item::Interface(i) => if i.name.name@ == word {
            Some(i.span)
        } else {
            first_named(i.members@.map_values(|s: ast::FnSig| (s.name.name@, s.span)), word)
        },
        ast::Item::Event(e) => if e.name.name@ == word { Some(e.span) } else { None },
        ast::Item::Error(e) => if e.name.name@ == word { Some(e.span) } else { None },
        ast::Item::Function(f) => if f.name.name@ == word { Some(f.span) } else { None },
        _ => None,
    }
}

/// Where the first item that declares the word declares it.
pub open spec fn items_def(items: Seq<ast::Item>, word: Seq<char>) -> Option<Span>
    decreases items.len(),
{
    if items.len() == 0 {
        None
    } else {
        match item_def(items[0], word) {
            Some(s) => Some(s),
            None => items_def(items.drop_first(), word),
        }
    }
}

/// Each type's name between a prefix, a middle, a name and a suffix, for the first `n`.
fn param_strs(ps: &Vec<ast::Param>, n: usize, pre: &str, mid: &str, post: &str) -> (r: Vec<String>)
    requires
        n <= ps@.len(),
        typed_list(ps@.map_values(|p: ast::Param| (p.ty, p.name.name@)).take(n as int), pre@, mid@, post@) is Some,
    ensures
        typed_list(ps@.map_values(|p: ast::Param| (p.ty, p.name.name@)).take(n as int), pre@, mid@, post@) == Some(strs_v(r@)),
    decreases n,
{
    let ghost pairs = ps@.map_values(|p: ast::Param| (p.ty, p.name.name@));
    if n == 0 {
        let v: Vec<String> = Vec::new();
        proof {
            assert(strs_v(v@) =~= Seq::<Seq<char>>::empty());
        }
        return v;
    }
    proof {
        assert(pairs.take(n as int).drop_last() =~= pairs.take(n - 1));
        assert(pairs.take(n as int).last() == pairs[n - 1]);
    }
    let mut v = param_strs(ps, n - 1, pre, mid, post);
    let t = ps[n - 1].ty.name();
    let mut x = pre.to_owned();
    push_str(&mut x, t.as_str());
    push_str(&mut x, mid);
        push_str(&mut x, ps[n - 1].name.name.as_str());
    push_str(&mut x, post);
    proof {
        assert(x@ =~= pre@ + t@ + mid@ + pairs[n - 1].1 + post@);
    }
    let ghost before = v@;
    v.push(x);
    proof {
        assert(strs_v(v@) =~= strs_v(before).push(x@));
    }
    v
}

/// Each type's name between a prefix, a middle, a name and a suffix, for the first `n`.
fn return_strs(ps: &Vec<ast::ReturnParam>, n: usize, pre: &str, mid: &str, post: &str) -> (r: Vec<String>)
    requires
        n <= ps@.len(),
        typed_list(ps@.map_values(|p: ast::ReturnParam| (p.ty, Seq::<char>::empty())).take(n as int), pre@, mid@, post@) is Some,
    ensures
        typed_list(ps@.map_values(|p: ast::ReturnParam| (p.ty, Seq::<char>::empty())).take(n as int), pre@, mid@, post@) == Some(strs_v(r@)),
    decreases n,
{
    let ghost pairs = ps@.map_values(|p: ast::ReturnParam| (p.ty, Seq::<char>::empty()));
    if n == 0 {
        let v: Vec<String> = Vec::new();
        proof {
            assert(strs_v(v@) =~= Seq::<Seq<char>>::empty());
        }
        return v;
    }
    proof {
        assert(pairs.take(n as int).drop_last() =~= pairs.take(n - 1));
        assert(pairs.take(n as int).last() == pairs[n - 1]);
    }
    let mut v = return_strs(ps, n - 1, pre, mid, post);
    let t = ps[n - 1].ty.name();
    let mut x = pre.to_owned();
    push_str(&mut x, t.as_str());
    push_str(&mut x, mid);

    push_str(&mut x, post);
    proof {
        assert(x@ =~= pre@ + t@ + mid@ + pairs[n - 1].1 + post@);
    }
    let ghost before = v@;
    v.push(x);
    proof {
        assert(strs_v(v@) =~= strs_v(before).push(x@));
    }
    v
}

/// Each type's name between a prefix, a middle, a name and a suffix, for the first `n`.
fn field_strs(ps: &Vec<ast::StructField>, n: usize, pre: &str, mid: &str, post: &str) -> (r: Vec<String>)
    requires
        n <= ps@.len(),
        typed_list(ps@.map_values(|f: ast::StructField| (f.ty, f.name.name@)).take(n as int), pre@, mid@, post@) is Some,
    ensures
        typed_list(ps@.map_values(|f: ast::StructField| (f.ty, f.name.name@)).take(n as int), pre@, mid@, post@) == Some(strs_v(r@)),
    decreases n,
{
    let ghost pairs = ps@.map_values(|f: ast::StructField| (f.ty, f.name.name@));
    if n == 0 {
        let v: Vec<String> = Vec::new();
        proof {
            assert(strs_v(v@) =~= Seq::<Seq<char>>::empty());
        }
        return v;
    }
    proof {
        assert(pairs.take(n as int).drop_last() =~= pairs.take(n - 1));
        assert(pairs.take(n as int).last() == pairs[n - 1]);
    }
    let mut v = field_strs(ps, n - 1, pre, mid, post);
    let t = ps[n - 1].ty.name();
    let mut x = pre.to_owned();
    push_str(&mut x, t.as_str());
    push_str(&mut x, mid);
        push_str(&mut x, ps[n - 1].name.name.as_str());
    push_str(&mut x, post);
    proof {
        assert(x@ =~= pre@ + t@ + mid@ + pairs[n - 1].1 + post@);
    }
    let ghost before = v@;
    v.push(x);
    proof {
        assert(strs_v(v@) =~= strs_v(before).push(x@));
    }
    v
}

/// Each type's name between a prefix, a middle, a name and a suffix, for the first `n`.
fn event_param_strs(ps: &Vec<ast::EventParam>, n: usize, pre: &str, mid: &str, post: &str) -> (r: Vec<String>)
    requires
        n <= ps@.len(),
        typed_list(ps@.map_values(|p: ast::EventParam| (p.ty, (if p.indexed { "indexed "@ } else { Seq::<char>::empty() }) + p.name.name@)).take(n as int), pre@, mid@, post@) is Some,
    ensures
        typed_list(ps@.map_values(|p: ast::EventParam| (p.ty, (if p.indexed { "indexed "@ } else { Seq::<char>::empty() }) + p.name.name@)).take(n as int), pre@, mid@, post@) == Some(strs_v(r@)),
    decreases n,
{
    let ghost pairs = ps@.map_values(|p: ast::EventParam| (p.ty, (if p.indexed { "indexed "@ } else { Seq::<char>::empty() }) + p.name.name@));
    if n == 0 {
        let v: Vec<String> = Vec::new();
        proof {
            assert(strs_v(v@) =~= Seq::<Seq<char>>::empty());
        }
        return v;
    }
    proof {
        assert(pairs.take(n as int).drop_last() =~= pairs.take(n - 1));
        assert(pairs.take(n as int).last() == pairs[n - 1]);
    }
    let mut v = event_param_strs(ps, n - 1, pre, mid, post);
    let t = ps[n - 1].ty.name();
    let mut x = pre.to_owned();
    push_str(&mut x, t.as_str());
    push_str(&mut x, mid);
        if ps[n - 1].indexed {
            push_str(&mut x, "indexed ");
        }
        push_str(&mut x, ps[n - 1].name.name.as_str());
    push_str(&mut x, post);
    proof {
        assert(x@ =~= pre@ + t@ + mid@ + pairs[n - 1].1 + post@);
    }
    let ghost before = v@;
    v.push(x);
    proof {
        assert(strs_v(v@) =~= strs_v(before).push(x@));
    }
    v
}

/// Each type's name between a prefix, a middle, a name and a suffix, for the first `n`.
fn error_param_strs(ps: &Vec<ast::ErrorParam>, n: usize, pre: &str, mid: &str, post: &str) -> (r: Vec<String>)
    requires
        n <= ps@.len(),
        typed_list(ps@.map_values(|p: ast::ErrorParam| (p.ty, p.name.name@)).take(n as int), pre@, mid@, post@) is Some,
    ensures
        typed_list(ps@.map_values(|p: ast::ErrorParam| (p.ty, p.name.name@)).take(n as int), pre@, mid@, post@) == Some(strs_v(r@)),
    decreases n,
{
    let ghost pairs = ps@.map_values(|p: ast::ErrorParam| (p.ty, p.name.name@));
    if n == 0 {
        let v: Vec<String> = Vec::new();
        proof {
            assert(strs_v(v@) =~= Seq::<Seq<char>>::empty());
        }
        return v;
    }
    proof {
        assert(pairs.take(n as int).drop_last() =~= pairs.take(n - 1));
        assert(pairs.take(n as int).last() == pairs[n - 1]);
    }
    let mut v = error_param_strs(ps, n - 1, pre, mid, post);
    let t = ps[n - 1].ty.name();
    let mut x = pre.to_owned();
    push_str(&mut x, t.as_str());
    push_str(&mut x, mid);
        push_str(&mut x, ps[n - 1].name.name.as_str());
    push_str(&mut x, post);
    proof {
        assert(x@ =~= pre@ + t@ + mid@ + pairs[n - 1].1 + post@);
    }
    let ghost before = v@;
    v.push(x);
    proof {
        assert(strs_v(v@) =~= strs_v(before).push(x@));
    }
    v
}

/// A visibility in lower case.
pub fn vis_str(v: ast::Visibility) -> (r: &'static str)
    ensures
        r@ == vis_text(v),
{
    match v {
        ast::Visibility::Public => "public",
        ast::Visibility::Private => "private",
        ast::Visibility::Internal => "internal",
        ast::Visibility::External => "external",
    }
}

/// The hover text of a contract.
fn contract_hover_of(c: &ast::ContractDef, word: &str) -> (r: String)
    requires
        contract_hover(*c, word@) is Some,
    ensures
        contract_hover(*c, word@) == Some(r@),
{
    let mut names: Vec<String> = Vec::new();
    let mut i: usize = 0;
    proof {
        assert(path_names(c.bases@.take(0)) == Some(strs_v(names@))) by {
            assert(strs_v(names@) =~= Seq::<Seq<char>>::empty());
        }
        lemma_path_names_prefix(c.bases@, c.bases@.len() as int);
        assert(c.bases@.take(c.bases@.len() as int) =~= c.bases@);
    }
    while i < c.bases.len()
        invariant
            i <= c.bases@.len(),
            path_names(c.bases@) is Some,
            path_names(c.bases@.take(i as int)) == Some(strs_v(names@)),
        decreases c.bases@.len() - i,
    {
        proof {
            lemma_path_names_prefix(c.bases@, i + 1);
            assert(c.bases@.take(i + 1).drop_last() =~= c.bases@.take(i as int));
            assert(c.bases@.take(i + 1).last() == c.bases@[i as int]);
        }
        let x = c.bases[i].name().to_owned();
        let ghost before = names@;
        names.push(x);
        proof {
            assert(strs_v(names@) =~= strs_v(before).push(x@));
        }
        i = i + 1;
    }
    proof {
        assert(c.bases@.take(c.bases@.len() as int) =~= c.bases@);
    }
    let mut vars: usize = 0;
    let mut fns: usize = 0;
    let mut k: usize = 0;
    while k < c.members.len()
        invariant
            k <= c.members@.len(),
            vars == count_vars(c.members@.take(k as int)),
            fns == count_fns(c.members@.take(k as int)),
            vars <= k,
            fns <= k,
        decreases c.members@.len() - k,
    {
        proof {
            assert(c.members@.take(k + 1).drop_last() =~= c.members@.take(k as int));
            assert(c.members@.take(k + 1).last() == c.members@[k as int]);
        }
        match &c.members[k] {
            ast::ContractMember::StateVar(_) => {
                vars = vars + 1;
            },
            ast::ContractMember::Function(_) => {
                fns = fns + 1;
            },
            _ => {},
        }
        k = k + 1;
    }
    proof {
        assert(c.members@.take(c.members@.len() as int) =~= c.members@);
    }
    let mut s = "**contract ".to_owned();
    push_str(&mut s, word);
    push_str(&mut s, "**");
    if c.bases.len() > 0 {
        let mut b = " is ".to_owned();
        let j = join_strings(&names, ", ");
        push_str(&mut b, j.as_str());
        push_str(&mut s, b.as_str());
    } else {
        proof {
            assert(s@ =~= s@ + Seq::<char>::empty());
        }
    }
    push_str(&mut s, "\n\n");
    let dv = dec_string_u128(vars as u128);
    push_str(&mut s, dv.as_str());
    push_str(&mut s, " state variable(s), ");
    let df = dec_string_u128(fns as u128);
    push_str(&mut s, df.as_str());
    push_str(&mut s, " function(s)");
    s
}

/// Where the names of all paths are known, those of each prefix are.
proof fn lemma_path_names_prefix(ps: Seq<TypePath>, n: int)
    requires
        0 <= n <= ps.len(),
        path_names(ps) is Some,
    ensures
        path_names(ps.take(n)) is Some,
    decreases ps.len() - n,
{
    if n < ps.len() {
        assert(ps.take(n + 1).drop_last() =~= ps.take(n));
        lemma_path_names_prefix(ps, n + 1);
    } else {
        assert(ps.take(n) =~= ps);
    }
}

/// The hover text of a function.
fn fn_hover_of(f: &ast::FnDef, cname: &str, word: &str) -> (r: String)
    requires
        fn_hover(*f, cname@, word@) is Some,
    ensures
        fn_hover(*f, cname@, word@) == Some(r@),
{
    proof {
        reveal_strlit("");
        reveal_strlit(" ");
        assert(""@ =~= Seq::<char>::empty());
        assert(f.params@.map_values(|p: ast::Param| (p.ty, p.name.name@)).take(f.params@.len() as int)
            =~= params_pairs(f.params@));
        assert(f.return_params@.map_values(|p: ast::ReturnParam| (p.ty, Seq::<char>::empty())).take(
            f.return_params@.len() as int,
        ) =~= returns_pairs(f.return_params@));
    }
    let ps = param_strs(&f.params, f.params.len(), "", " ", "");
    let rs = return_strs(&f.return_params, f.return_params.len(), "", "", "");
    let mut s = "```solscript\nfunction ".to_owned();
    push_str(&mut s, word);
    push_str(&mut s, "(");
    let jp = join_strings(&ps, ", ");
    push_str(&mut s, jp.as_str());
    push_str(&mut s, ")");
    let vis = match f.visibility {
        Some(v) => concat(" ", vis_str(v)),
        None => String::new(),
    };
    push_str(&mut s, vis.as_str());
    let ret = if f.return_params.len() == 0 {
        String::new()
    } else {
        let mut x = " returns (".to_owned();
        let jr = join_strings(&rs, ", ");
        push_str(&mut x, jr.as_str());
        push_str(&mut x, ")");
        x
    };
    push_str(&mut s, ret.as_str());
    push_str(&mut s, "\n```\n\nFunction in contract `");
    push_str(&mut s, cname);
    push_str(&mut s, "`");
    proof {
        reveal_strlit("");
        reveal_strlit(" ");
    }
    s
}

/// The hover of the first member with the name: a state variable or a function.
fn members_hover_of(ms: &Vec<ast::ContractMember>, cname: &str, word: &str) -> (r: Option<String>)
    requires
        !(members_hover(ms@, cname@, word@) is Stuck),
    ensures
        match members_hover(ms@, cname@, word@) {
            Hit::Found(t) => r matches Some(s) && s@ == t,
            _ => r is None,
        },
{
    let mut i: usize = 0;
    proof {
        assert(ms@.skip(0) =~= ms@);
    }
    while i < ms.len()
        invariant
            i <= ms@.len(),
            members_hover(ms@, cname@, word@) == members_hover(ms@.skip(i as int), cname@, word@),
            !(members_hover(ms@, cname@, word@) is Stuck),
        decreases ms@.len() - i,
    {
        proof {
            assert(ms@.skip(i as int)[0] == ms@[i as int]);
            assert(ms@.skip(i as int).drop_first() =~= ms@.skip(i + 1));
        }
        match &ms[i] {
            ast::ContractMember::StateVar(v) => {
                if str_eq(v.name.name.as_str(), word) {
                    let t = v.ty.name();
                    let mut s = "**".to_owned();
                    push_str(&mut s, word);
                    push_str(&mut s, "** `");
                    push_str(&mut s, t.as_str());
                    push_str(&mut s, " ");
                    let vis = match v.visibility {
                        Some(x) => vis_str(x).to_owned(),
                        None => String::new(),
                    };
                    push_str(&mut s, vis.as_str());
                    push_str(&mut s, "`\n\nState variable in contract `");
                    push_str(&mut s, cname);
                    push_str(&mut s, "`");
                    return Some(s);
                }
            },
            ast::ContractMember::Function(f) => {
                if str_eq(f.name.name.as_str(), word) {
                    return Some(fn_hover_of(f, cname, word));
                }
            },
            _ => {},
        }
        i = i + 1;
    }
    None
}

/// The hover an item gives a word.
fn item_hover_of(it: &ast::Item, word: &str) -> (r: Option<String>)
    requires
        !(item_hover(*it, word@) is Stuck),
    ensures
        match item_hover(*it, word@) {
            Hit::Found(t) => r matches Some(s) && s@ == t,
            _ => r is None,
        },
{
    match it {
        ast::Item::Contract(c) => if str_eq(c.name.name.as_str(), word) {
            Some(contract_hover_of(c, word))
        } else {
            members_hover_of(&c.members, c.name.name.as_str(), word)
        },
        ast::Item::Struct(st) => if str_eq(st.name.name.as_str(), word) {
            proof {
                let pairs = st.fields@.map_values(|f: ast::StructField| (f.ty, f.name.name@));
                assert(pairs.take(pairs.len() as int) =~= pairs);
            }
            let fs = field_strs(&st.fields, st.fields.len(), "    ", " ", ";");
            let mut s = "```solscript\nstruct ".to_owned();
            push_str(&mut s, word);
            push_str(&mut s, " {\n");
            let j = join_strings(&fs, "\n");
            push_str(&mut s, j.as_str());
            push_str(&mut s, "\n}\n```");
            Some(s)
        } else {
            None
        },
        ast::Item::Enum(e) => if str_eq(e.name.name.as_str(), word) {
            let mut vs: Vec<String> = Vec::new();
            let mut i: usize = 0;
            while i < e.variants.len()
                invariant
                    i <= e.variants@.len(),
                    vs@.len() == i,
                    forall|k: int| 0 <= k < i ==> #[trigger] vs@[k]@ == e.variants@[k].name.name@,
                decreases e.variants@.len() - i,
            {
                vs.push(e.variants[i].name.name.clone());
                i = i + 1;
            }
            proof {
                assert(strs_v(vs@) =~= e.variants@.map_values(|v: ast::EnumVariant| v.name.name@));
            }
            let mut s = "```solscript\nenum ".to_owned();
            push_str(&mut s, word);
            push_str(&mut s, " { ");
            let j = join_strings(&vs, ", ");
            push_str(&mut s, j.as_str());
            push_str(&mut s, " }\n```");
            Some(s)
        } else {
            None
        },
        ast::Item::Event(e) => if str_eq(e.name.name.as_str(), word) {
            proof {
                let pairs = e.params@.map_values(
                    |p: ast::EventParam| (p.ty, (if p.indexed { "indexed "@ } else { Seq::<char>::empty() }) + p.name.name@),
                );
                assert(pairs.take(pairs.len() as int) =~= pairs);
                reveal_strlit("");
                reveal_strlit(" ");
                assert(""@ =~= Seq::<char>::empty());
            }
            let ps = event_param_strs(&e.params, e.params.len(), "", " ", "");
            let mut s = "```solscript\nevent ".to_owned();
            push_str(&mut s, word);
            push_str(&mut s, "(");
            let j = join_strings(&ps, ", ");
            push_str(&mut s, j.as_str());
            push_str(&mut s, ");\n```");
            proof {
                reveal_strlit("");
                reveal_strlit(" ");
            }
            Some(s)
        } else {
            None
        },
        ast::Item::Error(e) => if str_eq(e.name.name.as_str(), word) {
            proof {
                let pairs = e.params@.map_values(|p: ast::ErrorParam| (p.ty, p.name.name@));
                assert(pairs.take(pairs.len() as int) =~= pairs);
                reveal_strlit("");
                reveal_strlit(" ");
                assert(""@ =~= Seq::<char>::empty());
            }
            let ps = error_param_strs(&e.params, e.params.len(), "", " ", "");
            let mut s = "```solscript\nerror ".to_owned();
            push_str(&mut s, word);
            push_str(&mut s, "(");
            let j = join_strings(&ps, ", ");
            push_str(&mut s, j.as_str());
            push_str(&mut s, ");\n```");
            proof {
                reveal_strlit("");
                reveal_strlit(" ");
            }
            Some(s)
        } else {
            None
        },
        _ => None,
    }
}

/// The hover text of the first symbol the program declares with the name.
pub fn get_symbol_hover(ast: &ast::Program, word: &str) -> (r: Option<String>)
    requires
        !(items_hover(ast.items@, word@) is Stuck),
    ensures
        match items_hover(ast.items@, word@) {
            Hit::Found(t) => r matches Some(s) && s@ == t,
            _ => r is None,
        },
{
    let items = &ast.items;
    let mut i: usize = 0;
    proof {
        assert(items@.skip(0) =~= items@);
    }
    while i < items.len()
        invariant
            i <= items@.len(),
            items@ == ast.items@,
            items_hover(items@, word@) == items_hover(items@.skip(i as int), word@),
            !(items_hover(items@, word@) is Stuck),
        decreases items@.len() - i,
    {
        proof {
            assert(items@.skip(i as int)[0] == items@[i as int]);
            assert(items@.skip(i as int).drop_first() =~= items@.skip(i + 1));
        }
        match item_hover_of(&items[i], word) {
            Some(s) => {
                return Some(s);
            },
            None => {},
        }
        i = i + 1;
    }
    None
}

/// The hover text of a word: a built-in, a type, a keyword, or a symbol the program
/// declares.
pub open spec fn hover_s(ast: Option<ast::Program>, word: Seq<char>) -> Hit {
    match get_builtin_hover_s(word) {
        Some(t) => Hit::Found(t),
        None => match get_type_hover_s(word) {
            Some(t) => Hit::Found(t),
            None => match get_keyword_hover_s(word) {
                Some(t) => Hit::Found(t),
                None => match ast {
                    Some(p) => items_hover(p.items@, word),
                    None => Hit::Miss,
                },
            },
        },
    }
}

/// The hover text of a word: a built-in, a type, a keyword, or a symbol the program
/// declares.
pub fn hover_text(ast: &Option<ast::Program>, word: &str) -> (r: Option<String>)
    requires
        !(hover_s(*ast, word@) is Stuck),
    ensures
        match hover_s(*ast, word@) {
            Hit::Found(t) => r matches Some(s) && s@ == t,
            _ => r is None,
        },
{
    if let Some(t) = get_builtin_hover(word) {
        return Some(t);
    }
    if let Some(t) = get_type_hover(word) {
        return Some(t);
    }
    if let Some(t) = get_keyword_hover(word) {
        return Some(t);
    }
    match ast {
        Some(p) => get_symbol_hover(p, word),
        None => None,
    }
}


/// Where the first element named as the word is declared.
fn struct_field_def(xs: &Vec<ast::StructField>, word: &str) -> (r: Option<Span>)
    ensures
        r == first_named(xs@.map_values(|f: ast::StructField| (f.name.name@, f.span)), word@),
{
    let ghost names = xs@.map_values(|f: ast::StructField| (f.name.name@, f.span));
    let mut i: usize = 0;
    proof {
        assert(names.skip(0) =~= names);
    }
    while i < xs.len()
        invariant
            i <= xs@.len(),
            names == xs@.map_values(|f: ast::StructField| (f.name.name@, f.span)),
            first_named(names, word@) == first_named(names.skip(i as int), word@),
        decreases xs@.len() - i,
    {
        proof {
            assert(names.skip(i as int)[0] == names[i as int]);
            assert(names.skip(i as int).drop_first() =~= names.skip(i + 1));
        }
        if str_eq(xs[i].name.name.as_str(), word) {
            return Some(xs[i].span);
        }
        i = i + 1;
    }
    proof {
        assert(names.skip(i as int) =~= Seq::<(Seq<char>, Span)>::empty());
    }
    None
}

/// Where the first element named as the word is declared.
fn variant_def(xs: &Vec<ast::EnumVariant>, word: &str) -> (r: Option<Span>)
    ensures
        r == first_named(xs@.map_values(|v: ast::EnumVariant| (v.name.name@, v.span)), word@),
{
    let ghost names = xs@.map_values(|v: ast::EnumVariant| (v.name.name@, v.span));
    let mut i: usize = 0;
    proof {
        assert(names.skip(0) =~= names);
    }
    while i < xs.len()
        invariant
            i <= xs@.len(),
            names == xs@.map_values(|v: ast::EnumVariant| (v.name.name@, v.span)),
            first_named(names, word@) == first_named(names.skip(i as int), word@),
        decreases xs@.len() - i,
    {
        proof {
            assert(names.skip(i as int)[0] == names[i as int]);
            assert(names.skip(i as int).drop_first() =~= names.skip(i + 1));
        }
        if str_eq(xs[i].name.name.as_str(), word) {
            return Some(xs[i].span);
        }
        i = i + 1;
    }
    proof {
        assert(names.skip(i as int) =~= Seq::<(Seq<char>, Span)>::empty());
    }
    None
}

/// Where the first element named as the word is declared.
fn sig_def(xs: &Vec<ast::FnSig>, word: &str) -> (r: Option<Span>)
    ensures
        r == first_named(xs@.map_values(|s: ast::FnSig| (s.name.name@, s.span)), word@),
{
    let ghost names = xs@.map_values(|s: ast::FnSig| (s.name.name@, s.span));
    let mut i: usize = 0;
    proof {
        assert(names.skip(0) =~= names);
    }
    while i < xs.len()
        invariant
            i <= xs@.len(),
            names == xs@.map_values(|s: ast::FnSig| (s.name.name@, s.span)),
            first_named(names, word@) == first_named(names.skip(i as int), word@),
        decreases xs@.len() - i,
    {
        proof {
            assert(names.skip(i as int)[0] == names[i as int]);
            assert(names.skip(i as int).drop_first() =~= names.skip(i + 1));
        }
        if str_eq(xs[i].name.name.as_str(), word) {
            return Some(xs[i].span);
        }
        i = i + 1;
    }
    proof {
        assert(names.skip(i as int) =~= Seq::<(Seq<char>, Span)>::empty());
    }
    None
}

/// Where a member of a contract is declared when it is the one named.
fn member_definition(m: &ast::ContractMember, word: &str) -> (r: Option<Span>)
    ensures
        r == member_def(*m, word@),
{
    match m {
        ast::ContractMember::StateVar(v) => if str_eq(v.name.name.as_str(), word) { Some(v.span) } else { None },
        ast::ContractMember::Function(f) => if str_eq(f.name.name.as_str(), word) { Some(f.span) } else { None },
        ast::ContractMember::Constructor(c) => if str_eq(word, "constructor") { Some(c.span) } else { None },
        ast::ContractMember::Modifier(x) => if str_eq(x.name.name.as_str(), word) { Some(x.span) } else { None },
        ast::ContractMember::Event(e) => if str_eq(e.name.name.as_str(), word) { Some(e.span) } else { None },
        ast::ContractMember::Error(e) => if str_eq(e.name.name.as_str(), word) { Some(e.span) } else { None },
        _ => None,
    }
}

/// Where the first member that is the one named is declared.
fn members_definition(ms: &Vec<ast::ContractMember>, word: &str) -> (r: Option<Span>)
    ensures
        r == members_def(ms@, word@),
{
    let mut i: usize = 0;
    proof {
        assert(ms@.skip(0) =~= ms@);
    }
    while i < ms.len()
        invariant
            i <= ms@.len(),
            members_def(ms@, word@) == members_def(ms@.skip(i as int), word@),
        decreases ms@.len() - i,
    {
        proof {
            assert(ms@.skip(i as int)[0] == ms@[i as int]);
            assert(ms@.skip(i as int).drop_first() =~= ms@.skip(i + 1));
        }
        if let Some(s) = member_definition(&ms[i], word) {
            return Some(s);
        }
        i = i + 1;
    }
    None
}

/// Where an item, or a part of it, that is the one named is declared.
fn item_definition(it: &ast::Item, word: &str) -> (r: Option<Span>)
    ensures
        r == item_def(*it, word@),
{
    match it {
        ast::Item::Contract(c) => if str_eq(c.name.name.as_str(), word) {
            Some(c.span)
        } else {
            members_definition(&c.members, word)
        },
        ast::Item::Struct(s) => if str_eq(s.name.name.as_str(), word) {
            Some(s.span)
        } else {
            struct_field_def(&s.fields, word)
        },
        ast::Item::Enum(e) => if str_eq(e.name.name.as_str(), word) {
            Some(e.span)
        } else {
            variant_def(&e.variants, word)
        },
        ast::Item::Interface(i) => if str_eq(i.name.name.as_str(), word) {
            Some(i.span)
        } else {
            sig_def(&i.members, word)
        },
        ast::Item::Event(e) => if str_eq(e.name.name.as_str(), word) { Some(e.span) } else { None },
        ast::Item::Error(e) => if str_eq(e.name.name.as_str(), word) { Some(e.span) } else { None },
        ast::Item::Function(f) => if str_eq(f.name.name.as_str(), word) { Some(f.span) } else { None },
        _ => None,
    }
}

/// Where the program declares a word: the first item, member, field, variant or
/// signature with that name, in the order they are written.
pub fn find_definition(ast: &ast::Program, word: &str) -> (r: Option<Span>)
    ensures
        r == items_def(ast.items@, word@),
{
    let items = &ast.items;
    let mut i: usize = 0;
    proof {
        assert(items@.skip(0) =~= items@);
    }
    while i < items.len()
        invariant
            i <= items@.len(),
            items@ == ast.items@,
            items_def(items@, word@) == items_def(items@.skip(i as int), word@),
        decreases items@.len() - i,
    {
        proof {
            assert(items@.skip(i as int)[0] == items@[i as int]);
            assert(items@.skip(i as int).drop_first() =~= items@.skip(i + 1));
        }
        if let Some(s) = item_definition(&items[i], word) {
            return Some(s);
        }
        i = i + 1;
    }
    None
}

/// The kinds of completion items.
#[derive(Debug, Clone, Copy, PartialEq, Eq, Structural)]
pub enum CompletionKind {
    Keyword,
    TypeParameter,
    Property,
    Function,
    Method,
    Field,
    Class,
    Struct,
    Enum,
    Event,
    Constant,
}

/// A completion item: its label, kind, detail, the text it inserts, and whether that
/// text is a snippet with placeholders.
#[derive(Debug)]
pub struct Completion {
    pub label: String,
    pub kind: CompletionKind,
    pub detail: Option<String>,
    pub insert_text: Option<String>,
    pub snippet: bool,
}

/// A completion item as a value.
pub type CompV = (Seq<char>, CompletionKind, Option<Seq<char>>, Option<Seq<char>>, bool);

pub open spec fn comp_v(c: Completion) -> CompV {
    (c.label@, c.kind, crate::ir::opt_str_v(c.detail), crate::ir::opt_str_v(c.insert_text), c.snippet)
}

pub open spec fn comps_v(v: Seq<Completion>) -> Seq<CompV> {
    v.map_values(|c: Completion| comp_v(c))
}

/// A completion item.
fn completion(label: &str, kind: CompletionKind, detail: Option<&str>, insert: Option<&str>, snippet: bool) -> (r: Completion)
    ensures
        comp_v(r) == (label@, kind, match detail {
            Some(d) => Some(d@),
            None => None,
        }, match insert {
            Some(i) => Some(i@),
            None => None,
        }, snippet),
{
    Completion {
        label: label.to_owned(),
        kind,
        detail: match detail {
            Some(d) => Some(d.to_owned()),
            None => None,
        },
        insert_text: match insert {
            Some(i) => Some(i.to_owned()),
            None => None,
        },
        snippet,
    }
}

/// The completions of keywords, as snippets.
pub open spec fn get_keyword_completions_table() -> Seq<CompV> {
    seq![
        ("contract"@, CompletionKind::Keyword, Some("Define a contract"@), Some("contract ${1:Name} {\n	$0\n}"@), true),
        ("function"@, CompletionKind::Keyword, Some("Define a function"@), Some("function ${1:name}(${2:params}) ${3:public} {\n	$0\n}"@), true),
        ("constructor"@, CompletionKind::Keyword, Some("Define a constructor"@), Some("constructor(${1:params}) {\n	$0\n}"@), true),
        ("modifier"@, CompletionKind::Keyword, Some("Define a modifier"@), Some("modifier ${1:name}(${2:params}) {\n	$0\n	_;\n}"@), true),
        ("event"@, CompletionKind::Keyword, Some("Define an event"@), Some("event ${1:Name}(${2:params});"@), true),
        ("error"@, CompletionKind::Keyword, Some("Define a custom error"@), Some("error ${1:Name}(${2:params});"@), true),
        ("struct"@, CompletionKind::Keyword, Some("Define a struct"@), Some("struct ${1:Name} {\n	$0\n}"@), true),
        ("enum"@, CompletionKind::Keyword, Some("Define an enum"@), Some("enum ${1:Name} {\n	$0\n}"@), true),
        ("interface"@, CompletionKind::Keyword, Some("Define an interface"@), Some("interface ${1:Name} {\n	$0\n}"@), true),
        ("if"@, CompletionKind::Keyword, Some("If statement"@), Some("if (${1:condition}) {\n	$0\n}"@), true),
        ("else"@, CompletionKind::Keyword, Some("Else clause"@), Some("else {\n	$0\n}"@), true),
        ("for"@, CompletionKind::Keyword, Some("For loop"@), Some("for (${1:uint256 i = 0}; ${2:i < n}; ${3:i += 1}) {\n	$0\n}"@), true),
        ("while"@, CompletionKind::Keyword, Some("While loop"@), Some("while (${1:condition}) {\n	$0\n}"@), true),
        ("return"@, CompletionKind::Keyword, Some("Return statement"@), Some("return ${0};"@), true),
        ("require"@, CompletionKind::Keyword, Some("Require statement"@), Some("require(${1:condition}, \"${2:message}\");"@), true),
        ("revert"@, CompletionKind::Keyword, Some("Revert statement"@), Some("revert(\"${1:message}\");"@), true),
        ("emit"@, CompletionKind::Keyword, Some("Emit event"@), Some("emit ${1:EventName}(${2:args});"@), true),
        ("mapping"@, CompletionKind::Keyword, Some("Mapping type"@), Some("mapping(${1:KeyType} => ${2:ValueType})"@), true),
        ("public"@, CompletionKind::Keyword, Some("Public visibility"@), Some("public"@), true),
        ("private"@, CompletionKind::Keyword, Some("Private visibility"@), Some("private"@), true),
        ("internal"@, CompletionKind::Keyword, Some("Internal visibility"@), Some("internal"@), true),
        ("external"@, CompletionKind::Keyword, Some("External visibility"@), Some("external"@), true),
        ("view"@, CompletionKind::Keyword, Some("View function modifier"@), Some("view"@), true),
        ("pure"@, CompletionKind::Keyword, Some("Pure function modifier"@), Some("pure"@), true),
        ("payable"@, CompletionKind::Keyword, Some("Payable function modifier"@), Some("payable"@), true),
    ]
}

/// The completions of keywords, as snippets.
pub fn get_keyword_completions() -> (r: Vec<Completion>)
    ensures
        comps_v(r@) == get_keyword_completions_table(),
{
    let mut v: Vec<Completion> = Vec::new();
    v.push(completion("contract", CompletionKind::Keyword, Some("Define a contract"), Some("contract ${1:Name} {\n	$0\n}"), true));
    v.push(completion("function", CompletionKind::Keyword, Some("Define a function"), Some("function ${1:name}(${2:params}) ${3:public} {\n	$0\n}"), true));
    v.push(completion("constructor", CompletionKind::Keyword, Some("Define a constructor"), Some("constructor(${1:params}) {\n	$0\n}"), true));
    v.push(completion("modifier", CompletionKind::Keyword, Some("Define a modifier"), Some("modifier ${1:name}(${2:params}) {\n	$0\n	_;\n}"), true));
    v.push(completion("event", CompletionKind::Keyword, Some("Define an event"), Some("event ${1:Name}(${2:params});"), true));
    v.push(completion("error", CompletionKind::Keyword, Some("Define a custom error"), Some("error ${1:Name}(${2:params});"), true));
    v.push(completion("struct", CompletionKind::Keyword, Some("Define a struct"), Some("struct ${1:Name} {\n	$0\n}"), true));
    v.push(completion("enum", CompletionKind::Keyword, Some("Define an enum"), Some("enum ${1:Name} {\n	$0\n}"), true));
    v.push(completion("interface", CompletionKind::Keyword, Some("Define an interface"), Some("interface ${1:Name} {\n	$0\n}"), true));
    v.push(completion("if", CompletionKind::Keyword, Some("If statement"), Some("if (${1:condition}) {\n	$0\n}"), true));
    v.push(completion("else", CompletionKind::Keyword, Some("Else clause"), Some("else {\n	$0\n}"), true));
    v.push(completion("for", CompletionKind::Keyword, Some("For loop"), Some("for (${1:uint256 i = 0}; ${2:i < n}; ${3:i += 1}) {\n	$0\n}"), true));
    v.push(completion("while", CompletionKind::Keyword, Some("While loop"), Some("while (${1:condition}) {\n	$0\n}"), true));
    v.push(completion("return", CompletionKind::Keyword, Some("Return statement"), Some("return ${0};"), true));
    v.push(completion("require", CompletionKind::Keyword, Some("Require statement"), Some("require(${1:condition}, \"${2:message}\");"), true));
    v.push(completion("revert", CompletionKind::Keyword, Some("Revert statement"), Some("revert(\"${1:message}\");"), true));
    v.push(completion("emit", CompletionKind::Keyword, Some("Emit event"), Some("emit ${1:EventName}(${2:args});"), true));
    v.push(completion("mapping", CompletionKind::Keyword, Some("Mapping type"), Some("mapping(${1:KeyType} => ${2:ValueType})"), true));
    v.push(completion("public", CompletionKind::Keyword, Some("Public visibility"), Some("public"), true));
    v.push(completion("private", CompletionKind::Keyword, Some("Private visibility"), Some("private"), true));
    v.push(completion("internal", CompletionKind::Keyword, Some("Internal visibility"), Some("internal"), true));
    v.push(completion("external", CompletionKind::Keyword, Some("External visibility"), Some("external"), true));
    v.push(completion("view", CompletionKind::Keyword, Some("View function modifier"), Some("view"), true));
    v.push(completion("pure", CompletionKind::Keyword, Some("Pure function modifier"), Some("pure"), true));
    v.push(completion("payable", CompletionKind::Keyword, Some("Payable function modifier"), Some("payable"), true));
    proof {
        assert(comps_v(v@) =~= get_keyword_completions_table());
    }
    v
}

/// The completions of type names.
pub open spec fn get_type_completions_table() -> Seq<CompV> {
    seq![
        ("uint8"@, CompletionKind::TypeParameter, Some("8-bit unsigned integer"@), None, false),
        ("uint16"@, CompletionKind::TypeParameter, Some("16-bit unsigned integer"@), None, false),
        ("uint32"@, CompletionKind::TypeParameter, Some("32-bit unsigned integer"@), None, false),
        ("uint64"@, CompletionKind::TypeParameter, Some("64-bit unsigned integer"@), None, false),
        ("uint128"@, CompletionKind::TypeParameter, Some("128-bit unsigned integer"@), None, false),
        ("uint256"@, CompletionKind::TypeParameter, Some("256-bit unsigned integer"@), None, false),
        ("int8"@, CompletionKind::TypeParameter, Some("8-bit signed integer"@), None, false),
        ("int16"@, CompletionKind::TypeParameter, Some("16-bit signed integer"@), None, false),
        ("int32"@, CompletionKind::TypeParameter, Some("32-bit signed integer"@), None, false),
        ("int64"@, CompletionKind::TypeParameter, Some("64-bit signed integer"@), None, false),
        ("int128"@, CompletionKind::TypeParameter, Some("128-bit signed integer"@), None, false),
        ("int256"@, CompletionKind::TypeParameter, Some("256-bit signed integer"@), None, false),
        ("bool"@, CompletionKind::TypeParameter, Some("Boolean type"@), None, false),
        ("string"@, CompletionKind::TypeParameter, Some("String type"@), None, false),
        ("address"@, CompletionKind::TypeParameter, Some("Address type (Pubkey)"@), None, false),
        ("bytes"@, CompletionKind::TypeParameter, Some("Dynamic byte array"@), None, false),
        ("bytes32"@, CompletionKind::TypeParameter, Some("Fixed 32-byte array"@), None, false),
    ]
}

/// The completions of type names.
pub fn get_type_completions() -> (r: Vec<Completion>)
    ensures
        comps_v(r@) == get_type_completions_table(),
{
    let mut v: Vec<Completion> = Vec::new();
    v.push(completion("uint8", CompletionKind::TypeParameter, Some("8-bit unsigned integer"), None, false));
    v.push(completion("uint16", CompletionKind::TypeParameter, Some("16-bit unsigned integer"), None, false));
    v.push(completion("uint32", CompletionKind::TypeParameter, Some("32-bit unsigned integer"), None, false));
    v.push(completion("uint64", CompletionKind::TypeParameter, Some("64-bit unsigned integer"), None, false));
    v.push(completion("uint128", CompletionKind::TypeParameter, Some("128-bit unsigned integer"), None, false));
    v.push(completion("uint256", CompletionKind::TypeParameter, Some("256-bit unsigned integer"), None, false));
    v.push(completion("int8", CompletionKind::TypeParameter, Some("8-bit signed integer"), None, false));
    v.push(completion("int16", CompletionKind::TypeParameter, Some("16-bit signed integer"), None, false));
    v.push(completion("int32", CompletionKind::TypeParameter, Some("32-bit signed integer"), None, false));
    v.push(completion("int64", CompletionKind::TypeParameter, Some("64-bit signed integer"), None, false));
    v.push(completion("int128", CompletionKind::TypeParameter, Some("128-bit signed integer"), None, false));
    v.push(completion("int256", CompletionKind::TypeParameter, Some("256-bit signed integer"), None, false));
    v.push(completion("bool", CompletionKind::TypeParameter, Some("Boolean type"), None, false));
    v.push(completion("string", CompletionKind::TypeParameter, Some("String type"), None, false));
    v.push(completion("address", CompletionKind::TypeParameter, Some("Address type (Pubkey)"), None, false));
    v.push(completion("bytes", CompletionKind::TypeParameter, Some("Dynamic byte array"), None, false));
    v.push(completion("bytes32", CompletionKind::TypeParameter, Some("Fixed 32-byte array"), None, false));
    proof {
        assert(comps_v(v@) =~= get_type_completions_table());
    }
    v
}

/// The completions of built-in objects and functions.
pub open spec fn get_builtin_completions_table() -> Seq<CompV> {
    seq![
        ("msg.sender"@, CompletionKind::Property, Some("Address of the transaction signer"@), Some("msg.sender"@), false),
        ("block.timestamp"@, CompletionKind::Property, Some("Current block timestamp"@), Some("block.timestamp"@), false),
        ("clock.unix_timestamp"@, CompletionKind::Property, Some("Unix timestamp from Clock sysvar"@), Some("clock.unix_timestamp"@), false),
        ("clock.slot"@, CompletionKind::Property, Some("Current slot from Clock sysvar"@), Some("clock.slot"@), false),
        ("clock.epoch"@, CompletionKind::Property, Some("Current epoch from Clock sysvar"@), Some("clock.epoch"@), false),
        ("rent.minimumBalance"@, CompletionKind::Function, Some("Get minimum rent-exempt balance"@), Some("rent.minimumBalance(${1:dataSize})"@), true),
        ("rent.isExempt"@, CompletionKind::Function, Some("Check if account is rent-exempt"@), Some("rent.isExempt(${1:lamports}, ${2:dataSize})"@), true),
        ("assert"@, CompletionKind::Function, Some("Assert a condition (test function)"@), Some("assert(${1:condition})"@), true),
        ("assertEq"@, CompletionKind::Function, Some("Assert equality (test function)"@), Some("assertEq(${1:left}, ${2:right})"@), true),
    ]
}

/// The completions of built-in objects and functions.
pub fn get_builtin_completions() -> (r: Vec<Completion>)
    ensures
        comps_v(r@) == get_builtin_completions_table(),
{
    let mut v: Vec<Completion> = Vec::new();
    v.push(completion("msg.sender", CompletionKind::Property, Some("Address of the transaction signer"), Some("msg.sender"), false));
    v.push(completion("block.timestamp", CompletionKind::Property, Some("Current block timestamp"), Some("block.timestamp"), false));
    v.push(completion("clock.unix_timestamp", CompletionKind::Property, Some("Unix timestamp from Clock sysvar"), Some("clock.unix_timestamp"), false));
    v.push(completion("clock.slot", CompletionKind::Property, Some("Current slot from Clock sysvar"), Some("clock.slot"), false));
    v.push(completion("clock.epoch", CompletionKind::Property, Some("Current epoch from Clock sysvar"), Some("clock.epoch"), false));
    v.push(completion("rent.minimumBalance", CompletionKind::Function, Some("Get minimum rent-exempt balance"), Some("rent.minimumBalance(${1:dataSize})"), true));
    v.push(completion("rent.isExempt", CompletionKind::Function, Some("Check if account is rent-exempt"), Some("rent.isExempt(${1:lamports}, ${2:dataSize})"), true));
    v.push(completion("assert", CompletionKind::Function, Some("Assert a condition (test function)"), Some("assert(${1:condition})"), true));
    v.push(completion("assertEq", CompletionKind::Function, Some("Assert equality (test function)"), Some("assertEq(${1:left}, ${2:right})"), true));
    proof {
        assert(comps_v(v@) =~= get_builtin_completions_table());
    }
    v
}

/// The members of `msg`.
pub open spec fn msg_member_completions_table() -> Seq<CompV> {
    seq![
        ("sender"@, CompletionKind::Property, Some("Address of the transaction signer"@), None, false),
        ("value"@, CompletionKind::Property, Some("Amount of SOL sent"@), None, false),
    ]
}

/// The members of `msg`.
pub fn msg_member_completions() -> (r: Vec<Completion>)
    ensures
        comps_v(r@) == msg_member_completions_table(),
{
    let mut v: Vec<Completion> = Vec::new();
    v.push(completion("sender", CompletionKind::Property, Some("Address of the transaction signer"), None, false));
    v.push(completion("value", CompletionKind::Property, Some("Amount of SOL sent"), None, false));
    proof {
        assert(comps_v(v@) =~= msg_member_completions_table());
    }
    v
}

/// The members of `block`.
pub open spec fn block_member_completions_table() -> Seq<CompV> {
    seq![
        ("timestamp"@, CompletionKind::Property, Some("Current block timestamp"@), None, false),
        ("number"@, CompletionKind::Property, Some("Current block number"@), None, false),
    ]
}

/// The members of `block`.
pub fn block_member_completions() -> (r: Vec<Completion>)
    ensures
        comps_v(r@) == block_member_completions_table(),
{
    let mut v: Vec<Completion> = Vec::new();
    v.push(completion("timestamp", CompletionKind::Property, Some("Current block timestamp"), None, false));
    v.push(completion("number", CompletionKind::Property, Some("Current block number"), None, false));
    proof {
        assert(comps_v(v@) =~= block_member_completions_table());
    }
    v
}

/// The members of `clock`.
pub open spec fn clock_member_completions_table() -> Seq<CompV> {
    seq![
        ("unix_timestamp"@, CompletionKind::Property, Some("Unix timestamp"@), None, false),
        ("slot"@, CompletionKind::Property, Some("Current slot"@), None, false),
        ("epoch"@, CompletionKind::Property, Some("Current epoch"@), None, false),
    ]
}

/// The members of `clock`.
pub fn clock_member_completions() -> (r: Vec<Completion>)
    ensures
        comps_v(r@) == clock_member_completions_table(),
{
    let mut v: Vec<Completion> = Vec::new();
    v.push(completion("unix_timestamp", CompletionKind::Property, Some("Unix timestamp"), None, false));
    v.push(completion("slot", CompletionKind::Property, Some("Current slot"), None, false));
    v.push(completion("epoch", CompletionKind::Property, Some("Current epoch"), None, false));
    proof {
        assert(comps_v(v@) =~= clock_member_completions_table());
    }
    v
}

/// The members of `rent`.
pub open spec fn rent_member_completions_table() -> Seq<CompV> {
    seq![
        ("minimumBalance"@, CompletionKind::Method, Some("Get minimum rent-exempt balance"@), Some("minimumBalance(${1:dataSize})"@), true),
        ("isExempt"@, CompletionKind::Method, Some("Check if account is rent-exempt"@), Some("isExempt(${1:lamports}, ${2:dataSize})"@), true),
    ]
}

/// The members of `rent`.
pub fn rent_member_completions() -> (r: Vec<Completion>)
    ensures
        comps_v(r@) == rent_member_completions_table(),
{
    let mut v: Vec<Completion> = Vec::new();
    v.push(completion("minimumBalance", CompletionKind::Method, Some("Get minimum rent-exempt balance"), Some("minimumBalance(${1:dataSize})"), true));
    v.push(completion("isExempt", CompletionKind::Method, Some("Check if account is rent-exempt"), Some("isExempt(${1:lamports}, ${2:dataSize})"), true));
    proof {
        assert(comps_v(v@) =~= rent_member_completions_table());
    }
    v
}

/// The members of `token`.
pub open spec fn token_member_completions_table() -> Seq<CompV> {
    seq![
        ("transfer"@, CompletionKind::Method, Some("Transfer SPL tokens"@), Some("transfer(${1:from}, ${2:to}, ${3:authority}, ${4:amount})"@), true),
        ("mint"@, CompletionKind::Method, Some("Mint SPL tokens"@), Some("mint(${1:mint}, ${2:to}, ${3:authority}, ${4:amount})"@), true),
        ("burn"@, CompletionKind::Method, Some("Burn SPL tokens"@), Some("burn(${1:from}, ${2:mint}, ${3:authority}, ${4:amount})"@), true),
    ]
}

/// The members of `token`.
pub fn token_member_completions() -> (r: Vec<Completion>)
    ensures
        comps_v(r@) == token_member_completions_table(),
{
    let mut v: Vec<Completion> = Vec::new();
    v.push(completion("transfer", CompletionKind::Method, Some("Transfer SPL tokens"), Some("transfer(${1:from}, ${2:to}, ${3:authority}, ${4:amount})"), true));
    v.push(completion("mint", CompletionKind::Method, Some("Mint SPL tokens"), Some("mint(${1:mint}, ${2:to}, ${3:authority}, ${4:amount})"), true));
    v.push(completion("burn", CompletionKind::Method, Some("Burn SPL tokens"), Some("burn(${1:from}, ${2:mint}, ${3:authority}, ${4:amount})"), true));
    proof {
        assert(comps_v(v@) =~= token_member_completions_table());
    }
    v
}


/// The completions of the fields of each struct with the name, as an item after a dot;
/// `None` where a field's type has no name.
pub open spec fn struct_member_comps(items: Seq<ast::Item>, name: Seq<char>) -> Option<Seq<CompV>>
    decreases items.len(),
{
    if items.len() == 0 {
        Some(seq![])
    } else {
        match struct_member_comps(items.drop_last(), name) {
            Some(xs) => match items.last() {
                ast::Item::Struct(s) => if s.name.name@ == name {
                    match field_comps(s.fields@) {
                        Some(fs) => Some(xs + fs),
                        None => None,
                    }
                } else {
                    Some(xs)
                },
                _ => Some(xs),
            },
            None => None,
        }
    }
}

/// The completions of fields: each with its type's name as detail.
pub open spec fn field_comps(fs: Seq<ast::StructField>) -> Option<Seq<CompV>>
    decreases fs.len(),
{
    if fs.len() == 0 {
        Some(seq![])
    } else {
        match field_comps(fs.drop_last()) {
            Some(xs) => match type_name_s(fs.last().ty) {
                Some(t) => Some(xs.push((fs.last().name.name@, CompletionKind::Field, Some(t), None, false))),
                None => None,
            },
            None => None,
        }
    }
}

/// The completions after `object.`: the members of a built-in object, or the fields of
/// the structs with that name.
pub open spec fn member_comps(ast: Option<ast::Program>, object: Seq<char>) -> Option<Seq<CompV>> {
    if object == "msg"@ {
        Some(msg_member_completions_table())
    } else if object == "block"@ {
        Some(block_member_completions_table())
    } else if object == "clock"@ {
        Some(clock_member_completions_table())
    } else if object == "rent"@ {
        Some(rent_member_completions_table())
    } else if object == "token"@ {
        Some(token_member_completions_table())
    } else {
        match ast {
            Some(p) => struct_member_comps(p.items@, object),
            None => Some(seq![]),
        }
    }
}

/// The completions of the fields of a struct list, for the first `n` fields.
fn field_completions(fs: &Vec<ast::StructField>, n: usize) -> (r: Vec<Completion>)
    requires
        n <= fs@.len(),
        field_comps(fs@.take(n as int)) is Some,
    ensures
        field_comps(fs@.take(n as int)) == Some(comps_v(r@)),
    decreases n,
{
    if n == 0 {
        let v: Vec<Completion> = Vec::new();
        proof {
            assert(comps_v(v@) =~= Seq::<CompV>::empty());
        }
        return v;
    }
    proof {
        assert(fs@.take(n as int).drop_last() =~= fs@.take(n - 1));
        assert(fs@.take(n as int).last() == fs@[n - 1]);
    }
    let mut v = field_completions(fs, n - 1);
    let t = fs[n - 1].ty.name();
    let ghost before = v@;
    v.push(Completion { label: fs[n - 1].name.name.clone(), kind: CompletionKind::Field, detail: Some(t), insert_text: None, snippet: false });
    proof {
        assert(comps_v(v@) =~= comps_v(before).push(comp_v(v@.last())));
    }
    v
}

/// The completions of the fields of each struct with the name, among the first `n` items.
fn struct_member_completions(items: &Vec<ast::Item>, n: usize, name: &str) -> (r: Vec<Completion>)
    requires
        n <= items@.len(),
        struct_member_comps(items@.take(n as int), name@) is Some,
    ensures
        struct_member_comps(items@.take(n as int), name@) == Some(comps_v(r@)),
    decreases n,
{
    if n == 0 {
        let v: Vec<Completion> = Vec::new();
        proof {
            assert(comps_v(v@) =~= Seq::<CompV>::empty());
        }
        return v;
    }
    proof {
        assert(items@.take(n as int).drop_last() =~= items@.take(n - 1));
        assert(items@.take(n as int).last() == items@[n - 1]);
    }
    let mut v = struct_member_completions(items, n - 1, name);
    match &items[n - 1] {
        ast::Item::Struct(s) => if str_eq(s.name.name.as_str(), name) {
            proof {
                assert(s.fields@.take(s.fields@.len() as int) =~= s.fields@);
            }
            let mut fs = field_completions(&s.fields, s.fields.len());
            let ghost before = v@;
            let ghost added = fs@;
            v.append(&mut fs);
            proof {
                assert(comps_v(v@) =~= comps_v(before) + comps_v(added));
            }
        },
        _ => {},
    }
    v
}

/// The completions after `object.`: the members of a built-in object, or the fields of
/// the structs with that name.
pub fn get_member_completions(ast: &Option<ast::Program>, object_name: &str) -> (r: Vec<Completion>)
    requires
        member_comps(*ast, object_name@) is Some,
    ensures
        member_comps(*ast, object_name@) == Some(comps_v(r@)),
{
    if str_eq(object_name, "msg") {
        msg_member_completions()
    } else if str_eq(object_name, "block") {
        block_member_completions()
    } else if str_eq(object_name, "clock") {
        clock_member_completions()
    } else if str_eq(object_name, "rent") {
        rent_member_completions()
    } else if str_eq(object_name, "token") {
        token_member_completions()
    } else {
        match ast {
            Some(p) => {
                proof {
                    assert(p.items@.take(p.items@.len() as int) =~= p.items@);
                }
                struct_member_completions(&p.items, p.items.len(), object_name)
            },
            None => {
                let v: Vec<Completion> = Vec::new();
                proof {
                    assert(comps_v(v@) =~= Seq::<CompV>::empty());
                }
                v
            },
        }
    }
}

/// The completions a contract member gives: state variables with their type's name,
/// functions; `None` where a type has no name.
pub open spec fn member_comps_of(ms: Seq<ast::ContractMember>) -> Option<Seq<CompV>>
    decreases ms.len(),
{
    if ms.len() == 0 {
        Some(seq![])
    } else {
        match member_comps_of(ms.drop_last()) {
            Some(xs) => match ms.last() {
                ast::ContractMember::StateVar(v) => match type_name_s(v.ty) {
                    Some(t) => Some(xs.push((v.name.name@, CompletionKind::Field, Some("State variable: "@ + t), None, false))),
                    None => None,
                },
                ast::ContractMember::Function(f) => Some(xs.push((f.name.name@, CompletionKind::Function, Some("Function"@), None, false))),
                _ => Some(xs),
            },
            None => None,
        }
    }
}

/// The completions an item gives.
pub open spec fn item_comps(it: ast::Item) -> Option<Seq<CompV>> {
    match it {
        ast::Item::Contract(c) => match member_comps_of(c.members@) {
            Some(ms) => Some(seq![(c.name.name@, CompletionKind::Class, Some("Contract"@), None, false)] + ms),
            None => None,
        },
        ast::Item::Struct(s) => Some(seq![(s.name.name@, CompletionKind::Struct, Some("Struct"@), None, false)]),
        ast::Item::Enum(e) => Some(seq![(e.name.name@, CompletionKind::Enum, Some("Enum"@), None, false)]),
        ast::Item::Event(e) => Some(seq![(e.name.name@, CompletionKind::Event, Some("Event"@), None, false)]),
        ast::Item::Error(e) => Some(seq![(e.name.name@, CompletionKind::Constant, Some("Error"@), None, false)]),
        _ => Some(seq![]),
    }
}

/// The completions of the symbols the items declare, in order.
pub open spec fn symbol_comps(items: Seq<ast::Item>) -> Option<Seq<CompV>>
    decreases items.len(),
{
    if items.len() == 0 {
        Some(seq![])
    } else {
        match symbol_comps(items.drop_last()) {
            Some(xs) => match item_comps(items.last()) {
                Some(ys) => Some(xs + ys),
                None => None,
            },
            None => None,
        }
    }
}

/// The completions of the first `n` members of a contract.
fn member_completions_of(ms: &Vec<ast::ContractMember>, n: usize) -> (r: Vec<Completion>)
    requires
        n <= ms@.len(),
        member_comps_of(ms@.take(n as int)) is Some,
    ensures
        member_comps_of(ms@.take(n as int)) == Some(comps_v(r@)),
    decreases n,
{
    if n == 0 {
        let v: Vec<Completion> = Vec::new();
        proof {
            assert(comps_v(v@) =~= Seq::<CompV>::empty());
        }
        return v;
    }
    proof {
        assert(ms@.take(n as int).drop_last() =~= ms@.take(n - 1));
        assert(ms@.take(n as int).last() == ms@[n - 1]);
    }
    let mut v = member_completions_of(ms, n - 1);
    let ghost before = v@;
    match &ms[n - 1] {
        ast::ContractMember::StateVar(x) => {
            let t = x.ty.name();
            let d = concat("State variable: ", t.as_str());
            v.push(Completion { label: x.name.name.clone(), kind: CompletionKind::Field, detail: Some(d), insert_text: None, snippet: false });
            proof {
                assert(comps_v(v@) =~= comps_v(before).push(comp_v(v@.last())));
            }
        },
        ast::ContractMember::Function(f) => {
            v.push(completion(f.name.name.as_str(), CompletionKind::Function, Some("Function"), None, false));
            proof {
                assert(comps_v(v@) =~= comps_v(before).push(comp_v(v@.last())));
            }
        },
        _ => {},
    }
    v
}

/// The completions an item gives.
fn item_completions(it: &ast::Item) -> (r: Vec<Completion>)
    requires
        item_comps(*it) is Some,
    ensures
        item_comps(*it) == Some(comps_v(r@)),
{
    let mut v: Vec<Completion> = Vec::new();
    match it {
        ast::Item::Contract(c) => {
            v.push(completion(c.name.name.as_str(), CompletionKind::Class, Some("Contract"), None, false));
            proof {
                assert(c.members@.take(c.members@.len() as int) =~= c.members@);
            }
            let ghost head = v@;
            let mut ms = member_completions_of(&c.members, c.members.len());
            let ghost added = ms@;
            v.append(&mut ms);
            proof {
                assert(comps_v(v@) =~= comps_v(head) + comps_v(added));
            }
        },
        ast::Item::Struct(s) => {
            v.push(completion(s.name.name.as_str(), CompletionKind::Struct, Some("Struct"), None, false));
        },
        ast::Item::Enum(e) => {
            v.push(completion(e.name.name.as_str(), CompletionKind::Enum, Some("Enum"), None, false));
        },
        ast::Item::Event(e) => {
            v.push(completion(e.name.name.as_str(), CompletionKind::Event, Some("Event"), None, false));
        },
        ast::Item::Error(e) => {
            v.push(completion(e.name.name.as_str(), CompletionKind::Constant, Some("Error"), None, false));
        },
        _ => {},
    }
    proof {
        assert(comps_v(v@) =~= item_comps(*it).unwrap());
    }
    v
}

/// The completions of the symbols the first `n` items declare, in order.
fn symbol_completions_of(items: &Vec<ast::Item>, n: usize) -> (r: Vec<Completion>)
    requires
        n <= items@.len(),
        symbol_comps(items@.take(n as int)) is Some,
    ensures
        symbol_comps(items@.take(n as int)) == Some(comps_v(r@)),
    decreases n,
{
    if n == 0 {
        let v: Vec<Completion> = Vec::new();
        proof {
            assert(comps_v(v@) =~= Seq::<CompV>::empty());
        }
        return v;
    }
    proof {
        assert(items@.take(n as int).drop_last() =~= items@.take(n - 1));
        assert(items@.take(n as int).last() == items@[n - 1]);
    }
    let mut v = symbol_completions_of(items, n - 1);
    let ghost before = v@;
    let mut ys = item_completions(&items[n - 1]);
    let ghost added = ys@;
    v.append(&mut ys);
    proof {
        assert(comps_v(v@) =~= comps_v(before) + comps_v(added));
    }
    v
}

/// The completions of the symbols a program declares: contracts with their state
/// variables and functions, structs, enums, events and errors.
pub fn get_symbol_completions(ast: &ast::Program) -> (r: Vec<Completion>)
    requires
        symbol_comps(ast.items@) is Some,
    ensures
        symbol_comps(ast.items@) == Some(comps_v(r@)),
{
    proof {
        assert(ast.items@.take(ast.items@.len() as int) =~= ast.items@);
    }
    symbol_completions_of(&ast.items, ast.items.len())
}

/// A text without the dots it ends with.
pub open spec fn trim_dots(s: Seq<char>) -> Seq<char>
    decreases s.len(),
{
    if s.len() > 0 && s.last() == '.' {
        trim_dots(s.drop_last())
    } else {
        s
    }
}

/// Whether a character continues a name.
pub open spec fn name_char(c: char) -> bool {
    alnum_prop(c) || c == '_'
}

/// The place of the last character that does not continue a name, or -1.
pub open spec fn last_sep(s: Seq<char>) -> int
    decreases s.len(),
{
    if s.len() == 0 {
        -1
    } else if !name_char(s.last()) {
        s.len() - 1
    } else {
        last_sep(s.drop_last())
    }
}

/// The object before the dots a prefix ends with: the name before them. `None` where the
/// character before that name takes more than one byte, so that the name does not start
/// on a character boundary of the text.
pub open spec fn object_name_s(prefix: Seq<char>) -> Option<Seq<char>> {
    let t = trim_dots(prefix);
    let k = last_sep(t);
    if k < 0 {
        Some(t)
    } else if (t[k] as u32) < 0x80 {
        Some(t.skip(k + 1))
    } else {
        None
    }
}

/// The completions for the text before the cursor on its line: after a dot, the members
/// of what stands before it; else keywords, types, the program's symbols and built-ins.
pub open spec fn completions_s(ast: Option<ast::Program>, prefix: Seq<char>) -> Option<Seq<CompV>> {
    if prefix.len() > 0 && prefix.last() == '.' {
        match object_name_s(prefix) {
            Some(o) => member_comps(ast, o),
            None => None,
        }
    } else {
        match ast {
            Some(p) => match symbol_comps(p.items@) {
                Some(ss) => Some(get_keyword_completions_table() + get_type_completions_table() + ss
                    + get_builtin_completions_table()),
                None => None,
            },
            None => Some(get_keyword_completions_table() + get_type_completions_table() + get_builtin_completions_table()),
        }
    }
}

/// The object before the dots a prefix ends with.
fn object_name_of(prefix: &str) -> (r: String)
    requires
        object_name_s(prefix@) is Some,
    ensures
        object_name_s(prefix@) == Some(r@),
{
    let cs = chars_of(prefix);
    let mut n = cs.len();
    proof {
        assert(cs@.take(n as int) =~= cs@);
    }
    while n > 0 && cs[n - 1] == '.'
        invariant
            n <= cs@.len(),
            cs@ == prefix@,
            trim_dots(prefix@) == trim_dots(cs@.take(n as int)),
        decreases n,
    {
        proof {
            assert(cs@.take(n as int).drop_last() =~= cs@.take(n - 1));
        }
        n = n - 1;
    }
    let ghost t = cs@.take(n as int);
    proof {
        assert(trim_dots(t) == t);
    }
    let mut k = n;
    proof {
        assert(t.take(k as int) =~= t);
    }
    while k > 0 && (is_alphanumeric(cs[k - 1]) || cs[k - 1] == '_')
        invariant
            k <= n,
            n <= cs@.len(),
            t == cs@.take(n as int),
            last_sep(t) == last_sep(t.take(k as int)),
        decreases k,
    {
        proof {
            assert(t.take(k as int).drop_last() =~= t.take(k - 1));
            assert(t.take(k as int).last() == cs@[k - 1]);
        }
        k = k - 1;
    }
    proof {
        if k > 0 {
            assert(t.take(k as int).last() == cs@[k - 1]);
            assert(last_sep(t) == k - 1);
        } else {
            assert(t.take(0) =~= Seq::<char>::empty());
            assert(last_sep(t) == -1);
        }
    }
    let start = if k > 0 { k } else { 0 };
    let r = crate::text::string_of(vstd::slice::slice_subrange(cs.as_slice(), start, n));
    proof {
        if k > 0 {
            assert(t.skip(k as int) =~= cs@.subrange(k as int, n as int));
        } else {
            assert(t =~= cs@.subrange(0, n as int));
        }
    }
    r
}

/// The completions for the text before the cursor on its line: after a dot, the members
/// of what stands before it; else keywords, types, the program's symbols and built-ins.
pub fn completions_for_prefix(ast: &Option<ast::Program>, prefix: &str) -> (r: Vec<Completion>)
    requires
        completions_s(*ast, prefix@) is Some,
    ensures
        completions_s(*ast, prefix@) == Some(comps_v(r@)),
{
    let cs = chars_of(prefix);
    if cs.len() > 0 && cs[cs.len() - 1] == '.' {
        let o = object_name_of(prefix);
        get_member_completions(ast, o.as_str())
    } else {
        let mut v = get_keyword_completions();
        let ghost a = v@;
        let mut t = get_type_completions();
        let ghost b = t@;
        v.append(&mut t);
        let ghost ab = v@;
        let ghost c: Seq<Completion> = Seq::empty();
        match ast {
            Some(p) => {
                let mut s = get_symbol_completions(p);
                let ghost sv = s@;
                v.append(&mut s);
                let ghost abc = v@;
                let mut bi = get_builtin_completions();
                let ghost d = bi@;
                v.append(&mut bi);
                proof {
                    assert(comps_v(v@) =~= comps_v(a) + comps_v(b) + comps_v(sv) + comps_v(d));
                }
            },
            None => {
                let mut bi = get_builtin_completions();
                let ghost d = bi@;
                v.append(&mut bi);
                proof {
                    assert(comps_v(v@) =~= comps_v(a) + comps_v(b) + comps_v(d));
                }
            },
        }
        v
    }
}

/// ` visibility` where there is one.
pub open spec fn vis_part(v: Option<ast::Visibility>) -> Seq<char> {
    match v {
        Some(x) => " "@ + vis_text(x),
        None => Seq::<char>::empty(),
    }
}

/// The state mutabilities, each after a space.
pub open spec fn muts_text(ms: Seq<ast::StateMutability>) -> Seq<char>
    decreases ms.len(),
{
    if ms.len() == 0 {
        seq![]
    } else {
        muts_text(ms.drop_last()) + match ms.last() {
            ast::StateMutability::View => " view"@,
            ast::StateMutability::Pure => " pure"@,
            ast::StateMutability::Payable => " payable"@,
        }
    }
}

/// ` returns (..)` for return types, nothing for none.
pub open spec fn returns_part(n: nat, rs: Seq<Seq<char>>) -> Seq<char> {
    if n == 0 {
        Seq::<char>::empty()
    } else {
        " returns ("@ + join(rs, ", "@) + ")"@
    }
}

/// A function signature in an interface, formatted.
pub open spec fn fmt_sig_s(sig: ast::FnSig, ind: Seq<char>) -> Option<Seq<char>> {
    match typed_list(params_pairs(sig.params@), seq![], " "@, seq![]) {
        Some(ps) => match typed_list(returns_pairs(sig.return_params@), seq![], seq![], seq![]) {
            Some(rs) => Some(ind + "function "@ + sig.name.name@ + "("@ + join(ps, ", "@) + ")"@ + vis_part(sig.visibility)
                + muts_text(sig.state_mutability@) + returns_part(sig.return_params@.len(), rs) + ";\n"@),
            None => None,
        },
        None => None,
    }
}

/// The attributes of a function, one per line.
pub open spec fn attrs_text(attrs: Seq<ast::Attribute>, ind: Seq<char>) -> Seq<char>
    decreases attrs.len(),
{
    if attrs.len() == 0 {
        seq![]
    } else {
        attrs_text(attrs.drop_last(), ind) + ind + "#["@ + attrs.last().name.name@ + "]\n"@
    }
}

/// A function, formatted: its attributes and header, and a placeholder for its body.
pub open spec fn fmt_fn_s(f: ast::FnDef, ind: Seq<char>) -> Option<Seq<char>> {
    match typed_list(params_pairs(f.params@), seq![], " "@, seq![]) {
        Some(ps) => match typed_list(returns_pairs(f.return_params@), seq![], seq![], seq![]) {
            Some(rs) => Some(attrs_text(f.attributes@, ind) + ind + "function "@ + f.name.name@ + "("@ + join(ps, ", "@) + ")"@
                + vis_part(f.visibility) + muts_text(f.state_mutability@) + returns_part(f.return_params@.len(), rs) + if f.body
                is Some {
                " {\n"@ + ind + "    // ...\n"@ + ind + "}\n\n"@
            } else {
                ";\n\n"@
            }),
            None => None,
        },
        None => None,
    }
}

/// A member of a contract, formatted: state variables, functions and constructors.
pub open spec fn fmt_member_s(m: ast::ContractMember) -> Option<Seq<char>> {
    match m {
        ast::ContractMember::StateVar(v) => match type_name_s(v.ty) {
            Some(t) => Some("    "@ + t + vis_part(v.visibility) + " "@ + v.name.name@ + ";\n"@),
            None => None,
        },
        ast::ContractMember::Function(f) => fmt_fn_s(f, "    "@),
        ast::ContractMember::Constructor(c) => match typed_list(params_pairs(c.params@), seq![], " "@, seq![]) {
            Some(ps) => Some("    constructor("@ + join(ps, ", "@) + ") {\n"@ + "    }\n\n"@),
            None => None,
        },
        _ => Some(seq![]),
    }
}

/// Members of a contract, formatted one after the other.
pub open spec fn fmt_members_s(ms: Seq<ast::ContractMember>) -> Option<Seq<char>>
    decreases ms.len(),
{
    if ms.len() == 0 {
        Some(seq![])
    } else {
        match fmt_members_s(ms.drop_last()) {
            Some(a) => match fmt_member_s(ms.last()) {
                Some(b) => Some(a + b),
                None => None,
            },
            None => None,
        }
    }
}

/// Interface signatures, formatted one after the other.
pub open spec fn fmt_sigs_s(ss: Seq<ast::FnSig>) -> Option<Seq<char>>
    decreases ss.len(),
{
    if ss.len() == 0 {
        Some(seq![])
    } else {
        match fmt_sigs_s(ss.drop_last()) {
            Some(a) => match fmt_sig_s(ss.last(), "    "@) {
                Some(b) => Some(a + b),
                None => None,
            },
            None => None,
        }
    }
}

/// An item, formatted: contracts, events, errors and interfaces; other items give no
/// text.
pub open spec fn fmt_item_s(it: ast::Item) -> Option<Seq<char>> {
    match it {
        ast::Item::Contract(c) => match path_names(c.bases@) {
            Some(bs) => match fmt_members_s(c.members@) {
                Some(ms) => Some((if c.is_abstract { "abstract "@ } else { Seq::<char>::empty() }) + "contract "@ + c.name.name@
                    + (if c.bases@.len() > 0 { " is "@ + join(bs, ", "@) } else { Seq::<char>::empty() }) + " {\n"@ + ms
                    + "}\n\n"@),
                None => None,
            },
            None => None,
        },
        ast::Item::Event(e) => match typed_list(
            e.params@.map_values(|p: ast::EventParam| (p.ty, (if p.indexed { "indexed "@ } else { Seq::<char>::empty() }) + p.name.name@)),
            seq![],
            " "@,
            seq![],
        ) {
            Some(ps) => Some("event "@ + e.name.name@ + "("@ + join(ps, ", "@) + ");\n\n"@),
            None => None,
        },
        ast::Item::Error(e) => match typed_list(e.params@.map_values(|p: ast::ErrorParam| (p.ty, p.name.name@)), seq![], " "@, seq![]) {
            Some(ps) => Some("error "@ + e.name.name@ + "("@ + join(ps, ", "@) + ");\n\n"@),
            None => None,
        },
        ast::Item::Interface(i) => match fmt_sigs_s(i.members@) {
            Some(ss) => Some("interface "@ + i.name.name@ + " {\n"@ + ss + "}\n\n"@),
            None => None,
        },
        _ => Some(seq![]),
    }
}

/// A program, formatted item after item; `None` where a type path without segments has no
/// name to write.
pub open spec fn fmt_program_s(items: Seq<ast::Item>) -> Option<Seq<char>>
    decreases items.len(),
{
    if items.len() == 0 {
        Some(seq![])
    } else {
        match fmt_program_s(items.drop_last()) {
            Some(a) => match fmt_item_s(items.last()) {
                Some(b) => Some(a + b),
                None => None,
            },
            None => None,
        }
    }
}

/// The state mutabilities, each after a space.
pub(crate) fn muts_str(ms: &Vec<ast::StateMutability>) -> (r: String)
    ensures
        r@ == muts_text(ms@),
{
    let mut s = String::new();
    let mut i: usize = 0;
    while i < ms.len()
        invariant
            i <= ms@.len(),
            s@ == muts_text(ms@.take(i as int)),
        decreases ms@.len() - i,
    {
        proof {
            assert(ms@.take(i + 1).drop_last() =~= ms@.take(i as int));
            assert(ms@.take(i + 1).last() == ms@[i as int]);
        }
        match ms[i] {
            ast::StateMutability::View => push_str(&mut s, " view"),
            ast::StateMutability::Pure => push_str(&mut s, " pure"),
            ast::StateMutability::Payable => push_str(&mut s, " payable"),
        }
        i = i + 1;
    }
    proof {
        assert(ms@.take(ms@.len() as int) =~= ms@);
    }
    s
}

/// ` visibility` where there is one.
pub(crate) fn vis_part_str(v: Option<ast::Visibility>) -> (r: String)
    ensures
        r@ == vis_part(v),
{
    match v {
        Some(x) => concat(" ", vis_str(x)),
        None => String::new(),
    }
}

/// ` returns (..)` for return types, nothing for none.
pub(crate) fn returns_part_str(n: usize, rs: &Vec<String>) -> (r: String)
    ensures
        r@ == returns_part(n as nat, strs_v(rs@)),
{
    if n == 0 {
        String::new()
    } else {
        let mut x = " returns (".to_owned();
        let j = join_strings(rs, ", ");
        push_str(&mut x, j.as_str());
        push_str(&mut x, ")");
        x
    }
}

/// A function signature in an interface, formatted.
pub fn format_fn_sig(sig: &ast::FnSig, indent: usize) -> (r: String)
    requires
        fmt_sig_s(*sig, crate::gen_spec::indent(indent as nat)) is Some,
    ensures
        fmt_sig_s(*sig, crate::gen_spec::indent(indent as nat)) == Some(r@),
{
    proof {
        reveal_strlit("");
        reveal_strlit(" ");
        assert(""@ =~= Seq::<char>::empty());
        assert(sig.params@.map_values(|p: ast::Param| (p.ty, p.name.name@)).take(sig.params@.len() as int)
            =~= params_pairs(sig.params@));
        assert(sig.return_params@.map_values(|p: ast::ReturnParam| (p.ty, Seq::<char>::empty())).take(
            sig.return_params@.len() as int,
        ) =~= returns_pairs(sig.return_params@));
    }
    let ps = param_strs(&sig.params, sig.params.len(), "", " ", "");
    let rs = return_strs(&sig.return_params, sig.return_params.len(), "", "", "");
    let mut s = crate::rust_gen::indent_str(indent);
    push_str(&mut s, "function ");
    push_str(&mut s, sig.name.name.as_str());
    push_str(&mut s, "(");
    let j = join_strings(&ps, ", ");
    push_str(&mut s, j.as_str());
    push_str(&mut s, ")");
    let v = vis_part_str(sig.visibility);
    push_str(&mut s, v.as_str());
    let m = muts_str(&sig.state_mutability);
    push_str(&mut s, m.as_str());
    let r = returns_part_str(sig.return_params.len(), &rs);
    push_str(&mut s, r.as_str());
    push_str(&mut s, ";\n");
    s
}

/// A function, formatted: its attributes and header, and a placeholder for its body.
pub fn format_function(f: &ast::FnDef, indent: usize) -> (r: String)
    requires
        fmt_fn_s(*f, crate::gen_spec::indent(indent as nat)) is Some,
    ensures
        fmt_fn_s(*f, crate::gen_spec::indent(indent as nat)) == Some(r@),
{
    proof {
        reveal_strlit("");
        reveal_strlit(" ");
        assert(""@ =~= Seq::<char>::empty());
        assert(f.params@.map_values(|p: ast::Param| (p.ty, p.name.name@)).take(f.params@.len() as int)
            =~= params_pairs(f.params@));
        assert(f.return_params@.map_values(|p: ast::ReturnParam| (p.ty, Seq::<char>::empty())).take(
            f.return_params@.len() as int,
        ) =~= returns_pairs(f.return_params@));
    }
    let ind = crate::rust_gen::indent_str(indent);
    let mut s = String::new();
    let mut i: usize = 0;
    while i < f.attributes.len()
        invariant
            i <= f.attributes@.len(),
            s@ == attrs_text(f.attributes@.take(i as int), ind@),
        decreases f.attributes@.len() - i,
    {
        proof {
            assert(f.attributes@.take(i + 1).drop_last() =~= f.attributes@.take(i as int));
            assert(f.attributes@.take(i + 1).last() == f.attributes@[i as int]);
        }
        push_str(&mut s, ind.as_str());
        push_str(&mut s, "#[");
        push_str(&mut s, f.attributes[i].name.name.as_str());
        push_str(&mut s, "]\n");
        i = i + 1;
    }
    proof {
        assert(f.attributes@.take(f.attributes@.len() as int) =~= f.attributes@);
    }
    let ps = param_strs(&f.params, f.params.len(), "", " ", "");
    let rs = return_strs(&f.return_params, f.return_params.len(), "", "", "");
    push_str(&mut s, ind.as_str());
    push_str(&mut s, "function ");
    push_str(&mut s, f.name.name.as_str());
    push_str(&mut s, "(");
    let j = join_strings(&ps, ", ");
    push_str(&mut s, j.as_str());
    push_str(&mut s, ")");
    let v = vis_part_str(f.visibility);
    push_str(&mut s, v.as_str());
    let m = muts_str(&f.state_mutability);
    push_str(&mut s, m.as_str());
    let r = returns_part_str(f.return_params.len(), &rs);
    push_str(&mut s, r.as_str());
    let tail = if f.body.is_some() {
        let mut t = " {\n".to_owned();
        push_str(&mut t, ind.as_str());
        push_str(&mut t, "    // ...\n");
        push_str(&mut t, ind.as_str());
        push_str(&mut t, "}\n\n");
        t
    } else {
        ";\n\n".to_owned()
    };
    push_str(&mut s, tail.as_str());
    s
}

/// A member of a contract, formatted.
fn format_member(m: &ast::ContractMember) -> (r: String)
    requires
        fmt_member_s(*m) is Some,
    ensures
        fmt_member_s(*m) == Some(r@),
{
    match m {
        ast::ContractMember::StateVar(v) => {
            let mut s = "    ".to_owned();
            let t = v.ty.name();
            push_str(&mut s, t.as_str());
            let vp = vis_part_str(v.visibility);
            push_str(&mut s, vp.as_str());
            push_str(&mut s, " ");
            push_str(&mut s, v.name.name.as_str());
            push_str(&mut s, ";\n");
            s
        },
        ast::ContractMember::Function(f) => {
            proof {
                reveal_with_fuel(crate::gen_spec::indent, 2);
                assert(crate::gen_spec::indent(0) =~= Seq::<char>::empty());
                assert(crate::gen_spec::indent(1) =~= "    "@);
            }
            format_function(f, 1)
        },
        ast::ContractMember::Constructor(c) => {
            proof {
                reveal_strlit("");
                reveal_strlit(" ");
                assert(""@ =~= Seq::<char>::empty());
                assert(c.params@.map_values(|p: ast::Param| (p.ty, p.name.name@)).take(c.params@.len() as int)
                    =~= params_pairs(c.params@));
            }
            let ps = param_strs(&c.params, c.params.len(), "", " ", "");
            let mut s = "    constructor(".to_owned();
            let j = join_strings(&ps, ", ");
            push_str(&mut s, j.as_str());
            push_str(&mut s, ") {\n");
            push_str(&mut s, "    }\n\n");
            s
        },
        _ => String::new(),
    }
}

/// An item, formatted.
fn format_item_of(it: &ast::Item) -> (r: String)
    requires
        fmt_item_s(*it) is Some,
    ensures
        fmt_item_s(*it) == Some(r@),
{
    match it {
        ast::Item::Contract(c) => {
            let mut s = if c.is_abstract { "abstract ".to_owned() } else { String::new() };
            push_str(&mut s, "contract ");
            push_str(&mut s, c.name.name.as_str());
            if c.bases.len() > 0 {
                let mut names: Vec<String> = Vec::new();
                let mut i: usize = 0;
                proof {
                    assert(strs_v(names@) =~= Seq::<Seq<char>>::empty());
                }
                while i < c.bases.len()
                    invariant
                        i <= c.bases@.len(),
                        path_names(c.bases@) is Some,
                        path_names(c.bases@.take(i as int)) == Some(strs_v(names@)),
                    decreases c.bases@.len() - i,
                {
                    proof {
                        lemma_path_names_prefix(c.bases@, i + 1);
                        assert(c.bases@.take(i + 1).drop_last() =~= c.bases@.take(i as int));
                        assert(c.bases@.take(i + 1).last() == c.bases@[i as int]);
                    }
                    let x = c.bases[i].name().to_owned();
                    let ghost before = names@;
                    names.push(x);
                    proof {
                        assert(strs_v(names@) =~= strs_v(before).push(x@));
                    }
                    i = i + 1;
                }
                proof {
                    assert(c.bases@.take(c.bases@.len() as int) =~= c.bases@);
                }
                let mut b = " is ".to_owned();
                let j = join_strings(&names, ", ");
                push_str(&mut b, j.as_str());
                push_str(&mut s, b.as_str());
            } else {
                proof {
                    assert(s@ =~= s@ + Seq::<char>::empty());
                }
            }
            push_str(&mut s, " {\n");
            let mut ms = String::new();
            let mut k: usize = 0;
            while k < c.members.len()
                invariant
                    k <= c.members@.len(),
                    fmt_members_s(c.members@) is Some,
                    fmt_members_s(c.members@.take(k as int)) == Some(ms@),
                decreases c.members@.len() - k,
            {
                proof {
                    lemma_fmt_members_prefix(c.members@, k + 1);
                    assert(c.members@.take(k + 1).drop_last() =~= c.members@.take(k as int));
                    assert(c.members@.take(k + 1).last() == c.members@[k as int]);
                }
                let x = format_member(&c.members[k]);
                push_str(&mut ms, x.as_str());
                k = k + 1;
            }
            proof {
                assert(c.members@.take(c.members@.len() as int) =~= c.members@);
            }
            push_str(&mut s, ms.as_str());
            push_str(&mut s, "}\n\n");
            s
        },
        ast::Item::Event(e) => {
            proof {
                let pairs = e.params@.map_values(
                    |p: ast::EventParam| (p.ty, (if p.indexed { "indexed "@ } else { Seq::<char>::empty() }) + p.name.name@),
                );
                assert(pairs.take(pairs.len() as int) =~= pairs);
                reveal_strlit("");
                reveal_strlit(" ");
                assert(""@ =~= Seq::<char>::empty());
            }
            let ps = event_param_strs(&e.params, e.params.len(), "", " ", "");
            let mut s = "event ".to_owned();
            push_str(&mut s, e.name.name.as_str());
            push_str(&mut s, "(");
            let j = join_strings(&ps, ", ");
            push_str(&mut s, j.as_str());
            push_str(&mut s, ");\n\n");
            s
        },
        ast::Item::Error(e) => {
            proof {
                let pairs = e.params@.map_values(|p: ast::ErrorParam| (p.ty, p.name.name@));
                assert(pairs.take(pairs.len() as int) =~= pairs);
                reveal_strlit("");
                reveal_strlit(" ");
                assert(""@ =~= Seq::<char>::empty());
            }
            let ps = error_param_strs(&e.params, e.params.len(), "", " ", "");
            let mut s = "error ".to_owned();
            push_str(&mut s, e.name.name.as_str());
            push_str(&mut s, "(");
            let j = join_strings(&ps, ", ");
            push_str(&mut s, j.as_str());
            push_str(&mut s, ");\n\n");
            s
        },
        ast::Item::Interface(i) => {
            let mut ss = String::new();
            let mut k: usize = 0;
            while k < i.members.len()
                invariant
                    k <= i.members@.len(),
                    fmt_sigs_s(i.members@) is Some,
                    fmt_sigs_s(i.members@.take(k as int)) == Some(ss@),
                decreases i.members@.len() - k,
            {
                proof {
                    lemma_fmt_sigs_prefix(i.members@, k + 1);
                    assert(i.members@.take(k + 1).drop_last() =~= i.members@.take(k as int));
                    assert(i.members@.take(k + 1).last() == i.members@[k as int]);
                    reveal_with_fuel(crate::gen_spec::indent, 2);
                assert(crate::gen_spec::indent(0) =~= Seq::<char>::empty());
                assert(crate::gen_spec::indent(1) =~= "    "@);
                }
                let x = format_fn_sig(&i.members[k], 1);
                push_str(&mut ss, x.as_str());
                k = k + 1;
            }
            proof {
                assert(i.members@.take(i.members@.len() as int) =~= i.members@);
            }
            let mut s = "interface ".to_owned();
            push_str(&mut s, i.name.name.as_str());
            push_str(&mut s, " {\n");
            push_str(&mut s, ss.as_str());
            push_str(&mut s, "}\n\n");
            s
        },
        _ => String::new(),
    }
}

/// Where all members format, each prefix does.
proof fn lemma_fmt_members_prefix(ms: Seq<ast::ContractMember>, n: int)
    requires
        0 <= n <= ms.len(),
        fmt_members_s(ms) is Some,
    ensures
        fmt_members_s(ms.take(n)) is Some,
    decreases ms.len() - n,
{
    if n < ms.len() {
        assert(ms.take(n + 1).drop_last() =~= ms.take(n));
        lemma_fmt_members_prefix(ms, n + 1);
    } else {
        assert(ms.take(n) =~= ms);
    }
}

/// Where all signatures format, each prefix does.
proof fn lemma_fmt_sigs_prefix(ss: Seq<ast::FnSig>, n: int)
    requires
        0 <= n <= ss.len(),
        fmt_sigs_s(ss) is Some,
    ensures
        fmt_sigs_s(ss.take(n)) is Some,
    decreases ss.len() - n,
{
    if n < ss.len() {
        assert(ss.take(n + 1).drop_last() =~= ss.take(n));
        lemma_fmt_sigs_prefix(ss, n + 1);
    } else {
        assert(ss.take(n) =~= ss);
    }
}

/// Where the whole program formats, each prefix does.
proof fn lemma_fmt_program_prefix(items: Seq<ast::Item>, n: int)
    requires
        0 <= n <= items.len(),
        fmt_program_s(items) is Some,
    ensures
        fmt_program_s(items.take(n)) is Some,
    decreases items.len() - n,
{
    if n < items.len() {
        assert(items.take(n + 1).drop_last() =~= items.take(n));
        lemma_fmt_program_prefix(items, n + 1);
    } else {
        assert(items.take(n) =~= items);
    }
}

/// A program formatted back to source: contracts with their state variables, functions
/// and constructors, events, errors and interfaces.
pub fn format_program(program: &ast::Program) -> (r: String)
    requires
        fmt_program_s(program.items@) is Some,
    ensures
        fmt_program_s(program.items@) == Some(r@),
{
    let items = &program.items;
    let mut s = String::new();
    let mut i: usize = 0;
    while i < items.len()
        invariant
            i <= items@.len(),
            items@ == program.items@,
            fmt_program_s(items@) is Some,
            fmt_program_s(items@.take(i as int)) == Some(s@),
        decreases items@.len() - i,
    {
        proof {
            lemma_fmt_program_prefix(items@, i + 1);
            assert(items@.take(i + 1).drop_last() =~= items@.take(i as int));
            assert(items@.take(i + 1).last() == items@[i as int]);
        }
        let x = format_item_of(&items[i]);
        push_str(&mut s, x.as_str());
        i = i + 1;
    }
    proof {
        assert(items@.take(items@.len() as int) =~= items@);
    }
    s
}

/// Whether a byte continues a name when the text is read byte by byte, each byte taken
/// as the character with its number.
pub open spec fn name_byte(b: u8) -> bool {
    name_char(b as char)
}

/// Where the word around byte `k` starts: the bytes before `k` that continue a name are
/// taken in.
pub open spec fn word_start(bs: Seq<u8>, k: int) -> int
    decreases k,
{
    if 0 < k <= bs.len() && name_byte(bs[k - 1]) {
        word_start(bs, k - 1)
    } else {
        k
    }
}

/// Where the word around byte `k` ends: the bytes from `k` on that continue a name are
/// taken in.
pub open spec fn word_end(bs: Seq<u8>, k: int) -> int
    decreases bs.len() - k,
{
    if 0 <= k < bs.len() && name_byte(bs[k]) {
        word_end(bs, k + 1)
    } else {
        k
    }
}

/// Whether the word around byte `k`, where there is one, starts and ends between
/// characters, so that it can be cut out of the text.
pub open spec fn word_on_boundaries(bs: Seq<u8>, k: int) -> bool {
    word_start(bs, k) < word_end(bs, k) ==> is_char_boundary(bs, word_start(bs, k))
        && is_char_boundary(bs, word_end(bs, k))
}

/// The word around byte `k` as characters, where there is one.
pub open spec fn word_around(bs: Seq<u8>, k: int, w: Option<String>) -> bool {
    match w {
        Some(x) => word_start(bs, k) < word_end(bs, k) && encode_utf8(x@) == bs.subrange(
            word_start(bs, k),
            word_end(bs, k),
        ),
        None => !(word_start(bs, k) < word_end(bs, k)),
    }
}

fn is_name_byte(b: u8) -> (r: bool)
    ensures
        r == name_byte(b),
{
    let c = b as char;
    is_alphanumeric(c) || c == '_'
}

/// The bytes around `offset` that continue a name.
fn word_bounds(bytes: &[u8], offset: usize) -> (r: (usize, usize))
    requires
        offset <= bytes@.len(),
    ensures
        r.0 == word_start(bytes@, offset as int),
        r.1 == word_end(bytes@, offset as int),
        r.0 <= offset <= r.1 <= bytes@.len(),
{
    let mut start = offset;
    while start > 0 && is_name_byte(bytes[start - 1])
        invariant
            start <= offset <= bytes@.len(),
            word_start(bytes@, start as int) == word_start(bytes@, offset as int),
        decreases start,
    {
        start = start - 1;
    }
    let mut end = offset;
    while end < bytes.len() && is_name_byte(bytes[end])
        invariant
            offset <= end <= bytes@.len(),
            word_end(bytes@, end as int) == word_end(bytes@, offset as int),
        decreases bytes@.len() - end,
    {
        end = end + 1;
    }
    (start, end)
}

/// The word at byte `offset` of a text: the bytes around it that continue a name, each
/// byte read as the character with its number. `None` where no such byte touches the
/// offset. The word must start and end between characters of the text.
pub fn word_at_offset(text: &str, offset: usize) -> (r: Option<String>)
    requires
        offset <= text.spec_bytes().len(),
        word_on_boundaries(text.spec_bytes(), offset as int),
    ensures
        word_around(text.spec_bytes(), offset as int, r),
{
    let bytes = text.as_bytes();
    let (start, end) = word_bounds(bytes, offset);
    if start < end {
        let (head, _) = text.split_at(end);
        proof {
            encode_utf8_valid_utf8(text@);
            encode_utf8_valid_utf8(head@);
            is_char_boundary_iff_not_is_continuation_byte(text.spec_bytes(), start as int);
            is_char_boundary_iff_not_is_continuation_byte(head.spec_bytes(), start as int);
            assert(head.spec_bytes()[start as int] == text.spec_bytes()[start as int]);
        }
        let (_, word) = head.split_at(start);
        let w = word.to_owned();
        proof {
            assert(word.spec_bytes() =~= text.spec_bytes().subrange(start as int, end as int));
        }
        Some(w)
    } else {
        None
    }
}

/// The word at byte `offset` of a text, where it can be cut out: `None` where the word
/// starts or ends inside a character, else what `word_at_offset` gives.
pub fn word_at_checked(text: &str, offset: usize) -> (r: Option<Option<String>>)
    requires
        offset <= text.spec_bytes().len(),
    ensures
        r is Some <==> word_on_boundaries(text.spec_bytes(), offset as int),
        r matches Some(w) ==> word_around(text.spec_bytes(), offset as int, w),
{
    let (start, end) = word_bounds(text.as_bytes(), offset);
    if start < end && !(text.is_char_boundary(start) && text.is_char_boundary(end)) {
        return None;
    }
    Some(word_at_offset(text, offset))
}

} // verus!
