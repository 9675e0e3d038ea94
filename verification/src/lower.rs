//! Lowering the syntax tree of a contract to the intermediate representation.

use vstd::prelude::*;
use crate::ast;
use crate::chars::{is_uppercase, to_lowercase_first, upper_prop};
use crate::codegen_error::{err_v, CodegenError, ErrV};
use crate::ir::{
    access_v, accesses_v, clone_expr, clone_exprs, expr_v, exprs_v, lit_v, opt_expr_v, stmt_v,
    stmts_v, type_v, BinaryOp, Expression, Literal, MappingAccess, MappingDef, SolanaType, Statement,
    UnaryOp,
};
use crate::ir::ExprV;
use crate::lower_spec::{
    arg_message, assert_check, assert_check_kind, assign_value, builtin_field, builtin_method,
    bytes_suffix, is_zero_literal, lower_args_s, lower_binop, lower_call_s, lower_chain_s,
    lower_expr_s, lower_exprs_s, lower_unop, mapping_chain, Lowered,
    access_account_name, all_digits, all_hex_digits, builtin_type, hex_digit_value, hex_value, lower_lit_s, lower_path_s,
    lower_type_s, parse_hex_u128, parse_usize, snake, snake_piece, starts_with, strip_0x, unsigned_digits, CollV,
    CtxV,
};
use crate::lexer::is_hex_digit;
use crate::text::{
    chars_of, concat, dec_seq, dec_string, dec_value, digit_value, is_digit, lemma_dec_value_prefix_le,
    push_char, push_str, str_eq,
};
use crate::types::{TypeExpr, TypePath};

verus! {

/// Why lowering stopped: an error, or a call to an assertion that lacks the arguments
/// it reads.
#[derive(Debug)]
pub enum Stop {
    Error(CodegenError),
    Stuck,
}

/// What lowering reads of its surroundings.
#[derive(Debug)]
pub struct LoweringContext {
    pub state_fields: Vec<String>,
    pub mapping_names: Vec<String>,
    pub mappings: Vec<MappingDef>,
    pub interface_names: Vec<String>,
}

/// The texts of a list of strings.
pub open spec fn names_v(s: Seq<String>) -> Seq<Seq<char>> {
    s.map_values(|x: String| x@)
}

pub open spec fn ctx_v(c: LoweringContext) -> CtxV {
    CtxV {
        state_fields: names_v(c.state_fields@),
        mapping_names: names_v(c.mapping_names@),
        interface_names: names_v(c.interface_names@),
    }
}

/// Whether a list of strings holds the given text.
pub fn contains_name(v: &Vec<String>, n: &str) -> (b: bool)
    ensures
        b == names_v(v@).contains(n@),
{
    let mut i: usize = 0;
    while i < v.len()
        invariant
            i <= v@.len(),
            forall|j: int| 0 <= j < i ==> v@[j]@ != n@,
        decreases v@.len() - i,
    {
        if str_eq(v[i].as_str(), n) {
            proof {
                assert(names_v(v@)[i as int] == n@);
            }
            return true;
        }
        i = i + 1;
    }
    proof {
        if names_v(v@).contains(n@) {
            let j = choose|j: int| 0 <= j < names_v(v@).len() && names_v(v@)[j] == n@;
            assert(v@[j]@ == n@);
        }
    }
    false
}

impl LoweringContext {
    /// A context with no fields, mappings or interfaces.
    pub fn new() -> (c: LoweringContext)
        ensures
            c.state_fields@.len() == 0,
            c.mapping_names@.len() == 0,
            c.mappings@.len() == 0,
            c.interface_names@.len() == 0,
    {
        LoweringContext {
            state_fields: Vec::new(),
            mapping_names: Vec::new(),
            mappings: Vec::new(),
            interface_names: Vec::new(),
        }
    }

    /// Whether a name is a field of the state account.
    pub fn is_state_field(&self, name: &str) -> (b: bool)
        ensures
            b == ctx_v(*self).state_fields.contains(name@),
    {
        contains_name(&self.state_fields, name)
    }

    /// Whether a name is an interface.
    pub fn is_interface(&self, name: &str) -> (b: bool)
        ensures
            b == ctx_v(*self).interface_names.contains(name@),
    {
        contains_name(&self.interface_names, name)
    }

    /// Whether a name is a mapping.
    pub fn is_mapping(&self, name: &str) -> (b: bool)
        ensures
            b == ctx_v(*self).mapping_names.contains(name@),
    {
        contains_name(&self.mapping_names, name)
    }
}

/// What lowering a function records as it goes.
#[derive(Debug)]
pub struct MappingAccessCollector {
    pub accesses: Vec<MappingAccess>,
    pub uses_token_program: bool,
    pub uses_sol_transfer: bool,
}

pub open spec fn coll_v(c: MappingAccessCollector) -> CollV {
    CollV {
        accesses: accesses_v(c.accesses@),
        uses_token_program: c.uses_token_program,
        uses_sol_transfer: c.uses_sol_transfer,
    }
}

impl MappingAccessCollector {
    /// Nothing recorded yet.
    pub fn new() -> (c: MappingAccessCollector)
        ensures
            coll_v(c) == (CollV { accesses: seq![], uses_token_program: false, uses_sol_transfer: false }),
    {
        MappingAccessCollector { accesses: Vec::new(), uses_token_program: false, uses_sol_transfer: false }
    }

    /// Record an access to a mapping; its account is named after the mapping and the
    /// number of accesses recorded before it.
    pub fn record_access(&mut self, mapping_name: &str, keys: Vec<Expression>, is_write: bool, should_close: bool) -> (name: String)
        ensures
            name@ == access_account_name(mapping_name@, old(self).accesses@.len()),
            coll_v(*final(self)) == (CollV {
                accesses: coll_v(*old(self)).accesses.push(crate::ir::AccessV {
                    mapping_name: mapping_name@,
                    key_exprs: exprs_v(keys@),
                    is_write,
                    should_close,
                    account_name: name@,
                }),
                ..coll_v(*old(self))
            }),
    {
        let mut account_name = to_snake_case(mapping_name);
        push_str(&mut account_name, "_entry_");
        let d = dec_string(self.accesses.len() as u64);
        push_str(&mut account_name, d.as_str());
        let ghost old_acc = self.accesses@;
        self.accesses.push(MappingAccess {
            mapping_name: mapping_name.to_owned(),
            key_exprs: keys,
            is_write,
            should_close,
            account_name: account_name.clone(),
        });
        proof {
            assert(self.accesses@.drop_last() =~= old_acc);
        }
        account_name
    }
}

/// A name in snake case: each capital letter becomes its small letter, after `_` when
/// the character before it is not a capital.
pub fn to_snake_case(s: &str) -> (r: String)
    ensures
        r@ == snake(s@),
{
    let cs = chars_of(s);
    let mut out = String::new();
    let mut prev_upper = false;
    let mut i: usize = 0;
    while i < cs.len()
        invariant
            i <= cs@.len(),
            cs@ == s@,
            out@ == snake(cs@.take(i as int)),
            prev_upper == (i > 0 && upper_prop(cs@[i - 1])),
        decreases cs@.len() - i,
    {
        let c = cs[i];
        let ghost t = cs@.take(i + 1);
        proof {
            assert(t.drop_last() =~= cs@.take(i as int));
            assert(t[i as int] == c);
            if i > 0 {
                assert(t[i - 1] == cs@[i - 1]);
            }
        }
        if is_uppercase(c) {
            if i > 0 && !prev_upper {
                push_char(&mut out, '_');
            }
            push_char(&mut out, to_lowercase_first(c));
            prev_upper = true;
        } else {
            push_char(&mut out, c);
            prev_upper = false;
        }
        proof {
            assert(out@ =~= snake(cs@.take(i as int)) + snake_piece(t, i as int));
        }
        i = i + 1;
    }
    assert(cs@.take(cs@.len() as int) =~= cs@);
    out
}

/// Read text as a `usize` the way `str::parse` does.
pub fn parse_usize_of(t: &[char]) -> (r: Option<usize>)
    ensures
        match r {
            Some(n) => parse_usize(t@) == Some(n as nat),
            None => parse_usize(t@) is None,
        },
{
    let start: usize = if t.len() > 0 && t[0] == '+' { 1 } else { 0 };
    let ghost d = unsigned_digits(t@);
    if start >= t.len() {
        return None;
    }
    assert(t@.subrange(0, t@.len() as int) =~= t@);
    let mut acc: usize = 0;
    let mut i = start;
    while i < t.len()
        invariant
            start <= i <= t@.len(),
            d == t@.subrange(start as int, t@.len() as int),
            d == unsigned_digits(t@),
            forall|k: int| 0 <= k < i - start ==> is_digit(#[trigger] d[k]),
            acc == dec_value(d.take(i - start)),
        decreases t@.len() - i,
    {
        let c = t[i];
        if !('0' <= c && c <= '9') {
            proof {
                assert(d[i - start] == c);
                assert(!is_digit(d[i - start]));
                assert(!all_digits(d));
            }
            return None;
        }
        let v = (c as u32 - '0' as u32) as usize;
        proof {
            assert(d[i - start] == c);
            assert(d.take(i - start + 1).drop_last() =~= d.take(i - start));
            assert(dec_value(d.take(i - start + 1)) == acc * 10 + v);
        }
        if acc > (usize::MAX - v) / 10 {
            proof {
                assert(acc * 10 + v > usize::MAX) by (nonlinear_arith)
                    requires
                        acc > (usize::MAX - v) / 10,
                        v < 10,
                ;
                if all_digits(d) {
                    lemma_dec_value_prefix_le(d, i - start + 1);
                    assert(dec_value(d) > usize::MAX);
                }
            }
            return None;
        }
        acc = acc * 10 + v;
        i = i + 1;
    }
    proof {
        assert(d.take(d.len() as int) =~= d);
    }
    Some(acc)
}

/// The type a built-in type name stands for.
fn builtin_type_of(name: &str) -> (r: Option<SolanaType>)
    ensures
        match r {
            Some(t) => builtin_type(name@) == Some(type_v(t)),
            None => builtin_type(name@) is None,
        },
{
    if str_eq(name, "uint8") {
        Some(SolanaType::U8)
    } else if str_eq(name, "u8") {
        Some(SolanaType::U8)
    } else if str_eq(name, "uint16") {
        Some(SolanaType::U16)
    } else if str_eq(name, "u16") {
        Some(SolanaType::U16)
    } else if str_eq(name, "uint32") {
        Some(SolanaType::U32)
    } else if str_eq(name, "u32") {
        Some(SolanaType::U32)
    } else if str_eq(name, "uint64") {
        Some(SolanaType::U64)
    } else if str_eq(name, "u64") {
        Some(SolanaType::U64)
    } else if str_eq(name, "uint128") {
        Some(SolanaType::U128)
    } else if str_eq(name, "u128") {
        Some(SolanaType::U128)
    } else if str_eq(name, "uint256") {
        Some(SolanaType::U128)
    } else if str_eq(name, "uint") {
        Some(SolanaType::U128)
    } else if str_eq(name, "int8") {
        Some(SolanaType::I8)
    } else if str_eq(name, "i8") {
        Some(SolanaType::I8)
    } else if str_eq(name, "int16") {
        Some(SolanaType::I16)
    } else if str_eq(name, "i16") {
        Some(SolanaType::I16)
    } else if str_eq(name, "int32") {
        Some(SolanaType::I32)
    } else if str_eq(name, "i32") {
        Some(SolanaType::I32)
    } else if str_eq(name, "int64") {
        Some(SolanaType::I64)
    } else if str_eq(name, "i64") {
        Some(SolanaType::I64)
    } else if str_eq(name, "int128") {
        Some(SolanaType::I128)
    } else if str_eq(name, "i128") {
        Some(SolanaType::I128)
    } else if str_eq(name, "int256") {
        Some(SolanaType::I128)
    } else if str_eq(name, "int") {
        Some(SolanaType::I128)
    } else if str_eq(name, "bool") {
        Some(SolanaType::Bool)
    } else if str_eq(name, "address") {
        Some(SolanaType::Pubkey)
    } else if str_eq(name, "signer") {
        Some(SolanaType::Signer)
    } else if str_eq(name, "string") {
        Some(SolanaType::String)
    } else if str_eq(name, "bytes") {
        Some(SolanaType::Bytes)
    } else {
        None
    }
}

/// Lower a named type.
pub fn lower_path(name: &str) -> (r: Result<SolanaType, CodegenError>)
    ensures
        match lower_path_s(name@) {
            Ok(t) => r matches Ok(x) && type_v(x) == t,
            Err(e) => r matches Err(x) && err_v(x) == e,
        },
{
    if let Some(t) = builtin_type_of(name) {
        return Ok(t);
    }
    let cs = chars_of(name);
    proof {
        reveal_strlit("bytes");
    }
    if cs.len() >= 5 && cs[0] == 'b' && cs[1] == 'y' && cs[2] == 't' && cs[3] == 'e' && cs[4] == 's' {
        proof {
            assert(cs@.subrange(0, 5) =~= "bytes"@);
        }
        let suffix = vstd::slice::slice_subrange(cs.as_slice(), 5, cs.len());
        match parse_usize_of(suffix) {
            Some(n) => {
                if 1 <= n && n <= 32 {
                    Ok(SolanaType::FixedBytes(n))
                } else {
                    let d = dec_string(n as u64);
                    Err(CodegenError::UnsupportedFeature(concat("Invalid bytes size: ", d.as_str())))
                }
            },
            None => Ok(SolanaType::Custom(name.to_owned())),
        }
    } else {
        proof {
            if starts_with(name@, "bytes"@) {
                assert(name@.subrange(0, 5)[0] == 'b');
                assert(name@.subrange(0, 5)[1] == 'y');
                assert(name@.subrange(0, 5)[2] == 't');
                assert(name@.subrange(0, 5)[3] == 'e');
                assert(name@.subrange(0, 5)[4] == 's');
            }
        }
        Ok(SolanaType::Custom(name.to_owned()))
    }
}

/// The outcome of lowering a type, as `lower_type_s` gives it.
pub open spec fn type_outcome(s: Option<Result<crate::ir::TypeV, ErrV>>, r: Result<SolanaType, Stop>) -> bool {
    match s {
        Some(Ok(t)) => r matches Ok(x) && type_v(x) == t,
        Some(Err(e)) => r matches Err(Stop::Error(x)) && err_v(x) == e,
        None => r matches Err(Stop::Stuck),
    }
}

/// Lower a type.
pub fn lower_type(t: &TypeExpr) -> (r: Result<SolanaType, Stop>)
    ensures
        type_outcome(lower_type_s(*t), r),
    decreases t,
{
    match t {
        TypeExpr::Path(p) => {
            if p.segments.len() == 0 {
                return Err(Stop::Stuck);
            }
            let last = &p.segments[p.segments.len() - 1];
            match lower_path(last.name.as_str()) {
                Ok(x) => Ok(x),
                Err(e) => Err(Stop::Error(e)),
            }
        },
        TypeExpr::Array(a) => {
            if a.element.segments.len() == 0 {
                return Err(Stop::Stuck);
            }
            let last = &a.element.segments[a.element.segments.len() - 1];
            let elem = match lower_path(last.name.as_str()) {
                Ok(x) => x,
                Err(e) => {
                    return Err(Stop::Error(e));
                },
            };
            if a.sizes.len() != 1 {
                return Err(Stop::Error(CodegenError::UnsupportedFeature("Multi-dimensional arrays".to_owned())));
            }
            match a.sizes[0] {
                Some(n) => Ok(SolanaType::Array(Box::new(elem), n as usize)),
                None => Ok(SolanaType::Vec(Box::new(elem))),
            }
        },
        TypeExpr::Mapping(m) => {
            let k = lower_type(&m.key)?;
            let v = lower_type(&m.value)?;
            Ok(SolanaType::Mapping(Box::new(k), Box::new(v)))
        },
        TypeExpr::Tuple(_) => Err(Stop::Error(CodegenError::UnsupportedFeature("Tuple types".to_owned()))),
    }
}

/// `s` without the `0x` prefixes it starts with.
fn strip_0x_of(s: &Vec<char>) -> (r: Vec<char>)
    ensures
        r@ == strip_0x(s@),
{
    let mut start: usize = 0;
    assert(s@.subrange(0, s@.len() as int) =~= s@);
    while start < s.len() && start + 1 < s.len() && s[start] == '0' && s[start + 1] == 'x'
        invariant
            start <= s@.len(),
            strip_0x(s@) == strip_0x(s@.subrange(start as int, s@.len() as int)),
        decreases s@.len() - start,
    {
        proof {
            let t = s@.subrange(start as int, s@.len() as int);
            assert(t.subrange(2, t.len() as int) =~= s@.subrange(start + 2, s@.len() as int));
        }
        start = start + 2;
    }
    let mut out: Vec<char> = Vec::new();
    let mut i = start;
    while i < s.len()
        invariant
            start <= i <= s@.len(),
            out@ == s@.subrange(start as int, i as int),
        decreases s@.len() - i,
    {
        out.push(s[i]);
        i = i + 1;
        assert(out@ =~= s@.subrange(start as int, i as int));
    }
    proof {
        let t = s@.subrange(start as int, s@.len() as int);
        assert(!(t.len() >= 2 && t[0] == '0' && t[1] == 'x'));
    }
    out
}

/// A prefix of a sequence of hexadecimal digits denotes no more than the whole.
proof fn lemma_hex_value_prefix_le(s: Seq<char>, k: int)
    requires
        0 <= k <= s.len(),
    ensures
        hex_value(s.take(k)) <= hex_value(s),
    decreases s.len() - k,
{
    if k < s.len() {
        lemma_hex_value_prefix_le(s, k + 1);
        assert(s.take(k + 1).drop_last() =~= s.take(k));
    } else {
        assert(s.take(k) =~= s);
    }
}

/// Read text as a hexadecimal `u128` the way `u128::from_str_radix` does.
fn parse_hex_of(t: &Vec<char>) -> (r: Option<u128>)
    ensures
        r == parse_hex_u128(t@),
{
    let start: usize = if t.len() > 0 && t[0] == '+' { 1 } else { 0 };
    let ghost d = unsigned_digits(t@);
    if start >= t.len() {
        return None;
    }
    assert(t@.subrange(0, t@.len() as int) =~= t@);
    let mut acc: u128 = 0;
    let mut i = start;
    while i < t.len()
        invariant
            start <= i <= t@.len(),
            d == t@.subrange(start as int, t@.len() as int),
            d == unsigned_digits(t@),
            d.len() > 0,
            forall|k: int| 0 <= k < i - start ==> is_hex_digit(#[trigger] d[k]),
            acc == hex_value(d.take(i - start)),
        decreases t@.len() - i,
    {
        let c = t[i];
        proof {
            assert(d[i - start] == c);
        }
        let v: u128 = if '0' <= c && c <= '9' {
            (c as u32 - '0' as u32) as u128
        } else if 'a' <= c && c <= 'f' {
            (c as u32 - 'a' as u32 + 10) as u128
        } else if 'A' <= c && c <= 'F' {
            (c as u32 - 'A' as u32 + 10) as u128
        } else {
            proof {
                assert(!is_hex_digit(d[i - start]));
                assert(!all_hex_digits(d));
            }
            return None;
        };
        proof {
            assert(d.take(i - start + 1).drop_last() =~= d.take(i - start));
            assert(hex_value(d.take(i - start + 1)) == acc * 16 + v);
        }
        if acc > (u128::MAX - v) / 16 {
            proof {
                assert(acc * 16 + v > u128::MAX) by (nonlinear_arith)
                    requires
                        acc > (u128::MAX - v) / 16,
                        v < 16,
                ;
                lemma_hex_value_prefix_le(d, i - start + 1);
            }
            return None;
        }
        acc = acc * 16 + v;
        i = i + 1;
    }
    proof {
        assert(d.take(d.len() as int) =~= d);
    }
    Some(acc)
}

/// Lower a literal.
pub fn lower_literal(l: &ast::Literal) -> (r: Result<Literal, CodegenError>)
    ensures
        match lower_lit_s(*l) {
            Ok(x) => r matches Ok(y) && lit_v(y) == x,
            Err(e) => r matches Err(y) && err_v(y) == e,
        },
{
    match l {
        ast::Literal::Bool(b, _) => Ok(Literal::Bool(*b)),
        ast::Literal::Int(n, _) => Ok(Literal::Uint(*n)),
        ast::Literal::HexInt(s, _) => {
            let cs = chars_of(s.as_str());
            let digits = strip_0x_of(&cs);
            match parse_hex_of(&digits) {
                Some(n) => Ok(Literal::Uint(n)),
                None => Err(CodegenError::TypeConversion(concat("Invalid hex: ", s.as_str()))),
            }
        },
        ast::Literal::String(s, _) => Ok(Literal::String(s.clone())),
        ast::Literal::HexString(s, _) => Ok(Literal::String(s.clone())),
        ast::Literal::Address(s, _) => Ok(Literal::Pubkey(s.clone())),
    }
}


// ---------------------------------------------------------------------------
// Expressions

/// The outcome of lowering an expression, as the spec gives it.
pub open spec fn expr_outcome(s: Lowered<ExprV>, r: Result<Expression, Stop>, c: CollV) -> bool {
    match s {
        Lowered::Done(x, st) => r matches Ok(y) && expr_v(y) == x && c == st,
        Lowered::Failed(e) => r matches Err(Stop::Error(y)) && err_v(y) == e,
        Lowered::Stuck => r matches Err(Stop::Stuck),
    }
}

/// The outcome of lowering a list of expressions, as the spec gives it.
pub open spec fn exprs_outcome(s: Lowered<Seq<ExprV>>, r: Result<Vec<Expression>, Stop>, c: CollV) -> bool {
    match s {
        Lowered::Done(x, st) => r matches Ok(y) && exprs_v(y@) == x && c == st,
        Lowered::Failed(e) => r matches Err(Stop::Error(y)) && err_v(y) == e,
        Lowered::Stuck => r matches Err(Stop::Stuck),
    }
}

/// Element `k` of the values of a list is the value of element `k`.
pub proof fn lemma_exprs_v(s: Seq<Expression>)
    ensures
        exprs_v(s).len() == s.len(),
        forall|k: int| 0 <= k < s.len() ==> #[trigger] exprs_v(s)[k] == expr_v(s[k]),
    decreases s.len(),
{
    if s.len() > 0 {
        lemma_exprs_v(s.drop_last());
        assert forall|k: int| 0 <= k < s.len() implies #[trigger] exprs_v(s)[k] == expr_v(s[k]) by {
            if k < s.len() - 1 {
                assert(exprs_v(s)[k] == exprs_v(s.drop_last())[k]);
                assert(s.drop_last()[k] == s[k]);
            }
        }
    }
}

/// Pushing onto a list adds the value of what is pushed.
pub proof fn lemma_exprs_v_push(s: Seq<Expression>, x: Expression)
    ensures
        exprs_v(s.push(x)) == exprs_v(s).push(expr_v(x)),
{
    assert(s.push(x).drop_last() =~= s);
}

/// Whether an expression is the literal `0`.
fn is_zero_lit(e: &ast::Expr) -> (b: bool)
    ensures
        b == is_zero_literal(*e),
{
    match e {
        ast::Expr::Literal(ast::Literal::Int(n, _)) => *n == 0,
        _ => false,
    }
}

/// The message an assertion gives: argument `k`, when it is a string literal.
fn arg_message_of(args: &Vec<ast::Arg>, k: usize) -> (r: Option<String>)
    ensures
        crate::ir::opt_str_v(r) == arg_message(args@, k as int),
{
    if k < args.len() {
        match &args[k].value {
            ast::Expr::Literal(ast::Literal::String(s, _)) => Some(s.clone()),
            _ => None,
        }
    } else {
        None
    }
}

/// Which comparison an assertion function checks.
fn assert_check_kind_of(name: &str) -> (r: Option<u8>)
    ensures
        match r {
            Some(k) => assert_check_kind(name@) == Some(k as int),
            None => assert_check_kind(name@) is None,
        },
{
    if str_eq(name, "assertEq") {
        Some(0)
    } else if str_eq(name, "assertNe") {
        Some(1)
    } else if str_eq(name, "assertGt") {
        Some(2)
    } else if str_eq(name, "assertGe") {
        Some(3)
    } else if str_eq(name, "assertLt") {
        Some(4)
    } else if str_eq(name, "assertLe") {
        Some(5)
    } else {
        None
    }
}

fn assert_check_of(k: u8, left: Expression, right: Expression, message: Option<String>) -> (r: Expression)
    ensures
        expr_v(r) == assert_check(k as int, expr_v(left), expr_v(right), crate::ir::opt_str_v(message)),
{
    let l = Box::new(left);
    let r = Box::new(right);
    if k == 0 {
        Expression::AssertEq { left: l, right: r, message }
    } else if k == 1 {
        Expression::AssertNe { left: l, right: r, message }
    } else if k == 2 {
        Expression::AssertGt { left: l, right: r, message }
    } else if k == 3 {
        Expression::AssertGe { left: l, right: r, message }
    } else if k == 4 {
        Expression::AssertLt { left: l, right: r, message }
    } else {
        Expression::AssertLe { left: l, right: r, message }
    }
}

/// The number after `bytes` in a name `bytesN`.
fn bytes_suffix_of(name: &str) -> (r: Option<usize>)
    ensures
        match r {
            Some(n) => bytes_suffix(name@) == Some(n as nat),
            None => bytes_suffix(name@) is None,
        },
{
    let cs = chars_of(name);
    proof {
        reveal_strlit("bytes");
    }
    if cs.len() >= 5 && cs[0] == 'b' && cs[1] == 'y' && cs[2] == 't' && cs[3] == 'e' && cs[4] == 's' {
        proof {
            assert(cs@.subrange(0, 5) =~= "bytes"@);
        }
        parse_usize_of(vstd::slice::slice_subrange(cs.as_slice(), 5, cs.len()))
    } else {
        proof {
            if starts_with(name@, "bytes"@) {
                assert(name@.subrange(0, 5)[0] == 'b');
                assert(name@.subrange(0, 5)[1] == 'y');
                assert(name@.subrange(0, 5)[2] == 't');
                assert(name@.subrange(0, 5)[3] == 'e');
                assert(name@.subrange(0, 5)[4] == 's');
            }
        }
        None
    }
}

/// A field of a built-in object that has a meaning of its own.
fn builtin_field_of(obj: &str, field: &str) -> (r: Option<Expression>)
    ensures
        match r {
            Some(x) => builtin_field(obj@, field@) == Some(expr_v(x)),
            None => builtin_field(obj@, field@) is None,
        },
{
    if str_eq(obj, "msg") && str_eq(field, "sender") {
        Some(Expression::MsgSender)
    } else if str_eq(obj, "msg") && str_eq(field, "value") {
        Some(Expression::MsgValue)
    } else if str_eq(obj, "block") && (str_eq(field, "timestamp") || str_eq(field, "number")) {
        Some(Expression::BlockTimestamp)
    } else if str_eq(obj, "clock") && (str_eq(field, "timestamp") || str_eq(field, "unix_timestamp")) {
        Some(Expression::ClockUnixTimestamp)
    } else if str_eq(obj, "clock") && str_eq(field, "slot") {
        Some(Expression::ClockSlot)
    } else if str_eq(obj, "clock") && str_eq(field, "epoch") {
        Some(Expression::ClockEpoch)
    } else {
        None
    }
}

/// A method of a built-in object that has a meaning of its own; otherwise the arguments
/// are handed back.
fn builtin_method_of(obj: &str, method: &str, args: Vec<Expression>, c: &mut MappingAccessCollector) -> (r: Result<Expression, Vec<Expression>>)
    ensures
        match builtin_method(obj@, method@, exprs_v(args@), coll_v(*old(c))) {
            Some((x, st)) => r matches Ok(y) && expr_v(y) == x && coll_v(*final(c)) == st,
            None => r matches Err(a) && exprs_v(a@) == exprs_v(args@) && coll_v(*final(c)) == coll_v(*old(c)),
        },
{
    proof {
        lemma_exprs_v(args@);
    }
    let ghost a = args@;
    let n = args.len();
    if str_eq(obj, "msg") && str_eq(method, "sender") {
        return Ok(Expression::MsgSender);
    }
    if str_eq(obj, "msg") && str_eq(method, "value") {
        return Ok(Expression::MsgValue);
    }
    if str_eq(obj, "block") && str_eq(method, "timestamp") {
        return Ok(Expression::BlockTimestamp);
    }
    let mut args = args;
    if str_eq(obj, "rent") && str_eq(method, "minimumBalance") && n == 1 {
        let a0 = args.remove(0);
        return Ok(Expression::RentMinimumBalance { data_len: Box::new(a0) });
    }
    if str_eq(obj, "rent") && str_eq(method, "isExempt") && n == 2 {
        let a0 = args.remove(0);
        let a1 = args.remove(0);
        return Ok(Expression::RentIsExempt { lamports: Box::new(a0), data_len: Box::new(a1) });
    }
    if str_eq(obj, "token") && n == 4 && (str_eq(method, "transfer") || str_eq(method, "mint") || str_eq(method, "burn")) {
        c.uses_token_program = true;
        let a0 = args.remove(0);
        let a1 = args.remove(0);
        let a2 = args.remove(0);
        let a3 = args.remove(0);
        if str_eq(method, "transfer") {
            return Ok(Expression::TokenTransfer { from: Box::new(a0), to: Box::new(a1), authority: Box::new(a2), amount: Box::new(a3) });
        } else if str_eq(method, "mint") {
            return Ok(Expression::TokenMint { mint: Box::new(a0), to: Box::new(a1), authority: Box::new(a2), amount: Box::new(a3) });
        } else {
            return Ok(Expression::TokenBurn { from: Box::new(a0), mint: Box::new(a1), authority: Box::new(a2), amount: Box::new(a3) });
        }
    }
    if str_eq(obj, "token") && str_eq(method, "getATA") && n == 2 {
        c.uses_token_program = true;
        let a0 = args.remove(0);
        let a1 = args.remove(0);
        return Ok(Expression::GetATA { owner: Box::new(a0), mint: Box::new(a1) });
    }
    Err(args)
}

/// The mapping that an index expression's base leads to, if any.
fn mapping_chain_of(base: &ast::Expr, ctx: &LoweringContext) -> (r: Option<String>)
    ensures
        crate::ir::opt_str_v(r) == mapping_chain(*base, ctx_v(*ctx)),
    decreases base,
{
    match base {
        ast::Expr::Ident(id) => if ctx.is_mapping(id.name.as_str()) {
            Some(id.name.clone())
        } else {
            None
        },
        ast::Expr::Index(inner) => mapping_chain_of(&inner.expr, ctx),
        _ => None,
    }
}

/// Lower an expression.
pub fn lower_expr(e: &ast::Expr, ctx: &LoweringContext, c: &mut MappingAccessCollector) -> (r: Result<Expression, Stop>)
    ensures
        expr_outcome(lower_expr_s(*e, ctx_v(*ctx), coll_v(*old(c))), r, coll_v(*final(c))),
    decreases e, 2nat,
{
    match e {
        ast::Expr::Literal(l) => match lower_literal(l) {
            Ok(x) => Ok(Expression::Literal(x)),
            Err(er) => Err(Stop::Error(er)),
        },
        ast::Expr::Ident(id) => {
            let n = id.name.as_str();
            let builtin = str_eq(n, "msg") || str_eq(n, "block") || str_eq(n, "tx");
            if !builtin && ctx.is_state_field(n) {
                Ok(Expression::StateAccess(id.name.clone()))
            } else {
                Ok(Expression::Var(id.name.clone()))
            }
        },
        ast::Expr::Binary(b) => {
            let l = match lower_expr(&b.left, ctx, c) {
                Ok(x) => x,
                Err(s) => {
                    return Err(s);
                },
            };
            let r = match lower_expr(&b.right, ctx, c) {
                Ok(x) => x,
                Err(s) => {
                    return Err(s);
                },
            };
            Ok(Expression::Binary { op: lower_binary_op(b.op), left: Box::new(l), right: Box::new(r) })
        },
        ast::Expr::Unary(u) => {
            let x = match lower_expr(&u.expr, ctx, c) {
                Ok(x) => x,
                Err(s) => {
                    return Err(s);
                },
            };
            Ok(Expression::Unary { op: lower_unary_op(u.op), expr: Box::new(x) })
        },
        ast::Expr::Call(call) => match &call.callee {
            ast::Expr::Ident(id) => lower_call(id.name.as_str(), &call.args, ctx, c),
            _ => Err(Stop::Error(CodegenError::UnsupportedFeature("Complex call expressions".to_owned()))),
        },
        ast::Expr::MethodCall(_) => lower_method_call(e, ctx, c),
        ast::Expr::FieldAccess(_) => lower_field_access(e, ctx, c),
        ast::Expr::Index(_) => lower_index(e, ctx, c),
        ast::Expr::Ternary(_) => lower_ternary(e, ctx, c),
        ast::Expr::Assign(_) => lower_assign(e, ctx, c),
        ast::Expr::Array(arr) => {
            if arr.elements.len() == 0 {
                let none: Vec<Expression> = Vec::new();
                proof {
                    assert(exprs_v(none@) =~= Seq::<ExprV>::empty());
                }
                Ok(Expression::Call { func: "Vec::new".to_owned(), args: none })
            } else {
                proof {
                    assert(arr.elements@.take(arr.elements@.len() as int) =~= arr.elements@);
                }
                let xs = match lower_exprs(&arr.elements, arr.elements.len(), ctx, c) {
                    Ok(x) => x,
                    Err(s) => {
                        return Err(s);
                    },
                };
                Ok(Expression::Call { func: "vec!".to_owned(), args: xs })
            }
        },
        ast::Expr::Paren(x) => lower_expr(x, ctx, c),
        ast::Expr::If(_) => Err(Stop::Error(CodegenError::UnsupportedFeature("If expressions".to_owned()))),
        ast::Expr::Tuple(_) => Err(Stop::Error(CodegenError::UnsupportedFeature("Tuple expressions".to_owned()))),
        ast::Expr::New(_) => Err(Stop::Error(CodegenError::UnsupportedFeature("New expressions (use CPI instead)".to_owned()))),
    }
}

/// Lower a method call.
fn lower_method_call(e: &ast::Expr, ctx: &LoweringContext, c: &mut MappingAccessCollector) -> (r: Result<Expression, Stop>)
    requires
        e is MethodCall,
    ensures
        expr_outcome(lower_expr_s(*e, ctx_v(*ctx), coll_v(*old(c))), r, coll_v(*final(c))),
    decreases e, 1nat,
{
    match e {
        ast::Expr::MethodCall(m) => {
            let receiver = match lower_expr(&m.receiver, ctx, c) {
                Ok(x) => x,
                Err(s) => {
                    return Err(s);
                },
            };
            proof {
                assert(m.args@.take(m.args@.len() as int) =~= m.args@);
            }
            let args = match lower_args(&m.args, m.args.len(), ctx, c) {
                Ok(x) => x,
                Err(s) => {
                    return Err(s);
                },
            };
            let method = m.method.name.clone();
            let receiver = match receiver {
                Expression::InterfaceCast { interface_name, program_id } => {
                    return Ok(Expression::CpiCall { program: program_id, interface_name, method, args });
                },
                other => other,
            };
            let obj: Option<String> = match &receiver {
                Expression::Var(n) => Some(n.clone()),
                _ => None,
            };
            match obj {
                Some(o) => match builtin_method_of(o.as_str(), method.as_str(), args, c) {
                    Ok(x) => Ok(x),
                    Err(args) => Ok(Expression::MethodCall { receiver: Box::new(receiver), method, args }),
                },
                None => Ok(Expression::MethodCall { receiver: Box::new(receiver), method, args }),
            }
        },
        _ => Err(Stop::Stuck),
    }
}

/// Lower a field access.
fn lower_field_access(e: &ast::Expr, ctx: &LoweringContext, c: &mut MappingAccessCollector) -> (r: Result<Expression, Stop>)
    requires
        e is FieldAccess,
    ensures
        expr_outcome(lower_expr_s(*e, ctx_v(*ctx), coll_v(*old(c))), r, coll_v(*final(c))),
    decreases e, 1nat,
{
    match e {
        ast::Expr::FieldAccess(f) => {
            let x = match lower_expr(&f.expr, ctx, c) {
                Ok(x) => x,
                Err(s) => {
                    return Err(s);
                },
            };
            let field = f.field.name.clone();
            let b = match &x {
                Expression::Var(obj) => builtin_field_of(obj.as_str(), field.as_str()),
                _ => None,
            };
            match b {
                Some(y) => Ok(y),
                None => Ok(Expression::Field { expr: Box::new(x), field }),
            }
        },
        _ => Err(Stop::Stuck),
    }
}

/// Lower an index expression.
fn lower_index(e: &ast::Expr, ctx: &LoweringContext, c: &mut MappingAccessCollector) -> (r: Result<Expression, Stop>)
    requires
        e is Index,
    ensures
        expr_outcome(lower_expr_s(*e, ctx_v(*ctx), coll_v(*old(c))), r, coll_v(*final(c))),
    decreases e, 1nat,
{
    match e {
        ast::Expr::Index(i) => match mapping_chain_of(&i.expr, ctx) {
            Some(name) => {
                let keys = match lower_chain(e, ctx, c) {
                    Ok(x) => x,
                    Err(s) => {
                        return Err(s);
                    },
                };
                let copy = clone_exprs(&keys);
                proof {
                    crate::ir::lemma_accesses_v_len(c.accesses@);
                }
                let account_name = c.record_access(name.as_str(), copy, true, false);
                Ok(Expression::MappingAccess { mapping_name: name, keys, account_name })
            },
            None => {
                let x = match lower_expr(&i.expr, ctx, c) {
                    Ok(x) => x,
                    Err(s) => {
                        return Err(s);
                    },
                };
                let k = match lower_expr(&i.index, ctx, c) {
                    Ok(x) => x,
                    Err(s) => {
                        return Err(s);
                    },
                };
                Ok(Expression::Index { expr: Box::new(x), index: Box::new(k) })
            },
        },
        _ => Err(Stop::Stuck),
    }
}

/// Lower a conditional expression.
fn lower_ternary(e: &ast::Expr, ctx: &LoweringContext, c: &mut MappingAccessCollector) -> (r: Result<Expression, Stop>)
    requires
        e is Ternary,
    ensures
        expr_outcome(lower_expr_s(*e, ctx_v(*ctx), coll_v(*old(c))), r, coll_v(*final(c))),
    decreases e, 1nat,
{
    match e {
        ast::Expr::Ternary(t) => {
            let cond = match lower_expr(&t.condition, ctx, c) {
                Ok(x) => x,
                Err(s) => {
                    return Err(s);
                },
            };
            let a = match lower_expr(&t.then_expr, ctx, c) {
                Ok(x) => x,
                Err(s) => {
                    return Err(s);
                },
            };
            let b = match lower_expr(&t.else_expr, ctx, c) {
                Ok(x) => x,
                Err(s) => {
                    return Err(s);
                },
            };
            Ok(Expression::Ternary { condition: Box::new(cond), then_expr: Box::new(a), else_expr: Box::new(b) })
        },
        _ => Err(Stop::Stuck),
    }
}

/// Lower an assignment.
fn lower_assign(e: &ast::Expr, ctx: &LoweringContext, c: &mut MappingAccessCollector) -> (r: Result<Expression, Stop>)
    requires
        e is Assign,
    ensures
        expr_outcome(lower_expr_s(*e, ctx_v(*ctx), coll_v(*old(c))), r, coll_v(*final(c))),
    decreases e, 1nat,
{
    match e {
        ast::Expr::Assign(a) => {
            let target = match lower_expr(&a.target, ctx, c) {
                Ok(x) => x,
                Err(s) => {
                    return Err(s);
                },
            };
            let value = match lower_expr(&a.value, ctx, c) {
                Ok(x) => x,
                Err(s) => {
                    return Err(s);
                },
            };
            let stored = assign_value_of(a.op, &target, value);
            let args = vec![stored];
            proof {
                lemma_exprs_v_push(Seq::<Expression>::empty(), args@[0]);
                assert(args@ =~= Seq::<Expression>::empty().push(args@[0]));
            }
            Ok(Expression::MethodCall { receiver: Box::new(target), method: "__assign__".to_owned(), args })
        },
        _ => Err(Stop::Stuck),
    }
}

/// The value an assignment stores.
fn assign_value_of(op: ast::AssignOp, target: &Expression, value: Expression) -> (r: Expression)
    ensures
        expr_v(r) == assign_value(op, expr_v(*target), expr_v(value)),
{
    let bin = match op {
        ast::AssignOp::Assign => {
            return value;
        },
        ast::AssignOp::AddAssign => BinaryOp::Add,
        ast::AssignOp::SubAssign => BinaryOp::Sub,
        ast::AssignOp::MulAssign => BinaryOp::Mul,
        ast::AssignOp::DivAssign => BinaryOp::Div,
        ast::AssignOp::RemAssign => BinaryOp::Rem,
        ast::AssignOp::BitAndAssign => BinaryOp::BitAnd,
        ast::AssignOp::BitOrAssign => BinaryOp::BitOr,
        ast::AssignOp::BitXorAssign => BinaryOp::BitXor,
    };
    Expression::Binary { op: bin, left: Box::new(clone_expr(target)), right: Box::new(value) }
}

/// Lower the keys of an index expression whose base leads to a mapping.
fn lower_chain(e: &ast::Expr, ctx: &LoweringContext, c: &mut MappingAccessCollector) -> (r: Result<Vec<Expression>, Stop>)
    ensures
        exprs_outcome(lower_chain_s(*e, ctx_v(*ctx), coll_v(*old(c))), r, coll_v(*final(c))),
    decreases e, 0nat,
{
    match e {
        ast::Expr::Index(i) => {
            let mut keys = match &i.expr {
                ast::Expr::Index(_) => match lower_chain(&i.expr, ctx, c) {
                    Ok(x) => x,
                    Err(s) => {
                        return Err(s);
                    },
                },
                _ => Vec::new(),
            };
            let k = match lower_expr(&i.index, ctx, c) {
                Ok(x) => x,
                Err(s) => {
                    return Err(s);
                },
            };
            proof {
                lemma_exprs_v_push(keys@, k);
            }
            keys.push(k);
            Ok(keys)
        },
        _ => Ok(Vec::new()),
    }
}

/// Lower the values of the first `n` call arguments, first to last.
pub fn lower_args(args: &Vec<ast::Arg>, n: usize, ctx: &LoweringContext, c: &mut MappingAccessCollector) -> (r: Result<Vec<Expression>, Stop>)
    requires
        n <= args@.len(),
    ensures
        exprs_outcome(lower_args_s(args@.take(n as int), ctx_v(*ctx), coll_v(*old(c))), r, coll_v(*final(c))),
    decreases args@, n,
{
    if n == 0 {
        return Ok(Vec::new());
    }
    proof {
        assert(args@.take(n as int).drop_last() =~= args@.take(n - 1));
        assert(args@.take(n as int).last() == args@[n - 1]);
    }
    let mut xs = match lower_args(args, n - 1, ctx, c) {
        Ok(x) => x,
        Err(s) => {
            return Err(s);
        },
    };
    let x = match lower_expr(&args[n - 1].value, ctx, c) {
        Ok(x) => x,
        Err(s) => {
            return Err(s);
        },
    };
    proof {
        lemma_exprs_v_push(xs@, x);
    }
    xs.push(x);
    Ok(xs)
}

/// Lower the first `n` expressions, first to last.
fn lower_exprs(es: &Vec<ast::Expr>, n: usize, ctx: &LoweringContext, c: &mut MappingAccessCollector) -> (r: Result<Vec<Expression>, Stop>)
    requires
        n <= es@.len(),
    ensures
        exprs_outcome(lower_exprs_s(es@.take(n as int), ctx_v(*ctx), coll_v(*old(c))), r, coll_v(*final(c))),
    decreases es@, n,
{
    if n == 0 {
        return Ok(Vec::new());
    }
    proof {
        assert(es@.take(n as int).drop_last() =~= es@.take(n - 1));
        assert(es@.take(n as int).last() == es@[n - 1]);
    }
    let mut xs = match lower_exprs(es, n - 1, ctx, c) {
        Ok(x) => x,
        Err(s) => {
            return Err(s);
        },
    };
    let x = match lower_expr(&es[n - 1], ctx, c) {
        Ok(x) => x,
        Err(s) => {
            return Err(s);
        },
    };
    proof {
        lemma_exprs_v_push(xs@, x);
    }
    xs.push(x);
    Ok(xs)
}

/// Lower a call of a function with a name.
fn lower_call(name: &str, args: &Vec<ast::Arg>, ctx: &LoweringContext, c: &mut MappingAccessCollector) -> (r: Result<Expression, Stop>)
    ensures
        expr_outcome(lower_call_s(name@, args@, ctx_v(*ctx), coll_v(*old(c))), r, coll_v(*final(c))),
    decreases args@, args@.len() + 1,
{
    if str_eq(name, "assert") {
        if args.len() < 1 {
            return Err(Stop::Stuck);
        }
        let cond = match lower_expr(&args[0].value, ctx, c) {
            Ok(x) => x,
            Err(s) => {
                return Err(s);
            },
        };
        return Ok(Expression::Assert { condition: Box::new(cond), message: arg_message_of(args, 1) });
    }
    if let Some(k) = assert_check_kind_of(name) {
        if args.len() < 2 {
            return Err(Stop::Stuck);
        }
        let l = match lower_expr(&args[0].value, ctx, c) {
            Ok(x) => x,
            Err(s) => {
                return Err(s);
            },
        };
        let r = match lower_expr(&args[1].value, ctx, c) {
            Ok(x) => x,
            Err(s) => {
                return Err(s);
            },
        };
        return Ok(assert_check_of(k, l, r, arg_message_of(args, 2)));
    }
    if str_eq(name, "address") && args.len() == 1 && is_zero_lit(&args[0].value) {
        return Ok(Expression::Literal(Literal::ZeroAddress));
    }
    if let Some(n) = bytes_suffix_of(name) {
        if 1 <= n && n <= 32 && args.len() == 1 && is_zero_lit(&args[0].value) {
            return Ok(Expression::Literal(Literal::ZeroBytes(n)));
        }
    }
    if ctx.is_interface(name) && args.len() == 1 {
        let p = match lower_expr(&args[0].value, ctx, c) {
            Ok(x) => x,
            Err(s) => {
                return Err(s);
            },
        };
        return Ok(Expression::InterfaceCast { interface_name: name.to_owned(), program_id: Box::new(p) });
    }
    if str_eq(name, "transfer") && args.len() == 2 {
        c.uses_sol_transfer = true;
        let to = match lower_expr(&args[0].value, ctx, c) {
            Ok(x) => x,
            Err(s) => {
                return Err(s);
            },
        };
        let amount = match lower_expr(&args[1].value, ctx, c) {
            Ok(x) => x,
            Err(s) => {
                return Err(s);
            },
        };
        return Ok(Expression::SolTransfer { to: Box::new(to), amount: Box::new(amount) });
    }
    proof {
        assert(args@.take(args@.len() as int) =~= args@);
    }
    let xs = match lower_args(args, args.len(), ctx, c) {
        Ok(x) => x,
        Err(s) => {
            return Err(s);
        },
    };
    Ok(Expression::Call { func: name.to_owned(), args: xs })
}

/// The operator a binary operator becomes; `**` becomes `*`.
pub fn lower_binary_op(op: ast::BinaryOp) -> (r: BinaryOp)
    ensures
        r == lower_binop(op),
{
    match op {
        ast::BinaryOp::Add => BinaryOp::Add,
        ast::BinaryOp::Sub => BinaryOp::Sub,
        ast::BinaryOp::Mul => BinaryOp::Mul,
        ast::BinaryOp::Div => BinaryOp::Div,
        ast::BinaryOp::Rem => BinaryOp::Rem,
        ast::BinaryOp::Exp => BinaryOp::Mul,
        ast::BinaryOp::Eq => BinaryOp::Eq,
        ast::BinaryOp::Ne => BinaryOp::Ne,
        ast::BinaryOp::Lt => BinaryOp::Lt,
        ast::BinaryOp::Le => BinaryOp::Le,
        ast::BinaryOp::Gt => BinaryOp::Gt,
        ast::BinaryOp::Ge => BinaryOp::Ge,
        ast::BinaryOp::And => BinaryOp::And,
        ast::BinaryOp::Or => BinaryOp::Or,
        ast::BinaryOp::BitAnd => BinaryOp::BitAnd,
        ast::BinaryOp::BitOr => BinaryOp::BitOr,
        ast::BinaryOp::BitXor => BinaryOp::BitXor,
        ast::BinaryOp::Shl => BinaryOp::Shl,
        ast::BinaryOp::Shr => BinaryOp::Shr,
    }
}

/// The operator a unary operator becomes; increments and decrements become negation.
pub fn lower_unary_op(op: ast::UnaryOp) -> (r: UnaryOp)
    ensures
        r == lower_unop(op),
{
    match op {
        ast::UnaryOp::Neg => UnaryOp::Neg,
        ast::UnaryOp::Not => UnaryOp::Not,
        ast::UnaryOp::BitNot => UnaryOp::BitNot,
        _ => UnaryOp::Neg,
    }
}
} // verus!
