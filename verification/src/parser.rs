//! Recursive-descent parser from tokens to the syntax tree.
//!
//! Every parsing function takes the token list and a position, and on success returns
//! the node it read with the position after it. Its contract says that the node writes
//! out exactly the tokens in between (see `grammar`). On failure it returns the position
//! of the token it could not use.

use vstd::prelude::*;
use crate::ast::{
    Attribute, AttributeArg, AttributeValue, ConstructorDef, ContractDef, ContractMember, EnumDef,
    EnumVariant, ErrorDef, ErrorParam, EventDef, EventParam, FnDef, FnSig, GenericParam,
    GenericParams, ImportItem, ImportStmt, InterfaceDef, Item, ModifierDef, ModifierInvocation,
    Param, Program, ReturnParam, StateMutability, StateVar, StructDef, StructField, Visibility,
    Arg, ArrayExpr, AssignExpr, AssignOp, BinaryExpr, BinaryOp, Block, CallExpr, DeleteStmt,
    ElseBranch, EmitStmt, Expr, ExprStmt, FieldAccessExpr, ForInit, ForStmt, GenericArgs, Ident,
    IfExpr, IfExprElse, IfStmt, IndexExpr, Literal, MethodCallExpr, NewExpr, RequireStmt,
    ReturnStmt, RevertKind, RevertStmt, SelfdestructStmt, Stmt, StorageLocation, TernaryExpr,
    TupleExpr, UnaryExpr, UnaryOp, VarDeclStmt, WhileStmt,
};
use crate::grammar::{
    mutability_kw, pats_attr_arg, pats_attr_arg_list, pats_attr_value, pats_attribute,
    pats_attributes, pats_base_list, pats_bases, pats_bounds, pats_constructor, pats_contract,
    pats_enum, pats_error, pats_error_param, pats_error_param_list, pats_event, pats_event_param,
    pats_event_param_list, pats_fn_def, pats_fn_sig, pats_fn_tail, pats_generic_param,
    pats_generic_param_list, pats_import, pats_import_item, pats_import_item_list, pats_interface,
    pats_item, pats_items, pats_member, pats_members, pats_modifier_def, pats_modinv, pats_modinvs,
    pats_mutabilities, pats_opt_arg_name, pats_opt_generic_params, pats_opt_initializer, pats_opt_visibility, pats_param, pats_param_list,
    pats_params, pats_program, pats_return_param, pats_return_param_list, pats_returns, pats_sigs,
    pats_state_var, pats_struct, pats_struct_field, pats_struct_fields, pats_variant,
    pats_variant_list, visibility_kw,
    assign_punct, binop_punct, lemma_cat, lemma_empty, pats_arg, pats_args, pats_block, pats_expr,
    pats_expr_list, pats_for_init, pats_generic_args, pats_opt_generic_args, pats_opt_message, pats_if_expr, pats_if_stmt, pats_literal, pats_opt_expr,
    pats_opt_storage, pats_segments, pats_size, pats_sizes, pats_stmt, pats_stmts, pats_type,
    pats_type_list, pats_type_path, pats_var_decl, pats_word, spelled, storage_kw, tok_matches,
    unop_punct, Sym,
};
use crate::lexer::{
    byte_offset, lemma_byte_pos_mono, lexed, lexed_max, lexed_prefix, tok_wf, token_ok, tokenize, Keyword, LexError, Punct,
    Tok, Token,
};
use crate::lex_laws::{law_lexing_unique, lemma_token_count};
use crate::grouping::{
    args_grouped, block_grouped, contract_grouped, expr_prec, exprs_grouped, fn_def_grouped,
    fn_sig_grouped, grouped, if_expr_grouped, if_stmt_grouped, interface_grouped, item_grouped,
    member_grouped, modinv_grouped, modinvs_grouped, opt_grouped, program_grouped,
    stmt_grouped, stmts_grouped, var_decl_grouped, for_init_grouped,
};
use crate::parse_error::{error_src, ParseError};
use crate::span::Span;
use crate::text::{chars_of, parse_dec_u128, parse_dec_u64, str_eq};
use crate::types::{ArrayType, MappingType, TypeExpr, TypePath, TypeTuple};

verus! {

/// What every parsing function asks of the token list: positions fit in `usize`, and
/// each token holds what its kind allows.
pub open spec fn toks_ok(toks: Seq<Token>) -> bool {
    &&& toks.len() < usize::MAX
    &&& forall|k: int| 0 <= k < toks.len() ==> tok_wf(#[trigger] toks[k].tok)
}

/// The outcome of a parsing function started at `pos`: on success, the position after
/// the node lies beyond `pos`, and the node writes out the tokens in between.
pub open spec fn read_ok(toks: Seq<Token>, pos: usize, e: usize, ps: Seq<Sym>) -> bool {
    &&& pos < e <= toks.len()
    &&& spelled(toks, pos as int, e as int, ps)
}

/// The precedence level at which a binary operator is read (0: `||` ... 9: `*`); `**`
/// is read apart from these levels, and has none.
pub open spec fn binop_level(op: BinaryOp) -> int {
    match op {
        BinaryOp::Or => 0,
        BinaryOp::And => 1,
        BinaryOp::BitOr => 2,
        BinaryOp::BitXor => 3,
        BinaryOp::BitAnd => 4,
        BinaryOp::Eq | BinaryOp::Ne => 5,
        BinaryOp::Lt | BinaryOp::Le | BinaryOp::Gt | BinaryOp::Ge => 6,
        BinaryOp::Shl | BinaryOp::Shr => 7,
        BinaryOp::Add | BinaryOp::Sub => 8,
        BinaryOp::Mul | BinaryOp::Div | BinaryOp::Rem => 9,
        BinaryOp::Exp => -1,
    }
}

/// A token that is a literal on its own: `true`, `false`, a number, an address or a string.
pub open spec fn is_literal_tok(t: Tok) -> bool {
    ||| t == Tok::Kw(Keyword::True)
    ||| t == Tok::Kw(Keyword::False)
    ||| t is Int
    ||| t is HexInt
    ||| t is Address
    ||| t is Str
    ||| t is HexStr
}

/// The token at `k` is `t`.
pub open spec fn tok_is(toks: Seq<Token>, k: int, t: Tok) -> bool {
    0 <= k < toks.len() && toks[k].tok == t
}

/// The token at `k` is a name.
pub open spec fn name_at(toks: Seq<Token>, k: int) -> bool {
    0 <= k < toks.len() && toks[k].tok is Ident
}

/// A token that is a whole expression by itself: a name or a literal.
pub open spec fn atom_at(toks: Seq<Token>, k: int) -> bool {
    name_at(toks, k) || (0 <= k < toks.len() && is_literal_tok(toks[k].tok))
}

/// Position `k` ends an expression: the tokens end there, or a `;`, `,` or closing
/// bracket stands there.
pub open spec fn expr_end(toks: Seq<Token>, k: int) -> bool {
    ||| k == toks.len()
    ||| tok_is(toks, k, Tok::P(Punct::Semi))
    ||| tok_is(toks, k, Tok::P(Punct::Comma))
    ||| tok_is(toks, k, Tok::P(Punct::RParen))
    ||| tok_is(toks, k, Tok::P(Punct::RBracket))
    ||| tok_is(toks, k, Tok::P(Punct::RBrace))
}

/// An expression of one token: a name or literal that an expression's end follows.
pub open spec fn atom_expr_at(toks: Seq<Token>, k: int) -> bool {
    atom_at(toks, k) && expr_end(toks, k + 1)
}

/// `{ }` stands at `k`.
pub open spec fn empty_block_at(toks: Seq<Token>, k: int) -> bool {
    tok_is(toks, k, Tok::P(Punct::LBrace)) && tok_is(toks, k + 1, Tok::P(Punct::RBrace))
}

/// `( x )` stands at `k`, with `x` a name or literal.
pub open spec fn paren_atom_at(toks: Seq<Token>, k: int) -> bool {
    tok_is(toks, k, Tok::P(Punct::LParen)) && atom_at(toks, k + 1) && tok_is(toks, k + 2, Tok::P(Punct::RParen))
}

/// The name `w` stands at `k`.
pub open spec fn word_at(toks: Seq<Token>, k: int, w: Seq<char>) -> bool {
    name_at(toks, k) && toks[k].tok->Ident_0@ == w
}

/// Where array sizes `[]` and `[n]` from `k` end.
pub open spec fn sizes_end(toks: Seq<Token>, k: int) -> int
    decreases toks.len() - k,
{
    if 0 <= k && tok_is(toks, k, Tok::P(Punct::LBracket)) && tok_is(toks, k + 1, Tok::P(Punct::RBracket)) {
        sizes_end(toks, k + 2)
    } else if 0 <= k && tok_is(toks, k, Tok::P(Punct::LBracket)) && 0 <= k + 1 < toks.len() && toks[k + 1].tok is Int
        && tok_is(toks, k + 2, Tok::P(Punct::RBracket)) {
        sizes_end(toks, k + 3)
    } else {
        k
    }
}

/// Where a type from `k` ends: a name with array sizes after it, or
/// `mapping ( K => V )`; `None` for other types.
pub open spec fn type_endp(toks: Seq<Token>, k: int) -> Option<int>
    decreases toks.len() - k,
{
    if 0 <= k < toks.len() && tok_is(toks, k, Tok::Kw(Keyword::Mapping)) {
        if tok_is(toks, k + 1, Tok::P(Punct::LParen)) {
            match type_endp(toks, k + 2) {
                Some(j) => if k + 2 < j < toks.len() && tok_is(toks, j, Tok::P(Punct::FatArrow)) {
                    match type_endp(toks, j + 1) {
                        Some(m) => if j + 1 < m < toks.len() && tok_is(toks, m, Tok::P(Punct::RParen)) { Some(m + 1) } else { None },
                        None => None,
                    }
                } else {
                    None
                },
                None => None,
            }
        } else {
            None
        }
    } else if name_at(toks, k) && !tok_is(toks, k + 1, Tok::P(Punct::ColonColon)) && !tok_is(toks, k + 1, Tok::P(Punct::Lt)) {
        Some(sizes_end(toks, k + 1))
    } else {
        None
    }
}

/// A storage word (`memory`, `storage`, `calldata`) stands at `k`.
pub open spec fn storage_at(toks: Seq<Token>, k: int) -> bool {
    tok_is(toks, k, Tok::Kw(Keyword::Memory)) || tok_is(toks, k, Tok::Kw(Keyword::Storage)) || tok_is(
        toks,
        k,
        Tok::Kw(Keyword::Calldata),
    )
}

/// Where the name of `T [storage] name` at `k` stands.
pub open spec fn decl_name_pos(toks: Seq<Token>, k: int) -> Option<int> {
    match type_endp(toks, k) {
        Some(j) => {
            let n = if storage_at(toks, j) { j + 1 } else { j };
            if k < j && name_at(toks, n) { Some(n) } else { None }
        },
        None => None,
    }
}

/// Where a state variable `T [visibility] name [= e] ;` at `k` ends.
pub open spec fn state_var_endp(toks: Seq<Token>, k: int) -> Option<int> {
    match type_endp(toks, k) {
        Some(j) => {
            let n = if vis_at(toks, j) { j + 1 } else { j };
            if k < j && name_at(toks, n) && tok_is(toks, n + 1, Tok::P(Punct::Semi)) {
                Some(n + 2)
            } else if k < j && name_at(toks, n) && tok_is(toks, n + 1, Tok::P(Punct::Assign)) {
                match expr_endp(toks, n + 2) {
                    Some(m) => if n + 2 < m < toks.len() && tok_is(toks, m, Tok::P(Punct::Semi)) { Some(m + 1) } else { None },
                    None => None,
                }
            } else {
                None
            }
        },
        None => None,
    }
}

/// After an event parameter at `c`: a `,` and more parameters, or the closing `)`.
pub open spec fn eparam_after(toks: Seq<Token>, c: int) -> Option<int>
    decreases toks.len() - c, 0int,
{
    if tok_is(toks, c, Tok::P(Punct::Comma)) {
        eparam_seq(toks, c + 1)
    } else if tok_is(toks, c, Tok::P(Punct::RParen)) {
        Some(c)
    } else {
        None
    }
}

/// Event parameters `T [indexed] x , ...` from `k`, to their `)`.
pub open spec fn eparam_seq(toks: Seq<Token>, k: int) -> Option<int>
    decreases toks.len() - k, 1int,
{
    match type_endp(toks, k) {
        Some(j) => {
            let n = if tok_is(toks, j, Tok::Kw(Keyword::Indexed)) { j + 1 } else { j };
            if k < j && name_at(toks, n) { eparam_after(toks, n + 1) } else { None }
        },
        None => None,
    }
}

/// After an error parameter at `c`: a `,` and more parameters, or the closing `)`.
pub open spec fn xparam_after(toks: Seq<Token>, c: int) -> Option<int>
    decreases toks.len() - c, 0int,
{
    if tok_is(toks, c, Tok::P(Punct::Comma)) {
        xparam_seq(toks, c + 1)
    } else if tok_is(toks, c, Tok::P(Punct::RParen)) {
        Some(c)
    } else {
        None
    }
}

/// Error parameters `T x , ...` from `k`, to their `)`.
pub open spec fn xparam_seq(toks: Seq<Token>, k: int) -> Option<int>
    decreases toks.len() - k, 1int,
{
    match type_endp(toks, k) {
        Some(j) => if k < j && name_at(toks, j) { xparam_after(toks, j + 1) } else { None },
        None => None,
    }
}

/// Where `event E ( params ) ;` or `error E ( params ) ;` at `k` ends.
pub open spec fn event_error_endp(toks: Seq<Token>, k: int) -> Option<int> {
    if name_at(toks, k + 1) && tok_is(toks, k + 2, Tok::P(Punct::LParen)) {
        let close = if tok_is(toks, k + 3, Tok::P(Punct::RParen)) {
            Some(k + 3)
        } else if tok_is(toks, k, Tok::Kw(Keyword::Event)) {
            eparam_seq(toks, k + 3)
        } else if tok_is(toks, k, Tok::Kw(Keyword::Error)) {
            xparam_seq(toks, k + 3)
        } else {
            None
        };
        match close {
            Some(m) => if tok_is(toks, m + 1, Tok::P(Punct::Semi)) { Some(m + 2) } else { None },
            None => None,
        }
    } else {
        None
    }
}

/// Where struct fields `T x ;` from `k` end, at the closing `}`.
pub open spec fn fields_end(toks: Seq<Token>, k: int) -> Option<int>
    decreases toks.len() - k,
{
    if tok_is(toks, k, Tok::P(Punct::RBrace)) {
        Some(k)
    } else {
        match type_endp(toks, k) {
            Some(j) => if k < j && name_at(toks, j) && tok_is(toks, j + 1, Tok::P(Punct::Semi)) {
                fields_end(toks, j + 2)
            } else {
                None
            },
            None => None,
        }
    }
}

/// After an enum variant at `c`: a `,` and more variants, or the closing `}`.
pub open spec fn variant_after(toks: Seq<Token>, c: int) -> Option<int>
    decreases toks.len() - c, 0int,
{
    if tok_is(toks, c, Tok::P(Punct::Comma)) {
        variant_seq(toks, c + 1)
    } else if tok_is(toks, c, Tok::P(Punct::RBrace)) {
        Some(c)
    } else {
        None
    }
}

/// Enum variants `A , B , ...` from `k`, to the closing `}`.
pub open spec fn variant_seq(toks: Seq<Token>, k: int) -> Option<int>
    decreases toks.len() - k, 1int,
{
    if name_at(toks, k) {
        variant_after(toks, k + 1)
    } else {
        None
    }
}

/// Where `struct S { fields }` or `enum E { variants }` at `k` ends.
pub open spec fn struct_enum_endp(toks: Seq<Token>, k: int) -> Option<int> {
    if name_at(toks, k + 1) && tok_is(toks, k + 2, Tok::P(Punct::LBrace)) {
        let close = if tok_is(toks, k, Tok::Kw(Keyword::Struct)) {
            fields_end(toks, k + 3)
        } else if tok_is(toks, k, Tok::Kw(Keyword::Enum)) {
            if tok_is(toks, k + 3, Tok::P(Punct::RBrace)) { Some(k + 3) } else { variant_seq(toks, k + 3) }
        } else {
            None
        };
        match close {
            Some(m) => Some(m + 1),
            None => None,
        }
    } else {
        None
    }
}

/// Where modifier names without arguments from `k` end.
pub open spec fn modinvs_end(toks: Seq<Token>, k: int) -> int
    decreases toks.len() - k,
{
    if 0 <= k < toks.len() && name_at(toks, k) && !tok_is(toks, k + 1, Tok::P(Punct::LParen)) {
        modinvs_end(toks, k + 1)
    } else {
        k
    }
}

/// A visibility word stands at `k`.
pub open spec fn vis_at(toks: Seq<Token>, k: int) -> bool {
    exists|v: Visibility| tok_is(toks, k, Tok::Kw(#[trigger] visibility_kw(v)))
}

/// A mutability word stands at `k`.
pub open spec fn mut_at(toks: Seq<Token>, k: int) -> bool {
    exists|m: StateMutability| tok_is(toks, k, Tok::Kw(#[trigger] mutability_kw(m)))
}

/// Where the mutability words from `k` end.
pub open spec fn muts_end(toks: Seq<Token>, k: int) -> int
    decreases toks.len() - k,
{
    if 0 <= k < toks.len() && mut_at(toks, k) {
        muts_end(toks, k + 1)
    } else {
        k
    }
}

/// After a return parameter at `c`: a `,` and more, or the closing `)`.
pub open spec fn rparam_after(toks: Seq<Token>, c: int) -> Option<int>
    decreases toks.len() - c, 0int,
{
    if tok_is(toks, c, Tok::P(Punct::Comma)) {
        rparam_seq(toks, c + 1)
    } else if tok_is(toks, c, Tok::P(Punct::RParen)) {
        Some(c)
    } else {
        None
    }
}

/// Where the end of a return parameter `T [storage] [name]` at `k` stands.
pub open spec fn rparam_end(toks: Seq<Token>, k: int) -> Option<int> {
    match type_endp(toks, k) {
        Some(j) => {
            let n = if storage_at(toks, j) { j + 1 } else { j };
            if k < j { Some(if name_at(toks, n) { n + 1 } else { n }) } else { None }
        },
        None => None,
    }
}

/// Return parameters `T [storage] [name] , ...` from `k`, to their `)`.
pub open spec fn rparam_seq(toks: Seq<Token>, k: int) -> Option<int>
    decreases toks.len() - k, 1int,
{
    match rparam_end(toks, k) {
        Some(c) => if k < c <= toks.len() { rparam_after(toks, c) } else { None },
        None => None,
    }
}

/// Return parameters end at a `)`.
pub proof fn lemma_rparams_close(toks: Seq<Token>, k: int)
    requires
        rparam_seq(toks, k) is Some,
    ensures
        tok_is(toks, rparam_seq(toks, k)->0, Tok::P(Punct::RParen)),
    decreases toks.len() - k,
{
    let c = rparam_end(toks, k)->0;
    if tok_is(toks, c, Tok::P(Punct::Comma)) {
        lemma_rparams_close(toks, c + 1);
    }
}

/// Where a function's tail from `k` ends: an optional visibility word, mutability
/// words, modifier names without arguments, and an optional `returns ( params )`.
pub open spec fn fn_tail_end(toks: Seq<Token>, k: int) -> int {
    let a = if vis_at(toks, k) { k + 1 } else { k };
    let b = modinvs_end(toks, muts_end(toks, a));
    if tok_is(toks, b, Tok::Kw(Keyword::Returns)) && tok_is(toks, b + 1, Tok::P(Punct::LParen))
        && rparam_seq(toks, b + 2) is Some {
        rparam_seq(toks, b + 2)->0 + 1
    } else {
        b
    }
}

/// An expression statement may start at `k`: a name followed by `(`, `.`, `++`, `--`,
/// an assignment operator, or a `[` that does not open an array size (`[]`, `[n]`).
pub open spec fn stmt_expr_start(toks: Seq<Token>, k: int) -> bool {
    &&& name_at(toks, k)
    &&& (tok_is(toks, k + 1, Tok::P(Punct::LParen)) || tok_is(toks, k + 1, Tok::P(Punct::Dot))
        || tok_is(toks, k + 1, Tok::P(Punct::PlusPlus)) || tok_is(toks, k + 1, Tok::P(Punct::MinusMinus))
        || assign_at(toks, k + 1) || (tok_is(toks, k + 1, Tok::P(Punct::LBracket)) && !tok_is(
        toks,
        k + 2,
        Tok::P(Punct::RBracket),
    ) && !(0 <= k + 2 < toks.len() && toks[k + 2].tok is Int && tok_is(toks, k + 3, Tok::P(Punct::RBracket)))))
}

/// After an `if ( e ) { }` whose block ends at `b`: an optional `else { }` or `else if`.
pub open spec fn else_endp(toks: Seq<Token>, b: int) -> Option<int>
    decreases toks.len() - b, 87int,
{
    if 0 <= b < toks.len() && tok_is(toks, b, Tok::Kw(Keyword::Else)) {
        if tok_is(toks, b + 1, Tok::Kw(Keyword::If)) {
            if_endp(toks, b + 1)
        } else {
            block_endp(toks, b + 1)
        }
    } else {
        Some(b)
    }
}

/// Where `return ;` or `return e ;` at `k` ends.
pub open spec fn return_endp(toks: Seq<Token>, k: int) -> Option<int> {
    if tok_is(toks, k + 1, Tok::P(Punct::Semi)) {
        Some(k + 2)
    } else {
        match expr_endp(toks, k + 1) {
            Some(m) => if k + 1 < m < toks.len() && tok_is(toks, m, Tok::P(Punct::Semi)) { Some(m + 1) } else { None },
            None => None,
        }
    }
}

/// Where `revert ( ) ;`, `revert ( "message" ) ;` or `revert E ( args ) ;` at `k` ends.
pub open spec fn revert_endp(toks: Seq<Token>, k: int) -> Option<int> {
    if tok_is(toks, k + 1, Tok::P(Punct::LParen)) && tok_is(toks, k + 2, Tok::P(Punct::RParen)) && tok_is(
        toks,
        k + 3,
        Tok::P(Punct::Semi),
    ) {
        Some(k + 4)
    } else if tok_is(toks, k + 1, Tok::P(Punct::LParen)) && 0 <= k + 2 < toks.len() && toks[k + 2].tok is Str
        && tok_is(toks, k + 3, Tok::P(Punct::RParen)) && tok_is(toks, k + 4, Tok::P(Punct::Semi)) {
        Some(k + 5)
    } else if name_at(toks, k + 1) && tok_is(toks, k + 2, Tok::P(Punct::LParen)) {
        match args_endp(toks, k + 3) {
            Some(m) => if k + 3 <= m && tok_is(toks, m, Tok::P(Punct::RParen)) && tok_is(toks, m + 1, Tok::P(Punct::Semi)) {
                Some(m + 2)
            } else {
                None
            },
            None => None,
        }
    } else {
        None
    }
}

/// Where `delete e ;` at `k` ends.
pub open spec fn delete_endp(toks: Seq<Token>, k: int) -> Option<int> {
    match expr_endp(toks, k + 1) {
        Some(m) => if k + 1 < m && tok_is(toks, m, Tok::P(Punct::Semi)) { Some(m + 1) } else { None },
        None => None,
    }
}

/// Where `selfdestruct ( e ) ;` at `k` ends.
pub open spec fn selfdestruct_endp(toks: Seq<Token>, k: int) -> Option<int> {
    if tok_is(toks, k + 1, Tok::P(Punct::LParen)) {
        match expr_endp(toks, k + 2) {
            Some(m) => if k + 2 < m && tok_is(toks, m, Tok::P(Punct::RParen)) && tok_is(toks, m + 1, Tok::P(Punct::Semi)) {
                Some(m + 2)
            } else {
                None
            },
            None => None,
        }
    } else {
        None
    }
}

/// Where `require ( e ) ;` or `require ( e , "message" ) ;` at `k` ends.
pub open spec fn require_endp(toks: Seq<Token>, k: int) -> Option<int> {
    if tok_is(toks, k + 1, Tok::P(Punct::LParen)) {
        match expr_endp(toks, k + 2) {
            Some(m) => if k + 2 < m && tok_is(toks, m, Tok::P(Punct::RParen)) && tok_is(toks, m + 1, Tok::P(Punct::Semi)) {
                Some(m + 2)
            } else if k + 2 < m && tok_is(toks, m, Tok::P(Punct::Comma)) && 0 <= m + 1 < toks.len()
                && toks[m + 1].tok is Str && tok_is(toks, m + 2, Tok::P(Punct::RParen)) && tok_is(
                toks,
                m + 3,
                Tok::P(Punct::Semi),
            ) {
                Some(m + 4)
            } else {
                None
            },
            None => None,
        }
    } else {
        None
    }
}

/// Where `emit E ( args ) ;` at `k` ends.
pub open spec fn emit_endp(toks: Seq<Token>, k: int) -> Option<int> {
    if name_at(toks, k + 1) && tok_is(toks, k + 2, Tok::P(Punct::LParen)) {
        match args_endp(toks, k + 3) {
            Some(m) => if k + 3 <= m && tok_is(toks, m, Tok::P(Punct::RParen)) && tok_is(toks, m + 1, Tok::P(Punct::Semi)) {
                Some(m + 2)
            } else {
                None
            },
            None => None,
        }
    } else {
        None
    }
}

/// Where `( e ) { }` of an `if` or `while` at `k` ends, just after the block.
pub open spec fn cond_block_endp(toks: Seq<Token>, k: int) -> Option<int>
    decreases toks.len() - k, 88int,
{
    if 0 <= k < toks.len() && tok_is(toks, k + 1, Tok::P(Punct::LParen)) {
        match expr_endp(toks, k + 2) {
            Some(m) => if k + 2 < m < toks.len() && tok_is(toks, m, Tok::P(Punct::RParen)) {
                match block_endp(toks, m + 1) {
                    Some(b) => if m + 1 < b <= toks.len() { Some(b) } else { None },
                    None => None,
                }
            } else {
                None
            },
            None => None,
        }
    } else {
        None
    }
}

/// Where the start of a `for` from `k` ends at its `;`: nothing, or `T x = e`.
pub open spec fn for_init_end(toks: Seq<Token>, k: int) -> Option<int> {
    if tok_is(toks, k, Tok::P(Punct::Semi)) {
        Some(k)
    } else {
        match decl_name_pos(toks, k) {
            Some(n) => if tok_is(toks, n + 1, Tok::P(Punct::Assign)) {
                match expr_endp(toks, n + 2) {
                    Some(m) => if n + 2 < m && tok_is(toks, m, Tok::P(Punct::Semi)) { Some(m) } else { None },
                    None => None,
                }
            } else {
                None
            },
            None => None,
        }
    }
}

/// An optional expression from `k`, ending where `stop` stands.
pub open spec fn opt_expr_end(toks: Seq<Token>, k: int, stop: Punct) -> Option<int> {
    if tok_is(toks, k, Tok::P(stop)) {
        Some(k)
    } else {
        match expr_endp(toks, k) {
            Some(m) => if k < m && tok_is(toks, m, Tok::P(stop)) { Some(m) } else { None },
            None => None,
        }
    }
}

/// Where `for ( init ; cond ; update ) { }` at `k` ends.
pub open spec fn for_endp(toks: Seq<Token>, k: int) -> Option<int>
    decreases toks.len() - k, 89int,
{
    if 0 <= k < toks.len() && tok_is(toks, k + 1, Tok::P(Punct::LParen)) {
        match for_init_end(toks, k + 2) {
            Some(a) => match opt_expr_end(toks, a + 1, Punct::Semi) {
                Some(c) => match opt_expr_end(toks, c + 1, Punct::RParen) {
                    Some(u) => if k < u < toks.len() { block_endp(toks, u + 1) } else { None },
                    None => None,
                },
                None => None,
            },
            None => None,
        }
    } else {
        None
    }
}

/// Where `if ( e ) { } [else { }]` at `k` ends.
pub open spec fn if_endp(toks: Seq<Token>, k: int) -> Option<int>
    decreases toks.len() - k, 89int,
{
    match cond_block_endp(toks, k) {
        Some(b) => if k < b <= toks.len() { else_endp(toks, b) } else { None },
        None => None,
    }
}

/// Where `T [storage] x ;` or `T [storage] x = e ;` at `k` ends.
pub open spec fn decl_endp(toks: Seq<Token>, k: int) -> Option<int> {
    match decl_name_pos(toks, k) {
        Some(n) => if tok_is(toks, n + 1, Tok::P(Punct::Semi)) {
            Some(n + 2)
        } else if tok_is(toks, n + 1, Tok::P(Punct::Assign)) {
            match expr_endp(toks, n + 2) {
                Some(m) => if n + 2 < m < toks.len() && tok_is(toks, m, Tok::P(Punct::Semi)) { Some(m + 1) } else { None },
                None => None,
            }
        } else {
            None
        },
        None => None,
    }
}

/// Where an expression statement `e ;` at `k` ends.
pub open spec fn expr_stmt_endp(toks: Seq<Token>, k: int) -> Option<int> {
    match expr_endp(toks, k) {
        Some(m) => if k < m < toks.len() && tok_is(toks, m, Tok::P(Punct::Semi)) { Some(m + 1) } else { None },
        None => None,
    }
}

/// Where a statement from `k` ends: `_ ;`, `return [e] ;`, `revert ( ) ;`, `require ( e [, "m"] ) ;`,
/// `emit E ( args ) ;`, `delete e ;`, `selfdestruct ( e ) ;`, `if ( e ) { } [else ...]`, `while ( e ) { }`, `for ( ; ; ) { }`, `T [storage] x [= e] ;`
/// with `T` as `type_endp` reads it, or an expression statement, with expressions as `expr_endp` reads
/// them; `None` for anything else.
pub open spec fn stmt_endp(toks: Seq<Token>, k: int) -> Option<int>
    decreases toks.len() - k, 90int,
{
    if k < 0 || k >= toks.len() {
        None
    } else if tok_is(toks, k, Tok::Kw(Keyword::Return)) {
        return_endp(toks, k)
    } else if tok_is(toks, k, Tok::Kw(Keyword::Revert)) {
        revert_endp(toks, k)
    } else if tok_is(toks, k, Tok::Kw(Keyword::Require)) {
        require_endp(toks, k)
    } else if tok_is(toks, k, Tok::Kw(Keyword::Emit)) {
        emit_endp(toks, k)
    } else if tok_is(toks, k, Tok::Kw(Keyword::If)) {
        if_endp(toks, k)
    } else if tok_is(toks, k, Tok::Kw(Keyword::While)) {
        cond_block_endp(toks, k)
    } else if tok_is(toks, k, Tok::Kw(Keyword::For)) {
        for_endp(toks, k)
    } else if tok_is(toks, k, Tok::Kw(Keyword::Delete)) {
        delete_endp(toks, k)
    } else if tok_is(toks, k, Tok::Kw(Keyword::Selfdestruct)) {
        selfdestruct_endp(toks, k)
    } else if word_at(toks, k, "_"@) && tok_is(toks, k + 1, Tok::P(Punct::Semi)) {
        Some(k + 2)
    } else if decl_name_pos(toks, k) is Some {
        decl_endp(toks, k)
    } else if stmt_expr_start(toks, k) {
        expr_stmt_endp(toks, k)
    } else {
        None
    }
}

/// Where statements that follow one another from `k` end, at the closing `}`.
pub open spec fn stmts_end(toks: Seq<Token>, k: int) -> Option<int>
    decreases toks.len() - k, 95int,
{
    if k < 0 || k >= toks.len() {
        None
    } else if tok_is(toks, k, Tok::P(Punct::RBrace)) {
        Some(k)
    } else {
        match stmt_endp(toks, k) {
            Some(m) => if k < m <= toks.len() { stmts_end(toks, m) } else { None },
            None => None,
        }
    }
}

/// Where a block `{ statements }` at `k` ends, just after its `}`.
pub open spec fn block_endp(toks: Seq<Token>, k: int) -> Option<int>
    decreases toks.len() - k, 100int,
{
    if 0 <= k < toks.len() && tok_is(toks, k, Tok::P(Punct::LBrace)) {
        match stmts_end(toks, k + 1) {
            Some(j) => Some(j + 1),
            None => None,
        }
    } else {
        None
    }
}

/// The length of a block at `k` whose statements `stmt_endp` reads; 0 when none stands there.
pub open spec fn block_len(toks: Seq<Token>, k: int) -> int {
    match block_endp(toks, k) {
        Some(j) => j - k,
        None => 0,
    }
}

/// Where parameters `T [storage] x , ...` from `k` end at their `)`, with types as
/// `type_endp` reads them;
/// `None` when they do not.
pub open spec fn param_seq_end(toks: Seq<Token>, k: int) -> Option<int>
    decreases toks.len() - k, 1int,
{
    match decl_name_pos(toks, k) {
        Some(n) => if k < n < toks.len() { param_after(toks, n + 1) } else { None },
        None => None,
    }
}

/// After a parameter at `c`: a `,` and more parameters, or the closing `)`.
pub open spec fn param_after(toks: Seq<Token>, c: int) -> Option<int>
    decreases toks.len() - c, 0int,
{
    if tok_is(toks, c, Tok::P(Punct::Comma)) {
        param_seq_end(toks, c + 1)
    } else if tok_is(toks, c, Tok::P(Punct::RParen)) {
        Some(c)
    } else {
        None
    }
}

/// Where a parameter list from `k` (just inside its `(`) ends at its `)`.
pub open spec fn param_list_end(toks: Seq<Token>, k: int) -> Option<int> {
    if tok_is(toks, k, Tok::P(Punct::RParen)) {
        Some(k)
    } else {
        param_seq_end(toks, k)
    }
}

/// Event parameters end at a `)`.
pub proof fn lemma_eparams_close(toks: Seq<Token>, k: int)
    requires
        eparam_seq(toks, k) is Some,
    ensures
        tok_is(toks, eparam_seq(toks, k)->0, Tok::P(Punct::RParen)),
    decreases toks.len() - k,
{
    let j = type_endp(toks, k)->0;
    let n = if tok_is(toks, j, Tok::Kw(Keyword::Indexed)) { j + 1 } else { j };
    if tok_is(toks, n + 1, Tok::P(Punct::Comma)) {
        lemma_eparams_close(toks, n + 2);
    }
}

/// Error parameters end at a `)`.
pub proof fn lemma_xparams_close(toks: Seq<Token>, k: int)
    requires
        xparam_seq(toks, k) is Some,
    ensures
        tok_is(toks, xparam_seq(toks, k)->0, Tok::P(Punct::RParen)),
    decreases toks.len() - k,
{
    let j = type_endp(toks, k)->0;
    if tok_is(toks, j + 1, Tok::P(Punct::Comma)) {
        lemma_xparams_close(toks, j + 2);
    }
}

/// Enum variants end at a `}`.
pub proof fn lemma_variants_close(toks: Seq<Token>, k: int)
    requires
        variant_seq(toks, k) is Some,
    ensures
        tok_is(toks, variant_seq(toks, k)->0, Tok::P(Punct::RBrace)),
    decreases toks.len() - k,
{
    if tok_is(toks, k + 1, Tok::P(Punct::Comma)) {
        lemma_variants_close(toks, k + 2);
    }
}

/// Import items end at a `}`.
pub proof fn lemma_imports_close(toks: Seq<Token>, k: int)
    requires
        import_items_end(toks, k) is Some,
    ensures
        tok_is(toks, import_items_end(toks, k)->0, Tok::P(Punct::RBrace)),
    decreases toks.len() - k,
{
    let c = if word_at(toks, k + 1, "as"@) && name_at(toks, k + 2) { k + 3 } else { k + 1 };
    if tok_is(toks, c, Tok::P(Punct::Comma)) {
        lemma_imports_close(toks, c + 1);
    }
}

/// A parameter list ends at a `)`.
pub proof fn lemma_params_close(toks: Seq<Token>, k: int)
    requires
        param_seq_end(toks, k) is Some,
    ensures
        tok_is(toks, param_seq_end(toks, k)->0, Tok::P(Punct::RParen)),
    decreases toks.len() - k,
{
    let n = decl_name_pos(toks, k)->0;
    if tok_is(toks, n + 1, Tok::P(Punct::Comma)) {
        lemma_params_close(toks, n + 2);
    }
}

/// The length of a function at `k`: `function f ( params )`, a tail, then a block of simple
/// statements or `;`; 0 when none stands there.
pub open spec fn fn_len(toks: Seq<Token>, k: int) -> int {
    let c = fn_tail_end(toks, param_list_end(toks, k + 3)->0 + 1);
    if tok_is(toks, k, Tok::Kw(Keyword::Function)) && name_at(toks, k + 1) && tok_is(toks, k + 2, Tok::P(Punct::LParen))
        && param_list_end(toks, k + 3) is Some {
        if block_len(toks, c) > 0 {
            c + block_len(toks, c) - k
        } else if tok_is(toks, c, Tok::P(Punct::Semi)) {
            c + 1 - k
        } else {
            0
        }
    } else {
        0
    }
}

/// The length of a simple contract member at `k`: a state variable as `state_var_endp`
/// reads it,
/// events and errors with parameters, structs, enums, modifiers `modifier m ( params ) { }`,
/// `constructor ( params ) modifiers { statements }`, and a function as `fn_len`
/// reads it, with `T` a type name;
/// 0 when none stands there.
pub open spec fn bare_member_len(toks: Seq<Token>, k: int) -> int {
    if state_var_endp(toks, k) is Some {
        state_var_endp(toks, k)->0 - k
    } else if (tok_is(toks, k, Tok::Kw(Keyword::Event)) || tok_is(toks, k, Tok::Kw(Keyword::Error)))
        && event_error_endp(toks, k) is Some {
        event_error_endp(toks, k)->0 - k
    } else if (tok_is(toks, k, Tok::Kw(Keyword::Struct)) || tok_is(toks, k, Tok::Kw(Keyword::Enum)))
        && struct_enum_endp(toks, k) is Some {
        struct_enum_endp(toks, k)->0 - k
    } else if tok_is(toks, k, Tok::Kw(Keyword::Modifier)) && name_at(toks, k + 1) && tok_is(toks, k + 2, Tok::P(Punct::LParen))
        && param_list_end(toks, k + 3) is Some && block_endp(toks, param_list_end(toks, k + 3)->0 + 1) is Some {
        block_endp(toks, param_list_end(toks, k + 3)->0 + 1)->0 - k
    } else if tok_is(toks, k, Tok::Kw(Keyword::Constructor)) && tok_is(toks, k + 1, Tok::P(Punct::LParen))
        && param_list_end(toks, k + 2) is Some && block_endp(toks, modinvs_end(toks, param_list_end(toks, k + 2)->0 + 1)) is Some {
        block_endp(toks, modinvs_end(toks, param_list_end(toks, k + 2)->0 + 1))->0 - k
    } else if fn_len(toks, k) > 0 {
        fn_len(toks, k)
    } else {
        0
    }
}

/// Where simple members that follow one another from `k` end, at the closing `}`;
/// `None` when something else stands first.
pub open spec fn members_end(toks: Seq<Token>, k: int) -> Option<int>
    decreases toks.len() - k,
{
    if k < 0 || k >= toks.len() {
        None
    } else if tok_is(toks, k, Tok::P(Punct::RBrace)) {
        Some(k)
    } else if bare_member_len(toks, k) > 0 && k + bare_member_len(toks, k) <= toks.len() {
        members_end(toks, k + bare_member_len(toks, k))
    } else {
        None
    }
}

/// `[abstract] contract X [is A, B] { members }` with simple members at `k`: where it
/// ends, or `None`.
pub open spec fn simple_contract_end(toks: Seq<Token>, k: int) -> Option<int> {
    let c = if tok_is(toks, k, Tok::Kw(Keyword::Abstract)) { k + 1 } else { k };
    if tok_is(toks, c, Tok::Kw(Keyword::Contract)) && name_at(toks, c + 1) {
        let b = bases_end(toks, c + 2);
        if tok_is(toks, b, Tok::P(Punct::LBrace)) {
            match members_end(toks, b + 1) {
                Some(j) => Some(j + 1),
                None => None,
            }
        } else {
            None
        }
    } else {
        None
    }
}

/// Base names `A , B , ...` from `k`: where they end, or `None`.
pub open spec fn base_names_end(toks: Seq<Token>, k: int) -> Option<int>
    decreases toks.len() - k,
{
    if name_at(toks, k) && !tok_is(toks, k + 1, Tok::P(Punct::ColonColon)) && !tok_is(toks, k + 1, Tok::P(Punct::Lt)) {
        if tok_is(toks, k + 1, Tok::P(Punct::Comma)) { base_names_end(toks, k + 2) } else { Some(k + 1) }
    } else {
        None
    }
}

/// Where an optional `is A , B` from `k` ends; `k` itself when there is none.
pub open spec fn bases_end(toks: Seq<Token>, k: int) -> int {
    if word_at(toks, k, "is"@) {
        match base_names_end(toks, k + 1) {
            Some(j) => j,
            None => k,
        }
    } else {
        k
    }
}

/// Where interface members `function f ( params ) tail ;` from `k` end, at the closing `}`.
pub open spec fn sigs_end(toks: Seq<Token>, k: int) -> Option<int>
    decreases toks.len() - k,
{
    if tok_is(toks, k, Tok::P(Punct::RBrace)) {
        Some(k)
    } else if tok_is(toks, k, Tok::Kw(Keyword::Function)) && name_at(toks, k + 1) && tok_is(toks, k + 2, Tok::P(Punct::LParen))
        && param_list_end(toks, k + 3) is Some {
        let c = fn_tail_end(toks, param_list_end(toks, k + 3)->0 + 1);
        if k < c < toks.len() && tok_is(toks, c, Tok::P(Punct::Semi)) { sigs_end(toks, c + 1) } else { None }
    } else {
        None
    }
}

/// Import items `A [as B] , ...` from `k`, to the closing `}`.
pub open spec fn import_items_end(toks: Seq<Token>, k: int) -> Option<int>
    decreases toks.len() - k,
{
    if name_at(toks, k) {
        let c = if word_at(toks, k + 1, "as"@) && name_at(toks, k + 2) { k + 3 } else { k + 1 };
        if word_at(toks, k + 1, "as"@) && !name_at(toks, k + 2) {
            None
        } else if tok_is(toks, c, Tok::P(Punct::Comma)) {
            import_items_end(toks, c + 1)
        } else if tok_is(toks, c, Tok::P(Punct::RBrace)) {
            Some(c)
        } else {
            None
        }
    } else {
        None
    }
}

/// Where `interface I [is ...] { members }` at `k` ends.
pub open spec fn interface_end(toks: Seq<Token>, k: int) -> Option<int> {
    if tok_is(toks, k, Tok::Kw(Keyword::Interface)) && name_at(toks, k + 1) {
        let b = bases_end(toks, k + 2);
        if tok_is(toks, b, Tok::P(Punct::LBrace)) {
            match sigs_end(toks, b + 1) {
                Some(j) => Some(j + 1),
                None => None,
            }
        } else {
            None
        }
    } else {
        None
    }
}

/// Where `import { items } from "source" ;` at `k` ends.
pub open spec fn import_end(toks: Seq<Token>, k: int) -> Option<int> {
    if tok_is(toks, k, Tok::Kw(Keyword::Import)) && tok_is(toks, k + 1, Tok::P(Punct::LBrace)) {
        match import_items_end(toks, k + 2) {
            Some(m) => if word_at(toks, m + 1, "from"@) && 0 <= m + 2 < toks.len() && toks[m + 2].tok is Str
                && tok_is(toks, m + 3, Tok::P(Punct::Semi)) {
                Some(m + 4)
            } else {
                None
            },
            None => None,
        }
    } else {
        None
    }
}

/// The length of a simple item at `k`: a contract of simple members, a struct, an enum,
/// an event or an error as above, an interface of function signatures, or an import;
/// `struct X { }` and `enum X { }` take 4 tokens, `event E ( ) ;` and `error E ( ) ;`
/// take 5; 0 when none stands there.
pub open spec fn bare_item_len(toks: Seq<Token>, k: int) -> int {
    if simple_contract_end(toks, k) is Some {
        simple_contract_end(toks, k)->0 - k
    } else if (tok_is(toks, k, Tok::Kw(Keyword::Struct)) || tok_is(toks, k, Tok::Kw(Keyword::Enum)))
        && struct_enum_endp(toks, k) is Some {
        struct_enum_endp(toks, k)->0 - k
    } else if (tok_is(toks, k, Tok::Kw(Keyword::Event)) || tok_is(toks, k, Tok::Kw(Keyword::Error)))
        && event_error_endp(toks, k) is Some {
        event_error_endp(toks, k)->0 - k
    } else if interface_end(toks, k) is Some {
        interface_end(toks, k)->0 - k
    } else if import_end(toks, k) is Some {
        import_end(toks, k)->0 - k
    } else {
        0
    }
}

/// From `k` on, the tokens are simple items (as `bare_item_len` reads them) one after another.
pub open spec fn bare_items_from(toks: Seq<Token>, k: int) -> bool
    decreases toks.len() - k,
{
    if k < 0 || k >= toks.len() {
        k == toks.len()
    } else {
        bare_item_len(toks, k) > 0 && k + bare_item_len(toks, k) <= toks.len() && bare_items_from(
            toks,
            k + bare_item_len(toks, k),
        )
    }
}

/// How many simple items follow one another from `k`.
pub open spec fn bare_items_count(toks: Seq<Token>, k: int) -> nat
    decreases toks.len() - k,
{
    if k < 0 || k >= toks.len() || bare_item_len(toks, k) <= 0 || k + bare_item_len(toks, k) > toks.len() {
        0
    } else {
        1 + bare_items_count(toks, k + bare_item_len(toks, k))
    }
}

/// Where a path that has read a name up to `k` ends: each `::` must be followed by a
/// name; `None` when one is not.
pub open spec fn seg_run(toks: Seq<Token>, k: int) -> Option<int>
    decreases toks.len() - k,
{
    if tok_is(toks, k, Tok::P(Punct::ColonColon)) {
        if name_at(toks, k + 1) {
            seg_run(toks, k + 2)
        } else {
            None
        }
    } else {
        Some(k)
    }
}

/// An assignment operator stands at `k`.
pub open spec fn assign_at(toks: Seq<Token>, k: int) -> bool {
    exists|op: AssignOp| tok_is(toks, k, Tok::P(#[trigger] assign_punct(op)))
}

/// A name or literal at `k` that an expression's end or an assignment operator follows:
/// below the level of assignments it is a whole operand.
pub open spec fn atom_stopped_at(toks: Seq<Token>, k: int) -> bool {
    atom_at(toks, k) && (expr_end(toks, k + 1) || assign_at(toks, k + 1))
}

/// `a op= b` at `k`, with `a` and `b` names or literals, followed by an expression's end.
pub open spec fn assign_expr_at(toks: Seq<Token>, k: int) -> bool {
    atom_at(toks, k) && assign_at(toks, k + 1) && atom_expr_at(toks, k + 2)
}

/// A binary operator of precedence `level` stands at `k`.
pub open spec fn binop_level_at(toks: Seq<Token>, k: int, level: int) -> bool {
    exists|op: BinaryOp| binop_level(op) == level && tok_is(toks, k, Tok::P(#[trigger] binop_punct(op)))
}

/// A prefix operator stands at `k`.
pub open spec fn prefix_at(toks: Seq<Token>, k: int) -> bool {
    exists|op: UnaryOp| !crate::grammar::is_postfix(op) && tok_is(toks, k, Tok::P(#[trigger] unop_punct(op)))
}

/// Where an expression from `k` ends, for expressions built from names and literals with
/// operators, assignments, conditionals `c ? a : b`, calls `f(args)`, method calls
/// `a.m(args)`, fields `a.f` and indexes `a[i]`; `None` for anything else, such as
/// parentheses.
pub open spec fn expr_endp(toks: Seq<Token>, k: int) -> Option<int>
    decreases toks.len() - k, 70int,
{
    match assign_endp(toks, k) {
        Some(j) => if k < j < toks.len() && tok_is(toks, j, Tok::P(Punct::Question)) {
            match expr_endp(toks, j + 1) {
                Some(m) => if j + 1 < m < toks.len() && tok_is(toks, m, Tok::P(Punct::Colon)) { expr_endp(toks, m + 1) } else { None },
                None => None,
            }
        } else if tok_is(toks, j, Tok::P(Punct::Question)) {
            None
        } else {
            Some(j)
        },
        None => None,
    }
}

/// Where an assignment chain from `k` ends.
pub open spec fn assign_endp(toks: Seq<Token>, k: int) -> Option<int>
    decreases toks.len() - k, 68int,
{
    match binary_endp(toks, k, 0) {
        Some(j) => if k < j <= toks.len() { assign_loop(toks, j) } else { None },
        None => None,
    }
}

/// After an operand that ends at `j`, further `op= operand` parts.
pub open spec fn assign_loop(toks: Seq<Token>, j: int) -> Option<int>
    decreases toks.len() - j, 67int,
{
    if 0 <= j < toks.len() && assign_at(toks, j) {
        match binary_endp(toks, j + 1, 0) {
            Some(m) => if j < m <= toks.len() { assign_loop(toks, m) } else { None },
            None => None,
        }
    } else {
        Some(j)
    }
}

/// Where a chain of binary operators of precedence `level` and above from `k` ends.
pub open spec fn binary_endp(toks: Seq<Token>, k: int, level: int) -> Option<int>
    decreases toks.len() - k, 40 - level,
{
    if level < 0 || level > 9 {
        None
    } else {
        let first = if level == 9 { exp_endp(toks, k) } else { binary_endp(toks, k, level + 1) };
        match first {
            Some(j) => if k < j <= toks.len() { binary_loop(toks, j, level) } else { None },
            None => None,
        }
    }
}

/// After an operand that ends at `j`, further `op operand` parts at precedence `level`.
pub open spec fn binary_loop(toks: Seq<Token>, j: int, level: int) -> Option<int>
    decreases toks.len() - j, 29int,
{
    if 0 <= level <= 9 && 0 <= j < toks.len() && binop_level_at(toks, j, level) {
        let next = if level == 9 { exp_endp(toks, j + 1) } else { binary_endp(toks, j + 1, level + 1) };
        match next {
            Some(m) => if j < m <= toks.len() { binary_loop(toks, m, level) } else { None },
            None => None,
        }
    } else {
        Some(j)
    }
}

/// Where a `**` chain from `k` ends.
pub open spec fn exp_endp(toks: Seq<Token>, k: int) -> Option<int>
    decreases toks.len() - k, 12int,
{
    match unary_endp(toks, k) {
        Some(j) => if k < j < toks.len() && tok_is(toks, j, Tok::P(Punct::StarStar)) {
            exp_endp(toks, j + 1)
        } else if k < j <= toks.len() {
            Some(j)
        } else {
            None
        },
        None => None,
    }
}

/// Where an operand with prefix operators from `k` ends.
pub open spec fn unary_endp(toks: Seq<Token>, k: int) -> Option<int>
    decreases toks.len() - k, 11int,
{
    if 0 <= k < toks.len() && prefix_at(toks, k) {
        unary_endp(toks, k + 1)
    } else {
        postfix_endp(toks, k)
    }
}

/// Where an operand with calls, fields, indexes and `++`/`--` after it ends.
pub open spec fn postfix_endp(toks: Seq<Token>, k: int) -> Option<int>
    decreases toks.len() - k, 10int,
{
    match primary_endp(toks, k) {
        Some(j) => if k < j <= toks.len() { postfix_loop(toks, j) } else { None },
        None => None,
    }
}

/// Where an operand from `k` ends: a name or literal, `( e )` or `( a , b )`,
/// `[ a , b ]`, or `new T ( args )` with `T` a name.
pub open spec fn primary_endp(toks: Seq<Token>, k: int) -> Option<int>
    decreases toks.len() - k, 8int,
{
    if atom_at(toks, k) {
        Some(k + 1)
    } else if 0 <= k < toks.len() && (tok_is(toks, k, Tok::P(Punct::LParen)) || tok_is(toks, k, Tok::P(Punct::LBracket))) {
        match expr_list_end(toks, k + 1) {
            Some(m) => if k < m < toks.len() && ((tok_is(toks, k, Tok::P(Punct::LParen)) && tok_is(toks, m, Tok::P(Punct::RParen)))
                || (tok_is(toks, k, Tok::P(Punct::LBracket)) && tok_is(toks, m, Tok::P(Punct::RBracket)))) {
                Some(m + 1)
            } else {
                None
            },
            None => None,
        }
    } else if 0 <= k < toks.len() && tok_is(toks, k, Tok::Kw(Keyword::New)) && name_at(toks, k + 1) && !tok_is(toks, k + 2, Tok::P(Punct::ColonColon))
        && !tok_is(toks, k + 2, Tok::P(Punct::Lt)) && tok_is(toks, k + 2, Tok::P(Punct::LParen)) {
        match args_endp(toks, k + 3) {
            Some(m) => if k < m < toks.len() && tok_is(toks, m, Tok::P(Punct::RParen)) { Some(m + 1) } else { None },
            None => None,
        }
    } else {
        None
    }
}

/// Where a list of expressions from `k` (just inside a bracket) ends, before the
/// closing `)` or `]`.
pub open spec fn expr_list_end(toks: Seq<Token>, k: int) -> Option<int>
    decreases toks.len() - k, 74int,
{
    if tok_is(toks, k, Tok::P(Punct::RParen)) || tok_is(toks, k, Tok::P(Punct::RBracket)) {
        Some(k)
    } else {
        expr_seq(toks, k)
    }
}

/// Expressions separated by commas from `k`.
pub open spec fn expr_seq(toks: Seq<Token>, k: int) -> Option<int>
    decreases toks.len() - k, 73int,
{
    match expr_endp(toks, k) {
        Some(m) => if k < m < toks.len() && tok_is(toks, m, Tok::P(Punct::Comma)) {
            expr_seq(toks, m + 1)
        } else if k < m <= toks.len() {
            Some(m)
        } else {
            None
        },
        None => None,
    }
}

/// After an operand that ends at `j`, further calls, fields, indexes and `++`/`--`.
pub open spec fn postfix_loop(toks: Seq<Token>, j: int) -> Option<int>
    decreases toks.len() - j, 9int,
{
    if j < 0 || j > toks.len() {
        None
    } else if tok_is(toks, j, Tok::P(Punct::LParen)) {
        match args_endp(toks, j + 1) {
            Some(m) => if j < m < toks.len() && tok_is(toks, m, Tok::P(Punct::RParen)) {
                postfix_loop(toks, m + 1)
            } else {
                None
            },
            None => None,
        }
    } else if tok_is(toks, j, Tok::P(Punct::LBracket)) {
        match expr_endp(toks, j + 1) {
            Some(m) => if j < m < toks.len() && tok_is(toks, m, Tok::P(Punct::RBracket)) {
                postfix_loop(toks, m + 1)
            } else {
                None
            },
            None => None,
        }
    } else if tok_is(toks, j, Tok::P(Punct::PlusPlus)) || tok_is(toks, j, Tok::P(Punct::MinusMinus)) {
        postfix_loop(toks, j + 1)
    } else if tok_is(toks, j, Tok::P(Punct::Dot)) {
        if name_at(toks, j + 1) && !tok_is(toks, j + 2, Tok::P(Punct::Lt)) {
            if tok_is(toks, j + 2, Tok::P(Punct::LParen)) {
                match args_endp(toks, j + 3) {
                    Some(m) => if j < m < toks.len() && tok_is(toks, m, Tok::P(Punct::RParen)) {
                        postfix_loop(toks, m + 1)
                    } else {
                        None
                    },
                    None => None,
                }
            } else {
                postfix_loop(toks, j + 2)
            }
        } else {
            None
        }
    } else {
        Some(j)
    }
}

/// After an argument that ends at `m`: a `,` and more arguments, or the end.
pub open spec fn arg_after(toks: Seq<Token>, m: int) -> Option<int> {
    if 0 <= m < toks.len() && tok_is(toks, m, Tok::P(Punct::Comma)) {
        arg_seq(toks, m + 1)
    } else {
        Some(m)
    }
}

/// Where call arguments from `k` (just inside the `(`) end, before the `)`.
pub open spec fn args_endp(toks: Seq<Token>, k: int) -> Option<int>
    decreases toks.len() - k, 76int,
{
    if tok_is(toks, k, Tok::P(Punct::RParen)) {
        Some(k)
    } else {
        arg_seq(toks, k)
    }
}

/// Arguments separated by commas from `k`, none of them named.
pub open spec fn arg_seq(toks: Seq<Token>, k: int) -> Option<int>
    decreases toks.len() - k, 75int,
{
    if tok_is(toks, k + 1, Tok::P(Punct::Colon)) {
        None
    } else {
        match expr_endp(toks, k) {
            Some(m) => if k < m < toks.len() && tok_is(toks, m, Tok::P(Punct::Comma)) {
                arg_seq(toks, m + 1)
            } else if k < m <= toks.len() {
                Some(m)
            } else {
                None
            },
            None => None,
        }
    }
}

/// A name at `k` that reads as a whole type: no `::`, `<` or `[` follows it.
pub open spec fn plain_type_at(toks: Seq<Token>, k: int) -> bool {
    &&& name_at(toks, k)
    &&& !tok_is(toks, k + 1, Tok::P(Punct::ColonColon))
    &&& !tok_is(toks, k + 1, Tok::P(Punct::Lt))
    &&& !tok_is(toks, k + 1, Tok::P(Punct::LBracket))
}

/// One token written out by one symbol.
pub proof fn lemma_one(toks: Seq<Token>, i: int, s: Sym)
    requires
        0 <= i < toks.len(),
        tok_matches(toks[i].tok, s),
    ensures
        spelled(toks, i, i + 1, seq![s]),
{
}

/// Two tokens written out by two symbols.
pub proof fn lemma_two(toks: Seq<Token>, i: int, s: Sym, t: Sym)
    requires
        0 <= i,
        i + 1 < toks.len(),
        tok_matches(toks[i].tok, s),
        tok_matches(toks[i + 1].tok, t),
    ensures
        spelled(toks, i, i + 2, seq![s, t]),
{
    let ps = seq![s, t];
    assert forall|k: int| 0 <= k < 2 implies tok_matches(toks[i + k].tok, #[trigger] ps[k]) by {
        if k == 0 {
            assert(ps[k] == s);
        } else {
            assert(ps[k] == t);
        }
    }
}

/// Symbols for `a..b` followed by one more token.
pub proof fn lemma_then(toks: Seq<Token>, a: int, b: int, p: Seq<Sym>, s: Sym)
    requires
        spelled(toks, a, b, p),
        b < toks.len(),
        tok_matches(toks[b].tok, s),
    ensures
        spelled(toks, a, b + 1, p + seq![s]),
{
    lemma_one(toks, b, s);
    lemma_cat(toks, a, b, b + 1, p, seq![s]);
}

/// Symbols for `a..b` followed by two more tokens.
pub proof fn lemma_then2(toks: Seq<Token>, a: int, b: int, p: Seq<Sym>, s: Sym, t: Sym)
    requires
        spelled(toks, a, b, p),
        b + 1 < toks.len(),
        tok_matches(toks[b].tok, s),
        tok_matches(toks[b + 1].tok, t),
    ensures
        spelled(toks, a, b + 2, p + seq![s, t]),
{
    lemma_two(toks, b, s, t);
    lemma_cat(toks, a, b, b + 2, p, seq![s, t]);
}

/// Whether the token at `pos` is the punctuation `p`.
pub fn at_punct(toks: &Vec<Token>, pos: usize, p: Punct) -> (b: bool)
    ensures
        b == (pos < toks@.len() && toks@[pos as int].tok == Tok::P(p)),
        b ==> tok_matches(toks@[pos as int].tok, Sym::P(p)),
{
    if pos < toks.len() {
        match &toks[pos].tok {
            Tok::P(q) => *q == p,
            _ => false,
        }
    } else {
        false
    }
}

/// Whether the token at `pos` is the reserved word `k`.
pub fn at_kw(toks: &Vec<Token>, pos: usize, k: Keyword) -> (b: bool)
    ensures
        b == (pos < toks@.len() && toks@[pos as int].tok == Tok::Kw(k)),
        b ==> tok_matches(toks@[pos as int].tok, Sym::Kw(k)),
{
    if pos < toks.len() {
        match &toks[pos].tok {
            Tok::Kw(q) => *q == k,
            _ => false,
        }
    } else {
        false
    }
}

/// Whether the token at `pos` is a name, and which.
pub fn at_word(toks: &Vec<Token>, pos: usize) -> (r: Option<String>)
    ensures
        r matches Some(w) ==> pos < toks@.len() && tok_matches(toks@[pos as int].tok, Sym::Word(w@)),
        r is Some <==> pos < toks@.len() && toks@[pos as int].tok is Ident,
{
    if pos < toks.len() {
        match &toks[pos].tok {
            Tok::Ident(s) => Some(s.clone()),
            _ => None,
        }
    } else {
        None
    }
}

/// Whether the token at `pos` is the given name.
pub fn at_word_text(toks: &Vec<Token>, pos: usize, text: &str) -> (b: bool)
    ensures
        b ==> pos < toks@.len() && tok_matches(toks@[pos as int].tok, Sym::Word(text@)),
        b == word_at(toks@, pos as int, text@),
{
    if pos < toks.len() {
        match &toks[pos].tok {
            Tok::Ident(s) => str_eq(s.as_str(), text),
            _ => false,
        }
    } else {
        false
    }
}

/// The string literal at `pos`, if there is one.
pub fn at_str(toks: &Vec<Token>, pos: usize) -> (r: Option<String>)
    ensures
        r matches Some(w) ==> pos < toks@.len() && tok_matches(toks@[pos as int].tok, Sym::Str(w@)),
        r is Some <==> pos < toks@.len() && toks@[pos as int].tok is Str,
{
    if pos < toks.len() {
        match &toks[pos].tok {
            Tok::Str(s) => Some(s.clone()),
            _ => None,
        }
    } else {
        None
    }
}

/// Read a name.
pub fn parse_ident(toks: &Vec<Token>, pos: usize) -> (r: Result<(Ident, usize), usize>)
    requires
        toks_ok(toks@),
    ensures
        r matches Ok((id, e)) ==> e == pos + 1 && id.span == toks@[pos as int].span && read_ok(
            toks@,
            pos,
            e,
            pats_word(id),
        ),
        r is Ok <==> pos < toks@.len() && toks@[pos as int].tok is Ident,
        r matches Err(e) ==> e == pos,
{
    match at_word(toks, pos) {
        Some(w) => {
            let id = Ident { name: w, span: toks[pos].span };
            proof {
                lemma_one(toks@, pos as int, Sym::Word(id.name@));
            }
            Ok((id, pos + 1))
        },
        None => Err(pos),
    }
}

// ---------------------------------------------------------------------------
// Types

/// `A::B::C`
fn parse_segments(toks: &Vec<Token>, pos: usize) -> (r: Result<(Vec<Ident>, usize), usize>)
    requires
        toks_ok(toks@),
    ensures
        r matches Ok((segs, e)) ==> segs@.len() > 0 && read_ok(toks@, pos, e, pats_segments(segs@)),
        name_at(toks@, pos as int) && !tok_is(toks@, pos + 1, Tok::P(Punct::ColonColon)) ==> (r matches Ok((segs, e)) && e == pos + 1 && segs@.len() == 1),
        r is Ok <==> name_at(toks@, pos as int) && seg_run(toks@, pos + 1) is Some,
        r matches Ok((segs, e)) ==> seg_run(toks@, pos + 1) == Some(e as int),
{
    let (first, mut cur) = parse_ident(toks, pos)?;
    let mut segs: Vec<Ident> = Vec::new();
    segs.push(first);
    proof {
        assert(pats_segments(segs@) =~= pats_word(segs@[0]));
    }
    while at_punct(toks, cur, Punct::ColonColon)
        invariant
            toks_ok(toks@),
            segs@.len() > 0,
            read_ok(toks@, pos, cur, pats_segments(segs@)),
            tok_is(toks@, pos + 1, Tok::P(Punct::ColonColon)) || (cur == pos + 1 && segs@.len() == 1),
            seg_run(toks@, cur as int) == seg_run(toks@, pos + 1),
            name_at(toks@, pos as int),
        decreases toks@.len() - cur,
    {
        let (id, e) = parse_ident(toks, cur + 1)?;
        proof {
            lemma_one(toks@, cur as int, Sym::P(Punct::ColonColon));
            lemma_cat(toks@, pos as int, cur as int, cur + 1, pats_segments(segs@), seq![Sym::P(Punct::ColonColon)]);
            lemma_cat(toks@, pos as int, cur + 1, e as int, pats_segments(segs@) + seq![Sym::P(Punct::ColonColon)], pats_word(id));
        }
        let ghost old_segs = segs@;
        segs.push(id);
        proof {
            assert(segs@.drop_last() =~= old_segs);
        }
        cur = e;
    }
    Ok((segs, cur))
}

/// A type, as it may stand in a declaration.
#[verifier::spinoff_prover]
#[verifier::rlimit(40)]
pub fn parse_type(toks: &Vec<Token>, pos: usize) -> (r: Result<(TypeExpr, usize), usize>)
    requires
        toks_ok(toks@),
    ensures
        r matches Ok((t, e)) ==> read_ok(toks@, pos, e, pats_type(t)),
        plain_type_at(toks@, pos as int) ==> (r matches Ok((t, e)) && e == pos + 1 && t is Path),
        name_at(toks@, pos as int) && !tok_is(toks@, pos + 1, Tok::P(Punct::ColonColon)) && !tok_is(toks@, pos + 1, Tok::P(Punct::Lt)) && tok_is(toks@, pos + 1, Tok::P(Punct::LBracket)) && !tok_is(toks@, pos + 2, Tok::P(Punct::RBracket)) && !(0 <= pos + 2 < toks@.len() && toks@[pos + 2].tok is Int && tok_is(toks@, pos + 3, Tok::P(Punct::RBracket))) ==> (r matches Ok((t, e)) && e == pos + 1),
        type_endp(toks@, pos as int) is Some ==> (r matches Ok((t, e)) && e == type_endp(toks@, pos as int)->0),
    decreases toks@.len() - pos, 10nat,
{
    if at_kw(toks, pos, Keyword::Mapping) {
        if !at_punct(toks, pos + 1, Punct::LParen) {
            return Err(pos + 1);
        }
        let (key, e1) = parse_type(toks, pos + 2)?;
        if !at_punct(toks, e1, Punct::FatArrow) {
            return Err(e1);
        }
        let (value, e2) = parse_type(toks, e1 + 1)?;
        if !at_punct(toks, e2, Punct::RParen) {
            return Err(e2);
        }
        let span = Span { start: toks[pos].span.start, end: toks[e2].span.end };
        let t = TypeExpr::Mapping(Box::new(MappingType { key, value, span }));
        proof {
            let ts = toks@;
            lemma_two(ts, pos as int, Sym::Kw(Keyword::Mapping), Sym::P(Punct::LParen));
            lemma_cat(ts, pos as int, pos + 2, e1 as int, seq![Sym::Kw(Keyword::Mapping), Sym::P(Punct::LParen)], pats_type(key));
            let a1 = seq![Sym::Kw(Keyword::Mapping), Sym::P(Punct::LParen)] + pats_type(key);
            lemma_one(ts, e1 as int, Sym::P(Punct::FatArrow));
            lemma_cat(ts, pos as int, e1 as int, e1 + 1, a1, seq![Sym::P(Punct::FatArrow)]);
            let a2 = a1 + seq![Sym::P(Punct::FatArrow)];
            lemma_cat(ts, pos as int, e1 + 1, e2 as int, a2, pats_type(value));
            let a3 = a2 + pats_type(value);
            lemma_one(ts, e2 as int, Sym::P(Punct::RParen));
            lemma_cat(ts, pos as int, e2 as int, e2 + 1, a3, seq![Sym::P(Punct::RParen)]);
        }
        return Ok((t, e2 + 1));
    }
    if at_punct(toks, pos, Punct::LParen) {
        let (elements, e1) = parse_type_list(toks, pos + 1)?;
        if !at_punct(toks, e1, Punct::RParen) {
            return Err(e1);
        }
        let span = Span { start: toks[pos].span.start, end: toks[e1].span.end };
        let t = TypeExpr::Tuple(TypeTuple { elements, span });
        proof {
            let ts = toks@;
            lemma_one(ts, pos as int, Sym::P(Punct::LParen));
            lemma_cat(ts, pos as int, pos + 1, e1 as int, seq![Sym::P(Punct::LParen)], pats_type_list(elements@));
            lemma_one(ts, e1 as int, Sym::P(Punct::RParen));
            lemma_cat(ts, pos as int, e1 as int, e1 + 1, seq![Sym::P(Punct::LParen)] + pats_type_list(elements@), seq![Sym::P(Punct::RParen)]);
        }
        return Ok((t, e1 + 1));
    }
    let (path, e1) = parse_type_path(toks, pos)?;
    let (sizes, e2) = parse_sizes(toks, e1);
    proof {
        lemma_cat(toks@, pos as int, e1 as int, e2 as int, pats_type_path(path), pats_sizes(sizes@));
    }
    if sizes.len() == 0 {
        proof {
            assert(pats_type_path(path) + pats_sizes(sizes@) =~= pats_type_path(path));
        }
        Ok((TypeExpr::Path(path), e1))
    } else {
        let span = Span { start: toks[pos].span.start, end: toks[e2 - 1].span.end };
        Ok((TypeExpr::Array(Box::new(ArrayType { element: path, sizes, span })), e2))
    }
}

/// Array sizes after an element type: `[]` or `[n]`, any number of times.
#[verifier::spinoff_prover]
#[verifier::rlimit(40)]
fn parse_sizes(toks: &Vec<Token>, pos: usize) -> (r: (Vec<Option<u64>>, usize))
    requires
        toks_ok(toks@),
        pos <= toks@.len(),
    ensures
        pos <= r.1 <= toks@.len(),
        spelled(toks@, pos as int, r.1 as int, pats_sizes(r.0@)),
        !tok_is(toks@, pos as int, Tok::P(Punct::LBracket)) ==> r.0@.len() == 0 && r.1 == pos,
        tok_is(toks@, pos as int, Tok::P(Punct::LBracket)) && !tok_is(toks@, pos + 1, Tok::P(Punct::RBracket)) && !(0 <= pos + 1 < toks@.len() && toks@[pos + 1].tok is Int && tok_is(toks@, pos + 2, Tok::P(Punct::RBracket))) ==> r.0@.len() == 0 && r.1 == pos,
        r.1 == sizes_end(toks@, pos as int),
{
    let mut sizes: Vec<Option<u64>> = Vec::new();
    let mut cur = pos;
    proof {
        lemma_empty(toks@, pos as int);
        assert(pats_sizes(sizes@) =~= Seq::<Sym>::empty());
    }
    loop
        invariant
            toks_ok(toks@),
            pos <= cur <= toks@.len(),
            spelled(toks@, pos as int, cur as int, pats_sizes(sizes@)),
            tok_is(toks@, pos as int, Tok::P(Punct::LBracket)) || (cur == pos && sizes@.len() == 0),
            (tok_is(toks@, pos as int, Tok::P(Punct::LBracket)) && !tok_is(toks@, pos + 1, Tok::P(Punct::RBracket)) && !(0 <= pos + 1 < toks@.len() && toks@[pos + 1].tok is Int && tok_is(toks@, pos + 2, Tok::P(Punct::RBracket)))) ==> cur == pos && sizes@.len() == 0,
            sizes_end(toks@, cur as int) == sizes_end(toks@, pos as int),
        ensures
            toks_ok(toks@),
            pos <= cur <= toks@.len(),
            spelled(toks@, pos as int, cur as int, pats_sizes(sizes@)),
            tok_is(toks@, pos as int, Tok::P(Punct::LBracket)) || (cur == pos && sizes@.len() == 0),
            (tok_is(toks@, pos as int, Tok::P(Punct::LBracket)) && !tok_is(toks@, pos + 1, Tok::P(Punct::RBracket)) && !(0 <= pos + 1 < toks@.len() && toks@[pos + 1].tok is Int && tok_is(toks@, pos + 2, Tok::P(Punct::RBracket)))) ==> cur == pos && sizes@.len() == 0,
            cur == sizes_end(toks@, pos as int),
        decreases toks@.len() - cur,
    {
        if !at_punct(toks, cur, Punct::LBracket) {
            break;
        }
        let ghost old_sizes = sizes@;
        if at_punct(toks, cur + 1, Punct::RBracket) {
            sizes.push(None);
            proof {
                lemma_two(toks@, cur as int, Sym::P(Punct::LBracket), Sym::P(Punct::RBracket));
                assert(pats_size(None) == seq![Sym::P(Punct::LBracket), Sym::P(Punct::RBracket)]);
                lemma_cat(toks@, pos as int, cur as int, cur + 2, pats_sizes(old_sizes), pats_size(None));
                assert(sizes@.drop_last() =~= old_sizes);
            }
            cur = cur + 2;
        } else if cur + 1 < toks.len() && at_punct(toks, cur + 2, Punct::RBracket) {
            let n = match &toks[cur + 1].tok {
                Tok::Int(d) => {
                    proof {
                        assert(tok_wf(toks@[cur + 1].tok));
                    }
                    parse_dec_u64(d.as_slice())
                },
                _ => {
                    break;
                },
            };
            sizes.push(Some(n));
            proof {
                let ts = toks@;
                lemma_two(ts, cur as int, Sym::P(Punct::LBracket), Sym::Int64(n));
                lemma_one(ts, cur + 2, Sym::P(Punct::RBracket));
                lemma_cat(ts, cur as int, cur + 2, cur + 3, seq![Sym::P(Punct::LBracket), Sym::Int64(n)], seq![Sym::P(Punct::RBracket)]);
                assert(seq![Sym::P(Punct::LBracket), Sym::Int64(n)] + seq![Sym::P(Punct::RBracket)] =~= pats_size(Some(n)));
                lemma_cat(ts, pos as int, cur as int, cur + 3, pats_sizes(old_sizes), pats_size(Some(n)));
                assert(sizes@.drop_last() =~= old_sizes);
            }
            cur = cur + 3;
        } else {
            break;
        }
    }
    (sizes, cur)
}

/// `A::B<T, U>`
pub fn parse_type_path(toks: &Vec<Token>, pos: usize) -> (r: Result<(TypePath, usize), usize>)
    requires
        toks_ok(toks@),
    ensures
        r matches Ok((p, e)) ==> read_ok(toks@, pos, e, pats_type_path(p)),
        name_at(toks@, pos as int) && !tok_is(toks@, pos + 1, Tok::P(Punct::ColonColon)) && !tok_is(toks@, pos + 1, Tok::P(Punct::Lt)) ==> (r matches Ok((p, e)) && e == pos + 1),
    decreases toks@.len() - pos, 9nat,
{
    let (segments, e1) = parse_segments(toks, pos)?;
    if at_punct(toks, e1, Punct::Lt) {
        let (g, e2) = parse_generic_args(toks, e1)?;
        let span = Span { start: toks[pos].span.start, end: toks[e2 - 1].span.end };
        let p = TypePath { segments, generic_args: Some(g), span };
        proof {
            lemma_cat(toks@, pos as int, e1 as int, e2 as int, pats_segments(p.segments@), pats_generic_args(g));
        }
        Ok((p, e2))
    } else {
        let span = Span { start: toks[pos].span.start, end: toks[e1 - 1].span.end };
        let p = TypePath { segments, generic_args: None, span };
        proof {
            assert(pats_type_path(p) =~= pats_segments(p.segments@));
        }
        Ok((p, e1))
    }
}

/// `<T, U>`
pub fn parse_generic_args(toks: &Vec<Token>, pos: usize) -> (r: Result<(GenericArgs, usize), usize>)
    requires
        toks_ok(toks@),
    ensures
        r matches Ok((g, e)) ==> read_ok(toks@, pos, e, pats_generic_args(g)),
        tok_is(toks@, pos as int, Tok::P(Punct::Lt)) && tok_is(toks@, pos + 1, Tok::P(Punct::Gt)) ==> (r matches Ok((g, e)) && e == pos + 2 && g.args@.len() == 0),
    decreases toks@.len() - pos, 11nat,
{
    if !at_punct(toks, pos, Punct::Lt) {
        return Err(pos);
    }
    let (args, e1) = parse_type_list(toks, pos + 1)?;
    if !at_punct(toks, e1, Punct::Gt) {
        return Err(e1);
    }
    let span = Span { start: toks[pos].span.start, end: toks[e1].span.end };
    let g = GenericArgs { args, span };
    proof {
        let ts = toks@;
        lemma_one(ts, pos as int, Sym::P(Punct::Lt));
        lemma_cat(ts, pos as int, pos + 1, e1 as int, seq![Sym::P(Punct::Lt)], pats_type_list(g.args@));
        lemma_one(ts, e1 as int, Sym::P(Punct::Gt));
        lemma_cat(ts, pos as int, e1 as int, e1 + 1, seq![Sym::P(Punct::Lt)] + pats_type_list(g.args@), seq![Sym::P(Punct::Gt)]);
    }
    Ok((g, e1 + 1))
}

/// Types separated by commas, possibly none: the list ends before the first token that
/// starts no further type.
fn parse_type_list(toks: &Vec<Token>, pos: usize) -> (r: Result<(Vec<TypeExpr>, usize), usize>)
    requires
        toks_ok(toks@),
        pos <= toks@.len(),
    ensures
        r matches Ok((ts, e)) ==> pos <= e <= toks@.len() && spelled(
            toks@,
            pos as int,
            e as int,
            pats_type_list(ts@),
        ),
        tok_is(toks@, pos as int, Tok::P(Punct::RParen)) || tok_is(toks@, pos as int, Tok::P(Punct::Gt)) ==> (r matches Ok((ts, e)) && e == pos && ts@.len() == 0),
    decreases toks@.len() - pos, 12nat,
{
    let mut items: Vec<TypeExpr> = Vec::new();
    if at_punct(toks, pos, Punct::RParen) || at_punct(toks, pos, Punct::Gt) {
        proof {
            lemma_empty(toks@, pos as int);
        }
        return Ok((items, pos));
    }
    let (first, mut cur) = parse_type(toks, pos)?;
    items.push(first);
    proof {
        assert(pats_type_list(items@) =~= pats_type(items@[0]));
    }
    while at_punct(toks, cur, Punct::Comma)
        invariant
            toks_ok(toks@),
            items@.len() > 0,
            read_ok(toks@, pos, cur, pats_type_list(items@)),
            !(tok_is(toks@, pos as int, Tok::P(Punct::RParen)) || tok_is(toks@, pos as int, Tok::P(Punct::Gt))),
        decreases toks@.len() - cur,
    {
        let (t, e) = parse_type(toks, cur + 1)?;
        proof {
            lemma_one(toks@, cur as int, Sym::P(Punct::Comma));
            lemma_cat(toks@, pos as int, cur as int, cur + 1, pats_type_list(items@), seq![Sym::P(Punct::Comma)]);
            lemma_cat(toks@, pos as int, cur + 1, e as int, pats_type_list(items@) + seq![Sym::P(Punct::Comma)], pats_type(t));
        }
        let ghost old_items = items@;
        items.push(t);
        proof {
            assert(items@.drop_last() =~= old_items);
        }
        cur = e;
    }
    Ok((items, cur))
}


// ---------------------------------------------------------------------------
// Expressions

/// The span from the token at `lo` to the token before `hi`.
fn span_of(toks: &Vec<Token>, lo: usize, hi: usize) -> (s: Span)
    requires
        lo < hi <= toks@.len(),
{
    Span { start: toks[lo].span.start, end: toks[hi - 1].span.end }
}

/// The binary operator at `pos` that binds at precedence `level` (0: `||` ... 9: `*`).
fn binop_at(toks: &Vec<Token>, pos: usize, level: u8) -> (r: Option<BinaryOp>)
    ensures
        r matches Some(op) ==> pos < toks@.len() && tok_matches(
            toks@[pos as int].tok,
            Sym::P(binop_punct(op)),
        ) && binop_level(op) == level,
        r is Some <==> pos < toks@.len() && exists|op: BinaryOp|
            binop_level(op) == level && toks@[pos as int].tok == Tok::P(#[trigger] binop_punct(op)),
{
    if pos >= toks.len() {
        return None;
    }
    let p = match &toks[pos].tok {
        Tok::P(p) => *p,
        _ => {
            return None;
        },
    };
    let r = if level == 0 {
        if p == Punct::OrOr { Some(BinaryOp::Or) } else { None }
    } else if level == 1 {
        if p == Punct::AndAnd { Some(BinaryOp::And) } else { None }
    } else if level == 2 {
        if p == Punct::Pipe { Some(BinaryOp::BitOr) } else { None }
    } else if level == 3 {
        if p == Punct::Caret { Some(BinaryOp::BitXor) } else { None }
    } else if level == 4 {
        if p == Punct::Amp { Some(BinaryOp::BitAnd) } else { None }
    } else if level == 5 {
        if p == Punct::EqEq {
            Some(BinaryOp::Eq)
        } else if p == Punct::NotEq {
            Some(BinaryOp::Ne)
        } else {
            None
        }
    } else if level == 6 {
        if p == Punct::Lt {
            Some(BinaryOp::Lt)
        } else if p == Punct::Le {
            Some(BinaryOp::Le)
        } else if p == Punct::Gt {
            Some(BinaryOp::Gt)
        } else if p == Punct::Ge {
            Some(BinaryOp::Ge)
        } else {
            None
        }
    } else if level == 7 {
        if p == Punct::Shl {
            Some(BinaryOp::Shl)
        } else if p == Punct::Shr {
            Some(BinaryOp::Shr)
        } else {
            None
        }
    } else if level == 8 {
        if p == Punct::Plus {
            Some(BinaryOp::Add)
        } else if p == Punct::Minus {
            Some(BinaryOp::Sub)
        } else {
            None
        }
    } else if level == 9 {
        if p == Punct::Star {
            Some(BinaryOp::Mul)
        } else if p == Punct::Slash {
            Some(BinaryOp::Div)
        } else if p == Punct::Percent {
            Some(BinaryOp::Rem)
        } else {
            None
        }
    } else {
        None
    };
    proof {
        assert forall|op: BinaryOp|
            binop_level(op) == level && toks@[pos as int].tok == Tok::P(#[trigger] binop_punct(op)) implies r is Some by {
            assert(p == binop_punct(op));
            match op {
                BinaryOp::Add => {},
                BinaryOp::Sub => {},
                BinaryOp::Mul => {},
                BinaryOp::Div => {},
                BinaryOp::Rem => {},
                BinaryOp::Exp => {},
                BinaryOp::Eq => {},
                BinaryOp::Ne => {},
                BinaryOp::Lt => {},
                BinaryOp::Le => {},
                BinaryOp::Gt => {},
                BinaryOp::Ge => {},
                BinaryOp::And => {},
                BinaryOp::Or => {},
                BinaryOp::BitAnd => {},
                BinaryOp::BitOr => {},
                BinaryOp::BitXor => {},
                BinaryOp::Shl => {},
                BinaryOp::Shr => {},
            }
        }
        if let Some(op) = r {
            assert(binop_punct(op) == p);
        }
    }
    r
}

/// The assignment operator at `pos`, if any.
fn assign_op_at(toks: &Vec<Token>, pos: usize) -> (r: Option<AssignOp>)
    ensures
        r matches Some(op) ==> pos < toks@.len() && tok_matches(
            toks@[pos as int].tok,
            Sym::P(assign_punct(op)),
        ),
        r is Some <==> pos < toks@.len() && exists|op: AssignOp|
            toks@[pos as int].tok == Tok::P(#[trigger] assign_punct(op)),
{
    if pos >= toks.len() {
        return None;
    }
    match &toks[pos].tok {
        Tok::P(Punct::Assign) => Some(AssignOp::Assign),
        Tok::P(Punct::PlusEq) => Some(AssignOp::AddAssign),
        Tok::P(Punct::MinusEq) => Some(AssignOp::SubAssign),
        Tok::P(Punct::StarEq) => Some(AssignOp::MulAssign),
        Tok::P(Punct::SlashEq) => Some(AssignOp::DivAssign),
        Tok::P(Punct::PercentEq) => Some(AssignOp::RemAssign),
        Tok::P(Punct::AmpEq) => Some(AssignOp::BitAndAssign),
        Tok::P(Punct::PipeEq) => Some(AssignOp::BitOrAssign),
        Tok::P(Punct::CaretEq) => Some(AssignOp::BitXorAssign),
        _ => None,
    }
}

/// The prefix operator at `pos`, if any.
fn prefix_op_at(toks: &Vec<Token>, pos: usize) -> (r: Option<UnaryOp>)
    ensures
        r matches Some(op) ==> pos < toks@.len() && !crate::grammar::is_postfix(op) && tok_matches(
            toks@[pos as int].tok,
            Sym::P(unop_punct(op)),
        ),
        r is Some <==> pos < toks@.len() && exists|op: UnaryOp|
            !crate::grammar::is_postfix(op) && toks@[pos as int].tok == Tok::P(#[trigger] unop_punct(op)),
{
    if pos >= toks.len() {
        return None;
    }
    match &toks[pos].tok {
        Tok::P(Punct::Bang) => Some(UnaryOp::Not),
        Tok::P(Punct::Minus) => Some(UnaryOp::Neg),
        Tok::P(Punct::Tilde) => Some(UnaryOp::BitNot),
        Tok::P(Punct::PlusPlus) => Some(UnaryOp::PreInc),
        Tok::P(Punct::MinusMinus) => Some(UnaryOp::PreDec),
        _ => None,
    }
}

/// An expression: a conditional `c ? a : b`, or an assignment chain.
#[verifier::spinoff_prover]
#[verifier::rlimit(40)]
pub fn parse_expr(toks: &Vec<Token>, pos: usize) -> (r: Result<(Expr, usize), usize>)
    requires
        toks_ok(toks@),
    ensures
        r matches Ok((x, e)) ==> read_ok(toks@, pos, e, pats_expr(x)),
        atom_expr_at(toks@, pos as int) ==> (r matches Ok((x, e)) && e == pos + 1),
        r matches Ok((x, e)) ==> grouped(x),
        assign_expr_at(toks@, pos as int) ==> (r matches Ok((x, e)) && e == pos + 3),
        expr_endp(toks@, pos as int) is Some ==> (r matches Ok((x, e)) && e == expr_endp(toks@, pos as int)->0),
    decreases toks@.len() - pos, 70nat,
{
    let (cond, e1) = parse_assign(toks, pos)?;
    if !at_punct(toks, e1, Punct::Question) {
        return Ok((cond, e1));
    }
    let (then_expr, e2) = parse_expr(toks, e1 + 1)?;
    if !at_punct(toks, e2, Punct::Colon) {
        return Err(e2);
    }
    let (else_expr, e3) = parse_expr(toks, e2 + 1)?;
    let ghost pc = pats_expr(cond);
    let ghost pt = pats_expr(then_expr);
    let ghost pe = pats_expr(else_expr);
    let span = span_of(toks, pos, e3);
    let x = Expr::Ternary(Box::new(TernaryExpr { condition: cond, then_expr, else_expr, span }));
    proof {
        let ts = toks@;
        lemma_one(ts, e1 as int, Sym::P(Punct::Question));
        lemma_cat(ts, pos as int, e1 as int, e1 + 1, pc, seq![Sym::P(Punct::Question)]);
        lemma_cat(ts, pos as int, e1 + 1, e2 as int, pc + seq![Sym::P(Punct::Question)], pt);
        lemma_one(ts, e2 as int, Sym::P(Punct::Colon));
        lemma_cat(ts, pos as int, e2 as int, e2 + 1, pc + seq![Sym::P(Punct::Question)] + pt, seq![Sym::P(Punct::Colon)]);
        lemma_cat(ts, pos as int, e2 + 1, e3 as int, pc + seq![Sym::P(Punct::Question)] + pt + seq![Sym::P(Punct::Colon)], pe);
    }
    Ok((x, e3))
}

/// Assignments chain to the left: `a = b = c` reads as `(a = b) = c`.
#[verifier::spinoff_prover]
#[verifier::rlimit(40)]
fn parse_assign(toks: &Vec<Token>, pos: usize) -> (r: Result<(Expr, usize), usize>)
    requires
        toks_ok(toks@),
    ensures
        r matches Ok((x, e)) ==> read_ok(toks@, pos, e, pats_expr(x)),
        atom_expr_at(toks@, pos as int) ==> (r matches Ok((x, e)) && e == pos + 1),
        r matches Ok((x, e)) ==> grouped(x) && expr_prec(x) >= 1,
        assign_expr_at(toks@, pos as int) ==> (r matches Ok((x, e)) && e == pos + 3),
        assign_endp(toks@, pos as int) is Some ==> (r matches Ok((x, e)) && e == assign_endp(toks@, pos as int)->0),
    decreases toks@.len() - pos, 68nat,
{
    let (mut left, mut cur) = parse_binary(toks, pos, 0)?;
    loop
        invariant
            toks_ok(toks@),
            read_ok(toks@, pos, cur, pats_expr(left)),
            atom_expr_at(toks@, pos as int) ==> cur == pos + 1,
            assign_expr_at(toks@, pos as int) ==> cur == pos + 1 || cur == pos + 3,
            grouped(left) && expr_prec(left) >= 1,
            assign_endp(toks@, pos as int) is Some ==> assign_loop(toks@, cur as int) == assign_endp(toks@, pos as int),
        ensures
            toks_ok(toks@),
            read_ok(toks@, pos, cur, pats_expr(left)),
            atom_expr_at(toks@, pos as int) ==> cur == pos + 1,
            assign_expr_at(toks@, pos as int) ==> cur == pos + 3,
            grouped(left) && expr_prec(left) >= 1,
            assign_endp(toks@, pos as int) is Some ==> assign_endp(toks@, pos as int) == Some(cur as int),
        decreases toks@.len() - cur,
    {
        let op = match assign_op_at(toks, cur) {
            Some(op) => op,
            None => {
                proof {
                    if assign_expr_at(toks@, pos as int) && cur == pos + 1 {
                        let aop = choose|aop: AssignOp| tok_is(toks@, pos + 1, Tok::P(#[trigger] assign_punct(aop)));
                        assert(toks@[cur as int].tok == Tok::P(assign_punct(aop)));
                    }
                }
                break;
            },
        };
        proof {
            if assign_expr_at(toks@, pos as int) && cur == pos + 3 {
                assert(expr_end(toks@, pos + 3));
                assert(toks@[cur as int].tok == Tok::P(assign_punct(op)));
            }
        }
        let (right, e) = parse_binary(toks, cur + 1, 0)?;
        let ghost pl = pats_expr(left);
        let ghost pr = pats_expr(right);
        left = Expr::Assign(Box::new(AssignExpr { target: left, op, value: right, span: Span::dummy() }));
        proof {
            let ts = toks@;
            lemma_one(ts, cur as int, Sym::P(assign_punct(op)));
            lemma_cat(ts, pos as int, cur as int, cur + 1, pl, seq![Sym::P(assign_punct(op))]);
            lemma_cat(ts, pos as int, cur + 1, e as int, pl + seq![Sym::P(assign_punct(op))], pr);
        }
        cur = e;
    }
    Ok((left, cur))
}

/// Binary operators of precedence `level` and above, each level chaining to the left.
#[verifier::spinoff_prover]
#[verifier::rlimit(40)]
fn parse_binary(toks: &Vec<Token>, pos: usize, level: u8) -> (r: Result<(Expr, usize), usize>)
    requires
        toks_ok(toks@),
        level <= 9,
    ensures
        r matches Ok((x, e)) ==> read_ok(toks@, pos, e, pats_expr(x)),
        atom_stopped_at(toks@, pos as int) ==> (r matches Ok((x, e)) && e == pos + 1),
        r matches Ok((x, e)) ==> grouped(x) && expr_prec(x) >= level + 2,
        binary_endp(toks@, pos as int, level as int) is Some ==> (r matches Ok((x, e)) && e == binary_endp(toks@, pos as int, level as int)->0),
    decreases toks@.len() - pos, 40 - level,
{
    let (mut left, mut cur) = if level == 9 {
        parse_exp(toks, pos)?
    } else {
        parse_binary(toks, pos, level + 1)?
    };
    loop
        invariant
            toks_ok(toks@),
            level <= 9,
            read_ok(toks@, pos, cur, pats_expr(left)),
            atom_stopped_at(toks@, pos as int) ==> cur == pos + 1,
            grouped(left) && expr_prec(left) >= level + 2,
            binary_endp(toks@, pos as int, level as int) is Some ==> binary_loop(toks@, cur as int, level as int) == binary_endp(toks@, pos as int, level as int),
        ensures
            toks_ok(toks@),
            level <= 9,
            read_ok(toks@, pos, cur, pats_expr(left)),
            atom_stopped_at(toks@, pos as int) ==> cur == pos + 1,
            grouped(left) && expr_prec(left) >= level + 2,
            binary_endp(toks@, pos as int, level as int) is Some ==> binary_endp(toks@, pos as int, level as int) == Some(cur as int),
        decreases toks@.len() - cur,
    {
        let op = match binop_at(toks, cur, level) {
            Some(op) => op,
            None => {
                break;
            },
        };
        let (right, e) = if level == 9 {
            parse_exp(toks, cur + 1)?
        } else {
            parse_binary(toks, cur + 1, level + 1)?
        };
        let ghost pl = pats_expr(left);
        let ghost pr = pats_expr(right);
        left = Expr::Binary(Box::new(BinaryExpr { left, op, right, span: Span::dummy() }));
        proof {
            let ts = toks@;
            lemma_one(ts, cur as int, Sym::P(binop_punct(op)));
            lemma_cat(ts, pos as int, cur as int, cur + 1, pl, seq![Sym::P(binop_punct(op))]);
            lemma_cat(ts, pos as int, cur + 1, e as int, pl + seq![Sym::P(binop_punct(op))], pr);
        }
        cur = e;
    }
    Ok((left, cur))
}

/// `a ** b`, grouping to the right.
#[verifier::spinoff_prover]
#[verifier::rlimit(40)]
fn parse_exp(toks: &Vec<Token>, pos: usize) -> (r: Result<(Expr, usize), usize>)
    requires
        toks_ok(toks@),
    ensures
        r matches Ok((x, e)) ==> read_ok(toks@, pos, e, pats_expr(x)),
        atom_stopped_at(toks@, pos as int) ==> (r matches Ok((x, e)) && e == pos + 1),
        r matches Ok((x, e)) ==> grouped(x) && expr_prec(x) >= 12,
        exp_endp(toks@, pos as int) is Some ==> (r matches Ok((x, e)) && e == exp_endp(toks@, pos as int)->0),
    decreases toks@.len() - pos, 25nat,
{
    let (left, e1) = parse_unary(toks, pos)?;
    if !at_punct(toks, e1, Punct::StarStar) {
        return Ok((left, e1));
    }
    let (right, e2) = parse_exp(toks, e1 + 1)?;
    let ghost pl = pats_expr(left);
    let ghost pr = pats_expr(right);
    let x = Expr::Binary(Box::new(BinaryExpr { left, op: BinaryOp::Exp, right, span: Span::dummy() }));
    proof {
        let ts = toks@;
        lemma_one(ts, e1 as int, Sym::P(Punct::StarStar));
        lemma_cat(ts, pos as int, e1 as int, e1 + 1, pl, seq![Sym::P(Punct::StarStar)]);
        lemma_cat(ts, pos as int, e1 + 1, e2 as int, pl + seq![Sym::P(Punct::StarStar)], pr);
    }
    Ok((x, e2))
}

/// Prefix operators, the first one outermost, over a postfix expression.
#[verifier::spinoff_prover]
#[verifier::rlimit(40)]
fn parse_unary(toks: &Vec<Token>, pos: usize) -> (r: Result<(Expr, usize), usize>)
    requires
        toks_ok(toks@),
    ensures
        r matches Ok((x, e)) ==> read_ok(toks@, pos, e, pats_expr(x)),
        atom_stopped_at(toks@, pos as int) ==> (r matches Ok((x, e)) && e == pos + 1),
        r matches Ok((x, e)) ==> grouped(x) && expr_prec(x) >= 13,
        unary_endp(toks@, pos as int) is Some ==> (r matches Ok((x, e)) && e == unary_endp(toks@, pos as int)->0),
    decreases toks@.len() - pos, 24nat,
{
    match prefix_op_at(toks, pos) {
        Some(op) => {
            let (inner, e) = parse_unary(toks, pos + 1)?;
            let ghost pi = pats_expr(inner);
            let x = Expr::Unary(Box::new(UnaryExpr { op, expr: inner, span: Span::dummy() }));
            proof {
                lemma_one(toks@, pos as int, Sym::P(unop_punct(op)));
                lemma_cat(toks@, pos as int, pos + 1, e as int, seq![Sym::P(unop_punct(op))], pi);
            }
            Ok((x, e))
        },
        None => parse_postfix(toks, pos),
    }
}

/// A primary expression followed by calls, member accesses, indexing and `++`/`--`.
#[verifier::spinoff_prover]
#[verifier::rlimit(100)]
fn parse_postfix(toks: &Vec<Token>, pos: usize) -> (r: Result<(Expr, usize), usize>)
    requires
        toks_ok(toks@),
    ensures
        r matches Ok((x, e)) ==> read_ok(toks@, pos, e, pats_expr(x)),
        atom_stopped_at(toks@, pos as int) ==> (r matches Ok((x, e)) && e == pos + 1),
        r matches Ok((x, e)) ==> grouped(x) && expr_prec(x) >= 13,
        postfix_endp(toks@, pos as int) is Some ==> (r matches Ok((x, e)) && e == postfix_endp(toks@, pos as int)->0),
    decreases toks@.len() - pos, 23nat,
{
    let (mut x, mut cur) = parse_primary(toks, pos)?;
    loop
        invariant
            toks_ok(toks@),
            read_ok(toks@, pos, cur, pats_expr(x)),
            atom_stopped_at(toks@, pos as int) ==> cur == pos + 1,
            grouped(x) && expr_prec(x) >= 13,
            x is FieldAccess ==> !tok_is(toks@, cur as int, Tok::P(Punct::LParen)),
            postfix_endp(toks@, pos as int) is Some ==> postfix_loop(toks@, cur as int) == postfix_endp(toks@, pos as int),
        ensures
            toks_ok(toks@),
            read_ok(toks@, pos, cur, pats_expr(x)),
            atom_stopped_at(toks@, pos as int) ==> cur == pos + 1,
            grouped(x) && expr_prec(x) >= 13,
            postfix_endp(toks@, pos as int) is Some ==> postfix_endp(toks@, pos as int) == Some(cur as int),
        decreases toks@.len() - cur,
    {
        let ghost px = pats_expr(x);
        let ghost ts = toks@;
        if at_punct(toks, cur, Punct::LParen) {
            let (args, e1) = parse_args(toks, cur + 1)?;
            if !at_punct(toks, e1, Punct::RParen) {
                return Err(e1);
            }
            let ghost pa = pats_args(args@);
            x = Expr::Call(Box::new(CallExpr { callee: x, args, span: Span::dummy() }));
            proof {
                lemma_one(ts, cur as int, Sym::P(Punct::LParen));
                lemma_cat(ts, pos as int, cur as int, cur + 1, px, seq![Sym::P(Punct::LParen)]);
                lemma_cat(ts, pos as int, cur + 1, e1 as int, px + seq![Sym::P(Punct::LParen)], pa);
                lemma_one(ts, e1 as int, Sym::P(Punct::RParen));
                lemma_cat(ts, pos as int, e1 as int, e1 + 1, px + seq![Sym::P(Punct::LParen)] + pa, seq![Sym::P(Punct::RParen)]);
            }
            cur = e1 + 1;
        } else if at_punct(toks, cur, Punct::LBracket) {
            let (index, e1) = parse_expr(toks, cur + 1)?;
            if !at_punct(toks, e1, Punct::RBracket) {
                return Err(e1);
            }
            let ghost pi = pats_expr(index);
            x = Expr::Index(Box::new(IndexExpr { expr: x, index, span: Span::dummy() }));
            proof {
                lemma_one(ts, cur as int, Sym::P(Punct::LBracket));
                lemma_cat(ts, pos as int, cur as int, cur + 1, px, seq![Sym::P(Punct::LBracket)]);
                lemma_cat(ts, pos as int, cur + 1, e1 as int, px + seq![Sym::P(Punct::LBracket)], pi);
                lemma_one(ts, e1 as int, Sym::P(Punct::RBracket));
                lemma_cat(ts, pos as int, e1 as int, e1 + 1, px + seq![Sym::P(Punct::LBracket)] + pi, seq![Sym::P(Punct::RBracket)]);
            }
            cur = e1 + 1;
        } else if at_punct(toks, cur, Punct::PlusPlus) || at_punct(toks, cur, Punct::MinusMinus) {
            let op = if at_punct(toks, cur, Punct::PlusPlus) {
                UnaryOp::PostInc
            } else {
                UnaryOp::PostDec
            };
            x = Expr::Unary(Box::new(UnaryExpr { op, expr: x, span: Span::dummy() }));
            proof {
                lemma_one(ts, cur as int, Sym::P(unop_punct(op)));
                lemma_cat(ts, pos as int, cur as int, cur + 1, px, seq![Sym::P(unop_punct(op))]);
            }
            cur = cur + 1;
        } else if at_punct(toks, cur, Punct::Dot) {
            let (y, e) = parse_dot_suffix(toks, pos, cur, x)?;
            x = y;
            cur = e;
        } else {
            break;
        }
    }
    Ok((x, cur))
}

/// A field `.f` or method call `.m(args)` after an operand `x` that ends at `cur`.
#[verifier::spinoff_prover]
#[verifier::rlimit(100)]
fn parse_dot_suffix(toks: &Vec<Token>, pos: usize, cur: usize, x: Expr) -> (r: Result<(Expr, usize), usize>)
    requires
        toks_ok(toks@),
        read_ok(toks@, pos, cur, pats_expr(x)),
        grouped(x) && expr_prec(x) >= 13,
        tok_is(toks@, cur as int, Tok::P(Punct::Dot)),
    ensures
        r matches Ok((y, e)) ==> read_ok(toks@, pos, e, pats_expr(y)) && grouped(y) && expr_prec(y) >= 13 && cur < e,
        r matches Ok((y, e)) ==> (y is FieldAccess ==> !tok_is(toks@, e as int, Tok::P(Punct::LParen))),
        name_at(toks@, cur + 1) && !tok_is(toks@, cur + 2, Tok::P(Punct::Lt)) && !tok_is(toks@, cur + 2, Tok::P(Punct::LParen)) ==> (r matches Ok((y, e)) && e == cur + 2),
        name_at(toks@, cur + 1) && !tok_is(toks@, cur + 2, Tok::P(Punct::Lt)) && tok_is(toks@, cur + 2, Tok::P(Punct::LParen))
            && args_endp(toks@, cur + 3) is Some && tok_is(toks@, args_endp(toks@, cur + 3)->0, Tok::P(Punct::RParen))
            ==> (r matches Ok((y, e)) && e == args_endp(toks@, cur + 3)->0 + 1),
    decreases toks@.len() - cur, 0nat,
{
    let mut x = x;
    let ghost px = pats_expr(x);
    let ghost ts = toks@;
        let (name, e1) = parse_ident(toks, cur + 1)?;
        let ghost pn = pats_word(name);
        proof {
            lemma_one(ts, cur as int, Sym::P(Punct::Dot));
            lemma_cat(ts, pos as int, cur as int, cur + 1, px, seq![Sym::P(Punct::Dot)]);
            lemma_cat(ts, pos as int, cur + 1, e1 as int, px + seq![Sym::P(Punct::Dot)], pn);
        }
        let ghost base = px + seq![Sym::P(Punct::Dot)] + pn;
        let mut generic_args: Option<GenericArgs> = None;
        let mut e2 = e1;
        if at_punct(toks, e1, Punct::Lt) {
            match parse_generic_args(toks, e1) {
                Ok((g, e)) => {
                    if at_punct(toks, e, Punct::LParen) {
                        proof {
                            lemma_cat(ts, pos as int, e1 as int, e as int, base, pats_generic_args(g));
                        }
                        generic_args = Some(g);
                        e2 = e;
                    }
                },
                Err(_) => {},
            }
        }
        let ghost pg = pats_opt_generic_args(generic_args);
        proof {
            if generic_args.is_none() {
                assert(base + pg =~= base);
            }
        }
        if at_punct(toks, e2, Punct::LParen) {
            let (args, e3) = parse_args(toks, e2 + 1)?;
            if !at_punct(toks, e3, Punct::RParen) {
                return Err(e3);
            }
            let ghost pa = pats_args(args@);
            x = Expr::MethodCall(Box::new(MethodCallExpr { receiver: x, method: name, generic_args, args, span: Span::dummy() }));
            proof {
                lemma_one(ts, e2 as int, Sym::P(Punct::LParen));
                lemma_cat(ts, pos as int, e2 as int, e2 + 1, base + pg, seq![Sym::P(Punct::LParen)]);
                lemma_cat(ts, pos as int, e2 + 1, e3 as int, base + pg + seq![Sym::P(Punct::LParen)], pa);
                lemma_one(ts, e3 as int, Sym::P(Punct::RParen));
                lemma_cat(ts, pos as int, e3 as int, e3 + 1, base + pg + seq![Sym::P(Punct::LParen)] + pa, seq![Sym::P(Punct::RParen)]);
            }
            Ok((x, e3 + 1))
        } else {
            x = Expr::FieldAccess(Box::new(FieldAccessExpr { expr: x, field: name, span: Span::dummy() }));
            Ok((x, e1))
        }
}

/// The literal at `pos`, if the token there is one.
fn literal_at(toks: &Vec<Token>, pos: usize) -> (r: Option<Literal>)
    requires
        toks_ok(toks@),
    ensures
        r matches Some(l) ==> pos < toks@.len() && spelled(toks@, pos as int, pos + 1, pats_literal(l)),
        r is Some <==> pos < toks@.len() && is_literal_tok(toks@[pos as int].tok),
{
    if pos >= toks.len() {
        return None;
    }
    let span = toks[pos].span;
    let lit = match &toks[pos].tok {
        Tok::Kw(Keyword::True) => Some(Literal::Bool(true, span)),
        Tok::Kw(Keyword::False) => Some(Literal::Bool(false, span)),
        Tok::Int(d) => {
            proof {
                assert(tok_wf(toks@[pos as int].tok));
            }
            Some(Literal::Int(parse_dec_u128(d.as_slice()), span))
        },
        Tok::HexInt(h) => Some(Literal::HexInt(h.clone(), span)),
        Tok::Address(h) => Some(Literal::Address(h.clone(), span)),
        Tok::Str(h) => Some(Literal::String(h.clone(), span)),
        Tok::HexStr(h) => Some(Literal::HexString(h.clone(), span)),
        _ => None,
    };
    if let Some(l) = &lit {
        proof {
            lemma_one(toks@, pos as int, pats_literal(*l)[0]);
            assert(pats_literal(*l) =~= seq![pats_literal(*l)[0]]);
        }
    }
    lit
}

/// A literal, a name, `new T(args)`, an `if` expression, `[a, b]`, `(a, b)` or `(a)`.
#[verifier::spinoff_prover]
#[verifier::rlimit(100)]
fn parse_primary(toks: &Vec<Token>, pos: usize) -> (r: Result<(Expr, usize), usize>)
    requires
        toks_ok(toks@),
    ensures
        r matches Ok((x, e)) ==> read_ok(toks@, pos, e, pats_expr(x)),
        atom_at(toks@, pos as int) ==> (r matches Ok((x, e)) && e == pos + 1),
        r matches Ok((x, e)) ==> grouped(x) && expr_prec(x) >= 14 && !(x is FieldAccess),
        primary_endp(toks@, pos as int) is Some ==> (r matches Ok((x, e)) && e == primary_endp(toks@, pos as int)->0),
    decreases toks@.len() - pos, 22nat,
{
    if pos >= toks.len() {
        return Err(pos);
    }
    let span = toks[pos].span;
    if let Some(l) = literal_at(toks, pos) {
        return Ok((Expr::Literal(l), pos + 1));
    }
    if let Some(w) = at_word(toks, pos) {
        let id = Ident { name: w, span };
        proof {
            lemma_one(toks@, pos as int, Sym::Word(id.name@));
        }
        return Ok((Expr::Ident(id), pos + 1));
    }
    if at_kw(toks, pos, Keyword::New) {
        return parse_new(toks, pos);
    }
    if at_kw(toks, pos, Keyword::If) {
        let (i, e) = parse_if_expr(toks, pos)?;
        return Ok((Expr::If(Box::new(i)), e));
    }
    if at_punct(toks, pos, Punct::LBracket) || at_punct(toks, pos, Punct::LParen) {
        return parse_bracketed(toks, pos);
    }
    Err(pos)
}

/// `new T(args)`.
#[verifier::spinoff_prover]
#[verifier::rlimit(100)]
fn parse_new(toks: &Vec<Token>, pos: usize) -> (r: Result<(Expr, usize), usize>)
    requires
        toks_ok(toks@),
        pos < toks@.len(),
        tok_is(toks@, pos as int, Tok::Kw(Keyword::New)),
    ensures
        r matches Ok((x, e)) ==> read_ok(toks@, pos, e, pats_expr(x)),
        r matches Ok((x, e)) ==> grouped(x) && expr_prec(x) >= 14 && !(x is FieldAccess),
        primary_endp(toks@, pos as int) is Some ==> (r matches Ok((x, e)) && e == primary_endp(toks@, pos as int)->0),
    decreases toks@.len() - pos, 19nat,
{
    let (ty, e1) = parse_type_path(toks, pos + 1)?;
    if !at_punct(toks, e1, Punct::LParen) {
        return Err(e1);
    }
    let (args, e2) = parse_args(toks, e1 + 1)?;
    if !at_punct(toks, e2, Punct::RParen) {
        return Err(e2);
    }
    let ghost pt = pats_type_path(ty);
    let ghost pa = pats_args(args@);
    let x = Expr::New(Box::new(NewExpr { ty, args, span: span_of(toks, pos, e2 + 1) }));
    proof {
        let ts = toks@;
        let k = seq![Sym::Kw(Keyword::New)];
        lemma_one(ts, pos as int, Sym::Kw(Keyword::New));
        lemma_cat(ts, pos as int, pos + 1, e1 as int, k, pt);
        lemma_one(ts, e1 as int, Sym::P(Punct::LParen));
        lemma_cat(ts, pos as int, e1 as int, e1 + 1, k + pt, seq![Sym::P(Punct::LParen)]);
        lemma_cat(ts, pos as int, e1 + 1, e2 as int, k + pt + seq![Sym::P(Punct::LParen)], pa);
        lemma_one(ts, e2 as int, Sym::P(Punct::RParen));
        lemma_cat(ts, pos as int, e2 as int, e2 + 1, k + pt + seq![Sym::P(Punct::LParen)] + pa, seq![Sym::P(Punct::RParen)]);
    }
    Ok((x, e2 + 1))
}

/// `[a, b]`, `(a, b)` or `(a)`: an array, a tuple, or an expression in parentheses.
#[verifier::spinoff_prover]
#[verifier::rlimit(100)]
fn parse_bracketed(toks: &Vec<Token>, pos: usize) -> (r: Result<(Expr, usize), usize>)
    requires
        toks_ok(toks@),
        pos < toks@.len(),
        tok_is(toks@, pos as int, Tok::P(Punct::LBracket)) || tok_is(toks@, pos as int, Tok::P(Punct::LParen)),
    ensures
        r matches Ok((x, e)) ==> read_ok(toks@, pos, e, pats_expr(x)),
        r matches Ok((x, e)) ==> grouped(x) && expr_prec(x) >= 14 && !(x is FieldAccess),
        primary_endp(toks@, pos as int) is Some ==> (r matches Ok((x, e)) && e == primary_endp(toks@, pos as int)->0),
    decreases toks@.len() - pos, 20nat,
{
    if at_punct(toks, pos, Punct::LBracket) {
        let (elements, e1) = parse_expr_list(toks, pos + 1)?;
        if !at_punct(toks, e1, Punct::RBracket) {
            return Err(e1);
        }
        let ghost pl = pats_expr_list(elements@);
        let x = Expr::Array(ArrayExpr { elements, span: span_of(toks, pos, e1 + 1) });
        proof {
            let ts = toks@;
            lemma_one(ts, pos as int, Sym::P(Punct::LBracket));
            lemma_cat(ts, pos as int, pos + 1, e1 as int, seq![Sym::P(Punct::LBracket)], pl);
            lemma_one(ts, e1 as int, Sym::P(Punct::RBracket));
            lemma_cat(ts, pos as int, e1 as int, e1 + 1, seq![Sym::P(Punct::LBracket)] + pl, seq![Sym::P(Punct::RBracket)]);
        }
        return Ok((x, e1 + 1));
    }
    if at_punct(toks, pos, Punct::LParen) {
        let (mut elements, e1) = parse_expr_list(toks, pos + 1)?;
        if !at_punct(toks, e1, Punct::RParen) {
            return Err(e1);
        }
        let ghost pl = pats_expr_list(elements@);
        proof {
            let ts = toks@;
            lemma_one(ts, pos as int, Sym::P(Punct::LParen));
            lemma_cat(ts, pos as int, pos + 1, e1 as int, seq![Sym::P(Punct::LParen)], pl);
            lemma_one(ts, e1 as int, Sym::P(Punct::RParen));
            lemma_cat(ts, pos as int, e1 as int, e1 + 1, seq![Sym::P(Punct::LParen)] + pl, seq![Sym::P(Punct::RParen)]);
        }
        if elements.len() == 1 {
            let ghost old_elements = elements@;
            let inner = elements.pop().unwrap();
            proof {
                assert(inner == old_elements[0]);
                assert(pl == pats_expr(inner));
            }
            return Ok((Expr::Paren(Box::new(inner)), e1 + 1));
        }
        return Ok((Expr::Tuple(TupleExpr { elements, span: span_of(toks, pos, e1 + 1) }), e1 + 1));
    }
    Err(pos)
}

/// `if (c) { ... } else ...` used as an expression: the `else` branch is required.
#[verifier::spinoff_prover]
#[verifier::rlimit(60)]
fn parse_if_expr(toks: &Vec<Token>, pos: usize) -> (r: Result<(IfExpr, usize), usize>)
    requires
        toks_ok(toks@),
    ensures
        r matches Ok((x, e)) ==> read_ok(toks@, pos, e, pats_if_expr(x)) && if_expr_grouped(x),
        tok_is(toks@, pos as int, Tok::Kw(Keyword::If)) && paren_atom_at(toks@, pos + 1) && empty_block_at(toks@, pos + 4) && tok_is(toks@, pos + 6, Tok::Kw(Keyword::Else)) && empty_block_at(toks@, pos + 7) ==> (r matches Ok((x, e)) && e == pos + 9),
    decreases toks@.len() - pos, 21nat,
{
    if !(at_kw(toks, pos, Keyword::If) && at_punct(toks, pos + 1, Punct::LParen)) {
        return Err(pos);
    }
    let (condition, e1) = parse_expr(toks, pos + 2)?;
    if !at_punct(toks, e1, Punct::RParen) {
        return Err(e1);
    }
    let (then_block, e2) = parse_block(toks, e1 + 1)?;
    if !at_kw(toks, e2, Keyword::Else) {
        return Err(e2);
    }
    let ghost ts = toks@;
    let ghost pc = pats_expr(condition);
    let ghost pb = pats_block(then_block);
    let ghost head = seq![Sym::Kw(Keyword::If), Sym::P(Punct::LParen)] + pc + seq![Sym::P(Punct::RParen)] + pb + seq![Sym::Kw(Keyword::Else)];
    proof {
        lemma_two(ts, pos as int, Sym::Kw(Keyword::If), Sym::P(Punct::LParen));
        lemma_cat(ts, pos as int, pos + 2, e1 as int, seq![Sym::Kw(Keyword::If), Sym::P(Punct::LParen)], pc);
        lemma_one(ts, e1 as int, Sym::P(Punct::RParen));
        lemma_cat(ts, pos as int, e1 as int, e1 + 1, seq![Sym::Kw(Keyword::If), Sym::P(Punct::LParen)] + pc, seq![Sym::P(Punct::RParen)]);
        lemma_cat(ts, pos as int, e1 + 1, e2 as int, seq![Sym::Kw(Keyword::If), Sym::P(Punct::LParen)] + pc + seq![Sym::P(Punct::RParen)], pb);
        lemma_one(ts, e2 as int, Sym::Kw(Keyword::Else));
        lemma_cat(ts, pos as int, e2 as int, e2 + 1, seq![Sym::Kw(Keyword::If), Sym::P(Punct::LParen)] + pc + seq![Sym::P(Punct::RParen)] + pb, seq![Sym::Kw(Keyword::Else)]);
    }
    if at_kw(toks, e2 + 1, Keyword::If) {
        let (inner, e3) = parse_if_expr(toks, e2 + 1)?;
        let x = IfExpr { condition, then_block, else_branch: Box::new(IfExprElse::ElseIf(inner)), span: span_of(toks, pos, e3) };
        proof {
            lemma_cat(ts, pos as int, e2 + 1, e3 as int, head, pats_if_expr(inner));
        }
        Ok((x, e3))
    } else {
        let (b, e3) = parse_block(toks, e2 + 1)?;
        let ghost pe = pats_block(b);
        let x = IfExpr { condition, then_block, else_branch: Box::new(IfExprElse::Else(b)), span: span_of(toks, pos, e3) };
        proof {
            lemma_cat(ts, pos as int, e2 + 1, e3 as int, head, pe);
        }
        Ok((x, e3))
    }
}

/// Expressions separated by commas, possibly none.
fn parse_expr_list(toks: &Vec<Token>, pos: usize) -> (r: Result<(Vec<Expr>, usize), usize>)
    requires
        toks_ok(toks@),
        pos <= toks@.len(),
    ensures
        r matches Ok((xs, e)) ==> pos <= e <= toks@.len() && spelled(
            toks@,
            pos as int,
            e as int,
            pats_expr_list(xs@),
        ),
        tok_is(toks@, pos as int, Tok::P(Punct::RParen)) || tok_is(toks@, pos as int, Tok::P(Punct::RBracket)) ==> (r matches Ok((xs, e)) && e == pos && xs@.len() == 0),
        atom_at(toks@, pos as int) && (tok_is(toks@, pos + 1, Tok::P(Punct::RParen)) || tok_is(toks@, pos + 1, Tok::P(Punct::RBracket))) ==> (r matches Ok((xs, e)) && e == pos + 1 && xs@.len() == 1),
        r matches Ok((xs, e)) ==> exprs_grouped(xs@),
        expr_list_end(toks@, pos as int) is Some ==> (r matches Ok((xs, e)) && e == expr_list_end(toks@, pos as int)->0),
    decreases toks@.len() - pos, 72nat,
{
    let mut items: Vec<Expr> = Vec::new();
    if at_punct(toks, pos, Punct::RParen) || at_punct(toks, pos, Punct::RBracket) {
        proof {
            lemma_empty(toks@, pos as int);
        }
        return Ok((items, pos));
    }
    let (first, mut cur) = parse_expr(toks, pos)?;
    items.push(first);
    proof {
        assert(pats_expr_list(items@) =~= pats_expr(items@[0]));
        assert(items@.drop_last() =~= Seq::<Expr>::empty());
        assert(exprs_grouped(items@.drop_last()));
    }
    while at_punct(toks, cur, Punct::Comma)
        invariant
            toks_ok(toks@),
            items@.len() > 0,
            read_ok(toks@, pos, cur, pats_expr_list(items@)),
            exprs_grouped(items@),
            expr_list_end(toks@, pos as int) is Some ==> (if tok_is(toks@, cur as int, Tok::P(Punct::Comma)) { expr_seq(toks@, cur + 1) } else { Some(cur as int) }) == expr_seq(toks@, pos as int),
            !(tok_is(toks@, pos as int, Tok::P(Punct::RParen)) || tok_is(toks@, pos as int, Tok::P(Punct::RBracket))),
            atom_at(toks@, pos as int) && (tok_is(toks@, pos + 1, Tok::P(Punct::RParen)) || tok_is(toks@, pos + 1, Tok::P(Punct::RBracket))) ==> cur == pos + 1 && items@.len() == 1,
        decreases toks@.len() - cur,
    {
        let (x, e) = parse_expr(toks, cur + 1)?;
        proof {
            lemma_one(toks@, cur as int, Sym::P(Punct::Comma));
            lemma_cat(toks@, pos as int, cur as int, cur + 1, pats_expr_list(items@), seq![Sym::P(Punct::Comma)]);
            lemma_cat(toks@, pos as int, cur + 1, e as int, pats_expr_list(items@) + seq![Sym::P(Punct::Comma)], pats_expr(x));
        }
        let ghost old_items = items@;
        items.push(x);
        proof {
            assert(items@.drop_last() =~= old_items);
        }
        cur = e;
    }
    Ok((items, cur))
}

/// A call argument: `value` or `name: value`.
fn parse_arg(toks: &Vec<Token>, pos: usize) -> (r: Result<(Arg, usize), usize>)
    requires
        toks_ok(toks@),
    ensures
        r matches Ok((a, e)) ==> read_ok(toks@, pos, e, pats_arg(a)) && grouped(a.value),
        atom_expr_at(toks@, pos as int) ==> (r matches Ok((a, e)) && e == pos + 1),
        !tok_is(toks@, pos + 1, Tok::P(Punct::Colon)) && expr_endp(toks@, pos as int) is Some ==> (r matches Ok((a, e)) && e == expr_endp(toks@, pos as int)->0),
    decreases toks@.len() - pos, 74nat,
{
    if pos < toks.len() && at_punct(toks, pos + 1, Punct::Colon) {
        if let Some(w) = at_word(toks, pos) {
            let name = Ident { name: w, span: toks[pos].span };
            let (value, e) = parse_expr(toks, pos + 2)?;
            let ghost pv = pats_expr(value);
            let a = Arg { name: Some(name), value, span: span_of(toks, pos, e) };
            proof {
                lemma_two(toks@, pos as int, Sym::Word(name.name@), Sym::P(Punct::Colon));
                assert(seq![Sym::Word(name.name@), Sym::P(Punct::Colon)] =~= pats_word(name) + seq![Sym::P(Punct::Colon)]);
                lemma_cat(toks@, pos as int, pos + 2, e as int, pats_word(name) + seq![Sym::P(Punct::Colon)], pv);
            }
            return Ok((a, e));
        }
    }
    let (value, e) = parse_expr(toks, pos)?;
    let ghost pv = pats_expr(value);
    let a = Arg { name: None, value, span: span_of(toks, pos, e) };
    proof {
        assert(pats_arg(a) =~= pv);
    }
    Ok((a, e))
}

/// Call arguments separated by commas, possibly none.
#[verifier::spinoff_prover]
#[verifier::rlimit(40)]
fn parse_args(toks: &Vec<Token>, pos: usize) -> (r: Result<(Vec<Arg>, usize), usize>)
    requires
        toks_ok(toks@),
        pos <= toks@.len(),
    ensures
        r matches Ok((xs, e)) ==> pos <= e <= toks@.len() && spelled(
            toks@,
            pos as int,
            e as int,
            pats_args(xs@),
        ),
        r matches Ok((xs, e)) ==> args_grouped(xs@),
        tok_is(toks@, pos as int, Tok::P(Punct::RParen)) ==> (r matches Ok((xs, e)) && e == pos && xs@.len() == 0),
        atom_at(toks@, pos as int) && tok_is(toks@, pos + 1, Tok::P(Punct::RParen)) ==> (r matches Ok((xs, e)) && e == pos + 1 && xs@.len() == 1),
        args_endp(toks@, pos as int) is Some ==> (r matches Ok((xs, e)) && e == args_endp(toks@, pos as int)->0),
    decreases toks@.len() - pos, 76nat,
{
    let mut items: Vec<Arg> = Vec::new();
    if at_punct(toks, pos, Punct::RParen) {
        proof {
            lemma_empty(toks@, pos as int);
        }
        return Ok((items, pos));
    }
    let (first, mut cur) = parse_arg(toks, pos)?;
    items.push(first);
    proof {
        assert(pats_args(items@) =~= pats_arg(items@[0]));
        assert(items@.drop_last() =~= Seq::<Arg>::empty());
        assert(args_grouped(items@.drop_last()));
    }
    while at_punct(toks, cur, Punct::Comma)
        invariant
            toks_ok(toks@),
            items@.len() > 0,
            read_ok(toks@, pos, cur, pats_args(items@)),
            args_grouped(items@),
            !tok_is(toks@, pos as int, Tok::P(Punct::RParen)),
            atom_at(toks@, pos as int) && tok_is(toks@, pos + 1, Tok::P(Punct::RParen)) ==> cur == pos + 1 && items@.len() == 1,
            args_endp(toks@, pos as int) is Some ==> arg_after(toks@, cur as int) == arg_seq(toks@, pos as int),
        decreases toks@.len() - cur,
    {
        let (x, e) = parse_arg(toks, cur + 1)?;
        proof {
            lemma_one(toks@, cur as int, Sym::P(Punct::Comma));
            lemma_cat(toks@, pos as int, cur as int, cur + 1, pats_args(items@), seq![Sym::P(Punct::Comma)]);
            lemma_cat(toks@, pos as int, cur + 1, e as int, pats_args(items@) + seq![Sym::P(Punct::Comma)], pats_arg(x));
        }
        let ghost old_items = items@;
        items.push(x);
        proof {
            assert(items@.drop_last() =~= old_items);
        }
        cur = e;
    }
    Ok((items, cur))
}

// ---------------------------------------------------------------------------
// Blocks and statements

/// `{ statements }`
#[verifier::spinoff_prover]
#[verifier::rlimit(40)]
pub fn parse_block(toks: &Vec<Token>, pos: usize) -> (r: Result<(Block, usize), usize>)
    requires
        toks_ok(toks@),
    ensures
        r matches Ok((b, e)) ==> read_ok(toks@, pos, e, pats_block(b)) && block_grouped(b),
        empty_block_at(toks@, pos as int) ==> (r matches Ok((b, e)) && e == pos + 2 && b.stmts@.len() == 0),
        block_endp(toks@, pos as int) is Some ==> (r matches Ok((b, e)) && e == block_endp(toks@, pos as int)->0),
    decreases toks@.len() - pos, 100nat,
{
    if !at_punct(toks, pos, Punct::LBrace) {
        return Err(pos);
    }
    let mut stmts: Vec<Stmt> = Vec::new();
    let mut cur = pos + 1;
    proof {
        lemma_one(toks@, pos as int, Sym::P(Punct::LBrace));
        assert(seq![Sym::P(Punct::LBrace)] + pats_stmts(stmts@) =~= seq![Sym::P(Punct::LBrace)]);
    }
    while !at_punct(toks, cur, Punct::RBrace)
        invariant
            toks_ok(toks@),
            pos < cur <= toks@.len(),
            spelled(toks@, pos as int, cur as int, seq![Sym::P(Punct::LBrace)] + pats_stmts(stmts@)),
            stmts_grouped(stmts@),
            empty_block_at(toks@, pos as int) ==> cur == pos + 1 && stmts@.len() == 0,
            block_endp(toks@, pos as int) is Some ==> stmts_end(toks@, cur as int) == stmts_end(toks@, pos + 1),
        decreases toks@.len() - cur,
    {
        let (st, e) = parse_stmt(toks, cur)?;
        proof {
            lemma_cat(toks@, pos as int, cur as int, e as int, seq![Sym::P(Punct::LBrace)] + pats_stmts(stmts@), pats_stmt(st));
        }
        let ghost old_stmts = stmts@;
        stmts.push(st);
        proof {
            assert(stmts@.drop_last() =~= old_stmts);
            assert(seq![Sym::P(Punct::LBrace)] + pats_stmts(stmts@) =~= seq![Sym::P(Punct::LBrace)] + pats_stmts(old_stmts) + pats_stmt(st));
        }
        cur = e;
    }
    let b = Block { stmts, span: span_of(toks, pos, cur + 1) };
    proof {
        lemma_one(toks@, cur as int, Sym::P(Punct::RBrace));
        lemma_cat(toks@, pos as int, cur as int, cur + 1, seq![Sym::P(Punct::LBrace)] + pats_stmts(b.stmts@), seq![Sym::P(Punct::RBrace)]);
    }
    Ok((b, cur + 1))
}


/// A storage location word, if one stands at `pos`.
fn parse_opt_storage(toks: &Vec<Token>, pos: usize) -> (r: (Option<StorageLocation>, usize))
    requires
        toks_ok(toks@),
        pos <= toks@.len(),
    ensures
        pos <= r.1 <= toks@.len(),
        spelled(toks@, pos as int, r.1 as int, pats_opt_storage(r.0)),
        !(pos < toks@.len() && toks@[pos as int].tok is Kw) ==> (r.0 is None && r.1 == pos),
        storage_at(toks@, pos as int) ==> (r.0 is Some && r.1 == pos + 1),
        !storage_at(toks@, pos as int) ==> (r.0 is None && r.1 == pos),
{
    let l = if at_kw(toks, pos, Keyword::Memory) {
        Some(StorageLocation::Memory)
    } else if at_kw(toks, pos, Keyword::Storage) {
        Some(StorageLocation::Storage)
    } else if at_kw(toks, pos, Keyword::Calldata) {
        Some(StorageLocation::Calldata)
    } else {
        None
    };
    match l {
        Some(x) => {
            proof {
                lemma_one(toks@, pos as int, Sym::Kw(storage_kw(x)));
            }
            (l, pos + 1)
        },
        None => {
            proof {
                lemma_empty(toks@, pos as int);
            }
            (l, pos)
        },
    }
}

/// An expression, or nothing when the token at `pos` is `stop`.
fn parse_opt_expr(toks: &Vec<Token>, pos: usize, stop: Punct) -> (r: Result<(Option<Expr>, usize), usize>)
    requires
        toks_ok(toks@),
        pos <= toks@.len(),
    ensures
        r matches Ok((x, e)) ==> pos <= e <= toks@.len() && spelled(
            toks@,
            pos as int,
            e as int,
            pats_opt_expr(x),
        ),
        r matches Ok((x, e)) ==> opt_grouped(x),
        tok_is(toks@, pos as int, Tok::P(stop)) ==> (r matches Ok((x, e)) && e == pos && x is None),
        atom_expr_at(toks@, pos as int) ==> (r matches Ok((x, e)) && e == pos + 1 && x is Some),
        !tok_is(toks@, pos as int, Tok::P(stop)) && expr_endp(toks@, pos as int) is Some ==> (r matches Ok((x, e)) && e == expr_endp(toks@, pos as int)->0),
        opt_expr_end(toks@, pos as int, stop) is Some ==> (r matches Ok((x, e)) && e == opt_expr_end(toks@, pos as int, stop)->0),
    decreases toks@.len() - pos, 71nat,
{
    if at_punct(toks, pos, stop) {
        proof {
            lemma_empty(toks@, pos as int);
        }
        Ok((None, pos))
    } else {
        let (x, e) = parse_expr(toks, pos)?;
        Ok((Some(x), e))
    }
}

/// `T [location] name [= value]`, without the closing `;`.
#[verifier::spinoff_prover]
#[verifier::rlimit(40)]
fn parse_var_decl(toks: &Vec<Token>, pos: usize) -> (r: Result<(VarDeclStmt, usize), usize>)
    requires
        toks_ok(toks@),
    ensures
        r matches Ok((v, e)) ==> read_ok(toks@, pos, e, pats_var_decl(v)) && var_decl_grouped(v),
        plain_type_at(toks@, pos as int) && name_at(toks@, pos + 1) && !tok_is(toks@, pos + 2, Tok::P(Punct::Assign)) ==> (r matches Ok((v, e)) && e == pos + 2 && v.initializer is None),
        plain_type_at(toks@, pos as int) && assign_at(toks@, pos + 1) ==> r is Err,
        stmt_expr_start(toks@, pos as int) ==> r is Err,
        plain_type_at(toks@, pos as int) && name_at(toks@, pos + 1) && tok_is(toks@, pos + 2, Tok::P(Punct::Assign)) && expr_endp(toks@, pos + 3) is Some ==> (r matches Ok((v, e)) && e == expr_endp(toks@, pos + 3)->0),
        decl_name_pos(toks@, pos as int) is Some && tok_is(toks@, decl_name_pos(toks@, pos as int)->0 + 1, Tok::P(Punct::Semi)) ==> (r matches Ok((v, e)) && e == decl_name_pos(toks@, pos as int)->0 + 1),
        decl_name_pos(toks@, pos as int) is Some && tok_is(toks@, decl_name_pos(toks@, pos as int)->0 + 1, Tok::P(Punct::Assign)) && expr_endp(toks@, decl_name_pos(toks@, pos as int)->0 + 2) is Some ==> (r matches Ok((v, e)) && e == expr_endp(toks@, decl_name_pos(toks@, pos as int)->0 + 2)->0),
    decreases toks@.len() - pos, 80nat,
{
    let (ty, e1) = parse_type(toks, pos)?;
    let (storage_location, e2) = parse_opt_storage(toks, e1);
    let (name, e3) = parse_ident(toks, e2)?;
    let ghost ts = toks@;
    let ghost head = pats_type(ty) + pats_opt_storage(storage_location) + pats_word(name);
    proof {
        lemma_cat(ts, pos as int, e1 as int, e2 as int, pats_type(ty), pats_opt_storage(storage_location));
        lemma_cat(ts, pos as int, e2 as int, e3 as int, pats_type(ty) + pats_opt_storage(storage_location), pats_word(name));
    }
    if at_punct(toks, e3, Punct::Assign) {
        let (x, e4) = parse_expr(toks, e3 + 1)?;
        let ghost px = pats_expr(x);
        let v = VarDeclStmt { ty, storage_location, name, initializer: Some(x), span: span_of(toks, pos, e4) };
        proof {
            lemma_one(ts, e3 as int, Sym::P(Punct::Assign));
            lemma_cat(ts, e3 as int, e3 + 1, e4 as int, seq![Sym::P(Punct::Assign)], px);
            lemma_cat(ts, pos as int, e3 as int, e4 as int, head, seq![Sym::P(Punct::Assign)] + px);
        }
        Ok((v, e4))
    } else {
        let v = VarDeclStmt { ty, storage_location, name, initializer: None, span: span_of(toks, pos, e3) };
        proof {
            assert(pats_var_decl(v) =~= head);
        }
        Ok((v, e3))
    }
}

/// `if (c) { ... } [else if ... | else { ... }]`
#[verifier::spinoff_prover]
#[verifier::rlimit(80)]
fn parse_if_stmt(toks: &Vec<Token>, pos: usize) -> (r: Result<(IfStmt, usize), usize>)
    requires
        toks_ok(toks@),
    ensures
        r matches Ok((x, e)) ==> read_ok(toks@, pos, e, pats_if_stmt(x)) && if_stmt_grouped(x),
        tok_is(toks@, pos as int, Tok::Kw(Keyword::If)) && paren_atom_at(toks@, pos + 1) && empty_block_at(toks@, pos + 4) && !tok_is(toks@, pos + 6, Tok::Kw(Keyword::Else)) ==> (r matches Ok((x, e)) && e == pos + 6 && x.else_branch is None),
        tok_is(toks@, pos as int, Tok::Kw(Keyword::If)) && if_endp(toks@, pos as int) is Some ==> (r matches Ok((x, e)) && e == if_endp(toks@, pos as int)->0),
    decreases toks@.len() - pos, 88nat,
{
    if !(at_kw(toks, pos, Keyword::If) && at_punct(toks, pos + 1, Punct::LParen)) {
        return Err(pos);
    }
    let (condition, e1) = parse_expr(toks, pos + 2)?;
    if !at_punct(toks, e1, Punct::RParen) {
        return Err(e1);
    }
    let (then_block, e2) = parse_block(toks, e1 + 1)?;
    let ghost ts = toks@;
    let ghost pc = pats_expr(condition);
    let ghost pb = pats_block(then_block);
    let ghost k = seq![Sym::Kw(Keyword::If), Sym::P(Punct::LParen)];
    let ghost head = k + pc + seq![Sym::P(Punct::RParen)] + pb;
    proof {
        lemma_two(ts, pos as int, Sym::Kw(Keyword::If), Sym::P(Punct::LParen));
        lemma_cat(ts, pos as int, pos + 2, e1 as int, k, pc);
        lemma_then(ts, pos as int, e1 as int, k + pc, Sym::P(Punct::RParen));
        lemma_cat(ts, pos as int, e1 + 1, e2 as int, k + pc + seq![Sym::P(Punct::RParen)], pb);
    }
    if !at_kw(toks, e2, Keyword::Else) {
        let x = IfStmt { condition, then_block, else_branch: None, span: span_of(toks, pos, e2) };
        proof {
            assert(pats_if_stmt(x) =~= head);
        }
        return Ok((x, e2));
    }
    proof {
        lemma_then(ts, pos as int, e2 as int, head, Sym::Kw(Keyword::Else));
    }
    if at_kw(toks, e2 + 1, Keyword::If) {
        let (inner, e3) = parse_if_stmt(toks, e2 + 1)?;
        let ghost pi = pats_if_stmt(inner);
        let x = IfStmt { condition, then_block, else_branch: Some(ElseBranch::ElseIf(Box::new(inner))), span: span_of(toks, pos, e3) };
        proof {
            lemma_cat(ts, pos as int, e2 + 1, e3 as int, head + seq![Sym::Kw(Keyword::Else)], pi);
            assert(pats_if_stmt(x) =~= head + seq![Sym::Kw(Keyword::Else)] + pi);
        }
        Ok((x, e3))
    } else {
        let (b, e3) = parse_block(toks, e2 + 1)?;
        let ghost pe = pats_block(b);
        let x = IfStmt { condition, then_block, else_branch: Some(ElseBranch::Else(b)), span: span_of(toks, pos, e3) };
        proof {
            lemma_cat(ts, pos as int, e2 + 1, e3 as int, head + seq![Sym::Kw(Keyword::Else)], pe);
            assert(pats_if_stmt(x) =~= head + seq![Sym::Kw(Keyword::Else)] + pe);
        }
        Ok((x, e3))
    }
}

/// `return [value];`
#[verifier::spinoff_prover]
#[verifier::rlimit(40)]
fn parse_return(toks: &Vec<Token>, pos: usize) -> (r: Result<(Stmt, usize), usize>)
    requires
        toks_ok(toks@),
        pos < toks@.len(),
        tok_matches(toks@[pos as int].tok, Sym::Kw(Keyword::Return)),
    ensures
        r matches Ok((s, e)) ==> read_ok(toks@, pos, e, pats_stmt(s)) && stmt_grouped(s),
        tok_is(toks@, pos + 1, Tok::P(Punct::Semi)) ==> (r matches Ok((st, e)) && e == pos + 2),
        atom_at(toks@, pos + 1) && tok_is(toks@, pos + 2, Tok::P(Punct::Semi)) ==> (r matches Ok((st, e)) && e == pos + 3),
        tok_is(toks@, pos as int, Tok::Kw(Keyword::Return)) && return_endp(toks@, pos as int) is Some ==> (r matches Ok((st, e)) && e == return_endp(toks@, pos as int)->0),
    decreases toks@.len() - pos, 89nat,
{
    let (value, e1) = parse_opt_expr(toks, pos + 1, Punct::Semi)?;
    if !at_punct(toks, e1, Punct::Semi) {
        return Err(e1);
    }
    let ghost pv = pats_opt_expr(value);
    let s = Stmt::Return(ReturnStmt { value, span: span_of(toks, pos, e1 + 1) });
    proof {
        lemma_one(toks@, pos as int, Sym::Kw(Keyword::Return));
        lemma_cat(toks@, pos as int, pos + 1, e1 as int, seq![Sym::Kw(Keyword::Return)], pv);
        lemma_then(toks@, pos as int, e1 as int, seq![Sym::Kw(Keyword::Return)] + pv, Sym::P(Punct::Semi));
    }
    Ok((s, e1 + 1))
}

/// `while (c) { ... }`
#[verifier::spinoff_prover]
#[verifier::rlimit(40)]
fn parse_while(toks: &Vec<Token>, pos: usize) -> (r: Result<(Stmt, usize), usize>)
    requires
        toks_ok(toks@),
    ensures
        r matches Ok((s, e)) ==> read_ok(toks@, pos, e, pats_stmt(s)) && stmt_grouped(s),
        tok_is(toks@, pos as int, Tok::Kw(Keyword::While)) && paren_atom_at(toks@, pos + 1) && empty_block_at(toks@, pos + 4) ==> (r matches Ok((st, e)) && e == pos + 6),
        tok_is(toks@, pos as int, Tok::Kw(Keyword::While)) && cond_block_endp(toks@, pos as int) is Some ==> (r matches Ok((st, e)) && e == cond_block_endp(toks@, pos as int)->0),
    decreases toks@.len() - pos, 89nat,
{
    if !(at_kw(toks, pos, Keyword::While) && at_punct(toks, pos + 1, Punct::LParen)) {
        return Err(pos);
    }
    let (condition, e1) = parse_expr(toks, pos + 2)?;
    if !at_punct(toks, e1, Punct::RParen) {
        return Err(e1);
    }
    let (body, e2) = parse_block(toks, e1 + 1)?;
    let ghost ts = toks@;
    let ghost pc = pats_expr(condition);
    let ghost pb = pats_block(body);
    let ghost k = seq![Sym::Kw(Keyword::While), Sym::P(Punct::LParen)];
    let s = Stmt::While(WhileStmt { condition, body, span: span_of(toks, pos, e2) });
    proof {
        lemma_two(ts, pos as int, Sym::Kw(Keyword::While), Sym::P(Punct::LParen));
        lemma_cat(ts, pos as int, pos + 2, e1 as int, k, pc);
        lemma_then(ts, pos as int, e1 as int, k + pc, Sym::P(Punct::RParen));
        lemma_cat(ts, pos as int, e1 + 1, e2 as int, k + pc + seq![Sym::P(Punct::RParen)], pb);
    }
    Ok((s, e2))
}

/// The first part of a `for` header, up to its `;`.
fn parse_for_init(toks: &Vec<Token>, pos: usize) -> (r: Result<(Option<ForInit>, usize), usize>)
    requires
        toks_ok(toks@),
        pos <= toks@.len(),
    ensures
        r matches Ok((i, e)) ==> pos <= e <= toks@.len() && spelled(
            toks@,
            pos as int,
            e as int,
            pats_for_init(i),
        ),
        r matches Ok((i, e)) ==> for_init_grouped(i),
        tok_is(toks@, pos as int, Tok::P(Punct::Semi)) ==> (r matches Ok((x, e)) && e == pos && x is None),
        for_init_end(toks@, pos as int) is Some ==> (r matches Ok((x, e)) && e == for_init_end(toks@, pos as int)->0),
    decreases toks@.len() - pos, 85nat,
{
    if at_punct(toks, pos, Punct::Semi) {
        proof {
            lemma_empty(toks@, pos as int);
        }
        return Ok((None, pos));
    }
    match parse_var_decl(toks, pos) {
        Ok((v, e)) => {
            if at_punct(toks, e, Punct::Semi) {
                return Ok((Some(ForInit::VarDecl(v)), e));
            }
        },
        Err(_) => {},
    }
    let (x, e) = parse_expr(toks, pos)?;
    Ok((Some(ForInit::Expr(x)), e))
}

/// `for (init; condition; update) { ... }`
#[verifier::spinoff_prover]
#[verifier::rlimit(100)]
fn parse_for(toks: &Vec<Token>, pos: usize) -> (r: Result<(Stmt, usize), usize>)
    requires
        toks_ok(toks@),
    ensures
        r matches Ok((s, e)) ==> read_ok(toks@, pos, e, pats_stmt(s)) && stmt_grouped(s),
        tok_is(toks@, pos as int, Tok::Kw(Keyword::For)) && tok_is(toks@, pos + 1, Tok::P(Punct::LParen)) && tok_is(toks@, pos + 2, Tok::P(Punct::Semi)) && tok_is(toks@, pos + 3, Tok::P(Punct::Semi)) && tok_is(toks@, pos + 4, Tok::P(Punct::RParen)) && empty_block_at(toks@, pos + 5) ==> (r matches Ok((st, e)) && e == pos + 7),
        tok_is(toks@, pos as int, Tok::Kw(Keyword::For)) && for_endp(toks@, pos as int) is Some ==> (r matches Ok((st, e)) && e == for_endp(toks@, pos as int)->0),
    decreases toks@.len() - pos, 89nat,
{
    if !(at_kw(toks, pos, Keyword::For) && at_punct(toks, pos + 1, Punct::LParen)) {
        return Err(pos);
    }
    let (init, e1) = parse_for_init(toks, pos + 2)?;
    if !at_punct(toks, e1, Punct::Semi) {
        return Err(e1);
    }
    let (condition, e2) = parse_opt_expr(toks, e1 + 1, Punct::Semi)?;
    if !at_punct(toks, e2, Punct::Semi) {
        return Err(e2);
    }
    let (update, e3) = parse_opt_expr(toks, e2 + 1, Punct::RParen)?;
    if !at_punct(toks, e3, Punct::RParen) {
        return Err(e3);
    }
    let (body, e4) = parse_block(toks, e3 + 1)?;
    let ghost ts = toks@;
    let ghost pi = pats_for_init(init);
    let ghost pc = pats_opt_expr(condition);
    let ghost pu = pats_opt_expr(update);
    let ghost pb = pats_block(body);
    let ghost k = seq![Sym::Kw(Keyword::For), Sym::P(Punct::LParen)];
    let s = Stmt::For(ForStmt { init, condition, update, body, span: span_of(toks, pos, e4) });
    assert(stmt_grouped(s));
    proof {
        lemma_two(ts, pos as int, Sym::Kw(Keyword::For), Sym::P(Punct::LParen));
        lemma_cat(ts, pos as int, pos + 2, e1 as int, k, pi);
        lemma_then(ts, pos as int, e1 as int, k + pi, Sym::P(Punct::Semi));
        let a1 = k + pi + seq![Sym::P(Punct::Semi)];
        lemma_cat(ts, pos as int, e1 + 1, e2 as int, a1, pc);
        lemma_then(ts, pos as int, e2 as int, a1 + pc, Sym::P(Punct::Semi));
        let a2 = a1 + pc + seq![Sym::P(Punct::Semi)];
        lemma_cat(ts, pos as int, e2 + 1, e3 as int, a2, pu);
        lemma_then(ts, pos as int, e3 as int, a2 + pu, Sym::P(Punct::RParen));
        lemma_cat(ts, pos as int, e3 + 1, e4 as int, a2 + pu + seq![Sym::P(Punct::RParen)], pb);
    }
    Ok((s, e4))
}

/// `emit Event(args);`
#[verifier::spinoff_prover]
#[verifier::rlimit(40)]
fn parse_emit(toks: &Vec<Token>, pos: usize) -> (r: Result<(Stmt, usize), usize>)
    requires
        toks_ok(toks@),
        pos < toks@.len(),
        tok_matches(toks@[pos as int].tok, Sym::Kw(Keyword::Emit)),
    ensures
        r matches Ok((s, e)) ==> read_ok(toks@, pos, e, pats_stmt(s)) && stmt_grouped(s),
        name_at(toks@, pos + 1) && tok_is(toks@, pos + 2, Tok::P(Punct::LParen)) && tok_is(toks@, pos + 3, Tok::P(Punct::RParen)) && tok_is(toks@, pos + 4, Tok::P(Punct::Semi)) ==> (r matches Ok((st, e)) && e == pos + 5),
        tok_is(toks@, pos as int, Tok::Kw(Keyword::Emit)) && emit_endp(toks@, pos as int) is Some ==> (r matches Ok((st, e)) && e == emit_endp(toks@, pos as int)->0),
    decreases toks@.len() - pos, 89nat,
{
    let (event, e1) = parse_ident(toks, pos + 1)?;
    if !at_punct(toks, e1, Punct::LParen) {
        return Err(e1);
    }
    let (args, e2) = parse_args(toks, e1 + 1)?;
    if !(at_punct(toks, e2, Punct::RParen) && at_punct(toks, e2 + 1, Punct::Semi)) {
        return Err(e2);
    }
    let ghost ts = toks@;
    let ghost pe = pats_word(event);
    let ghost pa = pats_args(args@);
    let ghost k = seq![Sym::Kw(Keyword::Emit)];
    let s = Stmt::Emit(EmitStmt { event, args, span: span_of(toks, pos, e2 + 2) });
    proof {
        lemma_one(ts, pos as int, Sym::Kw(Keyword::Emit));
        lemma_cat(ts, pos as int, pos + 1, e1 as int, k, pe);
        lemma_then(ts, pos as int, e1 as int, k + pe, Sym::P(Punct::LParen));
        lemma_cat(ts, pos as int, e1 + 1, e2 as int, k + pe + seq![Sym::P(Punct::LParen)], pa);
        lemma_then2(ts, pos as int, e2 as int, k + pe + seq![Sym::P(Punct::LParen)] + pa, Sym::P(Punct::RParen), Sym::P(Punct::Semi));
    }
    Ok((s, e2 + 2))
}

/// `require(condition[, "message"]);`
#[verifier::spinoff_prover]
#[verifier::rlimit(40)]
fn parse_require(toks: &Vec<Token>, pos: usize) -> (r: Result<(Stmt, usize), usize>)
    requires
        toks_ok(toks@),
    ensures
        r matches Ok((s, e)) ==> read_ok(toks@, pos, e, pats_stmt(s)) && stmt_grouped(s),
        tok_is(toks@, pos as int, Tok::Kw(Keyword::Require)) && paren_atom_at(toks@, pos + 1) && tok_is(toks@, pos + 4, Tok::P(Punct::Semi)) ==> (r matches Ok((st, e)) && e == pos + 5),
        tok_is(toks@, pos as int, Tok::Kw(Keyword::Require)) && require_endp(toks@, pos as int) is Some ==> (r matches Ok((st, e)) && e == require_endp(toks@, pos as int)->0),
    decreases toks@.len() - pos, 89nat,
{
    if !(at_kw(toks, pos, Keyword::Require) && at_punct(toks, pos + 1, Punct::LParen)) {
        return Err(pos);
    }
    let (condition, e1) = parse_expr(toks, pos + 2)?;
    let ghost ts = toks@;
    let ghost pc = pats_expr(condition);
    let ghost k = seq![Sym::Kw(Keyword::Require), Sym::P(Punct::LParen)];
    proof {
        lemma_two(ts, pos as int, Sym::Kw(Keyword::Require), Sym::P(Punct::LParen));
        lemma_cat(ts, pos as int, pos + 2, e1 as int, k, pc);
    }
    let mut e2 = e1;
    let mut message: Option<String> = None;
    if at_punct(toks, e1, Punct::Comma) {
        match at_str(toks, e1 + 1) {
            Some(m) => {
                proof {
                    lemma_then2(ts, pos as int, e1 as int, k + pc, Sym::P(Punct::Comma), Sym::Str(m@));
                }
                message = Some(m);
                e2 = e1 + 2;
            },
            None => {
                return Err(e1 + 1);
            },
        }
    }
    let ghost pm = pats_opt_message(message);
    proof {
        if message.is_none() {
            assert(k + pc + pm =~= k + pc);
        }
    }
    if !(at_punct(toks, e2, Punct::RParen) && at_punct(toks, e2 + 1, Punct::Semi)) {
        return Err(e2);
    }
    let s = Stmt::Require(RequireStmt { condition, message, span: span_of(toks, pos, e2 + 2) });
    proof {
        lemma_then2(ts, pos as int, e2 as int, k + pc + pm, Sym::P(Punct::RParen), Sym::P(Punct::Semi));
    }
    Ok((s, e2 + 2))
}

/// `revert Error(args);`, `revert("message");` or `revert();`
#[verifier::spinoff_prover]
#[verifier::rlimit(90)]
fn parse_revert(toks: &Vec<Token>, pos: usize) -> (r: Result<(Stmt, usize), usize>)
    requires
        toks_ok(toks@),
        pos < toks@.len(),
        tok_matches(toks@[pos as int].tok, Sym::Kw(Keyword::Revert)),
    ensures
        r matches Ok((s, e)) ==> read_ok(toks@, pos, e, pats_stmt(s)) && stmt_grouped(s),
        tok_is(toks@, pos + 1, Tok::P(Punct::LParen)) && tok_is(toks@, pos + 2, Tok::P(Punct::RParen)) && tok_is(toks@, pos + 3, Tok::P(Punct::Semi)) ==> (r matches Ok((st, e)) && e == pos + 4),
        name_at(toks@, pos + 1) && tok_is(toks@, pos + 2, Tok::P(Punct::LParen)) && tok_is(toks@, pos + 3, Tok::P(Punct::RParen)) && tok_is(toks@, pos + 4, Tok::P(Punct::Semi)) ==> (r matches Ok((st, e)) && e == pos + 5),
        tok_is(toks@, pos as int, Tok::Kw(Keyword::Revert)) && revert_endp(toks@, pos as int) is Some ==> (r matches Ok((st, e)) && e == revert_endp(toks@, pos as int)->0),
    decreases toks@.len() - pos, 89nat,
{
    let ghost ts = toks@;
    let ghost k = seq![Sym::Kw(Keyword::Revert)];
    proof {
        lemma_one(ts, pos as int, Sym::Kw(Keyword::Revert));
    }
    if at_punct(toks, pos + 1, Punct::LParen) {
        if at_punct(toks, pos + 2, Punct::RParen) {
            if !at_punct(toks, pos + 3, Punct::Semi) {
                return Err(pos + 3);
            }
            let s = Stmt::Revert(RevertStmt { kind: RevertKind::Message(None), span: span_of(toks, pos, pos + 4) });
            proof {
                lemma_then2(ts, pos as int, pos + 1, k, Sym::P(Punct::LParen), Sym::P(Punct::RParen));
                lemma_then(ts, pos as int, pos + 3, k + seq![Sym::P(Punct::LParen), Sym::P(Punct::RParen)], Sym::P(Punct::Semi));
            }
            return Ok((s, pos + 4));
        }
        let m = match at_str(toks, pos + 2) {
            Some(m) => m,
            None => {
                return Err(pos + 2);
            },
        };
        if !(at_punct(toks, pos + 3, Punct::RParen) && at_punct(toks, pos + 4, Punct::Semi)) {
            return Err(pos + 3);
        }
        proof {
            lemma_then2(ts, pos as int, pos + 1, k, Sym::P(Punct::LParen), Sym::Str(m@));
            lemma_then2(ts, pos as int, pos + 3, k + seq![Sym::P(Punct::LParen), Sym::Str(m@)], Sym::P(Punct::RParen), Sym::P(Punct::Semi));
            assert(k + seq![Sym::P(Punct::LParen), Sym::Str(m@)] + seq![Sym::P(Punct::RParen), Sym::P(Punct::Semi)] =~= k + seq![Sym::P(Punct::LParen), Sym::Str(m@), Sym::P(Punct::RParen)] + seq![Sym::P(Punct::Semi)]);
        }
        let s = Stmt::Revert(RevertStmt { kind: RevertKind::Message(Some(m)), span: span_of(toks, pos, pos + 5) });
        return Ok((s, pos + 5));
    }
    let (name, e1) = parse_ident(toks, pos + 1)?;
    if !at_punct(toks, e1, Punct::LParen) {
        return Err(e1);
    }
    let (args, e2) = parse_args(toks, e1 + 1)?;
    if !(at_punct(toks, e2, Punct::RParen) && at_punct(toks, e2 + 1, Punct::Semi)) {
        return Err(e2);
    }
    let ghost pn = pats_word(name);
    let ghost pa = pats_args(args@);
    let s = Stmt::Revert(RevertStmt { kind: RevertKind::Error { name, args }, span: span_of(toks, pos, e2 + 2) });
    proof {
        lemma_cat(ts, pos as int, pos + 1, e1 as int, k, pn);
        lemma_then(ts, pos as int, e1 as int, k + pn, Sym::P(Punct::LParen));
        lemma_cat(ts, pos as int, e1 + 1, e2 as int, k + pn + seq![Sym::P(Punct::LParen)], pa);
        lemma_then2(ts, pos as int, e2 as int, k + pn + seq![Sym::P(Punct::LParen)] + pa, Sym::P(Punct::RParen), Sym::P(Punct::Semi));
        assert(k + pn + seq![Sym::P(Punct::LParen)] + pa + seq![Sym::P(Punct::RParen), Sym::P(Punct::Semi)] =~= k + (pn + seq![Sym::P(Punct::LParen)] + pa + seq![Sym::P(Punct::RParen)]) + seq![Sym::P(Punct::Semi)]);
    }
    Ok((s, e2 + 2))
}

/// `delete target;`
fn parse_delete(toks: &Vec<Token>, pos: usize) -> (r: Result<(Stmt, usize), usize>)
    requires
        toks_ok(toks@),
        pos < toks@.len(),
        tok_matches(toks@[pos as int].tok, Sym::Kw(Keyword::Delete)),
    ensures
        r matches Ok((s, e)) ==> read_ok(toks@, pos, e, pats_stmt(s)) && stmt_grouped(s),
        atom_at(toks@, pos + 1) && tok_is(toks@, pos + 2, Tok::P(Punct::Semi)) ==> (r matches Ok((st, e)) && e == pos + 3),
        delete_endp(toks@, pos as int) is Some ==> (r matches Ok((st, e)) && e == delete_endp(toks@, pos as int)->0),
    decreases toks@.len() - pos, 89nat,
{
    let (target, e1) = parse_expr(toks, pos + 1)?;
    if !at_punct(toks, e1, Punct::Semi) {
        return Err(e1);
    }
    let ghost pt = pats_expr(target);
    let s = Stmt::Delete(DeleteStmt { target, span: span_of(toks, pos, e1 + 1) });
    proof {
        lemma_one(toks@, pos as int, Sym::Kw(Keyword::Delete));
        lemma_cat(toks@, pos as int, pos + 1, e1 as int, seq![Sym::Kw(Keyword::Delete)], pt);
        lemma_then(toks@, pos as int, e1 as int, seq![Sym::Kw(Keyword::Delete)] + pt, Sym::P(Punct::Semi));
    }
    Ok((s, e1 + 1))
}

/// `selfdestruct(recipient);`
fn parse_selfdestruct(toks: &Vec<Token>, pos: usize) -> (r: Result<(Stmt, usize), usize>)
    requires
        toks_ok(toks@),
    ensures
        r matches Ok((s, e)) ==> read_ok(toks@, pos, e, pats_stmt(s)) && stmt_grouped(s),
        tok_is(toks@, pos as int, Tok::Kw(Keyword::Selfdestruct)) && paren_atom_at(toks@, pos + 1) && tok_is(toks@, pos + 4, Tok::P(Punct::Semi)) ==> (r matches Ok((st, e)) && e == pos + 5),
        tok_is(toks@, pos as int, Tok::Kw(Keyword::Selfdestruct)) && selfdestruct_endp(toks@, pos as int) is Some ==> (r matches Ok((st, e)) && e == selfdestruct_endp(toks@, pos as int)->0),
    decreases toks@.len() - pos, 89nat,
{
    if !(at_kw(toks, pos, Keyword::Selfdestruct) && at_punct(toks, pos + 1, Punct::LParen)) {
        return Err(pos);
    }
    let (recipient, e1) = parse_expr(toks, pos + 2)?;
    if !(at_punct(toks, e1, Punct::RParen) && at_punct(toks, e1 + 1, Punct::Semi)) {
        return Err(e1);
    }
    let ghost pr = pats_expr(recipient);
    let ghost k = seq![Sym::Kw(Keyword::Selfdestruct), Sym::P(Punct::LParen)];
    let s = Stmt::Selfdestruct(SelfdestructStmt { recipient, span: span_of(toks, pos, e1 + 2) });
    proof {
        lemma_two(toks@, pos as int, Sym::Kw(Keyword::Selfdestruct), Sym::P(Punct::LParen));
        lemma_cat(toks@, pos as int, pos + 2, e1 as int, k, pr);
        lemma_then2(toks@, pos as int, e1 as int, k + pr, Sym::P(Punct::RParen), Sym::P(Punct::Semi));
    }
    Ok((s, e1 + 2))
}

/// One statement. At a statement that starts with no reserved word, a declaration is
/// tried first and an expression statement after it.
#[verifier::spinoff_prover]
#[verifier::rlimit(100)]
pub fn parse_stmt(toks: &Vec<Token>, pos: usize) -> (r: Result<(Stmt, usize), usize>)
    requires
        toks_ok(toks@),
    ensures
        r matches Ok((s, e)) ==> read_ok(toks@, pos, e, pats_stmt(s)) && stmt_grouped(s),
        tok_is(toks@, pos as int, Tok::Kw(Keyword::Return)) && tok_is(toks@, pos + 1, Tok::P(Punct::Semi)) ==> (r matches Ok((st, e)) && e == pos + 2),
        tok_is(toks@, pos as int, Tok::Kw(Keyword::Revert)) && tok_is(toks@, pos + 1, Tok::P(Punct::LParen)) && tok_is(toks@, pos + 2, Tok::P(Punct::RParen)) && tok_is(toks@, pos + 3, Tok::P(Punct::Semi)) ==> (r matches Ok((st, e)) && e == pos + 4),
        stmt_endp(toks@, pos as int) is Some ==> (r matches Ok((st, e)) && e == stmt_endp(toks@, pos as int)->0),
    decreases toks@.len() - pos, 90nat,
{
    if at_kw(toks, pos, Keyword::Return) {
        return parse_return(toks, pos);
    }
    if at_kw(toks, pos, Keyword::If) {
        let (i, e) = parse_if_stmt(toks, pos)?;
        return Ok((Stmt::If(i), e));
    }
    if at_kw(toks, pos, Keyword::While) {
        return parse_while(toks, pos);
    }
    if at_kw(toks, pos, Keyword::For) {
        return parse_for(toks, pos);
    }
    if at_kw(toks, pos, Keyword::Emit) {
        return parse_emit(toks, pos);
    }
    if at_kw(toks, pos, Keyword::Require) {
        return parse_require(toks, pos);
    }
    if at_kw(toks, pos, Keyword::Revert) {
        return parse_revert(toks, pos);
    }
    if at_kw(toks, pos, Keyword::Delete) {
        return parse_delete(toks, pos);
    }
    if at_kw(toks, pos, Keyword::Selfdestruct) {
        return parse_selfdestruct(toks, pos);
    }
    if at_word_text(toks, pos, "_") && at_punct(toks, pos + 1, Punct::Semi) {
        proof {
            lemma_two(toks@, pos as int, Sym::Word("_"@), Sym::P(Punct::Semi));
        }
        return Ok((Stmt::Placeholder(span_of(toks, pos, pos + 2)), pos + 2));
    }
    let mut fail = pos;
    match parse_var_decl(toks, pos) {
        Ok((v, e)) => {
            if at_punct(toks, e, Punct::Semi) {
                proof {
                    lemma_then(toks@, pos as int, e as int, pats_var_decl(v), Sym::P(Punct::Semi));
                }
                return Ok((Stmt::VarDecl(v), e + 1));
            }
            fail = e;
        },
        Err(p) => {
            fail = p;
        },
    }
    match parse_expr(toks, pos) {
        Ok((x, e)) => {
            if !at_punct(toks, e, Punct::Semi) {
                return Err(if e > fail { e } else { fail });
            }
            let ghost px = pats_expr(x);
            assert((x matches Expr::Ident(i) && i.name@ == "_"@) ==> word_at(toks@, pos as int, "_"@) && e == pos + 1) by {
                if x is Ident {
                    assert(px == seq![Sym::Word(x->Ident_0.name@)]);
                    assert(px.len() == 1);
                    assert(tok_matches(toks@[pos + 0].tok, px[0]));
                }
            }
            let s = Stmt::Expr(ExprStmt { expr: x, span: span_of(toks, pos, e + 1) });
            proof {
                lemma_then(toks@, pos as int, e as int, px, Sym::P(Punct::Semi));
            }
            Ok((s, e + 1))
        },
        Err(p) => Err(if p > fail { p } else { fail }),
    }
}

// ---------------------------------------------------------------------------
// Declarations

/// Attribute arguments separated by commas, possibly none.
fn parse_attr_arg_list(toks: &Vec<Token>, pos: usize) -> (r: Result<(Vec<AttributeArg>, usize), usize>)
    requires
        toks_ok(toks@),
        pos <= toks@.len(),
    ensures
        r matches Ok((xs, e)) ==> pos <= e <= toks@.len() && spelled(
            toks@,
            pos as int,
            e as int,
            pats_attr_arg_list(xs@),
        ),
        tok_is(toks@, pos as int, Tok::P(Punct::RParen)) ==> (r matches Ok((xs, e)) && e == pos && xs@.len() == 0),
{
    let mut items: Vec<AttributeArg> = Vec::new();
    if at_punct(toks, pos, Punct::RParen) {
        proof {
            lemma_empty(toks@, pos as int);
        }
        return Ok((items, pos));
    }
    let (first, mut cur) = parse_attr_arg(toks, pos)?;
    items.push(first);
    proof {
        assert(pats_attr_arg_list(items@) =~= pats_attr_arg(items@[0]));
    }
    while at_punct(toks, cur, Punct::Comma)
        invariant
            toks_ok(toks@),
            items@.len() > 0,
            read_ok(toks@, pos, cur, pats_attr_arg_list(items@)),
            !tok_is(toks@, pos as int, Tok::P(Punct::RParen)),
        decreases toks@.len() - cur,
    {
        let (x, e) = parse_attr_arg(toks, cur + 1)?;
        proof {
            lemma_then(toks@, pos as int, cur as int, pats_attr_arg_list(items@), Sym::P(Punct::Comma));
            lemma_cat(toks@, pos as int, cur + 1, e as int, pats_attr_arg_list(items@) + seq![Sym::P(Punct::Comma)], pats_attr_arg(x));
        }
        let ghost old_items = items@;
        items.push(x);
        proof {
            assert(items@.drop_last() =~= old_items);
        }
        cur = e;
    }
    Ok((items, cur))
}

/// Parameters separated by commas, possibly none.
#[verifier::spinoff_prover]
#[verifier::rlimit(40)]
fn parse_param_list(toks: &Vec<Token>, pos: usize) -> (r: Result<(Vec<Param>, usize), usize>)
    requires
        toks_ok(toks@),
        pos <= toks@.len(),
    ensures
        r matches Ok((xs, e)) ==> pos <= e <= toks@.len() && spelled(
            toks@,
            pos as int,
            e as int,
            pats_param_list(xs@),
        ),
        tok_is(toks@, pos as int, Tok::P(Punct::RParen)) ==> (r matches Ok((xs, e)) && e == pos && xs@.len() == 0),
        param_list_end(toks@, pos as int) is Some ==> (r matches Ok((xs, e)) && e == param_list_end(toks@, pos as int)->0),
{
    let mut items: Vec<Param> = Vec::new();
    if at_punct(toks, pos, Punct::RParen) {
        proof {
            lemma_empty(toks@, pos as int);
        }
        return Ok((items, pos));
    }
    let (first, mut cur) = parse_param(toks, pos)?;
    items.push(first);
    proof {
        assert(pats_param_list(items@) =~= pats_param(items@[0]));
    }
    while at_punct(toks, cur, Punct::Comma)
        invariant
            toks_ok(toks@),
            items@.len() > 0,
            read_ok(toks@, pos, cur, pats_param_list(items@)),
            param_list_end(toks@, pos as int) is Some && !tok_is(toks@, pos as int, Tok::P(Punct::RParen)) ==> param_after(toks@, cur as int) == param_seq_end(toks@, pos as int),
            !tok_is(toks@, pos as int, Tok::P(Punct::RParen)),
        decreases toks@.len() - cur,
    {
        let (x, e) = parse_param(toks, cur + 1)?;
        proof {
            lemma_then(toks@, pos as int, cur as int, pats_param_list(items@), Sym::P(Punct::Comma));
            lemma_cat(toks@, pos as int, cur + 1, e as int, pats_param_list(items@) + seq![Sym::P(Punct::Comma)], pats_param(x));
        }
        let ghost old_items = items@;
        items.push(x);
        proof {
            assert(items@.drop_last() =~= old_items);
        }
        cur = e;
    }
    Ok((items, cur))
}

/// Return parameters separated by commas, possibly none.
#[verifier::spinoff_prover]
#[verifier::rlimit(40)]
fn parse_return_param_list(toks: &Vec<Token>, pos: usize) -> (r: Result<(Vec<ReturnParam>, usize), usize>)
    requires
        toks_ok(toks@),
        pos <= toks@.len(),
    ensures
        r matches Ok((xs, e)) ==> pos <= e <= toks@.len() && spelled(
            toks@,
            pos as int,
            e as int,
            pats_return_param_list(xs@),
        ),
        tok_is(toks@, pos as int, Tok::P(Punct::RParen)) ==> (r matches Ok((xs, e)) && e == pos && xs@.len() == 0),
        plain_type_at(toks@, pos as int) && tok_is(toks@, pos + 1, Tok::P(Punct::RParen)) ==> (r matches Ok((xs, e)) && e == pos + 1 && xs@.len() == 1),
        !tok_is(toks@, pos as int, Tok::P(Punct::RParen)) && rparam_seq(toks@, pos as int) is Some ==> (r matches Ok((xs, e)) && e == rparam_seq(toks@, pos as int)->0 && xs@.len() > 0),
{
    let mut items: Vec<ReturnParam> = Vec::new();
    if at_punct(toks, pos, Punct::RParen) {
        proof {
            lemma_empty(toks@, pos as int);
        }
        return Ok((items, pos));
    }
    let (first, mut cur) = parse_return_param(toks, pos)?;
    items.push(first);
    proof {
        assert(pats_return_param_list(items@) =~= pats_return_param(items@[0]));
    }
    while at_punct(toks, cur, Punct::Comma)
        invariant
            toks_ok(toks@),
            items@.len() > 0,
            read_ok(toks@, pos, cur, pats_return_param_list(items@)),
            rparam_seq(toks@, pos as int) is Some ==> rparam_after(toks@, cur as int) == rparam_seq(toks@, pos as int),
            plain_type_at(toks@, pos as int) && tok_is(toks@, pos + 1, Tok::P(Punct::RParen)) ==> cur == pos + 1 && items@.len() == 1,
            !tok_is(toks@, pos as int, Tok::P(Punct::RParen)),
        decreases toks@.len() - cur,
    {
        let (x, e) = parse_return_param(toks, cur + 1)?;
        proof {
            lemma_then(toks@, pos as int, cur as int, pats_return_param_list(items@), Sym::P(Punct::Comma));
            lemma_cat(toks@, pos as int, cur + 1, e as int, pats_return_param_list(items@) + seq![Sym::P(Punct::Comma)], pats_return_param(x));
        }
        let ghost old_items = items@;
        items.push(x);
        proof {
            assert(items@.drop_last() =~= old_items);
        }
        cur = e;
    }
    Ok((items, cur))
}

/// Enum variants separated by commas, possibly none.
fn parse_variant_list(toks: &Vec<Token>, pos: usize) -> (r: Result<(Vec<EnumVariant>, usize), usize>)
    requires
        toks_ok(toks@),
        pos <= toks@.len(),
    ensures
        r matches Ok((xs, e)) ==> pos <= e <= toks@.len() && spelled(
            toks@,
            pos as int,
            e as int,
            pats_variant_list(xs@),
        ),
        tok_is(toks@, pos as int, Tok::P(Punct::RBrace)) ==> (r matches Ok((xs, e)) && e == pos && xs@.len() == 0),
        !tok_is(toks@, pos as int, Tok::P(Punct::RBrace)) && variant_seq(toks@, pos as int) is Some ==> (r matches Ok((xs, e)) && e == variant_seq(toks@, pos as int)->0),
{
    let mut items: Vec<EnumVariant> = Vec::new();
    if at_punct(toks, pos, Punct::RBrace) {
        proof {
            lemma_empty(toks@, pos as int);
        }
        return Ok((items, pos));
    }
    let (first, mut cur) = parse_variant(toks, pos)?;
    items.push(first);
    proof {
        assert(pats_variant_list(items@) =~= pats_variant(items@[0]));
    }
    while at_punct(toks, cur, Punct::Comma)
        invariant
            toks_ok(toks@),
            items@.len() > 0,
            read_ok(toks@, pos, cur, pats_variant_list(items@)),
            variant_seq(toks@, pos as int) is Some ==> variant_after(toks@, cur as int) == variant_seq(toks@, pos as int),
            !tok_is(toks@, pos as int, Tok::P(Punct::RBrace)),
        decreases toks@.len() - cur,
    {
        let (x, e) = parse_variant(toks, cur + 1)?;
        proof {
            lemma_then(toks@, pos as int, cur as int, pats_variant_list(items@), Sym::P(Punct::Comma));
            lemma_cat(toks@, pos as int, cur + 1, e as int, pats_variant_list(items@) + seq![Sym::P(Punct::Comma)], pats_variant(x));
        }
        let ghost old_items = items@;
        items.push(x);
        proof {
            assert(items@.drop_last() =~= old_items);
        }
        cur = e;
    }
    Ok((items, cur))
}

/// Event parameters separated by commas, possibly none.
fn parse_event_param_list(toks: &Vec<Token>, pos: usize) -> (r: Result<(Vec<EventParam>, usize), usize>)
    requires
        toks_ok(toks@),
        pos <= toks@.len(),
    ensures
        r matches Ok((xs, e)) ==> pos <= e <= toks@.len() && spelled(
            toks@,
            pos as int,
            e as int,
            pats_event_param_list(xs@),
        ),
        tok_is(toks@, pos as int, Tok::P(Punct::RParen)) ==> (r matches Ok((xs, e)) && e == pos && xs@.len() == 0),
        !tok_is(toks@, pos as int, Tok::P(Punct::RParen)) && eparam_seq(toks@, pos as int) is Some ==> (r matches Ok((xs, e)) && e == eparam_seq(toks@, pos as int)->0),
{
    let mut items: Vec<EventParam> = Vec::new();
    if at_punct(toks, pos, Punct::RParen) {
        proof {
            lemma_empty(toks@, pos as int);
        }
        return Ok((items, pos));
    }
    let (first, mut cur) = parse_event_param(toks, pos)?;
    items.push(first);
    proof {
        assert(pats_event_param_list(items@) =~= pats_event_param(items@[0]));
    }
    while at_punct(toks, cur, Punct::Comma)
        invariant
            toks_ok(toks@),
            items@.len() > 0,
            read_ok(toks@, pos, cur, pats_event_param_list(items@)),
            eparam_seq(toks@, pos as int) is Some ==> eparam_after(toks@, cur as int) == eparam_seq(toks@, pos as int),
            !tok_is(toks@, pos as int, Tok::P(Punct::RParen)),
        decreases toks@.len() - cur,
    {
        let (x, e) = parse_event_param(toks, cur + 1)?;
        proof {
            lemma_then(toks@, pos as int, cur as int, pats_event_param_list(items@), Sym::P(Punct::Comma));
            lemma_cat(toks@, pos as int, cur + 1, e as int, pats_event_param_list(items@) + seq![Sym::P(Punct::Comma)], pats_event_param(x));
        }
        let ghost old_items = items@;
        items.push(x);
        proof {
            assert(items@.drop_last() =~= old_items);
        }
        cur = e;
    }
    Ok((items, cur))
}

/// Error parameters separated by commas, possibly none.
fn parse_error_param_list(toks: &Vec<Token>, pos: usize) -> (r: Result<(Vec<ErrorParam>, usize), usize>)
    requires
        toks_ok(toks@),
        pos <= toks@.len(),
    ensures
        r matches Ok((xs, e)) ==> pos <= e <= toks@.len() && spelled(
            toks@,
            pos as int,
            e as int,
            pats_error_param_list(xs@),
        ),
        tok_is(toks@, pos as int, Tok::P(Punct::RParen)) ==> (r matches Ok((xs, e)) && e == pos && xs@.len() == 0),
        !tok_is(toks@, pos as int, Tok::P(Punct::RParen)) && xparam_seq(toks@, pos as int) is Some ==> (r matches Ok((xs, e)) && e == xparam_seq(toks@, pos as int)->0),
{
    let mut items: Vec<ErrorParam> = Vec::new();
    if at_punct(toks, pos, Punct::RParen) {
        proof {
            lemma_empty(toks@, pos as int);
        }
        return Ok((items, pos));
    }
    let (first, mut cur) = parse_error_param(toks, pos)?;
    items.push(first);
    proof {
        assert(pats_error_param_list(items@) =~= pats_error_param(items@[0]));
    }
    while at_punct(toks, cur, Punct::Comma)
        invariant
            toks_ok(toks@),
            items@.len() > 0,
            read_ok(toks@, pos, cur, pats_error_param_list(items@)),
            xparam_seq(toks@, pos as int) is Some ==> xparam_after(toks@, cur as int) == xparam_seq(toks@, pos as int),
            !tok_is(toks@, pos as int, Tok::P(Punct::RParen)),
        decreases toks@.len() - cur,
    {
        let (x, e) = parse_error_param(toks, cur + 1)?;
        proof {
            lemma_then(toks@, pos as int, cur as int, pats_error_param_list(items@), Sym::P(Punct::Comma));
            lemma_cat(toks@, pos as int, cur + 1, e as int, pats_error_param_list(items@) + seq![Sym::P(Punct::Comma)], pats_error_param(x));
        }
        let ghost old_items = items@;
        items.push(x);
        proof {
            assert(items@.drop_last() =~= old_items);
        }
        cur = e;
    }
    Ok((items, cur))
}

/// Base contracts separated by commas: at least one.
fn parse_base_list(toks: &Vec<Token>, pos: usize) -> (r: Result<(Vec<TypePath>, usize), usize>)
    requires
        toks_ok(toks@),
        pos <= toks@.len(),
    ensures
        r matches Ok((xs, e)) ==> xs@.len() > 0 && pos <= e <= toks@.len() && spelled(
            toks@,
            pos as int,
            e as int,
            pats_base_list(xs@),
        ),
        name_at(toks@, pos as int) && tok_is(toks@, pos + 1, Tok::P(Punct::LBrace)) ==> (r matches Ok((xs, e)) && e == pos + 1 && xs@.len() == 1),
        base_names_end(toks@, pos as int) is Some ==> (r matches Ok((xs, e)) && e == base_names_end(toks@, pos as int)->0),
{
    let mut items: Vec<TypePath> = Vec::new();
    let (first, mut cur) = parse_type_path(toks, pos)?;
    items.push(first);
    proof {
        assert(pats_base_list(items@) =~= pats_type_path(items@[0]));
    }
    while at_punct(toks, cur, Punct::Comma)
        invariant
            toks_ok(toks@),
            items@.len() > 0,
            read_ok(toks@, pos, cur, pats_base_list(items@)),
            base_names_end(toks@, pos as int) is Some ==> (if tok_is(toks@, cur as int, Tok::P(Punct::Comma)) { base_names_end(toks@, cur + 1) } else { Some(cur as int) }) == base_names_end(toks@, pos as int),
            name_at(toks@, pos as int) && tok_is(toks@, pos + 1, Tok::P(Punct::LBrace)) ==> cur == pos + 1 && items@.len() == 1,
        decreases toks@.len() - cur,
    {
        let (x, e) = parse_type_path(toks, cur + 1)?;
        proof {
            lemma_then(toks@, pos as int, cur as int, pats_base_list(items@), Sym::P(Punct::Comma));
            lemma_cat(toks@, pos as int, cur + 1, e as int, pats_base_list(items@) + seq![Sym::P(Punct::Comma)], pats_type_path(x));
        }
        let ghost old_items = items@;
        items.push(x);
        proof {
            assert(items@.drop_last() =~= old_items);
        }
        cur = e;
    }
    Ok((items, cur))
}

/// Imported names separated by commas: at least one.
fn parse_import_item_list(toks: &Vec<Token>, pos: usize) -> (r: Result<(Vec<ImportItem>, usize), usize>)
    requires
        toks_ok(toks@),
        pos <= toks@.len(),
    ensures
        r matches Ok((xs, e)) ==> xs@.len() > 0 && pos <= e <= toks@.len() && spelled(
            toks@,
            pos as int,
            e as int,
            pats_import_item_list(xs@),
        ),
        name_at(toks@, pos as int) && tok_is(toks@, pos + 1, Tok::P(Punct::RBrace)) ==> (r matches Ok((xs, e)) && e == pos + 1 && xs@.len() == 1),
        import_items_end(toks@, pos as int) is Some ==> (r matches Ok((xs, e)) && e == import_items_end(toks@, pos as int)->0),
{
    let mut items: Vec<ImportItem> = Vec::new();
    let (first, mut cur) = parse_import_item(toks, pos)?;
    items.push(first);
    proof {
        assert(pats_import_item_list(items@) =~= pats_import_item(items@[0]));
    }
    while at_punct(toks, cur, Punct::Comma)
        invariant
            toks_ok(toks@),
            items@.len() > 0,
            read_ok(toks@, pos, cur, pats_import_item_list(items@)),
            import_items_end(toks@, pos as int) is Some ==> (if tok_is(toks@, cur as int, Tok::P(Punct::Comma)) { import_items_end(toks@, cur + 1) } else if tok_is(toks@, cur as int, Tok::P(Punct::RBrace)) { Some(cur as int) } else { None }) == import_items_end(toks@, pos as int),
            name_at(toks@, pos as int) && tok_is(toks@, pos + 1, Tok::P(Punct::RBrace)) ==> cur == pos + 1 && items@.len() == 1,
        decreases toks@.len() - cur,
    {
        let (x, e) = parse_import_item(toks, cur + 1)?;
        proof {
            lemma_then(toks@, pos as int, cur as int, pats_import_item_list(items@), Sym::P(Punct::Comma));
            lemma_cat(toks@, pos as int, cur + 1, e as int, pats_import_item_list(items@) + seq![Sym::P(Punct::Comma)], pats_import_item(x));
        }
        let ghost old_items = items@;
        items.push(x);
        proof {
            assert(items@.drop_last() =~= old_items);
        }
        cur = e;
    }
    Ok((items, cur))
}

/// Generic parameters separated by commas: at least one.
fn parse_generic_param_list(toks: &Vec<Token>, pos: usize) -> (r: Result<(Vec<GenericParam>, usize), usize>)
    requires
        toks_ok(toks@),
        pos <= toks@.len(),
    ensures
        r matches Ok((xs, e)) ==> xs@.len() > 0 && pos <= e <= toks@.len() && spelled(
            toks@,
            pos as int,
            e as int,
            pats_generic_param_list(xs@),
        ),
        name_at(toks@, pos as int) && !tok_is(toks@, pos + 1, Tok::P(Punct::Colon)) && !tok_is(toks@, pos + 1, Tok::P(Punct::Comma)) ==> (r matches Ok((xs, e)) && e == pos + 1 && xs@.len() == 1),
{
    let mut items: Vec<GenericParam> = Vec::new();
    let (first, mut cur) = parse_generic_param(toks, pos)?;
    items.push(first);
    proof {
        assert(pats_generic_param_list(items@) =~= pats_generic_param(items@[0]));
    }
    while at_punct(toks, cur, Punct::Comma)
        invariant
            toks_ok(toks@),
            items@.len() > 0,
            read_ok(toks@, pos, cur, pats_generic_param_list(items@)),
            (name_at(toks@, pos as int) && !tok_is(toks@, pos + 1, Tok::P(Punct::Colon)) && !tok_is(toks@, pos + 1, Tok::P(Punct::Comma))) ==> (cur == pos + 1 && items@.len() == 1),
        decreases toks@.len() - cur,
    {
        let (x, e) = parse_generic_param(toks, cur + 1)?;
        proof {
            lemma_then(toks@, pos as int, cur as int, pats_generic_param_list(items@), Sym::P(Punct::Comma));
            lemma_cat(toks@, pos as int, cur + 1, e as int, pats_generic_param_list(items@) + seq![Sym::P(Punct::Comma)], pats_generic_param(x));
        }
        let ghost old_items = items@;
        items.push(x);
        proof {
            assert(items@.drop_last() =~= old_items);
        }
        cur = e;
    }
    Ok((items, cur))
}

/// `value` or `name = value`, where the value is a name or a literal.
fn parse_attr_arg(toks: &Vec<Token>, pos: usize) -> (r: Result<(AttributeArg, usize), usize>)
    requires
        toks_ok(toks@),
    ensures
        r matches Ok((a, e)) ==> read_ok(toks@, pos, e, pats_attr_arg(a)),
        atom_at(toks@, pos as int) && !tok_is(toks@, pos + 1, Tok::P(Punct::Assign)) ==> (r matches Ok((a, e)) && e == pos + 1 && a.name is None),
{
    if pos >= toks.len() {
        return Err(pos);
    }
    let ghost ts = toks@;
    let mut start = pos;
    let mut name: Option<Ident> = None;
    if pos < toks.len() && at_punct(toks, pos + 1, Punct::Assign) {
        if let Some(w) = at_word(toks, pos) {
            let id = Ident { name: w, span: toks[pos].span };
            proof {
                lemma_two(ts, pos as int, Sym::Word(id.name@), Sym::P(Punct::Assign));
                assert(seq![Sym::Word(id.name@), Sym::P(Punct::Assign)] =~= pats_word(id) + seq![Sym::P(Punct::Assign)]);
            }
            name = Some(id);
            start = pos + 2;
        }
    }
    let ghost pn = pats_opt_arg_name(name);
    proof {
        if name.is_none() {
            lemma_empty(ts, pos as int);
        }
    }
    let value = if let Some(w) = at_word(toks, start) {
        let id = Ident { name: w, span: toks[start].span };
        proof {
            lemma_one(ts, start as int, Sym::Word(id.name@));
        }
        AttributeValue::Ident(id)
    } else if let Some(l) = literal_at(toks, start) {
        AttributeValue::Literal(l)
    } else {
        return Err(start);
    };
    let ghost pv = pats_attr_value(value);
    proof {
        lemma_cat(ts, pos as int, start as int, start + 1, pn, pv);
    }
    let a = AttributeArg { name, value, span: span_of(toks, pos, start + 1) };
    Ok((a, start + 1))
}

/// `#[name]` or `#[name(args)]`
fn parse_attribute(toks: &Vec<Token>, pos: usize) -> (r: Result<(Attribute, usize), usize>)
    requires
        toks_ok(toks@),
    ensures
        r matches Ok((a, e)) ==> read_ok(toks@, pos, e, pats_attribute(a)),
        tok_is(toks@, pos as int, Tok::P(Punct::Hash)) && tok_is(toks@, pos + 1, Tok::P(Punct::LBracket)) && name_at(toks@, pos + 2) && tok_is(toks@, pos + 3, Tok::P(Punct::RBracket)) ==> (r matches Ok((a, e)) && e == pos + 4 && a.args@.len() == 0),
{
    if !(at_punct(toks, pos, Punct::Hash) && at_punct(toks, pos + 1, Punct::LBracket)) {
        return Err(pos);
    }
    let (name, e1) = parse_ident(toks, pos + 2)?;
    let ghost ts = toks@;
    let ghost k = seq![Sym::P(Punct::Hash), Sym::P(Punct::LBracket)];
    let ghost pn = pats_word(name);
    proof {
        lemma_two(ts, pos as int, Sym::P(Punct::Hash), Sym::P(Punct::LBracket));
        lemma_cat(ts, pos as int, pos + 2, e1 as int, k, pn);
    }
    let mut args: Vec<AttributeArg> = Vec::new();
    let mut e2 = e1;
    if at_punct(toks, e1, Punct::LParen) {
        let (xs, e) = parse_attr_arg_list(toks, e1 + 1)?;
        if xs.len() == 0 || !at_punct(toks, e, Punct::RParen) {
            return Err(e);
        }
        proof {
            lemma_one(ts, e1 as int, Sym::P(Punct::LParen));
            lemma_cat(ts, e1 as int, e1 + 1, e as int, seq![Sym::P(Punct::LParen)], pats_attr_arg_list(xs@));
            lemma_then(ts, e1 as int, e as int, seq![Sym::P(Punct::LParen)] + pats_attr_arg_list(xs@), Sym::P(Punct::RParen));
            lemma_cat(ts, pos as int, e1 as int, e + 1, k + pn, seq![Sym::P(Punct::LParen)] + pats_attr_arg_list(xs@) + seq![Sym::P(Punct::RParen)]);
        }
        args = xs;
        e2 = e + 1;
    } else {
        proof {
            assert(k + pn + seq![] =~= k + pn);
        }
    }
    let ghost pa = if args@.len() == 0 {
        Seq::<Sym>::empty()
    } else {
        seq![Sym::P(Punct::LParen)] + pats_attr_arg_list(args@) + seq![Sym::P(Punct::RParen)]
    };
    if !at_punct(toks, e2, Punct::RBracket) {
        return Err(e2);
    }
    proof {
        lemma_then(ts, pos as int, e2 as int, k + pn + pa, Sym::P(Punct::RBracket));
    }
    let a = Attribute { name, args, span: span_of(toks, pos, e2 + 1) };
    Ok((a, e2 + 1))
}

/// Any number of attributes.
fn parse_attributes(toks: &Vec<Token>, pos: usize) -> (r: Result<(Vec<Attribute>, usize), usize>)
    requires
        toks_ok(toks@),
        pos <= toks@.len(),
    ensures
        r matches Ok((xs, e)) ==> pos <= e <= toks@.len() && spelled(
            toks@,
            pos as int,
            e as int,
            pats_attributes(xs@),
        ),
        !tok_is(toks@, pos as int, Tok::P(Punct::Hash)) ==> (r matches Ok((xs, e)) && e == pos && xs@.len() == 0),
{
    let mut items: Vec<Attribute> = Vec::new();
    let mut cur = pos;
    proof {
        lemma_empty(toks@, pos as int);
    }
    while at_punct(toks, cur, Punct::Hash)
        invariant
            toks_ok(toks@),
            pos <= cur <= toks@.len(),
            spelled(toks@, pos as int, cur as int, pats_attributes(items@)),
            !tok_is(toks@, pos as int, Tok::P(Punct::Hash)) ==> cur == pos && items@.len() == 0,
        decreases toks@.len() - cur,
    {
        let (a, e) = parse_attribute(toks, cur)?;
        proof {
            lemma_cat(toks@, pos as int, cur as int, e as int, pats_attributes(items@), pats_attribute(a));
        }
        let ghost old_items = items@;
        items.push(a);
        proof {
            assert(items@.drop_last() =~= old_items);
        }
        cur = e;
    }
    Ok((items, cur))
}

/// Types separated by `+`: at least one.
fn parse_bounds(toks: &Vec<Token>, pos: usize) -> (r: Result<(Vec<TypeExpr>, usize), usize>)
    requires
        toks_ok(toks@),
    ensures
        r matches Ok((xs, e)) ==> xs@.len() > 0 && read_ok(toks@, pos, e, pats_bounds(xs@)),
        plain_type_at(toks@, pos as int) && !tok_is(toks@, pos + 1, Tok::P(Punct::Plus)) ==> (r matches Ok((xs, e)) && e == pos + 1 && xs@.len() == 1),
{
    let mut items: Vec<TypeExpr> = Vec::new();
    let (first, mut cur) = parse_type(toks, pos)?;
    items.push(first);
    proof {
        assert(pats_bounds(items@) =~= pats_type(items@[0]));
    }
    while at_punct(toks, cur, Punct::Plus)
        invariant
            toks_ok(toks@),
            items@.len() > 0,
            read_ok(toks@, pos, cur, pats_bounds(items@)),
            (plain_type_at(toks@, pos as int) && !tok_is(toks@, pos + 1, Tok::P(Punct::Plus))) ==> (cur == pos + 1 && items@.len() == 1),
        decreases toks@.len() - cur,
    {
        let (x, e) = parse_type(toks, cur + 1)?;
        proof {
            lemma_then(toks@, pos as int, cur as int, pats_bounds(items@), Sym::P(Punct::Plus));
            lemma_cat(toks@, pos as int, cur + 1, e as int, pats_bounds(items@) + seq![Sym::P(Punct::Plus)], pats_type(x));
        }
        let ghost old_items = items@;
        items.push(x);
        proof {
            assert(items@.drop_last() =~= old_items);
        }
        cur = e;
    }
    Ok((items, cur))
}

/// `T` or `T: A + B`
fn parse_generic_param(toks: &Vec<Token>, pos: usize) -> (r: Result<(GenericParam, usize), usize>)
    requires
        toks_ok(toks@),
    ensures
        r matches Ok((g, e)) ==> read_ok(toks@, pos, e, pats_generic_param(g)),
        name_at(toks@, pos as int) && !tok_is(toks@, pos + 1, Tok::P(Punct::Colon)) ==> (r matches Ok((g, e)) && e == pos + 1 && g.bounds@.len() == 0),
{
    let (name, e1) = parse_ident(toks, pos)?;
    let ghost pn = pats_word(name);
    if at_punct(toks, e1, Punct::Colon) {
        let (bounds, e2) = parse_bounds(toks, e1 + 1)?;
        let ghost pb = pats_bounds(bounds@);
        let g = GenericParam { name, bounds, span: span_of(toks, pos, e2) };
        proof {
            lemma_then(toks@, pos as int, e1 as int, pn, Sym::P(Punct::Colon));
            lemma_cat(toks@, pos as int, e1 + 1, e2 as int, pn + seq![Sym::P(Punct::Colon)], pb);
            assert(pn + seq![Sym::P(Punct::Colon)] + pb =~= pn + (seq![Sym::P(Punct::Colon)] + pb));
        }
        Ok((g, e2))
    } else {
        let g = GenericParam { name, bounds: Vec::new(), span: span_of(toks, pos, e1) };
        proof {
            assert(pats_generic_param(g) =~= pn);
        }
        Ok((g, e1))
    }
}

/// `<T, U: Bound>`, if the token at `pos` is `<`.
fn parse_opt_generic_params(toks: &Vec<Token>, pos: usize) -> (r: Result<(Option<GenericParams>, usize), usize>)
    requires
        toks_ok(toks@),
        pos <= toks@.len(),
    ensures
        r matches Ok((g, e)) ==> pos <= e <= toks@.len() && spelled(
            toks@,
            pos as int,
            e as int,
            pats_opt_generic_params(g),
        ),
        !tok_is(toks@, pos as int, Tok::P(Punct::Lt)) ==> (r matches Ok((g, e)) && e == pos && g is None),
{
    if !at_punct(toks, pos, Punct::Lt) {
        proof {
            lemma_empty(toks@, pos as int);
        }
        return Ok((None, pos));
    }
    let (params, e1) = parse_generic_param_list(toks, pos + 1)?;
    if !at_punct(toks, e1, Punct::Gt) {
        return Err(e1);
    }
    let ghost pl = pats_generic_param_list(params@);
    let g = GenericParams { params, span: span_of(toks, pos, e1 + 1) };
    proof {
        lemma_one(toks@, pos as int, Sym::P(Punct::Lt));
        lemma_cat(toks@, pos as int, pos + 1, e1 as int, seq![Sym::P(Punct::Lt)], pl);
        lemma_then(toks@, pos as int, e1 as int, seq![Sym::P(Punct::Lt)] + pl, Sym::P(Punct::Gt));
    }
    Ok((Some(g), e1 + 1))
}

/// `T [location] name`
#[verifier::spinoff_prover]
#[verifier::rlimit(40)]
fn parse_param(toks: &Vec<Token>, pos: usize) -> (r: Result<(Param, usize), usize>)
    requires
        toks_ok(toks@),
    ensures
        r matches Ok((p, e)) ==> read_ok(toks@, pos, e, pats_param(p)),
        plain_type_at(toks@, pos as int) && name_at(toks@, pos + 1) ==> (r matches Ok((p, e)) && e == pos + 2),
        decl_name_pos(toks@, pos as int) is Some ==> (r matches Ok((p, e)) && e == decl_name_pos(toks@, pos as int)->0 + 1),
{
    let (ty, e1) = parse_type(toks, pos)?;
    let (storage_location, e2) = parse_opt_storage(toks, e1);
    let (name, e3) = parse_ident(toks, e2)?;
    proof {
        lemma_cat(toks@, pos as int, e1 as int, e2 as int, pats_type(ty), pats_opt_storage(storage_location));
        lemma_cat(toks@, pos as int, e2 as int, e3 as int, pats_type(ty) + pats_opt_storage(storage_location), pats_word(name));
    }
    Ok((Param { ty, storage_location, name, span: span_of(toks, pos, e3) }, e3))
}

/// `T [location] [name]`
fn parse_return_param(toks: &Vec<Token>, pos: usize) -> (r: Result<(ReturnParam, usize), usize>)
    requires
        toks_ok(toks@),
    ensures
        r matches Ok((p, e)) ==> read_ok(toks@, pos, e, pats_return_param(p)),
        plain_type_at(toks@, pos as int) && (tok_is(toks@, pos + 1, Tok::P(Punct::RParen)) || tok_is(toks@, pos + 1, Tok::P(Punct::Comma))) ==> (r matches Ok((p, e)) && e == pos + 1 && p.name is None),
        rparam_end(toks@, pos as int) is Some ==> (r matches Ok((p, e)) && e == rparam_end(toks@, pos as int)->0),
{
    let (ty, e1) = parse_type(toks, pos)?;
    let (storage_location, e2) = parse_opt_storage(toks, e1);
    proof {
        lemma_cat(toks@, pos as int, e1 as int, e2 as int, pats_type(ty), pats_opt_storage(storage_location));
    }
    let ghost head = pats_type(ty) + pats_opt_storage(storage_location);
    match at_word(toks, e2) {
        Some(w) => {
            let name = Ident { name: w, span: toks[e2].span };
            proof {
                lemma_then(toks@, pos as int, e2 as int, head, Sym::Word(name.name@));
                assert(head + seq![Sym::Word(name.name@)] =~= head + pats_word(name));
            }
            Ok((ReturnParam { ty, storage_location, name: Some(name), span: span_of(toks, pos, e2 + 1) }, e2 + 1))
        },
        None => {
            let p = ReturnParam { ty, storage_location, name: None, span: span_of(toks, pos, e2) };
            proof {
                assert(pats_return_param(p) =~= head);
            }
            Ok((p, e2))
        },
    }
}

/// `(params)`
#[verifier::spinoff_prover]
#[verifier::rlimit(40)]
fn parse_params(toks: &Vec<Token>, pos: usize) -> (r: Result<(Vec<Param>, usize), usize>)
    requires
        toks_ok(toks@),
    ensures
        r matches Ok((xs, e)) ==> read_ok(toks@, pos, e, pats_params(xs@)),
        tok_is(toks@, pos as int, Tok::P(Punct::LParen)) && tok_is(toks@, pos + 1, Tok::P(Punct::RParen)) ==> (r matches Ok((xs, e)) && e == pos + 2 && xs@.len() == 0),
        tok_is(toks@, pos as int, Tok::P(Punct::LParen)) && param_list_end(toks@, pos + 1) is Some ==> (r matches Ok((xs, e)) && e == param_list_end(toks@, pos + 1)->0 + 1),
{
    if !at_punct(toks, pos, Punct::LParen) {
        return Err(pos);
    }
    let (xs, e1) = parse_param_list(toks, pos + 1)?;
    proof {
        if tok_is(toks@, pos as int, Tok::P(Punct::LParen)) && param_list_end(toks@, pos + 1) is Some && !tok_is(toks@, pos + 1, Tok::P(Punct::RParen)) {
            lemma_params_close(toks@, pos + 1);
        }
    }
    if !at_punct(toks, e1, Punct::RParen) {
        return Err(e1);
    }
    proof {
        lemma_one(toks@, pos as int, Sym::P(Punct::LParen));
        lemma_cat(toks@, pos as int, pos + 1, e1 as int, seq![Sym::P(Punct::LParen)], pats_param_list(xs@));
        lemma_then(toks@, pos as int, e1 as int, seq![Sym::P(Punct::LParen)] + pats_param_list(xs@), Sym::P(Punct::RParen));
    }
    Ok((xs, e1 + 1))
}

/// `returns (T, U)`, if the token at `pos` is `returns`.
fn parse_returns(toks: &Vec<Token>, pos: usize) -> (r: Result<(Vec<ReturnParam>, usize), usize>)
    requires
        toks_ok(toks@),
        pos <= toks@.len(),
    ensures
        r matches Ok((xs, e)) ==> pos <= e <= toks@.len() && spelled(
            toks@,
            pos as int,
            e as int,
            pats_returns(xs@),
        ),
        !tok_is(toks@, pos as int, Tok::Kw(Keyword::Returns)) ==> (r matches Ok((xs, e)) && e == pos && xs@.len() == 0),
        tok_is(toks@, pos as int, Tok::Kw(Keyword::Returns)) && tok_is(toks@, pos + 1, Tok::P(Punct::LParen)) && plain_type_at(toks@, pos + 2) && tok_is(toks@, pos + 3, Tok::P(Punct::RParen)) ==> (r matches Ok((xs, e)) && e == pos + 4 && xs@.len() == 1),
        tok_is(toks@, pos as int, Tok::Kw(Keyword::Returns)) && tok_is(toks@, pos + 1, Tok::P(Punct::LParen)) && rparam_seq(toks@, pos + 2) is Some ==> (r matches Ok((xs, e)) && e == rparam_seq(toks@, pos + 2)->0 + 1),
{
    proof {
        if rparam_seq(toks@, pos + 2) is Some {
            lemma_rparams_close(toks@, pos + 2);
        }
    }
    if !at_kw(toks, pos, Keyword::Returns) {
        proof {
            lemma_empty(toks@, pos as int);
        }
        return Ok((Vec::new(), pos));
    }
    if !at_punct(toks, pos + 1, Punct::LParen) {
        return Err(pos + 1);
    }
    let (xs, e1) = parse_return_param_list(toks, pos + 2)?;
    if xs.len() == 0 || !at_punct(toks, e1, Punct::RParen) {
        return Err(e1);
    }
    let ghost k = seq![Sym::Kw(Keyword::Returns), Sym::P(Punct::LParen)];
    proof {
        lemma_two(toks@, pos as int, Sym::Kw(Keyword::Returns), Sym::P(Punct::LParen));
        lemma_cat(toks@, pos as int, pos + 2, e1 as int, k, pats_return_param_list(xs@));
        lemma_then(toks@, pos as int, e1 as int, k + pats_return_param_list(xs@), Sym::P(Punct::RParen));
    }
    Ok((xs, e1 + 1))
}

/// `name` or `name(args)`
fn parse_modinv(toks: &Vec<Token>, pos: usize) -> (r: Result<(ModifierInvocation, usize), usize>)
    requires
        toks_ok(toks@),
    ensures
        r matches Ok((m, e)) ==> read_ok(toks@, pos, e, pats_modinv(m)) && modinv_grouped(m),
        name_at(toks@, pos as int) && !tok_is(toks@, pos + 1, Tok::P(Punct::LParen)) ==> (r matches Ok((m, e)) && e == pos + 1 && m.args@.len() == 0),
{
    let (name, e1) = parse_ident(toks, pos)?;
    let ghost pn = pats_word(name);
    if !at_punct(toks, e1, Punct::LParen) {
        let m = ModifierInvocation { name, args: Vec::new(), span: span_of(toks, pos, e1) };
        proof {
            assert(pats_modinv(m) =~= pn);
        }
        return Ok((m, e1));
    }
    let (args, e2) = parse_args(toks, e1 + 1)?;
    if args.len() == 0 || !at_punct(toks, e2, Punct::RParen) {
        return Err(e2);
    }
    let ghost pa = pats_args(args@);
    let m = ModifierInvocation { name, args, span: span_of(toks, pos, e2 + 1) };
    proof {
        lemma_one(toks@, e1 as int, Sym::P(Punct::LParen));
        lemma_cat(toks@, e1 as int, e1 + 1, e2 as int, seq![Sym::P(Punct::LParen)], pa);
        lemma_then(toks@, e1 as int, e2 as int, seq![Sym::P(Punct::LParen)] + pa, Sym::P(Punct::RParen));
        lemma_cat(toks@, pos as int, e1 as int, e2 + 1, pn, seq![Sym::P(Punct::LParen)] + pa + seq![Sym::P(Punct::RParen)]);
    }
    Ok((m, e2 + 1))
}

/// Modifiers named one after the other, as long as names follow.
fn parse_modinvs(toks: &Vec<Token>, pos: usize) -> (r: Result<(Vec<ModifierInvocation>, usize), usize>)
    requires
        toks_ok(toks@),
        pos <= toks@.len(),
    ensures
        r matches Ok((xs, e)) ==> pos <= e <= toks@.len() && spelled(
            toks@,
            pos as int,
            e as int,
            pats_modinvs(xs@),
        ),
        r matches Ok((xs, e)) ==> modinvs_grouped(xs@),
        !name_at(toks@, pos as int) ==> (r matches Ok((xs, e)) && e == pos && xs@.len() == 0),
        !name_at(toks@, modinvs_end(toks@, pos as int)) ==> (r matches Ok((xs, e)) && e == modinvs_end(toks@, pos as int)),
{
    let mut items: Vec<ModifierInvocation> = Vec::new();
    let mut cur = pos;
    proof {
        lemma_empty(toks@, pos as int);
    }
    while at_word(toks, cur).is_some()
        invariant
            toks_ok(toks@),
            pos <= cur <= toks@.len(),
            spelled(toks@, pos as int, cur as int, pats_modinvs(items@)),
            modinvs_grouped(items@),
            !name_at(toks@, modinvs_end(toks@, pos as int)) ==> modinvs_end(toks@, cur as int) == modinvs_end(toks@, pos as int),
            !name_at(toks@, pos as int) ==> cur == pos && items@.len() == 0,
        decreases toks@.len() - cur,
    {
        let (m, e) = parse_modinv(toks, cur)?;
        proof {
            lemma_cat(toks@, pos as int, cur as int, e as int, pats_modinvs(items@), pats_modinv(m));
        }
        let ghost old_items = items@;
        items.push(m);
        proof {
            assert(items@.drop_last() =~= old_items);
        }
        cur = e;
    }
    Ok((items, cur))
}

/// The visibility word at `pos`, if any.
fn visibility_at(toks: &Vec<Token>, pos: usize) -> (r: Option<Visibility>)
    ensures
        r matches Some(v) ==> pos < toks@.len() && tok_matches(toks@[pos as int].tok, Sym::Kw(visibility_kw(v))),
        r is Some <==> pos < toks@.len() && exists|v: Visibility|
            toks@[pos as int].tok == Tok::Kw(#[trigger] visibility_kw(v)),
{
    if at_kw(toks, pos, Keyword::Public) {
        Some(Visibility::Public)
    } else if at_kw(toks, pos, Keyword::Private) {
        Some(Visibility::Private)
    } else if at_kw(toks, pos, Keyword::Internal) {
        Some(Visibility::Internal)
    } else if at_kw(toks, pos, Keyword::External) {
        Some(Visibility::External)
    } else {
        None
    }
}

/// An optional visibility word.
fn parse_opt_visibility(toks: &Vec<Token>, pos: usize) -> (r: (Option<Visibility>, usize))
    requires
        toks_ok(toks@),
        pos <= toks@.len(),
    ensures
        pos <= r.1 <= toks@.len(),
        spelled(toks@, pos as int, r.1 as int, pats_opt_visibility(r.0)),
        !(pos < toks@.len() && toks@[pos as int].tok is Kw) ==> (r.0 is None && r.1 == pos),
        vis_at(toks@, pos as int) ==> (r.0 is Some && r.1 == pos + 1),
        !vis_at(toks@, pos as int) ==> (r.0 is None && r.1 == pos),
{
    match visibility_at(toks, pos) {
        Some(v) => {
            proof {
                lemma_one(toks@, pos as int, Sym::Kw(visibility_kw(v)));
            }
            (Some(v), pos + 1)
        },
        None => {
            proof {
                lemma_empty(toks@, pos as int);
            }
            (None, pos)
        },
    }
}

/// The mutability word at `pos`, if any.
fn mutability_at(toks: &Vec<Token>, pos: usize) -> (r: Option<StateMutability>)
    ensures
        r matches Some(m) ==> pos < toks@.len() && tok_matches(toks@[pos as int].tok, Sym::Kw(mutability_kw(m))),
        r is Some <==> pos < toks@.len() && exists|m: StateMutability|
            toks@[pos as int].tok == Tok::Kw(#[trigger] mutability_kw(m)),
{
    if at_kw(toks, pos, Keyword::View) {
        Some(StateMutability::View)
    } else if at_kw(toks, pos, Keyword::Pure) {
        Some(StateMutability::Pure)
    } else if at_kw(toks, pos, Keyword::Payable) {
        Some(StateMutability::Payable)
    } else {
        None
    }
}

/// What follows the parameters of a function: visibility, mutability words, modifiers
/// and return parameters, in that order.
#[verifier::spinoff_prover]
#[verifier::rlimit(40)]
fn parse_fn_tail(toks: &Vec<Token>, pos: usize) -> (r: Result<(Option<Visibility>, Vec<StateMutability>, Vec<ModifierInvocation>, Vec<ReturnParam>, usize), usize>)
    requires
        toks_ok(toks@),
        pos <= toks@.len(),
    ensures
        r matches Ok((v, m, mods, rets, e)) ==> pos <= e <= toks@.len() && spelled(
            toks@,
            pos as int,
            e as int,
            pats_fn_tail(v, m@, mods@, rets@),
        ),
        r matches Ok((v, m, mods, rets, e)) ==> modinvs_grouped(mods@),
        tok_is(toks@, pos as int, Tok::P(Punct::LBrace)) || tok_is(toks@, pos as int, Tok::P(Punct::Semi)) ==> (r matches Ok((v, m, mods, rets, e)) && e == pos && v is None && m@.len() == 0 && mods@.len() == 0 && rets@.len() == 0),
        vis_at(toks@, pos as int) && (tok_is(toks@, pos + 1, Tok::P(Punct::LBrace)) || tok_is(toks@, pos + 1, Tok::P(Punct::Semi))) ==> (r matches Ok((v, m, mods, rets, e)) && e == pos + 1 && m@.len() == 0 && mods@.len() == 0 && rets@.len() == 0),
        tok_is(toks@, fn_tail_end(toks@, pos as int), Tok::P(Punct::LBrace)) || tok_is(toks@, fn_tail_end(toks@, pos as int), Tok::P(Punct::Semi)) ==> (r matches Ok((v, m, mods, rets, e)) && e == fn_tail_end(toks@, pos as int)),
{
    let ghost ts = toks@;
    let (v, e1) = parse_opt_visibility(toks, pos);
    let mut muts: Vec<StateMutability> = Vec::new();
    let mut cur = e1;
    proof {
        assert(pats_opt_visibility(v) + pats_mutabilities(muts@) =~= pats_opt_visibility(v));
    }
    loop
        invariant
            toks_ok(toks@),
            ts == toks@,
            pos <= cur <= toks@.len(),
            spelled(ts, pos as int, cur as int, pats_opt_visibility(v) + pats_mutabilities(muts@)),
            tok_is(toks@, pos as int, Tok::P(Punct::LBrace)) || tok_is(toks@, pos as int, Tok::P(Punct::Semi)) ==> cur == pos && v is None && muts@.len() == 0,
            vis_at(toks@, pos as int) && (tok_is(toks@, pos + 1, Tok::P(Punct::LBrace)) || tok_is(toks@, pos + 1, Tok::P(Punct::Semi))) ==> cur == pos + 1 && muts@.len() == 0,
            muts_end(toks@, cur as int) == muts_end(toks@, e1 as int),
            e1 == (if vis_at(toks@, pos as int) { pos + 1 } else { pos as int }),
        ensures
            toks_ok(toks@),
            ts == toks@,
            pos <= cur <= toks@.len(),
            spelled(ts, pos as int, cur as int, pats_opt_visibility(v) + pats_mutabilities(muts@)),
            tok_is(toks@, pos as int, Tok::P(Punct::LBrace)) || tok_is(toks@, pos as int, Tok::P(Punct::Semi)) ==> cur == pos && v is None && muts@.len() == 0,
            vis_at(toks@, pos as int) && (tok_is(toks@, pos + 1, Tok::P(Punct::LBrace)) || tok_is(toks@, pos + 1, Tok::P(Punct::Semi))) ==> cur == pos + 1 && muts@.len() == 0,
            cur == muts_end(toks@, e1 as int),
        decreases toks@.len() - cur,
    {
        let m = match mutability_at(toks, cur) {
            Some(m) => m,
            None => {
                proof {
                    if cur < toks@.len() && mut_at(toks@, cur as int) {
                        let mm = choose|mm: StateMutability| tok_is(toks@, cur as int, Tok::Kw(#[trigger] mutability_kw(mm)));
                        assert(toks@[cur as int].tok == Tok::Kw(mutability_kw(mm)));
                    }
                }
                break;
            },
        };
        proof {
            assert(mut_at(toks@, cur as int));
        }
        proof {
            lemma_then(ts, pos as int, cur as int, pats_opt_visibility(v) + pats_mutabilities(muts@), Sym::Kw(mutability_kw(m)));
        }
        let ghost old_muts = muts@;
        muts.push(m);
        proof {
            assert(muts@.drop_last() =~= old_muts);
            assert(pats_opt_visibility(v) + pats_mutabilities(muts@) =~= pats_opt_visibility(v) + pats_mutabilities(old_muts) + seq![Sym::Kw(mutability_kw(m))]);
        }
        cur = cur + 1;
    }
    let (mods, e2) = parse_modinvs(toks, cur)?;
    let (rets, e3) = parse_returns(toks, e2)?;
    proof {
        lemma_cat(ts, pos as int, cur as int, e2 as int, pats_opt_visibility(v) + pats_mutabilities(muts@), pats_modinvs(mods@));
        lemma_cat(ts, pos as int, e2 as int, e3 as int, pats_opt_visibility(v) + pats_mutabilities(muts@) + pats_modinvs(mods@), pats_returns(rets@));
    }
    Ok((v, muts, mods, rets, e3))
}

/// A function definition, with its attributes: the body is a block, or `;` for a
/// function without one.
#[verifier::spinoff_prover]
#[verifier::rlimit(40)]
fn parse_fn_def(toks: &Vec<Token>, pos: usize) -> (r: Result<(FnDef, usize), usize>)
    requires
        toks_ok(toks@),
        pos <= toks@.len(),
    ensures
        r matches Ok((f, e)) ==> read_ok(toks@, pos, e, pats_fn_def(f)) && fn_def_grouped(f),
        tok_is(toks@, pos as int, Tok::Kw(Keyword::Function)) && name_at(toks@, pos + 1) && tok_is(toks@, pos + 2, Tok::P(Punct::LParen)) && tok_is(toks@, pos + 3, Tok::P(Punct::RParen)) && empty_block_at(toks@, pos + 4) ==> (r matches Ok((f, e)) && e == pos + 6 && f.body is Some),
        tok_is(toks@, pos as int, Tok::Kw(Keyword::Function)) && name_at(toks@, pos + 1) && tok_is(toks@, pos + 2, Tok::P(Punct::LParen)) && tok_is(toks@, pos + 3, Tok::P(Punct::RParen)) && tok_is(toks@, pos + 4, Tok::P(Punct::Semi)) ==> (r matches Ok((f, e)) && e == pos + 5 && f.body is None),
        tok_is(toks@, pos as int, Tok::Kw(Keyword::Function)) && name_at(toks@, pos + 1) && tok_is(toks@, pos + 2, Tok::P(Punct::LParen)) && tok_is(toks@, pos + 3, Tok::P(Punct::RParen)) && vis_at(toks@, pos + 4) && empty_block_at(toks@, pos + 5) ==> (r matches Ok((f, e)) && e == pos + 7 && f.body is Some),
        fn_len(toks@, pos as int) > 0 ==> (r matches Ok((f, e)) && e == pos + fn_len(toks@, pos as int)),
{
    let ghost ts = toks@;
    let (attributes, e0) = parse_attributes(toks, pos)?;
    if !at_kw(toks, e0, Keyword::Function) {
        return Err(e0);
    }
    let (name, e1) = parse_ident(toks, e0 + 1)?;
    let (generic_params, e2) = parse_opt_generic_params(toks, e1)?;
    let (params, e3) = parse_params(toks, e2)?;
    let (visibility, state_mutability, modifiers, return_params, e4) = parse_fn_tail(toks, e3)?;
    let ghost a0 = pats_attributes(attributes@) + seq![Sym::Kw(Keyword::Function)];
    let ghost a1 = a0 + pats_word(name);
    let ghost a2 = a1 + pats_opt_generic_params(generic_params);
    let ghost a3 = a2 + pats_params(params@);
    let ghost a4 = a3 + pats_fn_tail(visibility, state_mutability@, modifiers@, return_params@);
    proof {
        lemma_then(ts, pos as int, e0 as int, pats_attributes(attributes@), Sym::Kw(Keyword::Function));
        lemma_cat(ts, pos as int, e0 + 1, e1 as int, a0, pats_word(name));
        lemma_cat(ts, pos as int, e1 as int, e2 as int, a1, pats_opt_generic_params(generic_params));
        lemma_cat(ts, pos as int, e2 as int, e3 as int, a2, pats_params(params@));
        lemma_cat(ts, pos as int, e3 as int, e4 as int, a3, pats_fn_tail(visibility, state_mutability@, modifiers@, return_params@));
    }
    if at_punct(toks, e4, Punct::Semi) {
        let f = FnDef { attributes, name, generic_params, params, visibility, state_mutability, modifiers, return_params, body: None, span: span_of(toks, pos, e4 + 1) };
        proof {
            lemma_then(ts, pos as int, e4 as int, a4, Sym::P(Punct::Semi));
        }
        return Ok((f, e4 + 1));
    }
    let (body, e5) = parse_block(toks, e4)?;
    let ghost pb = pats_block(body);
    let f = FnDef { attributes, name, generic_params, params, visibility, state_mutability, modifiers, return_params, body: Some(body), span: span_of(toks, pos, e5) };
    proof {
        lemma_cat(ts, pos as int, e4 as int, e5 as int, a4, pb);
    }
    Ok((f, e5))
}

/// A function header without a body, as it stands in an interface.
fn parse_fn_sig(toks: &Vec<Token>, pos: usize) -> (r: Result<(FnSig, usize), usize>)
    requires
        toks_ok(toks@),
    ensures
        r matches Ok((f, e)) ==> read_ok(toks@, pos, e, pats_fn_sig(f)) && fn_sig_grouped(f),
        tok_is(toks@, pos as int, Tok::Kw(Keyword::Function)) && name_at(toks@, pos + 1) && tok_is(toks@, pos + 2, Tok::P(Punct::LParen)) && tok_is(toks@, pos + 3, Tok::P(Punct::RParen)) && tok_is(toks@, pos + 4, Tok::P(Punct::Semi)) ==> (r matches Ok((f, e)) && e == pos + 4),
        tok_is(toks@, pos as int, Tok::Kw(Keyword::Function)) && name_at(toks@, pos + 1) && tok_is(toks@, pos + 2, Tok::P(Punct::LParen)) && param_list_end(toks@, pos + 3) is Some && tok_is(toks@, fn_tail_end(toks@, param_list_end(toks@, pos + 3)->0 + 1), Tok::P(Punct::Semi)) ==> (r matches Ok((f, e)) && e == fn_tail_end(toks@, param_list_end(toks@, pos + 3)->0 + 1)),
{
    let ghost ts = toks@;
    if !at_kw(toks, pos, Keyword::Function) {
        return Err(pos);
    }
    let (name, e1) = parse_ident(toks, pos + 1)?;
    let (generic_params, e2) = parse_opt_generic_params(toks, e1)?;
    let (params, e3) = parse_params(toks, e2)?;
    let (visibility, state_mutability, modifiers, return_params, e4) = parse_fn_tail(toks, e3)?;
    let ghost a0 = seq![Sym::Kw(Keyword::Function)];
    let ghost a1 = a0 + pats_word(name);
    let ghost a2 = a1 + pats_opt_generic_params(generic_params);
    let ghost a3 = a2 + pats_params(params@);
    proof {
        lemma_one(ts, pos as int, Sym::Kw(Keyword::Function));
        lemma_cat(ts, pos as int, pos + 1, e1 as int, a0, pats_word(name));
        lemma_cat(ts, pos as int, e1 as int, e2 as int, a1, pats_opt_generic_params(generic_params));
        lemma_cat(ts, pos as int, e2 as int, e3 as int, a2, pats_params(params@));
        lemma_cat(ts, pos as int, e3 as int, e4 as int, a3, pats_fn_tail(visibility, state_mutability@, modifiers@, return_params@));
    }
    let f = FnSig { name, generic_params, params, visibility, state_mutability, modifiers, return_params, span: span_of(toks, pos, e4) };
    Ok((f, e4))
}

/// An enum variant: a name.
fn parse_variant(toks: &Vec<Token>, pos: usize) -> (r: Result<(EnumVariant, usize), usize>)
    requires
        toks_ok(toks@),
    ensures
        r matches Ok((v, e)) ==> read_ok(toks@, pos, e, pats_variant(v)),
        r is Ok <==> name_at(toks@, pos as int),
        r matches Ok((v, e)) ==> e == pos + 1,
{
    let (name, e) = parse_ident(toks, pos)?;
    let span = name.span;
    Ok((EnumVariant { name, span }, e))
}

/// `T [indexed] name`
fn parse_event_param(toks: &Vec<Token>, pos: usize) -> (r: Result<(EventParam, usize), usize>)
    requires
        toks_ok(toks@),
    ensures
        r matches Ok((p, e)) ==> read_ok(toks@, pos, e, pats_event_param(p)),
        plain_type_at(toks@, pos as int) && name_at(toks@, pos + 1) ==> (r matches Ok((p, e)) && e == pos + 2 && !p.indexed),
        type_endp(toks@, pos as int) is Some && pos < type_endp(toks@, pos as int)->0 && name_at(toks@, (if tok_is(toks@, type_endp(toks@, pos as int)->0, Tok::Kw(Keyword::Indexed)) { type_endp(toks@, pos as int)->0 + 1 } else { type_endp(toks@, pos as int)->0 })) ==> (r matches Ok((p, e)) && e == (if tok_is(toks@, type_endp(toks@, pos as int)->0, Tok::Kw(Keyword::Indexed)) { type_endp(toks@, pos as int)->0 + 1 } else { type_endp(toks@, pos as int)->0 }) + 1),
{
    let (ty, e1) = parse_type(toks, pos)?;
    let indexed = at_kw(toks, e1, Keyword::Indexed);
    let e2 = if indexed { e1 + 1 } else { e1 };
    let ghost pi = if indexed { seq![Sym::Kw(Keyword::Indexed)] } else { Seq::<Sym>::empty() };
    proof {
        if indexed {
            lemma_then(toks@, pos as int, e1 as int, pats_type(ty), Sym::Kw(Keyword::Indexed));
        } else {
            assert(pats_type(ty) + pi =~= pats_type(ty));
        }
    }
    let (name, e3) = parse_ident(toks, e2)?;
    proof {
        lemma_cat(toks@, pos as int, e2 as int, e3 as int, pats_type(ty) + pi, pats_word(name));
    }
    Ok((EventParam { ty, indexed, name, span: span_of(toks, pos, e3) }, e3))
}

/// `T name`
fn parse_error_param(toks: &Vec<Token>, pos: usize) -> (r: Result<(ErrorParam, usize), usize>)
    requires
        toks_ok(toks@),
    ensures
        r matches Ok((p, e)) ==> read_ok(toks@, pos, e, pats_error_param(p)),
        plain_type_at(toks@, pos as int) && name_at(toks@, pos + 1) ==> (r matches Ok((p, e)) && e == pos + 2),
        type_endp(toks@, pos as int) is Some && pos < type_endp(toks@, pos as int)->0 && name_at(toks@, type_endp(toks@, pos as int)->0) ==> (r matches Ok((p, e)) && e == type_endp(toks@, pos as int)->0 + 1),
{
    let (ty, e1) = parse_type(toks, pos)?;
    let (name, e2) = parse_ident(toks, e1)?;
    proof {
        lemma_cat(toks@, pos as int, e1 as int, e2 as int, pats_type(ty), pats_word(name));
    }
    Ok((ErrorParam { ty, name, span: span_of(toks, pos, e2) }, e2))
}

/// `Name` or `Name as Alias`
fn parse_import_item(toks: &Vec<Token>, pos: usize) -> (r: Result<(ImportItem, usize), usize>)
    requires
        toks_ok(toks@),
    ensures
        r matches Ok((x, e)) ==> read_ok(toks@, pos, e, pats_import_item(x)),
        name_at(toks@, pos as int) && !name_at(toks@, pos + 1) ==> (r matches Ok((x, e)) && e == pos + 1 && x.alias is None),
        name_at(toks@, pos as int) && word_at(toks@, pos + 1, "as"@) && name_at(toks@, pos + 2) ==> (r matches Ok((x, e)) && e == pos + 3),
{
    let (name, e1) = parse_ident(toks, pos)?;
    let ghost pn = pats_word(name);
    if at_word_text(toks, e1, "as") {
        let (alias, e2) = parse_ident(toks, e1 + 1)?;
        let ghost pa = pats_word(alias);
        let x = ImportItem { name, alias: Some(alias), span: span_of(toks, pos, e2) };
        proof {
            lemma_then(toks@, pos as int, e1 as int, pn, Sym::Word("as"@));
            lemma_cat(toks@, pos as int, e1 + 1, e2 as int, pn + seq![Sym::Word("as"@)], pa);
            assert(pn + seq![Sym::Word("as"@)] + pa =~= pn + (seq![Sym::Word("as"@)] + pa));
        }
        Ok((x, e2))
    } else {
        let x = ImportItem { name, alias: None, span: span_of(toks, pos, e1) };
        proof {
            assert(pats_import_item(x) =~= pn);
        }
        Ok((x, e1))
    }
}

/// `import { A, B as C } from "source";`
fn parse_import(toks: &Vec<Token>, pos: usize) -> (r: Result<(ImportStmt, usize), usize>)
    requires
        toks_ok(toks@),
    ensures
        r matches Ok((x, e)) ==> read_ok(toks@, pos, e, pats_import(x)),
        tok_is(toks@, pos as int, Tok::Kw(Keyword::Import)) && tok_is(toks@, pos + 1, Tok::P(Punct::LBrace)) && name_at(toks@, pos + 2) && tok_is(toks@, pos + 3, Tok::P(Punct::RBrace)) && word_at(toks@, pos + 4, "from"@) && pos + 5 < toks@.len() && toks@[pos + 5].tok is Str && tok_is(toks@, pos + 6, Tok::P(Punct::Semi)) ==> (r matches Ok((x, e)) && e == pos + 7 && x.items@.len() == 1),
        import_end(toks@, pos as int) is Some ==> (r matches Ok((x, e)) && e == import_end(toks@, pos as int)->0),
{
    proof {
        if import_end(toks@, pos as int) is Some {
            lemma_imports_close(toks@, pos + 2);
        }
    }
    if !(at_kw(toks, pos, Keyword::Import) && at_punct(toks, pos + 1, Punct::LBrace)) {
        return Err(pos);
    }
    let (items, e1) = parse_import_item_list(toks, pos + 2)?;
    if !(at_punct(toks, e1, Punct::RBrace) && at_word_text(toks, e1 + 1, "from")) {
        return Err(e1);
    }
    let source = match at_str(toks, e1 + 2) {
        Some(s) => s,
        None => {
            return Err(e1 + 2);
        },
    };
    if !at_punct(toks, e1 + 3, Punct::Semi) {
        return Err(e1 + 3);
    }
    let ghost ts = toks@;
    let ghost k = seq![Sym::Kw(Keyword::Import), Sym::P(Punct::LBrace)];
    let ghost pl = pats_import_item_list(items@);
    proof {
        lemma_two(ts, pos as int, Sym::Kw(Keyword::Import), Sym::P(Punct::LBrace));
        lemma_cat(ts, pos as int, pos + 2, e1 as int, k, pl);
        lemma_then2(ts, pos as int, e1 as int, k + pl, Sym::P(Punct::RBrace), Sym::Word("from"@));
        lemma_then2(ts, pos as int, e1 + 2, k + pl + seq![Sym::P(Punct::RBrace), Sym::Word("from"@)], Sym::Str(source@), Sym::P(Punct::Semi));
        assert(k + pl + seq![Sym::P(Punct::RBrace), Sym::Word("from"@)] + seq![Sym::Str(source@), Sym::P(Punct::Semi)] =~= k + pl + seq![Sym::P(Punct::RBrace), Sym::Word("from"@), Sym::Str(source@), Sym::P(Punct::Semi)]);
    }
    let x = ImportStmt { items, source, span: span_of(toks, pos, e1 + 4) };
    Ok((x, e1 + 4))
}

/// `T name;`
fn parse_struct_field(toks: &Vec<Token>, pos: usize) -> (r: Result<(StructField, usize), usize>)
    requires
        toks_ok(toks@),
    ensures
        r matches Ok((f, e)) ==> read_ok(toks@, pos, e, pats_struct_field(f)),
        plain_type_at(toks@, pos as int) && name_at(toks@, pos + 1) && tok_is(toks@, pos + 2, Tok::P(Punct::Semi)) ==> (r matches Ok((f, e)) && e == pos + 3),
        type_endp(toks@, pos as int) is Some && pos < type_endp(toks@, pos as int)->0 && name_at(toks@, type_endp(toks@, pos as int)->0) && tok_is(toks@, type_endp(toks@, pos as int)->0 + 1, Tok::P(Punct::Semi)) ==> (r matches Ok((f, e)) && e == type_endp(toks@, pos as int)->0 + 2),
{
    let (ty, e1) = parse_type(toks, pos)?;
    let (name, e2) = parse_ident(toks, e1)?;
    if !at_punct(toks, e2, Punct::Semi) {
        return Err(e2);
    }
    proof {
        lemma_cat(toks@, pos as int, e1 as int, e2 as int, pats_type(ty), pats_word(name));
        lemma_then(toks@, pos as int, e2 as int, pats_type(ty) + pats_word(name), Sym::P(Punct::Semi));
    }
    Ok((StructField { ty, name, span: span_of(toks, pos, e2 + 1) }, e2 + 1))
}

/// `struct Name<T> { fields }`, with its attributes.
fn parse_struct(toks: &Vec<Token>, pos: usize) -> (r: Result<(StructDef, usize), usize>)
    requires
        toks_ok(toks@),
        pos <= toks@.len(),
    ensures
        r matches Ok((d, e)) ==> read_ok(toks@, pos, e, pats_struct(d)),
        tok_is(toks@, pos as int, Tok::Kw(Keyword::Struct)) && name_at(toks@, pos + 1) && empty_block_at(toks@, pos + 2) ==> (r matches Ok((d, e)) && e == pos + 4 && d.fields@.len() == 0),
        tok_is(toks@, pos as int, Tok::Kw(Keyword::Struct)) && struct_enum_endp(toks@, pos as int) is Some ==> (r matches Ok((d, e)) && e == struct_enum_endp(toks@, pos as int)->0),
{
    let ghost ts = toks@;
    let (attributes, e0) = parse_attributes(toks, pos)?;
    if !at_kw(toks, e0, Keyword::Struct) {
        return Err(e0);
    }
    let (name, e1) = parse_ident(toks, e0 + 1)?;
    let (generic_params, e2) = parse_opt_generic_params(toks, e1)?;
    if !at_punct(toks, e2, Punct::LBrace) {
        return Err(e2);
    }
    let ghost a0 = pats_attributes(attributes@) + seq![Sym::Kw(Keyword::Struct)];
    let ghost a1 = a0 + pats_word(name);
    let ghost a2 = a1 + pats_opt_generic_params(generic_params) + seq![Sym::P(Punct::LBrace)];
    proof {
        lemma_then(ts, pos as int, e0 as int, pats_attributes(attributes@), Sym::Kw(Keyword::Struct));
        lemma_cat(ts, pos as int, e0 + 1, e1 as int, a0, pats_word(name));
        lemma_cat(ts, pos as int, e1 as int, e2 as int, a1, pats_opt_generic_params(generic_params));
        lemma_then(ts, pos as int, e2 as int, a1 + pats_opt_generic_params(generic_params), Sym::P(Punct::LBrace));
    }
    let mut fields: Vec<StructField> = Vec::new();
    let mut cur = e2 + 1;
    proof {
        assert(a2 + pats_struct_fields(fields@) =~= a2);
    }
    while !at_punct(toks, cur, Punct::RBrace)
        invariant
            toks_ok(toks@),
            ts == toks@,
            pos < cur <= toks@.len(),
            spelled(ts, pos as int, cur as int, a2 + pats_struct_fields(fields@)),
            tok_is(toks@, pos as int, Tok::Kw(Keyword::Struct)) && struct_enum_endp(toks@, pos as int) is Some ==> fields_end(toks@, cur as int) == fields_end(toks@, pos + 3),
            tok_is(toks@, pos as int, Tok::Kw(Keyword::Struct)) && name_at(toks@, pos + 1) && empty_block_at(toks@, pos + 2) ==> cur == pos + 3 && fields@.len() == 0,
        decreases toks@.len() - cur,
    {
        let (f, e) = parse_struct_field(toks, cur)?;
        proof {
            lemma_cat(ts, pos as int, cur as int, e as int, a2 + pats_struct_fields(fields@), pats_struct_field(f));
        }
        let ghost old = fields@;
        fields.push(f);
        proof {
            assert(fields@.drop_last() =~= old);
            assert(a2 + pats_struct_fields(fields@) =~= a2 + pats_struct_fields(old) + pats_struct_field(f));
        }
        cur = e;
    }
    proof {
        lemma_then(ts, pos as int, cur as int, a2 + pats_struct_fields(fields@), Sym::P(Punct::RBrace));
    }
    Ok((StructDef { attributes, name, generic_params, fields, span: span_of(toks, pos, cur + 1) }, cur + 1))
}

/// `enum Name { A, B }`, with its attributes.
fn parse_enum(toks: &Vec<Token>, pos: usize) -> (r: Result<(EnumDef, usize), usize>)
    requires
        toks_ok(toks@),
        pos <= toks@.len(),
    ensures
        r matches Ok((d, e)) ==> read_ok(toks@, pos, e, pats_enum(d)),
        tok_is(toks@, pos as int, Tok::Kw(Keyword::Enum)) && name_at(toks@, pos + 1) && empty_block_at(toks@, pos + 2) ==> (r matches Ok((d, e)) && e == pos + 4 && d.variants@.len() == 0),
        tok_is(toks@, pos as int, Tok::Kw(Keyword::Enum)) && struct_enum_endp(toks@, pos as int) is Some ==> (r matches Ok((d, e)) && e == struct_enum_endp(toks@, pos as int)->0),
{
    proof {
        if tok_is(toks@, pos as int, Tok::Kw(Keyword::Enum)) && struct_enum_endp(toks@, pos as int) is Some && !tok_is(toks@, pos + 3, Tok::P(Punct::RBrace)) {
            lemma_variants_close(toks@, pos + 3);
        }
    }
    let ghost ts = toks@;
    let (attributes, e0) = parse_attributes(toks, pos)?;
    if !at_kw(toks, e0, Keyword::Enum) {
        return Err(e0);
    }
    let (name, e1) = parse_ident(toks, e0 + 1)?;
    if !at_punct(toks, e1, Punct::LBrace) {
        return Err(e1);
    }
    let (variants, e2) = parse_variant_list(toks, e1 + 1)?;
    if !at_punct(toks, e2, Punct::RBrace) {
        return Err(e2);
    }
    let ghost a0 = pats_attributes(attributes@) + seq![Sym::Kw(Keyword::Enum)];
    let ghost a1 = a0 + pats_word(name) + seq![Sym::P(Punct::LBrace)];
    proof {
        lemma_then(ts, pos as int, e0 as int, pats_attributes(attributes@), Sym::Kw(Keyword::Enum));
        lemma_cat(ts, pos as int, e0 + 1, e1 as int, a0, pats_word(name));
        lemma_then(ts, pos as int, e1 as int, a0 + pats_word(name), Sym::P(Punct::LBrace));
        lemma_cat(ts, pos as int, e1 + 1, e2 as int, a1, pats_variant_list(variants@));
        lemma_then(ts, pos as int, e2 as int, a1 + pats_variant_list(variants@), Sym::P(Punct::RBrace));
    }
    Ok((EnumDef { attributes, name, variants, span: span_of(toks, pos, e2 + 1) }, e2 + 1))
}

/// `event Name(params);`
fn parse_event(toks: &Vec<Token>, pos: usize) -> (r: Result<(EventDef, usize), usize>)
    requires
        toks_ok(toks@),
    ensures
        r matches Ok((d, e)) ==> read_ok(toks@, pos, e, pats_event(d)),
        tok_is(toks@, pos as int, Tok::Kw(Keyword::Event)) && name_at(toks@, pos + 1) && tok_is(toks@, pos + 2, Tok::P(Punct::LParen)) && tok_is(toks@, pos + 3, Tok::P(Punct::RParen)) && tok_is(toks@, pos + 4, Tok::P(Punct::Semi)) ==> (r matches Ok((d, e)) && e == pos + 5 && d.params@.len() == 0),
        tok_is(toks@, pos as int, Tok::Kw(Keyword::Event)) && event_error_endp(toks@, pos as int) is Some ==> (r matches Ok((d, e)) && e == event_error_endp(toks@, pos as int)->0),
{
    proof {
        if tok_is(toks@, pos as int, Tok::Kw(Keyword::Event)) && event_error_endp(toks@, pos as int) is Some && !tok_is(toks@, pos + 3, Tok::P(Punct::RParen)) {
            lemma_eparams_close(toks@, pos + 3);
        }
    }
    if !at_kw(toks, pos, Keyword::Event) {
        return Err(pos);
    }
    let (name, e1) = parse_ident(toks, pos + 1)?;
    if !at_punct(toks, e1, Punct::LParen) {
        return Err(e1);
    }
    let (params, e2) = parse_event_param_list(toks, e1 + 1)?;
    if !(at_punct(toks, e2, Punct::RParen) && at_punct(toks, e2 + 1, Punct::Semi)) {
        return Err(e2);
    }
    let ghost ts = toks@;
    let ghost a0 = seq![Sym::Kw(Keyword::Event)];
    let ghost a1 = a0 + pats_word(name) + seq![Sym::P(Punct::LParen)];
    proof {
        lemma_one(ts, pos as int, Sym::Kw(Keyword::Event));
        lemma_cat(ts, pos as int, pos + 1, e1 as int, a0, pats_word(name));
        lemma_then(ts, pos as int, e1 as int, a0 + pats_word(name), Sym::P(Punct::LParen));
        lemma_cat(ts, pos as int, e1 + 1, e2 as int, a1, pats_event_param_list(params@));
        lemma_then2(ts, pos as int, e2 as int, a1 + pats_event_param_list(params@), Sym::P(Punct::RParen), Sym::P(Punct::Semi));
    }
    Ok((EventDef { name, params, span: span_of(toks, pos, e2 + 2) }, e2 + 2))
}

/// `error Name(params);`
fn parse_error(toks: &Vec<Token>, pos: usize) -> (r: Result<(ErrorDef, usize), usize>)
    requires
        toks_ok(toks@),
    ensures
        r matches Ok((d, e)) ==> read_ok(toks@, pos, e, pats_error(d)),
        tok_is(toks@, pos as int, Tok::Kw(Keyword::Error)) && name_at(toks@, pos + 1) && tok_is(toks@, pos + 2, Tok::P(Punct::LParen)) && tok_is(toks@, pos + 3, Tok::P(Punct::RParen)) && tok_is(toks@, pos + 4, Tok::P(Punct::Semi)) ==> (r matches Ok((d, e)) && e == pos + 5 && d.params@.len() == 0),
        tok_is(toks@, pos as int, Tok::Kw(Keyword::Error)) && event_error_endp(toks@, pos as int) is Some ==> (r matches Ok((d, e)) && e == event_error_endp(toks@, pos as int)->0),
{
    proof {
        if tok_is(toks@, pos as int, Tok::Kw(Keyword::Error)) && event_error_endp(toks@, pos as int) is Some && !tok_is(toks@, pos + 3, Tok::P(Punct::RParen)) {
            lemma_xparams_close(toks@, pos + 3);
        }
    }
    if !at_kw(toks, pos, Keyword::Error) {
        return Err(pos);
    }
    let (name, e1) = parse_ident(toks, pos + 1)?;
    if !at_punct(toks, e1, Punct::LParen) {
        return Err(e1);
    }
    let (params, e2) = parse_error_param_list(toks, e1 + 1)?;
    if !(at_punct(toks, e2, Punct::RParen) && at_punct(toks, e2 + 1, Punct::Semi)) {
        return Err(e2);
    }
    let ghost ts = toks@;
    let ghost a0 = seq![Sym::Kw(Keyword::Error)];
    let ghost a1 = a0 + pats_word(name) + seq![Sym::P(Punct::LParen)];
    proof {
        lemma_one(ts, pos as int, Sym::Kw(Keyword::Error));
        lemma_cat(ts, pos as int, pos + 1, e1 as int, a0, pats_word(name));
        lemma_then(ts, pos as int, e1 as int, a0 + pats_word(name), Sym::P(Punct::LParen));
        lemma_cat(ts, pos as int, e1 + 1, e2 as int, a1, pats_error_param_list(params@));
        lemma_then2(ts, pos as int, e2 as int, a1 + pats_error_param_list(params@), Sym::P(Punct::RParen), Sym::P(Punct::Semi));
    }
    Ok((ErrorDef { name, params, span: span_of(toks, pos, e2 + 2) }, e2 + 2))
}

/// `T [visibility] name [= value];`, with its attributes.
#[verifier::spinoff_prover]
#[verifier::rlimit(40)]
fn parse_state_var(toks: &Vec<Token>, pos: usize) -> (r: Result<(StateVar, usize), usize>)
    requires
        toks_ok(toks@),
        pos <= toks@.len(),
    ensures
        r matches Ok((v, e)) ==> read_ok(toks@, pos, e, pats_state_var(v)) && opt_grouped(v.initializer),
        plain_type_at(toks@, pos as int) && name_at(toks@, pos + 1) && tok_is(toks@, pos + 2, Tok::P(Punct::Semi)) ==> (r matches Ok((v, e)) && e == pos + 3 && v.initializer is None && v.visibility is None),
        plain_type_at(toks@, pos as int) && vis_at(toks@, pos + 1) && name_at(toks@, pos + 2) && tok_is(toks@, pos + 3, Tok::P(Punct::Semi)) ==> (r matches Ok((v, e)) && e == pos + 4 && v.initializer is None && v.visibility is Some),
        state_var_endp(toks@, pos as int) is Some ==> (r matches Ok((v, e)) && e == state_var_endp(toks@, pos as int)->0),
{
    let ghost ts = toks@;
    let (attributes, e0) = parse_attributes(toks, pos)?;
    let (ty, e1) = parse_type(toks, e0)?;
    let (visibility, e2) = parse_opt_visibility(toks, e1);
    let (name, e3) = parse_ident(toks, e2)?;
    let ghost a0 = pats_attributes(attributes@) + pats_type(ty);
    let ghost a1 = a0 + pats_opt_visibility(visibility);
    let ghost a2 = a1 + pats_word(name);
    proof {
        lemma_cat(ts, pos as int, e0 as int, e1 as int, pats_attributes(attributes@), pats_type(ty));
        lemma_cat(ts, pos as int, e1 as int, e2 as int, a0, pats_opt_visibility(visibility));
        lemma_cat(ts, pos as int, e2 as int, e3 as int, a1, pats_word(name));
    }
    let mut initializer: Option<Expr> = None;
    let mut e4 = e3;
    if at_punct(toks, e3, Punct::Assign) {
        let (x, e) = parse_expr(toks, e3 + 1)?;
        proof {
            lemma_one(ts, e3 as int, Sym::P(Punct::Assign));
            lemma_cat(ts, e3 as int, e3 + 1, e as int, seq![Sym::P(Punct::Assign)], pats_expr(x));
            lemma_cat(ts, pos as int, e3 as int, e as int, a2, seq![Sym::P(Punct::Assign)] + pats_expr(x));
        }
        initializer = Some(x);
        e4 = e;
    } else {
        proof {
            assert(a2 + seq![] =~= a2);
        }
    }
    let ghost pi = pats_opt_initializer(initializer);
    if !at_punct(toks, e4, Punct::Semi) {
        return Err(e4);
    }
    proof {
        lemma_then(ts, pos as int, e4 as int, a2 + pi, Sym::P(Punct::Semi));
    }
    Ok((StateVar { attributes, ty, visibility, name, initializer, span: span_of(toks, pos, e4 + 1) }, e4 + 1))
}

/// `constructor(params) modifiers { ... }`
fn parse_constructor(toks: &Vec<Token>, pos: usize) -> (r: Result<(ConstructorDef, usize), usize>)
    requires
        toks_ok(toks@),
    ensures
        r matches Ok((c, e)) ==> read_ok(toks@, pos, e, pats_constructor(c)) && modinvs_grouped(c.modifiers@)
            && block_grouped(c.body),
        tok_is(toks@, pos as int, Tok::Kw(Keyword::Constructor)) && tok_is(toks@, pos + 1, Tok::P(Punct::LParen)) && tok_is(toks@, pos + 2, Tok::P(Punct::RParen)) && empty_block_at(toks@, pos + 3) ==> (r matches Ok((c, e)) && e == pos + 5),
        tok_is(toks@, pos as int, Tok::Kw(Keyword::Constructor)) && tok_is(toks@, pos + 1, Tok::P(Punct::LParen)) && tok_is(toks@, pos + 2, Tok::P(Punct::RParen)) && block_len(toks@, pos + 3) > 0 ==> (r matches Ok((c, e)) && e == pos + 3 + block_len(toks@, pos + 3)),
        tok_is(toks@, pos as int, Tok::Kw(Keyword::Constructor)) && tok_is(toks@, pos + 1, Tok::P(Punct::LParen)) && param_list_end(toks@, pos + 2) is Some && block_endp(toks@, modinvs_end(toks@, param_list_end(toks@, pos + 2)->0 + 1)) is Some ==> (r matches Ok((c, e)) && e == block_endp(toks@, modinvs_end(toks@, param_list_end(toks@, pos + 2)->0 + 1))->0),
{
    if !at_kw(toks, pos, Keyword::Constructor) {
        return Err(pos);
    }
    let (params, e1) = parse_params(toks, pos + 1)?;
    let (modifiers, e2) = parse_modinvs(toks, e1)?;
    let (body, e3) = parse_block(toks, e2)?;
    let ghost ts = toks@;
    let ghost a0 = seq![Sym::Kw(Keyword::Constructor)];
    let ghost pb = pats_block(body);
    proof {
        lemma_one(ts, pos as int, Sym::Kw(Keyword::Constructor));
        lemma_cat(ts, pos as int, pos + 1, e1 as int, a0, pats_params(params@));
        lemma_cat(ts, pos as int, e1 as int, e2 as int, a0 + pats_params(params@), pats_modinvs(modifiers@));
        lemma_cat(ts, pos as int, e2 as int, e3 as int, a0 + pats_params(params@) + pats_modinvs(modifiers@), pb);
    }
    Ok((ConstructorDef { params, modifiers, body, span: span_of(toks, pos, e3) }, e3))
}

/// `modifier name(params) { ... }`
fn parse_modifier_def(toks: &Vec<Token>, pos: usize) -> (r: Result<(ModifierDef, usize), usize>)
    requires
        toks_ok(toks@),
    ensures
        r matches Ok((m, e)) ==> read_ok(toks@, pos, e, pats_modifier_def(m)) && block_grouped(m.body),
        tok_is(toks@, pos as int, Tok::Kw(Keyword::Modifier)) && name_at(toks@, pos + 1) && tok_is(toks@, pos + 2, Tok::P(Punct::LParen)) && tok_is(toks@, pos + 3, Tok::P(Punct::RParen)) && empty_block_at(toks@, pos + 4) ==> (r matches Ok((m, e)) && e == pos + 6),
        tok_is(toks@, pos as int, Tok::Kw(Keyword::Modifier)) && name_at(toks@, pos + 1) && tok_is(toks@, pos + 2, Tok::P(Punct::LParen)) && param_list_end(toks@, pos + 3) is Some && block_endp(toks@, param_list_end(toks@, pos + 3)->0 + 1) is Some ==> (r matches Ok((m, e)) && e == block_endp(toks@, param_list_end(toks@, pos + 3)->0 + 1)->0),
{
    if !at_kw(toks, pos, Keyword::Modifier) {
        return Err(pos);
    }
    let (name, e1) = parse_ident(toks, pos + 1)?;
    let (params, e2) = parse_params(toks, e1)?;
    let (body, e3) = parse_block(toks, e2)?;
    let ghost ts = toks@;
    let ghost a0 = seq![Sym::Kw(Keyword::Modifier)];
    let ghost pb = pats_block(body);
    proof {
        lemma_one(ts, pos as int, Sym::Kw(Keyword::Modifier));
        lemma_cat(ts, pos as int, pos + 1, e1 as int, a0, pats_word(name));
        lemma_cat(ts, pos as int, e1 as int, e2 as int, a0 + pats_word(name), pats_params(params@));
        lemma_cat(ts, pos as int, e2 as int, e3 as int, a0 + pats_word(name) + pats_params(params@), pb);
    }
    Ok((ModifierDef { name, params, body, span: span_of(toks, pos, e3) }, e3))
}

/// One member of a contract, chosen by the word after its attributes.
#[verifier::spinoff_prover]
#[verifier::rlimit(40)]
fn parse_member(toks: &Vec<Token>, pos: usize) -> (r: Result<(ContractMember, usize), usize>)
    requires
        toks_ok(toks@),
        pos <= toks@.len(),
    ensures
        r matches Ok((m, e)) ==> read_ok(toks@, pos, e, pats_member(m)) && member_grouped(m),
        tok_is(toks@, pos as int, Tok::Kw(Keyword::Function)) && name_at(toks@, pos + 1) && tok_is(toks@, pos + 2, Tok::P(Punct::LParen)) && tok_is(toks@, pos + 3, Tok::P(Punct::RParen)) && empty_block_at(toks@, pos + 4) ==> (r matches Ok((m, e)) && e == pos + 6 && m is Function),
        plain_type_at(toks@, pos as int) && name_at(toks@, pos + 1) && tok_is(toks@, pos + 2, Tok::P(Punct::Semi)) ==> (r matches Ok((m, e)) && e == pos + 3 && m is StateVar),
        tok_is(toks@, pos as int, Tok::Kw(Keyword::Event)) && name_at(toks@, pos + 1) && tok_is(toks@, pos + 2, Tok::P(Punct::LParen)) && tok_is(toks@, pos + 3, Tok::P(Punct::RParen)) && tok_is(toks@, pos + 4, Tok::P(Punct::Semi)) ==> (r matches Ok((m, e)) && e == pos + 5 && m is Event),
        tok_is(toks@, pos as int, Tok::Kw(Keyword::Error)) && name_at(toks@, pos + 1) && tok_is(toks@, pos + 2, Tok::P(Punct::LParen)) && tok_is(toks@, pos + 3, Tok::P(Punct::RParen)) && tok_is(toks@, pos + 4, Tok::P(Punct::Semi)) ==> (r matches Ok((m, e)) && e == pos + 5 && m is Error),
        bare_member_len(toks@, pos as int) > 0 ==> (r matches Ok((m, e)) && e == pos + bare_member_len(toks@, pos as int)),
{
    let (_, k) = parse_attributes(toks, pos)?;
    if at_kw(toks, k, Keyword::Function) {
        let (f, e) = parse_fn_def(toks, pos)?;
        Ok((ContractMember::Function(f), e))
    } else if at_kw(toks, pos, Keyword::Constructor) {
        let (c, e) = parse_constructor(toks, pos)?;
        Ok((ContractMember::Constructor(c), e))
    } else if at_kw(toks, pos, Keyword::Modifier) {
        let (m, e) = parse_modifier_def(toks, pos)?;
        Ok((ContractMember::Modifier(m), e))
    } else if at_kw(toks, pos, Keyword::Event) {
        let (d, e) = parse_event(toks, pos)?;
        Ok((ContractMember::Event(d), e))
    } else if at_kw(toks, pos, Keyword::Error) {
        let (d, e) = parse_error(toks, pos)?;
        Ok((ContractMember::Error(d), e))
    } else if at_kw(toks, k, Keyword::Struct) {
        let (d, e) = parse_struct(toks, pos)?;
        Ok((ContractMember::Struct(d), e))
    } else if at_kw(toks, k, Keyword::Enum) {
        let (d, e) = parse_enum(toks, pos)?;
        Ok((ContractMember::Enum(d), e))
    } else {
        let (v, e) = parse_state_var(toks, pos)?;
        Ok((ContractMember::StateVar(v), e))
    }
}

/// `is A, B`, if the word at `pos` is `is`.
fn parse_bases(toks: &Vec<Token>, pos: usize) -> (r: Result<(Vec<TypePath>, usize), usize>)
    requires
        toks_ok(toks@),
        pos <= toks@.len(),
    ensures
        r matches Ok((xs, e)) ==> pos <= e <= toks@.len() && spelled(
            toks@,
            pos as int,
            e as int,
            pats_bases(xs@),
        ),
        !name_at(toks@, pos as int) ==> (r matches Ok((xs, e)) && e == pos && xs@.len() == 0),
        !name_at(toks@, pos as int) || word_at(toks@, pos as int, "is"@) && base_names_end(toks@, pos + 1) is Some ==> (r matches Ok((xs, e)) && e == bases_end(toks@, pos as int)),
        !word_at(toks@, pos as int, "is"@) ==> (r matches Ok((xs, e)) && e == pos),
{
    if !at_word_text(toks, pos, "is") {
        proof {
            lemma_empty(toks@, pos as int);
        }
        return Ok((Vec::new(), pos));
    }
    let (xs, e) = parse_base_list(toks, pos + 1)?;
    proof {
        lemma_one(toks@, pos as int, Sym::Word("is"@));
        lemma_cat(toks@, pos as int, pos + 1, e as int, seq![Sym::Word("is"@)], pats_base_list(xs@));
    }
    Ok((xs, e))
}

/// `[abstract] contract Name is Bases { members }`, with its attributes.
#[verifier::spinoff_prover]
#[verifier::rlimit(40)]
fn parse_contract(toks: &Vec<Token>, pos: usize) -> (r: Result<(ContractDef, usize), usize>)
    requires
        toks_ok(toks@),
        pos <= toks@.len(),
    ensures
        r matches Ok((c, e)) ==> read_ok(toks@, pos, e, pats_contract(c)) && contract_grouped(c),
        tok_is(toks@, pos as int, Tok::Kw(Keyword::Contract)) && name_at(toks@, pos + 1) && empty_block_at(toks@, pos + 2) ==> (r matches Ok((c, e)) && e == pos + 4 && c.members@.len() == 0 && !c.is_abstract),
        simple_contract_end(toks@, pos as int) is Some ==> (r matches Ok((c, e)) && e == simple_contract_end(toks@, pos as int)->0 && c.is_abstract == tok_is(toks@, pos as int, Tok::Kw(Keyword::Abstract))),
{
    let ghost ts = toks@;
    let (attributes, e0) = parse_attributes(toks, pos)?;
    let is_abstract = at_kw(toks, e0, Keyword::Abstract);
    let k = if is_abstract { e0 + 1 } else { e0 };
    let ghost pa = if is_abstract { seq![Sym::Kw(Keyword::Abstract)] } else { Seq::<Sym>::empty() };
    proof {
        if is_abstract {
            lemma_then(ts, pos as int, e0 as int, pats_attributes(attributes@), Sym::Kw(Keyword::Abstract));
        } else {
            assert(pats_attributes(attributes@) + pa =~= pats_attributes(attributes@));
        }
    }
    if !at_kw(toks, k, Keyword::Contract) {
        return Err(k);
    }
    let (name, e1) = parse_ident(toks, k + 1)?;
    let (bases, e2) = parse_bases(toks, e1)?;
    if !at_punct(toks, e2, Punct::LBrace) {
        return Err(e2);
    }
    let ghost a0 = pats_attributes(attributes@) + pa + seq![Sym::Kw(Keyword::Contract)];
    let ghost a1 = a0 + pats_word(name) + pats_bases(bases@) + seq![Sym::P(Punct::LBrace)];
    proof {
        lemma_then(ts, pos as int, k as int, pats_attributes(attributes@) + pa, Sym::Kw(Keyword::Contract));
        lemma_cat(ts, pos as int, k + 1, e1 as int, a0, pats_word(name));
        lemma_cat(ts, pos as int, e1 as int, e2 as int, a0 + pats_word(name), pats_bases(bases@));
        lemma_then(ts, pos as int, e2 as int, a0 + pats_word(name) + pats_bases(bases@), Sym::P(Punct::LBrace));
    }
    let mut members: Vec<ContractMember> = Vec::new();
    let mut cur = e2 + 1;
    proof {
        assert(a1 + pats_members(members@) =~= a1);
    }
    while !at_punct(toks, cur, Punct::RBrace)
        invariant
            toks_ok(toks@),
            ts == toks@,
            pos < cur <= toks@.len(),
            spelled(ts, pos as int, cur as int, a1 + pats_members(members@)),
            forall|j: int| 0 <= j < members@.len() ==> member_grouped(#[trigger] members@[j]),
            tok_is(toks@, pos as int, Tok::Kw(Keyword::Contract)) && name_at(toks@, pos + 1) && empty_block_at(toks@, pos + 2) ==> cur == pos + 3 && members@.len() == 0,
            simple_contract_end(toks@, pos as int) is Some ==> members_end(toks@, cur as int) == members_end(toks@, bases_end(toks@, (if tok_is(toks@, pos as int, Tok::Kw(Keyword::Abstract)) { pos + 1 } else { pos as int }) + 2) + 1),
        decreases toks@.len() - cur,
    {
        let (m, e) = parse_member(toks, cur)?;
        proof {
            lemma_cat(ts, pos as int, cur as int, e as int, a1 + pats_members(members@), pats_member(m));
        }
        let ghost old = members@;
        members.push(m);
        proof {
            assert(members@.drop_last() =~= old);
            assert(a1 + pats_members(members@) =~= a1 + pats_members(old) + pats_member(m));
        }
        cur = e;
    }
    proof {
        lemma_then(ts, pos as int, cur as int, a1 + pats_members(members@), Sym::P(Punct::RBrace));
    }
    Ok((ContractDef { attributes, is_abstract, name, bases, members, span: span_of(toks, pos, cur + 1) }, cur + 1))
}

/// `interface Name is Bases { function headers; }`, with its attributes.
fn parse_interface(toks: &Vec<Token>, pos: usize) -> (r: Result<(InterfaceDef, usize), usize>)
    requires
        toks_ok(toks@),
        pos <= toks@.len(),
    ensures
        r matches Ok((d, e)) ==> read_ok(toks@, pos, e, pats_interface(d)) && interface_grouped(d),
        tok_is(toks@, pos as int, Tok::Kw(Keyword::Interface)) && name_at(toks@, pos + 1) && empty_block_at(toks@, pos + 2) ==> (r matches Ok((c, e)) && e == pos + 4 && c.members@.len() == 0),
        interface_end(toks@, pos as int) is Some ==> (r matches Ok((d, e)) && e == interface_end(toks@, pos as int)->0),
{
    let ghost ts = toks@;
    let (attributes, e0) = parse_attributes(toks, pos)?;
    if !at_kw(toks, e0, Keyword::Interface) {
        return Err(e0);
    }
    let (name, e1) = parse_ident(toks, e0 + 1)?;
    let (bases, e2) = parse_bases(toks, e1)?;
    if !at_punct(toks, e2, Punct::LBrace) {
        return Err(e2);
    }
    let ghost a0 = pats_attributes(attributes@) + seq![Sym::Kw(Keyword::Interface)];
    let ghost a1 = a0 + pats_word(name) + pats_bases(bases@) + seq![Sym::P(Punct::LBrace)];
    proof {
        lemma_then(ts, pos as int, e0 as int, pats_attributes(attributes@), Sym::Kw(Keyword::Interface));
        lemma_cat(ts, pos as int, e0 + 1, e1 as int, a0, pats_word(name));
        lemma_cat(ts, pos as int, e1 as int, e2 as int, a0 + pats_word(name), pats_bases(bases@));
        lemma_then(ts, pos as int, e2 as int, a0 + pats_word(name) + pats_bases(bases@), Sym::P(Punct::LBrace));
    }
    let mut members: Vec<FnSig> = Vec::new();
    let mut cur = e2 + 1;
    proof {
        assert(a1 + pats_sigs(members@) =~= a1);
    }
    while !at_punct(toks, cur, Punct::RBrace)
        invariant
            toks_ok(toks@),
            ts == toks@,
            pos < cur <= toks@.len(),
            spelled(ts, pos as int, cur as int, a1 + pats_sigs(members@)),
            forall|j: int| 0 <= j < members@.len() ==> fn_sig_grouped(#[trigger] members@[j]),
            interface_end(toks@, pos as int) is Some ==> sigs_end(toks@, cur as int) == sigs_end(toks@, bases_end(toks@, pos + 2) + 1),
            tok_is(toks@, pos as int, Tok::Kw(Keyword::Interface)) && name_at(toks@, pos + 1) && empty_block_at(toks@, pos + 2) ==> cur == pos + 3 && members@.len() == 0,
        decreases toks@.len() - cur,
    {
        let (f, e) = parse_fn_sig(toks, cur)?;
        if !at_punct(toks, e, Punct::Semi) {
            return Err(e);
        }
        proof {
            lemma_cat(ts, pos as int, cur as int, e as int, a1 + pats_sigs(members@), pats_fn_sig(f));
            lemma_then(ts, pos as int, e as int, a1 + pats_sigs(members@) + pats_fn_sig(f), Sym::P(Punct::Semi));
        }
        let ghost old = members@;
        members.push(f);
        proof {
            assert(members@.drop_last() =~= old);
            assert(a1 + pats_sigs(members@) =~= a1 + pats_sigs(old) + pats_fn_sig(f) + seq![Sym::P(Punct::Semi)]);
        }
        cur = e + 1;
    }
    proof {
        lemma_then(ts, pos as int, cur as int, a1 + pats_sigs(members@), Sym::P(Punct::RBrace));
    }
    Ok((InterfaceDef { attributes, name, bases, members, span: span_of(toks, pos, cur + 1) }, cur + 1))
}

/// One top-level item, chosen by the word after its attributes.
#[verifier::spinoff_prover]
#[verifier::rlimit(40)]
fn parse_item(toks: &Vec<Token>, pos: usize) -> (r: Result<(Item, usize), usize>)
    requires
        toks_ok(toks@),
        pos <= toks@.len(),
    ensures
        r matches Ok((it, e)) ==> read_ok(toks@, pos, e, pats_item(it)) && item_grouped(it),
        tok_is(toks@, pos as int, Tok::Kw(Keyword::Contract)) && name_at(toks@, pos + 1) && empty_block_at(toks@, pos + 2) ==> (r matches Ok((it, e)) && e == pos + 4 && it is Contract),
        bare_item_len(toks@, pos as int) > 0 ==> (r matches Ok((it, e)) && e == pos + bare_item_len(toks@, pos as int)),
{
    let (_, k) = parse_attributes(toks, pos)?;
    if at_kw(toks, pos, Keyword::Import) {
        let (x, e) = parse_import(toks, pos)?;
        Ok((Item::Import(x), e))
    } else if at_kw(toks, k, Keyword::Contract) || at_kw(toks, k, Keyword::Abstract) {
        let (x, e) = parse_contract(toks, pos)?;
        Ok((Item::Contract(x), e))
    } else if at_kw(toks, k, Keyword::Interface) {
        let (x, e) = parse_interface(toks, pos)?;
        Ok((Item::Interface(x), e))
    } else if at_kw(toks, k, Keyword::Struct) {
        let (x, e) = parse_struct(toks, pos)?;
        Ok((Item::Struct(x), e))
    } else if at_kw(toks, k, Keyword::Enum) {
        let (x, e) = parse_enum(toks, pos)?;
        Ok((Item::Enum(x), e))
    } else if at_kw(toks, pos, Keyword::Event) {
        let (x, e) = parse_event(toks, pos)?;
        Ok((Item::Event(x), e))
    } else if at_kw(toks, pos, Keyword::Error) {
        let (x, e) = parse_error(toks, pos)?;
        Ok((Item::Error(x), e))
    } else {
        let (x, e) = parse_fn_def(toks, pos)?;
        Ok((Item::Function(x), e))
    }
}

/// The items of a whole token list, one after the other.
#[verifier::spinoff_prover]
#[verifier::rlimit(40)]
pub fn parse_items(toks: &Vec<Token>) -> (r: Result<Vec<Item>, usize>)
    requires
        toks_ok(toks@),
    ensures
        r matches Ok(items) ==> spelled(toks@, 0, toks@.len() as int, pats_items(items@)),
        r matches Ok(items) ==> forall|j: int| 0 <= j < items@.len() ==> item_grouped(#[trigger] items@[j]),
        toks@.len() == 0 ==> (r matches Ok(items) && items@.len() == 0),
        bare_items_from(toks@, 0) ==> (r matches Ok(items) && items@.len() == bare_items_count(toks@, 0)),
{
    let mut items: Vec<Item> = Vec::new();
    let mut cur: usize = 0;
    proof {
        lemma_empty(toks@, 0);
    }
    while cur < toks.len()
        invariant
            toks_ok(toks@),
            cur <= toks@.len(),
            spelled(toks@, 0, cur as int, pats_items(items@)),
            forall|j: int| 0 <= j < items@.len() ==> item_grouped(#[trigger] items@[j]),
            bare_items_from(toks@, 0) ==> bare_items_from(toks@, cur as int) && bare_items_count(toks@, 0)
                == items@.len() + bare_items_count(toks@, cur as int),
        decreases toks@.len() - cur,
    {
        let (it, e) = parse_item(toks, cur)?;
        proof {
            lemma_cat(toks@, 0, cur as int, e as int, pats_items(items@), pats_item(it));
        }
        let ghost old = items@;
        items.push(it);
        proof {
            assert(items@.drop_last() =~= old);
        }
        cur = e;
    }
    Ok(items)
}

// ---------------------------------------------------------------------------
// Source text to program

/// Read the program that a complete token list writes out.
#[verifier::spinoff_prover]
#[verifier::rlimit(100)]
fn parse_token_list(source: &str, chars: &Vec<char>, toks: Vec<Token>) -> (r: Result<Program, ParseError>)
    requires
        chars@ == source@,
        forall|k: int| 0 <= k < toks@.len() ==> token_ok(chars@, #[trigger] toks@[k]),
        source@.len() <= usize::MAX / 4,
        toks@.len() <= source@.len(),
    ensures
        r matches Ok(p) ==> p.span == (Span { start: 0, end: source.len() }),
        r matches Ok(p) ==> spelled(toks@, 0, toks@.len() as int, pats_program(p)) && program_grouped(p),
        toks@.len() == 0 ==> (r matches Ok(p) && p.items@.len() == 0),
        bare_items_from(toks@, 0) ==> (r matches Ok(p) && p.items@.len() == bare_items_count(toks@, 0)),
        r matches Err(e) ==> error_src(e) == source@ && e is Syntax,
{
    proof {
        assert forall|k: int| 0 <= k < toks@.len() implies tok_wf(#[trigger] toks@[k].tok) by {
            assert(token_ok(chars@, toks@[k]));
        }
    }
    if toks.len() >= usize::MAX {
        return Err(ParseError::syntax("source text too long", (0, 0), source));
    }
    match parse_items(&toks) {
        Ok(items) => {
            let p = Program { items, span: Span { start: 0, end: source.len() } };
            proof {
                assert(pats_program(p) == pats_items(p.items@));
            }
            Ok(p)
        },
        Err(at) => {
            if at < toks.len() {
                let sp = toks[at].span;
                proof {
                    assert(token_ok(chars@, toks@[at as int]));
                    lemma_byte_pos_mono(chars@, toks@[at as int].cstart as int, toks@[at as int].cend as int);
                }
                Err(ParseError::syntax("unexpected token", (sp.start, sp.end), source))
            } else {
                let end = if source.len() < usize::MAX { source.len() + 1 } else { source.len() };
                Err(ParseError::syntax("unexpected end of input", (source.len(), end), source))
            }
        },
    }
}

/// Read a whole program from source text.
///
/// On success, the source splits into tokens (with only whitespace and comments around
/// them) that the program writes out one for one, and the program's span covers the
/// whole text. In every expression of the program operators group by precedence, those
/// of one level from the left, and method calls and parentheses take their own shape
/// (`program_grouped`). A text whose tokens are a sequence of the
/// items that `bare_item_len` reads (contracts, interfaces, structs, enums, events, errors
/// and imports, with functions, statements and expressions as the `*_endp` functions
/// read them) is accepted, with one item for each. A text that does not split into tokens
/// is refused with a syntax error; every error is a syntax error that carries the whole
/// source.
pub fn parse(source: &str) -> (r: Result<Program, ParseError>)
    ensures
        r matches Ok(p) ==> p.span == (Span { start: 0, end: source.len() }),
        r matches Ok(p) ==> program_grouped(p),
        r matches Ok(p) ==> (exists|toks: Seq<Token>|
            lexed_max(source@, toks) && spelled(toks, 0, toks.len() as int, pats_program(p))),
        !(exists|toks: Seq<Token>| lexed_max(source@, toks)) ==> r is Err,
        !(exists|toks: Seq<Token>| lexed_max(source@, toks)) ==> (r matches Err(e) && e is Syntax),
        r matches Err(e) ==> error_src(e) == source@ && e is Syntax,
        source@.len() <= usize::MAX / 4 && lexed_max(source@, Seq::<Token>::empty()) ==> (r matches Ok(
            p,
        ) && p.items@.len() == 0),
        source@.len() <= usize::MAX / 4 && (exists|toks: Seq<Token>| lexed_max(source@, toks)) && (forall|
            toks: Seq<Token>,
        | lexed_max(source@, toks) ==> bare_items_from(toks, 0)) ==> (r matches Ok(p) && exists|toks: Seq<Token>|
            lexed_max(source@, toks) && p.items@.len() == bare_items_count(toks, 0)),
{
    let chars = chars_of(source);
    if chars.len() > usize::MAX / 4 {
        return Err(ParseError::syntax("source text too long", (0, 0), source));
    }
    let toks = match tokenize(chars.as_slice()) {
        Ok(t) => t,
        Err(e) => {
            let (msg, at) = match e {
                LexError::UnexpectedChar(i) => ("unexpected character", i),
                LexError::UnterminatedString(i) => ("unterminated string literal", i),
                LexError::UnterminatedComment(i) => ("unterminated block comment", i),
            };
            let at = if at <= chars.len() { at } else { chars.len() };
            let next = if at < chars.len() { at + 1 } else { at };
            let b0 = byte_offset(chars.as_slice(), at);
            let b1 = byte_offset(chars.as_slice(), next);
            proof {
                lemma_byte_pos_mono(chars@, at as int, next as int);
            }
            return Err(ParseError::syntax(msg, (b0, b1), source));
        },
    };
    let ghost tk = toks@;
    proof {
        assert(lexed_prefix(source@, tk));
        lemma_token_count(source@, tk);
        if lexed_max(source@, Seq::<Token>::empty()) {
            law_lexing_unique(source@, tk, Seq::<Token>::empty());
        }
        if forall|t: Seq<Token>| lexed_max(source@, t) ==> bare_items_from(t, 0) {
            assert(bare_items_from(tk, 0));
        }
    }
    let r = parse_token_list(source, &chars, toks);
    proof {
        if r is Ok {
            assert(lexed_max(source@, tk));
        }
    }
    r
}

} // verus!
