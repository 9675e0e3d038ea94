//! What operators, types and names mean, stated against fixed tables: how tightly the
//! operators of a parsed expression bind, what a compound assignment stores, which Rust
//! operator a generated binary expression uses, which IDL type an integer type has, and
//! which declaration a definition lookup finds.

use vstd::prelude::*;
use crate::ast;
use crate::gen_spec::{gen_expr, type_to_rust_s, GenV};
use crate::grouping::grouped;
use crate::idl::{idl_type_s, IdlTypeV};
use crate::ir::{BinaryOp, ExprV, TypeV, UnaryOp};
use crate::lower_spec::{lower_expr_s, CollV, CtxV, Lowered};
use crate::lsp::{first_named, item_def, items_def, member_def, members_def};
use crate::span::Span;


verus! {

// ---------------------------------------------------------------------------
// Precedence of the operators of a parsed expression

/// How tightly a binary operator binds, loosest first: `||`; `&&`; `|`; `^`; `&`;
/// `==` `!=`; `<` `<=` `>` `>=`; `<<` `>>`; `+` `-`; `*` `/` `%`; `**`.
pub open spec fn binding_strength(op: ast::BinaryOp) -> int {
    match op {
        ast::BinaryOp::Or => 0,
        ast::BinaryOp::And => 1,
        ast::BinaryOp::BitOr => 2,
        ast::BinaryOp::BitXor => 3,
        ast::BinaryOp::BitAnd => 4,
        ast::BinaryOp::Eq => 5,
        ast::BinaryOp::Ne => 5,
        ast::BinaryOp::Lt => 6,
        ast::BinaryOp::Le => 6,
        ast::BinaryOp::Gt => 6,
        ast::BinaryOp::Ge => 6,
        ast::BinaryOp::Shl => 7,
        ast::BinaryOp::Shr => 7,
        ast::BinaryOp::Add => 8,
        ast::BinaryOp::Sub => 8,
        ast::BinaryOp::Mul => 9,
        ast::BinaryOp::Div => 9,
        ast::BinaryOp::Rem => 9,
        ast::BinaryOp::Exp => 10,
    }
}

/// Whether an operator compares: `<`, `<=`, `>` or `>=`.
pub open spec fn is_comparison(op: ast::BinaryOp) -> bool {
    op == ast::BinaryOp::Lt || op == ast::BinaryOp::Le || op == ast::BinaryOp::Gt || op == ast::BinaryOp::Ge
}

/// In a grouped expression, and so in every expression `parse` gives, the operand of a
/// binary operator is never an operator that binds more loosely (without parentheses):
/// the left operand binds at least as tightly, the right one more tightly, so operators
/// of one strength group from the left; `**` groups from the right and takes no binary
/// operator on its left. In particular `a + b < c` can only be `(a + b) < c`: an addition
/// never has a comparison as its operand. Assignments and conditionals bind more loosely
/// than every operator: they are never the operand of a binary or unary operator, an
/// assignment stores an operator expression (assignments chain from the left), and a
/// conditional's condition is not itself a conditional.
pub proof fn law_operands_bind_tighter(e: ast::Expr)
    requires
        grouped(e),
    ensures
        e matches ast::Expr::Binary(b) ==> {
            &&& (b.op != ast::BinaryOp::Exp ==> (b.left matches ast::Expr::Binary(l) ==> binding_strength(l.op)
                >= binding_strength(b.op)))
            &&& (b.op != ast::BinaryOp::Exp ==> (b.right matches ast::Expr::Binary(r) ==> binding_strength(r.op)
                > binding_strength(b.op)))
            &&& (b.op == ast::BinaryOp::Exp ==> !(b.left is Binary))
            &&& (b.op == ast::BinaryOp::Exp ==> (b.right matches ast::Expr::Binary(r) ==> r.op
                == ast::BinaryOp::Exp))
            &&& ((b.op == ast::BinaryOp::Add || b.op == ast::BinaryOp::Sub) ==> !(b.left matches ast::Expr::Binary(
                l) && is_comparison(l.op)) && !(b.right matches ast::Expr::Binary(r) && is_comparison(r.op)))
            &&& !(b.left is Assign) && !(b.left is Ternary) && !(b.right is Assign) && !(b.right is Ternary)
        },
        e matches ast::Expr::Unary(u) ==> !(u.expr is Binary) && !(u.expr is Assign) && !(u.expr is Ternary),
        e matches ast::Expr::Assign(a) ==> !(a.value is Assign) && !(a.value is Ternary) && !(a.target is Ternary),
        e matches ast::Expr::Ternary(t) ==> !(t.condition is Ternary),
{
}

// ---------------------------------------------------------------------------
// Compound assignments

/// Lowering an assignment `x op= v` stores, in `x`, the arithmetic operation that `op=`
/// names on the lowered target and value: `+=` an addition, `-=` a subtraction, `*=` a
/// multiplication, `/=` a division, `%=` a remainder, `&=`, `|=` and `^=` the bitwise
/// operations; a plain `=` stores the value itself.
pub proof fn law_compound_assignment_stores(a: ast::AssignExpr, cx: CtxV, st: CollV)
    ensures
        lower_expr_s(ast::Expr::Assign(Box::new(a)), cx, st) matches Lowered::Done(x, _) ==> {
            &&& lower_expr_s(a.target, cx, st) matches Lowered::Done(t, st1)
            &&& lower_expr_s(a.value, cx, st1) matches Lowered::Done(v, _)
            &&& x matches ExprV::MethodCall { receiver, method, args }
            &&& *receiver == t && method == "__assign__"@ && args.len() == 1
            &&& args[0] == if a.op == ast::AssignOp::Assign {
                v
            } else {
                ExprV::Binary {
                    op: if a.op == ast::AssignOp::AddAssign {
                        BinaryOp::Add
                    } else if a.op == ast::AssignOp::SubAssign {
                        BinaryOp::Sub
                    } else if a.op == ast::AssignOp::MulAssign {
                        BinaryOp::Mul
                    } else if a.op == ast::AssignOp::DivAssign {
                        BinaryOp::Div
                    } else if a.op == ast::AssignOp::RemAssign {
                        BinaryOp::Rem
                    } else if a.op == ast::AssignOp::BitAndAssign {
                        BinaryOp::BitAnd
                    } else if a.op == ast::AssignOp::BitOrAssign {
                        BinaryOp::BitOr
                    } else {
                        BinaryOp::BitXor
                    },
                    left: Box::new(t),
                    right: Box::new(v),
                }
            }
        },
{
}

// ---------------------------------------------------------------------------
// Operators through lowering

/// Lowering a binary expression keeps its operands in their order and the operator's
/// meaning: each operator becomes the operator of the same name, except `**`, which the
/// representation has no operator for and writes as a multiplication.
pub proof fn law_binary_operators_lowered(b: ast::BinaryExpr, cx: CtxV, st: CollV)
    ensures
        lower_expr_s(ast::Expr::Binary(Box::new(b)), cx, st) matches Lowered::Done(x, _) ==> {
            &&& lower_expr_s(b.left, cx, st) matches Lowered::Done(l, st1)
            &&& lower_expr_s(b.right, cx, st1) matches Lowered::Done(r, _)
            &&& x matches ExprV::Binary { op, left, right }
            &&& *left == l && *right == r
            &&& b.op == ast::BinaryOp::Add ==> op == BinaryOp::Add
            &&& b.op == ast::BinaryOp::Sub ==> op == BinaryOp::Sub
            &&& b.op == ast::BinaryOp::Mul ==> op == BinaryOp::Mul
            &&& b.op == ast::BinaryOp::Div ==> op == BinaryOp::Div
            &&& b.op == ast::BinaryOp::Rem ==> op == BinaryOp::Rem
            &&& b.op == ast::BinaryOp::Exp ==> op == BinaryOp::Mul
            &&& b.op == ast::BinaryOp::Eq ==> op == BinaryOp::Eq
            &&& b.op == ast::BinaryOp::Ne ==> op == BinaryOp::Ne
            &&& b.op == ast::BinaryOp::Lt ==> op == BinaryOp::Lt
            &&& b.op == ast::BinaryOp::Le ==> op == BinaryOp::Le
            &&& b.op == ast::BinaryOp::Gt ==> op == BinaryOp::Gt
            &&& b.op == ast::BinaryOp::Ge ==> op == BinaryOp::Ge
            &&& b.op == ast::BinaryOp::And ==> op == BinaryOp::And
            &&& b.op == ast::BinaryOp::Or ==> op == BinaryOp::Or
            &&& b.op == ast::BinaryOp::BitAnd ==> op == BinaryOp::BitAnd
            &&& b.op == ast::BinaryOp::BitOr ==> op == BinaryOp::BitOr
            &&& b.op == ast::BinaryOp::BitXor ==> op == BinaryOp::BitXor
            &&& b.op == ast::BinaryOp::Shl ==> op == BinaryOp::Shl
            &&& b.op == ast::BinaryOp::Shr ==> op == BinaryOp::Shr
        },
{
}

/// Lowering a unary expression keeps its operand and its operator: negation, logical
/// and bitwise not; increments and decrements, which the representation has no
/// operator for, are written as negations.
pub proof fn law_unary_operators_lowered(u: ast::UnaryExpr, cx: CtxV, st: CollV)
    ensures
        lower_expr_s(ast::Expr::Unary(Box::new(u)), cx, st) matches Lowered::Done(x, _) ==> {
            &&& lower_expr_s(u.expr, cx, st) matches Lowered::Done(y, _)
            &&& x matches ExprV::Unary { op, expr }
            &&& *expr == y
            &&& u.op == ast::UnaryOp::Neg ==> op == UnaryOp::Neg
            &&& u.op == ast::UnaryOp::Not ==> op == UnaryOp::Not
            &&& u.op == ast::UnaryOp::BitNot ==> op == UnaryOp::BitNot
            &&& u.op == ast::UnaryOp::PreInc ==> op == UnaryOp::Neg
            &&& u.op == ast::UnaryOp::PostInc ==> op == UnaryOp::Neg
            &&& u.op == ast::UnaryOp::PreDec ==> op == UnaryOp::Neg
            &&& u.op == ast::UnaryOp::PostDec ==> op == UnaryOp::Neg
        },
{
}

// ---------------------------------------------------------------------------
// Binary operators in generated Rust

/// The generated Rust text of a binary expression writes the operands in their order,
/// in parentheses, with the Rust operator of the same meaning: `+ - * / %`, `== !=`,
/// `< <= > >=`, `&& ||`, `& | ^`, `<< >>`.
pub proof fn law_binary_operator_text(op: BinaryOp, l: ExprV, r: ExprV, g: GenV)
    ensures
        ({
            let t = gen_expr(ExprV::Binary { op, left: Box::new(l), right: Box::new(r) }, g);
            let sym = |s: Seq<char>| "("@ + gen_expr(l, g) + " "@ + s + " "@ + gen_expr(r, g) + ")"@;
            &&& op == BinaryOp::Add ==> t == sym("+"@)
            &&& op == BinaryOp::Sub ==> t == sym("-"@)
            &&& op == BinaryOp::Mul ==> t == sym("*"@)
            &&& op == BinaryOp::Div ==> t == sym("/"@)
            &&& op == BinaryOp::Rem ==> t == sym("%"@)
            &&& op == BinaryOp::Eq ==> t == sym("=="@)
            &&& op == BinaryOp::Ne ==> t == sym("!="@)
            &&& op == BinaryOp::Lt ==> t == sym("<"@)
            &&& op == BinaryOp::Le ==> t == sym("<="@)
            &&& op == BinaryOp::Gt ==> t == sym(">"@)
            &&& op == BinaryOp::Ge ==> t == sym(">="@)
            &&& op == BinaryOp::And ==> t == sym("&&"@)
            &&& op == BinaryOp::Or ==> t == sym("||"@)
            &&& op == BinaryOp::BitAnd ==> t == sym("&"@)
            &&& op == BinaryOp::BitOr ==> t == sym("|"@)
            &&& op == BinaryOp::BitXor ==> t == sym("^"@)
            &&& op == BinaryOp::Shl ==> t == sym("<<"@)
            &&& op == BinaryOp::Shr ==> t == sym(">>"@)
        }),
{
}

/// The generated Rust text of a unary expression puts the operator before its operand,
/// in parentheses: `-` for a negation, `!` for a logical or a bitwise not.
pub proof fn law_unary_operator_text(op: UnaryOp, x: ExprV, g: GenV)
    ensures
        ({
            let t = gen_expr(ExprV::Unary { op, expr: Box::new(x) }, g);
            &&& op == UnaryOp::Neg ==> t == "("@ + "-"@ + gen_expr(x, g) + ")"@
            &&& op == UnaryOp::Not ==> t == "("@ + "!"@ + gen_expr(x, g) + ")"@
            &&& op == UnaryOp::BitNot ==> t == "("@ + "!"@ + gen_expr(x, g) + ")"@
        }),
{
}

// ---------------------------------------------------------------------------
// IDL types of the integer types

/// Each integer type and `bool` has, in the IDL, the Anchor primitive of the same
/// signedness and width, and that primitive is the Rust type the generator writes for
/// it: `u8`..`u128`, `i8`..`i128`, `bool`.
pub proof fn law_idl_primitive_types(t: TypeV)
    ensures
        t == TypeV::U8 ==> idl_type_s(t) == IdlTypeV::Primitive("u8"@) && type_to_rust_s(t) == "u8"@,
        t == TypeV::U16 ==> idl_type_s(t) == IdlTypeV::Primitive("u16"@) && type_to_rust_s(t) == "u16"@,
        t == TypeV::U32 ==> idl_type_s(t) == IdlTypeV::Primitive("u32"@) && type_to_rust_s(t) == "u32"@,
        t == TypeV::U64 ==> idl_type_s(t) == IdlTypeV::Primitive("u64"@) && type_to_rust_s(t) == "u64"@,
        t == TypeV::U128 ==> idl_type_s(t) == IdlTypeV::Primitive("u128"@) && type_to_rust_s(t) == "u128"@,
        t == TypeV::I8 ==> idl_type_s(t) == IdlTypeV::Primitive("i8"@) && type_to_rust_s(t) == "i8"@,
        t == TypeV::I16 ==> idl_type_s(t) == IdlTypeV::Primitive("i16"@) && type_to_rust_s(t) == "i16"@,
        t == TypeV::I32 ==> idl_type_s(t) == IdlTypeV::Primitive("i32"@) && type_to_rust_s(t) == "i32"@,
        t == TypeV::I64 ==> idl_type_s(t) == IdlTypeV::Primitive("i64"@) && type_to_rust_s(t) == "i64"@,
        t == TypeV::I128 ==> idl_type_s(t) == IdlTypeV::Primitive("i128"@) && type_to_rust_s(t) == "i128"@,
        t == TypeV::Bool ==> idl_type_s(t) == IdlTypeV::Primitive("bool"@) && type_to_rust_s(t) == "bool"@,
{
}

/// The other types in the IDL: a string is `string`, a public key and a signer
/// `publicKey`, bytes and a mapping (kept in derived accounts) `bytes`, fixed bytes an
/// array of `u8`; arrays, vectors and options keep their shape around the IDL type of
/// what they hold, and a type of the program is referred to by its name.
pub proof fn law_idl_other_types(t: TypeV)
    ensures
        t == TypeV::String ==> idl_type_s(t) == IdlTypeV::Primitive("string"@),
        t == TypeV::Pubkey ==> idl_type_s(t) == IdlTypeV::Primitive("publicKey"@),
        t == TypeV::Signer ==> idl_type_s(t) == IdlTypeV::Primitive("publicKey"@),
        t == TypeV::Bytes ==> idl_type_s(t) == IdlTypeV::Primitive("bytes"@),
        t is Mapping ==> idl_type_s(t) == IdlTypeV::Primitive("bytes"@),
        t matches TypeV::FixedBytes(n) ==> idl_type_s(t) == IdlTypeV::Array(Box::new(IdlTypeV::Primitive("u8"@)), n),
        t matches TypeV::Array(e, n) ==> idl_type_s(t) == IdlTypeV::Array(Box::new(idl_type_s(*e)), n),
        t matches TypeV::Vec(e) ==> idl_type_s(t) == IdlTypeV::Vec(Box::new(idl_type_s(*e))),
        t matches TypeV::Option(e) ==> idl_type_s(t) == IdlTypeV::Option(Box::new(idl_type_s(*e))),
        t matches TypeV::Custom(name) ==> idl_type_s(t) == IdlTypeV::Defined(name),
{
}

// ---------------------------------------------------------------------------
// Definitions of names

/// A member of a contract declares the word, at `sp`: a state variable, function,
/// modifier, event or error by its name, a constructor by the word `constructor`.
pub open spec fn member_declares(m: ast::ContractMember, w: Seq<char>, sp: Span) -> bool {
    match m {
        ast::ContractMember::StateVar(v) => v.name.name@ == w && v.span == sp,
        ast::ContractMember::Function(f) => f.name.name@ == w && f.span == sp,
        ast::ContractMember::Constructor(c) => w == "constructor"@ && c.span == sp,
        ast::ContractMember::Modifier(x) => x.name.name@ == w && x.span == sp,
        ast::ContractMember::Event(e) => e.name.name@ == w && e.span == sp,
        ast::ContractMember::Error(e) => e.name.name@ == w && e.span == sp,
        _ => false,
    }
}

/// An item declares the word, at `sp`: the item itself by its name, or one of the
/// members of a contract, the fields of a struct, the variants of an enum or the
/// signatures of an interface.
pub open spec fn item_declares(it: ast::Item, w: Seq<char>, sp: Span) -> bool {
    match it {
        ast::Item::Contract(c) => (c.name.name@ == w && c.span == sp) || exists|j: int|
            0 <= j < c.members@.len() && member_declares(#[trigger] c.members@[j], w, sp),
        ast::Item::Struct(s) => (s.name.name@ == w && s.span == sp) || exists|j: int|
            #![trigger s.fields@[j]]
            0 <= j < s.fields@.len() && s.fields@[j].name.name@ == w && s.fields@[j].span == sp,
        ast::Item::Enum(e) => (e.name.name@ == w && e.span == sp) || exists|j: int|
            #![trigger e.variants@[j]]
            0 <= j < e.variants@.len() && e.variants@[j].name.name@ == w && e.variants@[j].span == sp,
        ast::Item::Interface(i) => (i.name.name@ == w && i.span == sp) || exists|j: int|
            #![trigger i.members@[j]]
            0 <= j < i.members@.len() && i.members@[j].name.name@ == w && i.members@[j].span == sp,
        ast::Item::Event(e) => e.name.name@ == w && e.span == sp,
        ast::Item::Error(e) => e.name.name@ == w && e.span == sp,
        ast::Item::Function(f) => f.name.name@ == w && f.span == sp,
        ast::Item::Import(_) => false,
    }
}

/// Some item of the list declares the word at `sp`.
pub open spec fn declares(items: Seq<ast::Item>, w: Seq<char>, sp: Span) -> bool {
    exists|k: int| 0 <= k < items.len() && item_declares(#[trigger] items[k], w, sp)
}

proof fn lemma_first_named(names: Seq<(Seq<char>, Span)>, w: Seq<char>)
    ensures
        first_named(names, w) matches Some(sp) ==> exists|j: int| 0 <= j < names.len() && #[trigger] names[j] == (w, sp),
        (exists|j: int| 0 <= j < names.len() && (#[trigger] names[j]).0 == w) ==> first_named(names, w) is Some,
    decreases names.len(),
{
    if names.len() > 0 {
        lemma_first_named(names.drop_first(), w);
        if first_named(names, w) is Some && names[0].0 != w {
            let sp = first_named(names, w)->0;
            let j = choose|j: int| 0 <= j < names.len() - 1 && #[trigger] names.drop_first()[j] == (w, sp);
            assert(names[j + 1] == (w, sp));
        }
        if exists|j: int| 0 <= j < names.len() && (#[trigger] names[j]).0 == w {
            let j = choose|j: int| 0 <= j < names.len() && (#[trigger] names[j]).0 == w;
            if j > 0 {
                assert(names.drop_first()[j - 1].0 == w);
            }
        }
    }
}

proof fn lemma_member_def(m: ast::ContractMember, w: Seq<char>, sp: Span)
    ensures
        member_def(m, w) == Some(sp) ==> member_declares(m, w, sp),
        member_declares(m, w, sp) ==> member_def(m, w) is Some,
{
}

proof fn lemma_members_def(ms: Seq<ast::ContractMember>, w: Seq<char>)
    ensures
        members_def(ms, w) matches Some(sp) ==> exists|j: int| 0 <= j < ms.len() && member_declares(#[trigger] ms[j], w, sp),
        forall|j: int, sp: Span| 0 <= j < ms.len() && #[trigger] member_declares(ms[j], w, sp) ==> members_def(ms, w) is Some,
    decreases ms.len(),
{
    if ms.len() > 0 {
        lemma_members_def(ms.drop_first(), w);
        match members_def(ms, w) {
            Some(sp) => {
                lemma_member_def(ms[0], w, sp);
                if member_def(ms[0], w) is None {
                    let j = choose|j: int| 0 <= j < ms.len() - 1 && member_declares(#[trigger] ms.drop_first()[j], w, sp);
                    assert(ms[j + 1] == ms.drop_first()[j]);
                }
            },
            None => {},
        }
        assert forall|j: int, sp: Span| 0 <= j < ms.len() && #[trigger] member_declares(ms[j], w, sp) implies members_def(ms, w) is Some by {
            lemma_member_def(ms[j], w, sp);
            if j > 0 {
                assert(ms.drop_first()[j - 1] == ms[j]);
            }
        }
    }
}

proof fn lemma_item_def(it: ast::Item, w: Seq<char>)
    ensures
        item_def(it, w) matches Some(sp) ==> item_declares(it, w, sp),
        forall|sp: Span| item_declares(it, w, sp) ==> item_def(it, w) is Some,
{
    match it {
        ast::Item::Contract(c) => {
            lemma_members_def(c.members@, w);
        },
        ast::Item::Struct(s) => {
            let names = s.fields@.map_values(|f: ast::StructField| (f.name.name@, f.span));
            lemma_first_named(names, w);
            if first_named(names, w) is Some && s.name.name@ != w {
                let sp = first_named(names, w)->0;
                let j = choose|j: int| 0 <= j < names.len() && #[trigger] names[j] == (w, sp);
                assert(s.fields@[j].name.name@ == w && s.fields@[j].span == sp);
            }
            assert forall|sp: Span| item_declares(it, w, sp) implies item_def(it, w) is Some by {
                if s.name.name@ != w {
                    let j = choose|j: int| #![trigger s.fields@[j]] 0 <= j < s.fields@.len() && s.fields@[j].name.name@ == w && s.fields@[j].span == sp;
                    assert(names[j].0 == w);
                }
            }
        },
        ast::Item::Enum(e) => {
            let names = e.variants@.map_values(|v: ast::EnumVariant| (v.name.name@, v.span));
            lemma_first_named(names, w);
            if first_named(names, w) is Some && e.name.name@ != w {
                let sp = first_named(names, w)->0;
                let j = choose|j: int| 0 <= j < names.len() && #[trigger] names[j] == (w, sp);
                assert(e.variants@[j].name.name@ == w && e.variants@[j].span == sp);
            }
            assert forall|sp: Span| item_declares(it, w, sp) implies item_def(it, w) is Some by {
                if e.name.name@ != w {
                    let j = choose|j: int| #![trigger e.variants@[j]] 0 <= j < e.variants@.len() && e.variants@[j].name.name@ == w && e.variants@[j].span == sp;
                    assert(names[j].0 == w);
                }
            }
        },
        ast::Item::Interface(i) => {
            let names = i.members@.map_values(|s: ast::FnSig| (s.name.name@, s.span));
            lemma_first_named(names, w);
            if first_named(names, w) is Some && i.name.name@ != w {
                let sp = first_named(names, w)->0;
                let j = choose|j: int| 0 <= j < names.len() && #[trigger] names[j] == (w, sp);
                assert(i.members@[j].name.name@ == w && i.members@[j].span == sp);
            }
            assert forall|sp: Span| item_declares(it, w, sp) implies item_def(it, w) is Some by {
                if i.name.name@ != w {
                    let j = choose|j: int| #![trigger i.members@[j]] 0 <= j < i.members@.len() && i.members@[j].name.name@ == w && i.members@[j].span == sp;
                    assert(names[j].0 == w);
                }
            }
        },
        _ => {},
    }
}

/// Go to definition finds a declaration exactly when the program declares the word:
/// what it returns is the span of an item, member, field, variant or signature that
/// carries the word (a constructor for `constructor`), and where some declaration
/// carries it, it returns one. Items are searched in order: an item that declares
/// nothing of that name is passed over.
pub proof fn law_definition_is_a_declaration(items: Seq<ast::Item>, w: Seq<char>)
    ensures
        items_def(items, w) matches Some(sp) ==> declares(items, w, sp),
        forall|sp: Span| declares(items, w, sp) ==> items_def(items, w) is Some,
        items.len() > 0 && (forall|sp: Span| !item_declares(items[0], w, sp)) ==> items_def(items, w)
            == items_def(items.drop_first(), w),
    decreases items.len(),
{
    if items.len() > 0 {
        law_definition_is_a_declaration(items.drop_first(), w);
        lemma_item_def(items[0], w);
        match items_def(items, w) {
            Some(sp) => {
                if item_def(items[0], w) is None {
                    let k = choose|k: int| 0 <= k < items.len() - 1 && item_declares(#[trigger] items.drop_first()[k], w, sp);
                    assert(items[k + 1] == items.drop_first()[k]);
                }
            },
            None => {},
        }
        assert forall|sp: Span| declares(items, w, sp) implies items_def(items, w) is Some by {
            let k = choose|k: int| 0 <= k < items.len() && item_declares(#[trigger] items[k], w, sp);
            if k > 0 {
                assert(items.drop_first()[k - 1] == items[k]);
                assert(item_declares(items.drop_first()[k - 1], w, sp));
                assert(declares(items.drop_first(), w, sp));
            }
        }
        if forall|sp: Span| !item_declares(items[0], w, sp) {
            if item_def(items[0], w) is Some {
                assert(item_declares(items[0], w, item_def(items[0], w)->0));
            }
        }
    }
}

/// Whether a member of a contract declares the word, wherever.
pub open spec fn member_named(m: ast::ContractMember, w: Seq<char>) -> bool {
    exists|sp: Span| member_declares(m, w, sp)
}

/// The first declaration of the word within an item is at `sp`: the item itself when it
/// carries the word, else the first of its members, fields, variants or signatures that
/// does.
pub open spec fn item_first(it: ast::Item, w: Seq<char>, sp: Span) -> bool {
    match it {
        ast::Item::Contract(c) => if c.name.name@ == w {
            sp == c.span
        } else {
            exists|j: int| 0 <= j < c.members@.len() && member_declares(#[trigger] c.members@[j], w, sp)
                && forall|i: int| 0 <= i < j ==> !member_named(#[trigger] c.members@[i], w)
        },
        ast::Item::Struct(s) => if s.name.name@ == w {
            sp == s.span
        } else {
            exists|j: int| #![trigger s.fields@[j]] 0 <= j < s.fields@.len() && s.fields@[j].name.name@ == w
                && s.fields@[j].span == sp && forall|i: int| 0 <= i < j ==> (#[trigger] s.fields@[i]).name.name@ != w
        },
        ast::Item::Enum(e) => if e.name.name@ == w {
            sp == e.span
        } else {
            exists|j: int| #![trigger e.variants@[j]] 0 <= j < e.variants@.len() && e.variants@[j].name.name@ == w
                && e.variants@[j].span == sp && forall|i: int| 0 <= i < j ==> (#[trigger] e.variants@[i]).name.name@ != w
        },
        ast::Item::Interface(x) => if x.name.name@ == w {
            sp == x.span
        } else {
            exists|j: int| #![trigger x.members@[j]] 0 <= j < x.members@.len() && x.members@[j].name.name@ == w
                && x.members@[j].span == sp && forall|i: int| 0 <= i < j ==> (#[trigger] x.members@[i]).name.name@ != w
        },
        _ => item_declares(it, w, sp),
    }
}

proof fn lemma_first_named_first(names: Seq<(Seq<char>, Span)>, w: Seq<char>, j: int)
    requires
        0 <= j < names.len(),
        names[j].0 == w,
        forall|i: int| 0 <= i < j ==> (#[trigger] names[i]).0 != w,
    ensures
        first_named(names, w) == Some(names[j].1),
    decreases j,
{
    if j > 0 {
        assert forall|i: int| 0 <= i < j - 1 implies (#[trigger] names.drop_first()[i]).0 != w by {
            assert(names.drop_first()[i] == names[i + 1]);
        }
        lemma_first_named_first(names.drop_first(), w, j - 1);
    }
}

proof fn lemma_members_def_first(ms: Seq<ast::ContractMember>, w: Seq<char>, j: int, sp: Span)
    requires
        0 <= j < ms.len(),
        member_declares(ms[j], w, sp),
        forall|i: int| 0 <= i < j ==> !member_named(#[trigger] ms[i], w),
    ensures
        members_def(ms, w) == Some(sp),
    decreases j,
{
    lemma_member_def(ms[j], w, sp);
    if j > 0 {
        assert(!member_named(ms[0], w));
        if member_def(ms[0], w) is Some {
            lemma_member_def(ms[0], w, member_def(ms[0], w)->0);
            assert(member_declares(ms[0], w, member_def(ms[0], w)->0));
        }
        assert forall|i: int| 0 <= i < j - 1 implies !member_named(#[trigger] ms.drop_first()[i], w) by {
            assert(ms.drop_first()[i] == ms[i + 1]);
        }
        lemma_members_def_first(ms.drop_first(), w, j - 1, sp);
    }
}

proof fn lemma_item_first(it: ast::Item, w: Seq<char>, sp: Span)
    requires
        item_first(it, w, sp),
    ensures
        item_def(it, w) == Some(sp),
{
    match it {
        ast::Item::Contract(c) => {
            if c.name.name@ != w {
                let j = choose|j: int| 0 <= j < c.members@.len() && member_declares(#[trigger] c.members@[j], w, sp)
                    && forall|i: int| 0 <= i < j ==> !member_named(#[trigger] c.members@[i], w);
                lemma_members_def_first(c.members@, w, j, sp);
            }
        },
        ast::Item::Struct(s) => {
            if s.name.name@ != w {
                let names = s.fields@.map_values(|f: ast::StructField| (f.name.name@, f.span));
                let j = choose|j: int| #![trigger s.fields@[j]] 0 <= j < s.fields@.len() && s.fields@[j].name.name@ == w
                    && s.fields@[j].span == sp && forall|i: int| 0 <= i < j ==> (#[trigger] s.fields@[i]).name.name@ != w;
                assert forall|i: int| 0 <= i < j implies (#[trigger] names[i]).0 != w by {
                    assert(s.fields@[i].name.name@ != w);
                }
                lemma_first_named_first(names, w, j);
            }
        },
        ast::Item::Enum(e) => {
            if e.name.name@ != w {
                let names = e.variants@.map_values(|v: ast::EnumVariant| (v.name.name@, v.span));
                let j = choose|j: int| #![trigger e.variants@[j]] 0 <= j < e.variants@.len() && e.variants@[j].name.name@ == w
                    && e.variants@[j].span == sp && forall|i: int| 0 <= i < j ==> (#[trigger] e.variants@[i]).name.name@ != w;
                assert forall|i: int| 0 <= i < j implies (#[trigger] names[i]).0 != w by {
                    assert(e.variants@[i].name.name@ != w);
                }
                lemma_first_named_first(names, w, j);
            }
        },
        ast::Item::Interface(x) => {
            if x.name.name@ != w {
                let names = x.members@.map_values(|f: ast::FnSig| (f.name.name@, f.span));
                let j = choose|j: int| #![trigger x.members@[j]] 0 <= j < x.members@.len() && x.members@[j].name.name@ == w
                    && x.members@[j].span == sp && forall|i: int| 0 <= i < j ==> (#[trigger] x.members@[i]).name.name@ != w;
                assert forall|i: int| 0 <= i < j implies (#[trigger] names[i]).0 != w by {
                    assert(x.members@[i].name.name@ != w);
                }
                lemma_first_named_first(names, w, j);
            }
        },
        _ => {},
    }
}

/// Go to definition finds the first declaration of the word in the program: where item
/// `k` is the first item that declares it, and `sp` is where its first declaration
/// within that item stands (the item itself, else its first member, field, variant or
/// signature that carries the word), the answer is `sp`.
pub proof fn law_first_declaration_found(items: Seq<ast::Item>, w: Seq<char>, k: int, sp: Span)
    requires
        0 <= k < items.len(),
        forall|i: int, s: Span| 0 <= i < k ==> !#[trigger] item_declares(items[i], w, s),
        item_first(items[k], w, sp),
    ensures
        items_def(items, w) == Some(sp),
    decreases k,
{
    if k == 0 {
        lemma_item_first(items[0], w, sp);
    } else {
        lemma_item_def(items[0], w);
        if item_def(items[0], w) is Some {
            assert(item_declares(items[0], w, item_def(items[0], w)->0));
        }
        assert forall|i: int, s: Span| 0 <= i < k - 1 implies !#[trigger] item_declares(items.drop_first()[i], w, s) by {
            assert(items.drop_first()[i] == items[i + 1]);
        }
        law_first_declaration_found(items.drop_first(), w, k - 1, sp);
    }
}

} // verus!
