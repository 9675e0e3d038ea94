//! The source formatter of the command line: each item written back in a canonical
//! layout, with placeholders for bodies, and the comparison of a file with its
//! formatted text up to blank lines and indentation.

use vstd::prelude::*;
use crate::ast;
use crate::gen_spec::{indent, join};
use crate::lsp::{muts_str, muts_text, returns_part, returns_part_str, vis_part, vis_part_str};
use crate::rust_gen::{indent_str, join_strings, strs_v};
use crate::chars::{is_whitespace, space_prop};
use crate::text::{str_eq, chars_of, dec_seq, dec_string, push_str, string_of};
use crate::types::{TypeExpr, TypePath};

verus! {

/// Whether a type path has a segment to name it by.
pub open spec fn path_ok(p: TypePath) -> bool {
    p.segments@.len() > 0
}

/// The name of a type path: its last segment.
pub open spec fn path_text(p: TypePath) -> Seq<char> {
    p.segments@.last().name@
}

/// A type as the formatter writes it: an array with one size shows it, an array with
/// several shows only its element type.
pub open spec fn fmt_type(t: TypeExpr) -> Seq<char>
    decreases t, 1nat,
{
    match t {
        TypeExpr::Path(p) => path_text(p),
        TypeExpr::Array(a) => if a.sizes@.len() == 1 {
            match a.sizes@[0] {
                Some(n) => path_text(a.element) + "["@ + dec_seq(n as nat) + "]"@,
                None => path_text(a.element) + "[]"@,
            }
        } else {
            path_text(a.element)
        },
        TypeExpr::Mapping(m) => "mapping("@ + fmt_type(m.key) + " => "@ + fmt_type(m.value) + ")"@,
        TypeExpr::Tuple(t) => "("@ + join(fmt_types(t.elements@), ", "@) + ")"@,
    }
}

/// Types as the formatter writes them, in order.
pub open spec fn fmt_types(ts: Seq<TypeExpr>) -> Seq<Seq<char>>
    decreases ts, 0nat,
{
    if ts.len() == 0 {
        seq![]
    } else {
        fmt_types(ts.drop_last()).push(fmt_type(ts.last()))
    }
}

/// Whether every path in a type has a segment.
pub open spec fn type_ok(t: TypeExpr) -> bool
    decreases t, 1nat,
{
    match t {
        TypeExpr::Path(p) => path_ok(p),
        TypeExpr::Array(a) => path_ok(a.element),
        TypeExpr::Mapping(m) => type_ok(m.key) && type_ok(m.value),
        TypeExpr::Tuple(t) => types_ok(t.elements@),
    }
}

/// Whether every path in the types has a segment.
pub open spec fn types_ok(ts: Seq<TypeExpr>) -> bool
    decreases ts, 0nat,
{
    if ts.len() == 0 {
        true
    } else {
        types_ok(ts.drop_last()) && type_ok(ts.last())
    }
}

/// Parameters as the formatter writes them: type, then name.
pub open spec fn params_text(ps: Seq<ast::Param>) -> Seq<Seq<char>> {
    ps.map_values(|p: ast::Param| fmt_type(p.ty) + " "@ + p.name.name@)
}

/// Whether the types of the parameters can be written.
pub open spec fn params_ok(ps: Seq<ast::Param>) -> bool {
    forall|k: int| 0 <= k < ps.len() ==> #[trigger] type_ok(ps[k].ty)
}

/// Return types as the formatter writes them.
pub open spec fn rets_text(rs: Seq<ast::ReturnParam>) -> Seq<Seq<char>> {
    rs.map_values(|r: ast::ReturnParam| fmt_type(r.ty))
}

/// Whether the return types can be written.
pub open spec fn rets_ok(rs: Seq<ast::ReturnParam>) -> bool {
    forall|k: int| 0 <= k < rs.len() ==> #[trigger] type_ok(rs[k].ty)
}

/// The modifiers of a function, each after a space, with `(...)` where it has
/// arguments.
pub open spec fn mods_part(ms: Seq<ast::ModifierInvocation>) -> Seq<char>
    decreases ms.len(),
{
    if ms.len() == 0 {
        seq![]
    } else {
        mods_part(ms.drop_last()) + " "@ + ms.last().name.name@ + (if ms.last().args@.len() > 0 { "(...)"@ } else { Seq::<char>::empty() })
    }
}

/// A function at an indentation: its header, then a placeholder body, or `;` where it
/// has none, and an empty line.
pub open spec fn fmt_function(f: ast::FnDef, n: nat) -> Seq<char> {
    let ind = indent(n);
    ind + "function "@ + f.name.name@ + "("@ + join(params_text(f.params@), ", "@) + ")"@ + vis_part(f.visibility)
        + muts_text(f.state_mutability@) + mods_part(f.modifiers@) + returns_part(f.return_params@.len(), rets_text(f.return_params@))
        + (if f.body is Some { " {\n"@ + ind + "    // ... function body\n"@ + ind + "}\n"@ } else { ";\n"@ }) + "\n"@
}

/// Whether the types of a function can be written.
pub open spec fn fn_ok(f: ast::FnDef) -> bool {
    params_ok(f.params@) && rets_ok(f.return_params@)
}

/// A constructor with a placeholder body.
pub open spec fn fmt_constructor(c: ast::ConstructorDef) -> Seq<char> {
    "    constructor("@ + join(params_text(c.params@), ", "@) + ") {\n"@ + "        // ... constructor body\n"@ + "    }\n\n"@
}

/// A modifier with a placeholder body.
pub open spec fn fmt_modifier(m: ast::ModifierDef) -> Seq<char> {
    "    modifier "@ + m.name.name@ + "("@ + join(params_text(m.params@), ", "@) + ") {\n"@
        + "        // ... modifier body\n"@ + "        _;\n"@ + "    }\n\n"@
}

/// A signature of an interface on its own line.
pub open spec fn fmt_sig(s: ast::FnSig) -> Seq<char> {
    "    function "@ + s.name.name@ + "("@ + join(params_text(s.params@), ", "@) + ")"@ + vis_part(s.visibility)
        + muts_text(s.state_mutability@) + returns_part(s.return_params@.len(), rets_text(s.return_params@)) + ";\n"@
}

/// Signatures of an interface, one per line.
pub open spec fn fmt_sigs(ss: Seq<ast::FnSig>) -> Seq<char>
    decreases ss.len(),
{
    if ss.len() == 0 {
        seq![]
    } else {
        fmt_sigs(ss.drop_last()) + fmt_sig(ss.last())
    }
}

/// Whether the types of a signature can be written.
pub open spec fn sig_ok(s: ast::FnSig) -> bool {
    params_ok(s.params@) && rets_ok(s.return_params@)
}

/// Whether the types of the signatures can be written.
pub open spec fn sigs_ok(ss: Seq<ast::FnSig>) -> bool {
    forall|k: int| 0 <= k < ss.len() ==> #[trigger] sig_ok(ss[k])
}

/// The names of base contracts.
pub open spec fn bases_text(bs: Seq<TypePath>) -> Seq<Seq<char>> {
    bs.map_values(|b: TypePath| path_text(b))
}

/// Whether every base has a segment to name it by.
pub open spec fn bases_ok(bs: Seq<TypePath>) -> bool {
    forall|k: int| 0 <= k < bs.len() ==> #[trigger] path_ok(bs[k])
}

/// ` is A, B` for bases, nothing for none.
pub open spec fn bases_part(bs: Seq<TypePath>) -> Seq<char> {
    if bs.len() == 0 { Seq::<char>::empty() } else { " is "@ + join(bases_text(bs), ", "@) }
}

/// An interface: its bases and its signatures.
pub open spec fn fmt_interface(i: ast::InterfaceDef) -> Seq<char> {
    "interface "@ + i.name.name@ + bases_part(i.bases@) + " {\n"@ + fmt_sigs(i.members@) + "}\n"@
}

/// The formatted text of a type; every path in it has a segment.
pub fn format_type(ty: &TypeExpr) -> (r: String)
    requires
        type_ok(*ty),
    ensures
        r@ == fmt_type(*ty),
    decreases ty, 1nat,
{
    match ty {
        TypeExpr::Path(p) => p.name().to_owned(),
        TypeExpr::Array(a) => {
            let mut s = a.element.name().to_owned();
            if a.sizes.len() == 1 {
                match a.sizes[0] {
                    Some(n) => {
                        push_str(&mut s, "[");
                        let d = dec_string(n);
                        push_str(&mut s, d.as_str());
                        push_str(&mut s, "]");
                    },
                    None => {
                        push_str(&mut s, "[]");
                    },
                }
            }
            s
        },
        TypeExpr::Mapping(m) => {
            let k = format_type(&m.key);
            let v = format_type(&m.value);
            let mut s = "mapping(".to_owned();
            push_str(&mut s, k.as_str());
            push_str(&mut s, " => ");
            push_str(&mut s, v.as_str());
            push_str(&mut s, ")");
            s
        },
        TypeExpr::Tuple(t) => {
            proof {
                assert(t.elements@.take(t.elements@.len() as int) =~= t.elements@);
            }
            let v = format_types(&t.elements, t.elements.len());
            let mut s = "(".to_owned();
            let j = join_strings(&v, ", ");
            push_str(&mut s, j.as_str());
            push_str(&mut s, ")");
            s
        },
    }
}

/// The formatted texts of the first `n` types.
fn format_types(ts: &Vec<TypeExpr>, n: usize) -> (r: Vec<String>)
    requires
        n <= ts@.len(),
        types_ok(ts@.take(n as int)),
    ensures
        strs_v(r@) == fmt_types(ts@.take(n as int)),
    decreases ts@, n,
{
    if n == 0 {
        let v: Vec<String> = Vec::new();
        proof {
            assert(strs_v(v@) =~= Seq::<Seq<char>>::empty());
        }
        return v;
    }
    proof {
        assert(ts@.take(n as int).drop_last() =~= ts@.take(n - 1));
        assert(ts@.take(n as int).last() == ts@[n - 1]);
    }
    let mut v = format_types(ts, n - 1);
    let x = format_type(&ts[n - 1]);
    let ghost before = v@;
    v.push(x);
    proof {
        assert(strs_v(v@) =~= strs_v(before).push(x@));
    }
    v
}

/// The formatted parameters: type, then name.
fn format_params(ps: &Vec<ast::Param>) -> (r: Vec<String>)
    requires
        params_ok(ps@),
    ensures
        strs_v(r@) == params_text(ps@),
{
    let mut r: Vec<String> = Vec::new();
    let mut i: usize = 0;
    while i < ps.len()
        invariant
            i <= ps@.len(),
            params_ok(ps@),
            strs_v(r@) == params_text(ps@.take(i as int)),
        decreases ps@.len() - i,
    {
        proof {
            assert(type_ok(ps@[i as int].ty));
        }
        let mut x = format_type(&ps[i].ty);
        push_str(&mut x, " ");
        push_str(&mut x, ps[i].name.name.as_str());
        let ghost before = r@;
        r.push(x);
        proof {
            assert(strs_v(r@) =~= strs_v(before).push(x@));
            assert(params_text(ps@.take(i + 1)) =~= params_text(ps@.take(i as int)).push(x@));
        }
        i = i + 1;
    }
    proof {
        assert(ps@.take(i as int) =~= ps@);
    }
    r
}

/// The formatted return types.
fn format_rets(rs: &Vec<ast::ReturnParam>) -> (r: Vec<String>)
    requires
        rets_ok(rs@),
    ensures
        strs_v(r@) == rets_text(rs@),
{
    let mut r: Vec<String> = Vec::new();
    let mut i: usize = 0;
    while i < rs.len()
        invariant
            i <= rs@.len(),
            rets_ok(rs@),
            strs_v(r@) == rets_text(rs@.take(i as int)),
        decreases rs@.len() - i,
    {
        proof {
            assert(type_ok(rs@[i as int].ty));
        }
        let x = format_type(&rs[i].ty);
        let ghost before = r@;
        r.push(x);
        proof {
            assert(strs_v(r@) =~= strs_v(before).push(x@));
            assert(rets_text(rs@.take(i + 1)) =~= rets_text(rs@.take(i as int)).push(x@));
        }
        i = i + 1;
    }
    proof {
        assert(rs@.take(i as int) =~= rs@);
    }
    r
}

/// The modifiers of a function, each after a space, with `(...)` where it has
/// arguments.
fn mods_part_str(ms: &Vec<ast::ModifierInvocation>) -> (r: String)
    ensures
        r@ == mods_part(ms@),
{
    let mut s = String::new();
    let mut i: usize = 0;
    while i < ms.len()
        invariant
            i <= ms@.len(),
            s@ == mods_part(ms@.take(i as int)),
        decreases ms@.len() - i,
    {
        proof {
            assert(ms@.take(i + 1).drop_last() =~= ms@.take(i as int));
            assert(ms@.take(i + 1).last() == ms@[i as int]);
        }
        push_str(&mut s, " ");
        push_str(&mut s, ms[i].name.name.as_str());
        if ms[i].args.len() > 0 {
            push_str(&mut s, "(...)");
        }
        i = i + 1;
    }
    proof {
        assert(ms@.take(i as int) =~= ms@);
    }
    s
}

/// A function at an indentation: its header, then a placeholder body, or `;` where it
/// has none, and an empty line.
pub fn format_function(f: &ast::FnDef, n: usize) -> (r: String)
    requires
        fn_ok(*f),
    ensures
        r@ == fmt_function(*f, n as nat),
{
    let ind = indent_str(n);
    let mut s = ind.clone();
    push_str(&mut s, "function ");
    push_str(&mut s, f.name.name.as_str());
    push_str(&mut s, "(");
    let ps = format_params(&f.params);
    let j = join_strings(&ps, ", ");
    push_str(&mut s, j.as_str());
    push_str(&mut s, ")");
    let v = vis_part_str(f.visibility);
    push_str(&mut s, v.as_str());
    let m = muts_str(&f.state_mutability);
    push_str(&mut s, m.as_str());
    let md = mods_part_str(&f.modifiers);
    push_str(&mut s, md.as_str());
    let rs = format_rets(&f.return_params);
    let rp = returns_part_str(f.return_params.len(), &rs);
    push_str(&mut s, rp.as_str());
    if f.body.is_some() {
        let mut b = " {\n".to_owned();
        push_str(&mut b, ind.as_str());
        push_str(&mut b, "    // ... function body\n");
        push_str(&mut b, ind.as_str());
        push_str(&mut b, "}\n");
        push_str(&mut s, b.as_str());
    } else {
        push_str(&mut s, ";\n");
    }
    push_str(&mut s, "\n");
    s
}

/// A constructor with a placeholder body.
pub fn format_constructor(c: &ast::ConstructorDef) -> (r: String)
    requires
        params_ok(c.params@),
    ensures
        r@ == fmt_constructor(*c),
{
    let mut s = "    constructor(".to_owned();
    let ps = format_params(&c.params);
    let j = join_strings(&ps, ", ");
    push_str(&mut s, j.as_str());
    push_str(&mut s, ") {\n");
    push_str(&mut s, "        // ... constructor body\n");
    push_str(&mut s, "    }\n\n");
    s
}

/// A modifier with a placeholder body.
pub fn format_modifier(m: &ast::ModifierDef) -> (r: String)
    requires
        params_ok(m.params@),
    ensures
        r@ == fmt_modifier(*m),
{
    let mut s = "    modifier ".to_owned();
    push_str(&mut s, m.name.name.as_str());
    push_str(&mut s, "(");
    let ps = format_params(&m.params);
    let j = join_strings(&ps, ", ");
    push_str(&mut s, j.as_str());
    push_str(&mut s, ") {\n");
    push_str(&mut s, "        // ... modifier body\n");
    push_str(&mut s, "        _;\n");
    push_str(&mut s, "    }\n\n");
    s
}

/// ` is A, B` for bases, nothing for none.
fn bases_part_str(bs: &Vec<TypePath>) -> (r: String)
    requires
        bases_ok(bs@),
    ensures
        r@ == bases_part(bs@),
{
    if bs.len() == 0 {
        return String::new();
    }
    let mut names: Vec<String> = Vec::new();
    let mut i: usize = 0;
    while i < bs.len()
        invariant
            i <= bs@.len(),
            bases_ok(bs@),
            strs_v(names@) == bases_text(bs@.take(i as int)),
        decreases bs@.len() - i,
    {
        proof {
            assert(path_ok(bs@[i as int]));
        }
        let x = bs[i].name().to_owned();
        let ghost before = names@;
        names.push(x);
        proof {
            assert(strs_v(names@) =~= strs_v(before).push(x@));
            assert(bases_text(bs@.take(i + 1)) =~= bases_text(bs@.take(i as int)).push(x@));
        }
        i = i + 1;
    }
    proof {
        assert(bs@.take(i as int) =~= bs@);
    }
    let mut s = " is ".to_owned();
    let j = join_strings(&names, ", ");
    push_str(&mut s, j.as_str());
    s
}

/// A signature of an interface on its own line.
fn format_sig(sig: &ast::FnSig) -> (r: String)
    requires
        params_ok(sig.params@),
        rets_ok(sig.return_params@),
    ensures
        r@ == fmt_sig(*sig),
{
    let mut s = "    function ".to_owned();
    push_str(&mut s, sig.name.name.as_str());
    push_str(&mut s, "(");
    let ps = format_params(&sig.params);
    let j = join_strings(&ps, ", ");
    push_str(&mut s, j.as_str());
    push_str(&mut s, ")");
    let v = vis_part_str(sig.visibility);
    push_str(&mut s, v.as_str());
    let m = muts_str(&sig.state_mutability);
    push_str(&mut s, m.as_str());
    let rs = format_rets(&sig.return_params);
    let rp = returns_part_str(sig.return_params.len(), &rs);
    push_str(&mut s, rp.as_str());
    push_str(&mut s, ";\n");
    s
}

/// An interface: its bases and its signatures, one per line.
pub fn format_interface(i: &ast::InterfaceDef) -> (r: String)
    requires
        bases_ok(i.bases@),
        sigs_ok(i.members@),
    ensures
        r@ == fmt_interface(*i),
{
    let mut s = "interface ".to_owned();
    push_str(&mut s, i.name.name.as_str());
    let b = bases_part_str(&i.bases);
    push_str(&mut s, b.as_str());
    push_str(&mut s, " {\n");
    let ghost head = s@;
    let mut k: usize = 0;
    while k < i.members.len()
        invariant
            k <= i.members@.len(),
            sigs_ok(i.members@),
            s@ == head + fmt_sigs(i.members@.take(k as int)),
        decreases i.members@.len() - k,
    {
        proof {
            assert(i.members@.take(k + 1).drop_last() =~= i.members@.take(k as int));
            assert(i.members@.take(k + 1).last() == i.members@[k as int]);
            assert(sig_ok(i.members@[k as int]));
        }
        let x = format_sig(&i.members[k]);
        push_str(&mut s, x.as_str());
        k = k + 1;
    }
    proof {
        assert(i.members@.take(k as int) =~= i.members@);
    }
    push_str(&mut s, "}\n");
    s
}

/// The fields of a struct, one per line.
pub open spec fn struct_fields(fs: Seq<ast::StructField>) -> Seq<char>
    decreases fs.len(),
{
    if fs.len() == 0 {
        seq![]
    } else {
        struct_fields(fs.drop_last()) + "    "@ + fmt_type(fs.last().ty) + " "@ + fs.last().name.name@ + ";\n"@
    }
}

/// Whether the field types of a struct can be written.
pub open spec fn fields_ok(fs: Seq<ast::StructField>) -> bool {
    forall|k: int| 0 <= k < fs.len() ==> #[trigger] type_ok(fs[k].ty)
}

/// A struct with a field per line.
pub open spec fn fmt_struct(d: ast::StructDef) -> Seq<char> {
    "struct "@ + d.name.name@ + " {\n"@ + struct_fields(d.fields@) + "}\n"@
}

/// The variants of an enum, one per line, separated by commas.
pub open spec fn enum_variants(vs: Seq<ast::EnumVariant>, total: nat) -> Seq<char>
    decreases vs.len(),
{
    if vs.len() == 0 {
        seq![]
    } else {
        enum_variants(vs.drop_last(), total) + "    "@ + vs.last().name.name@ + (if vs.len() < total { ","@ } else { Seq::<char>::empty() })
            + "\n"@
    }
}

/// An enum with a variant per line.
pub open spec fn fmt_enum(e: ast::EnumDef) -> Seq<char> {
    "enum "@ + e.name.name@ + " {\n"@ + enum_variants(e.variants@, e.variants@.len()) + "}\n"@
}

/// The parameters of an event: type, `indexed` where it is, then name.
pub open spec fn event_params(ps: Seq<ast::EventParam>) -> Seq<Seq<char>> {
    ps.map_values(
        |p: ast::EventParam| fmt_type(p.ty) + (if p.indexed { " indexed"@ } else { Seq::<char>::empty() }) + " "@ + p.name.name@,
    )
}

/// Whether the parameter types of an event can be written.
pub open spec fn event_ok(e: ast::EventDef) -> bool {
    forall|k: int| 0 <= k < e.params@.len() ==> #[trigger] type_ok(e.params@[k].ty)
}

/// An event declaration without its `;`.
pub open spec fn fmt_event_inline(e: ast::EventDef) -> Seq<char> {
    "event "@ + e.name.name@ + "("@ + join(event_params(e.params@), ", "@) + ")"@
}

/// The parameters of an error: type, then name.
pub open spec fn error_params(ps: Seq<ast::ErrorParam>) -> Seq<Seq<char>> {
    ps.map_values(|p: ast::ErrorParam| fmt_type(p.ty) + " "@ + p.name.name@)
}

/// Whether the parameter types of an error can be written.
pub open spec fn error_ok(e: ast::ErrorDef) -> bool {
    forall|k: int| 0 <= k < e.params@.len() ==> #[trigger] type_ok(e.params@[k].ty)
}

/// An error declaration without its `;`.
pub open spec fn fmt_error_inline(e: ast::ErrorDef) -> Seq<char> {
    "error "@ + e.name.name@ + "("@ + join(error_params(e.params@), ", "@) + ")"@
}

/// An import of names from a source.
pub open spec fn fmt_import(i: ast::ImportStmt) -> Seq<char> {
    "import { "@ + join(i.items@.map_values(|x: ast::ImportItem| x.name.name@), ", "@) + " } from \""@ + i.source@ + "\";\n"@
}

/// Each line of a text indented by four spaces: a line ends at a line feed, and a last
/// line without one counts where it is not empty; `line` is the line read so far.
pub open spec fn indent_lines_from(s: Seq<char>, line: Seq<char>) -> Seq<char>
    decreases s.len(),
{
    if s.len() == 0 {
        if line.len() == 0 { seq![] } else { "    "@ + line + "\n"@ }
    } else if s[0] == '\n' {
        "    "@ + (if line.len() > 0 && line.last() == '\r' { line.drop_last() } else { line }) + "\n"@
            + indent_lines_from(s.drop_first(), seq![])
    } else {
        indent_lines_from(s.drop_first(), line.push(s[0]))
    }
}

/// Each line of a text indented by four spaces.
pub open spec fn indent_lines(s: Seq<char>) -> Seq<char> {
    indent_lines_from(s, seq![])
}

/// A member of a contract: state variables, functions, constructors and modifiers at
/// the contract's indentation, events and errors as declarations, and structs and enums
/// indented line by line.
pub open spec fn fmt_member(m: ast::ContractMember) -> Seq<char> {
    match m {
        ast::ContractMember::StateVar(v) => "    "@ + fmt_type(v.ty) + vis_part(v.visibility) + " "@ + v.name.name@ + ";\n"@,
        ast::ContractMember::Function(f) => fmt_function(f, 1),
        ast::ContractMember::Constructor(c) => fmt_constructor(c),
        ast::ContractMember::Modifier(d) => fmt_modifier(d),
        ast::ContractMember::Event(e) => "    "@ + fmt_event_inline(e) + ";\n"@,
        ast::ContractMember::Error(e) => "    "@ + fmt_error_inline(e) + ";\n"@,
        ast::ContractMember::Struct(d) => indent_lines(fmt_struct(d)),
        ast::ContractMember::Enum(e) => indent_lines(fmt_enum(e)),
    }
}

/// Whether the types of a member can be written.
pub open spec fn member_ok(m: ast::ContractMember) -> bool {
    match m {
        ast::ContractMember::StateVar(v) => type_ok(v.ty),
        ast::ContractMember::Function(f) => fn_ok(f),
        ast::ContractMember::Constructor(c) => params_ok(c.params@),
        ast::ContractMember::Modifier(d) => params_ok(d.params@),
        ast::ContractMember::Event(e) => event_ok(e),
        ast::ContractMember::Error(e) => error_ok(e),
        ast::ContractMember::Struct(d) => fields_ok(d.fields@),
        ast::ContractMember::Enum(_) => true,
    }
}

/// The members of a contract, one after the other.
pub open spec fn fmt_members(ms: Seq<ast::ContractMember>) -> Seq<char>
    decreases ms.len(),
{
    if ms.len() == 0 {
        seq![]
    } else {
        fmt_members(ms.drop_last()) + fmt_member(ms.last())
    }
}

/// A contract: `abstract` where it is, its bases and its members.
pub open spec fn fmt_contract(c: ast::ContractDef) -> Seq<char> {
    (if c.is_abstract { "abstract "@ } else { Seq::<char>::empty() }) + "contract "@ + c.name.name@ + bases_part(c.bases@)
        + " {\n"@ + fmt_members(c.members@) + "}\n"@
}

/// Whether the types and bases of a contract can be written.
pub open spec fn contract_ok(c: ast::ContractDef) -> bool {
    bases_ok(c.bases@) && forall|k: int| 0 <= k < c.members@.len() ==> #[trigger] member_ok(c.members@[k])
}

/// An item of a program.
pub open spec fn fmt_item(it: ast::Item) -> Seq<char> {
    match it {
        ast::Item::Contract(c) => fmt_contract(c),
        ast::Item::Interface(i) => fmt_interface(i),
        ast::Item::Struct(d) => fmt_struct(d),
        ast::Item::Enum(e) => fmt_enum(e),
        ast::Item::Event(e) => fmt_event_inline(e) + ";\n"@,
        ast::Item::Error(e) => fmt_error_inline(e) + ";\n"@,
        ast::Item::Import(i) => fmt_import(i),
        ast::Item::Function(f) => fmt_function(f, 0),
    }
}

/// Whether the types and bases of an item can be written.
pub open spec fn item_ok(it: ast::Item) -> bool {
    match it {
        ast::Item::Contract(c) => contract_ok(c),
        ast::Item::Interface(i) => bases_ok(i.bases@) && sigs_ok(i.members@),
        ast::Item::Struct(d) => fields_ok(d.fields@),
        ast::Item::Enum(_) => true,
        ast::Item::Event(e) => event_ok(e),
        ast::Item::Error(e) => error_ok(e),
        ast::Item::Import(_) => true,
        ast::Item::Function(f) => fn_ok(f),
    }
}

/// A program: its items, separated by an empty line.
pub open spec fn fmt_program(p: ast::Program) -> Seq<char> {
    join(p.items@.map_values(|it: ast::Item| fmt_item(it)), "\n"@)
}

/// Whether every type and base in a program has a segment to name it by.
pub open spec fn program_ok(p: ast::Program) -> bool {
    forall|k: int| 0 <= k < p.items@.len() ==> #[trigger] item_ok(p.items@[k])
}

/// A struct with a field per line.
pub fn format_struct(d: &ast::StructDef) -> (r: String)
    requires
        fields_ok(d.fields@),
    ensures
        r@ == fmt_struct(*d),
{
    let mut s = "struct ".to_owned();
    push_str(&mut s, d.name.name.as_str());
    push_str(&mut s, " {\n");
    let ghost head = s@;
    let mut i: usize = 0;
    while i < d.fields.len()
        invariant
            i <= d.fields@.len(),
            fields_ok(d.fields@),
            s@ == head + struct_fields(d.fields@.take(i as int)),
        decreases d.fields@.len() - i,
    {
        proof {
            assert(d.fields@.take(i + 1).drop_last() =~= d.fields@.take(i as int));
            assert(d.fields@.take(i + 1).last() == d.fields@[i as int]);
            assert(type_ok(d.fields@[i as int].ty));
        }
        push_str(&mut s, "    ");
        let t = format_type(&d.fields[i].ty);
        push_str(&mut s, t.as_str());
        push_str(&mut s, " ");
        push_str(&mut s, d.fields[i].name.name.as_str());
        push_str(&mut s, ";\n");
        i = i + 1;
    }
    proof {
        assert(d.fields@.take(i as int) =~= d.fields@);
    }
    push_str(&mut s, "}\n");
    s
}

/// An enum with a variant per line.
pub fn format_enum(e: &ast::EnumDef) -> (r: String)
    ensures
        r@ == fmt_enum(*e),
{
    let mut s = "enum ".to_owned();
    push_str(&mut s, e.name.name.as_str());
    push_str(&mut s, " {\n");
    let ghost head = s@;
    let n = e.variants.len();
    let mut i: usize = 0;
    while i < n
        invariant
            i <= n,
            n == e.variants@.len(),
            s@ == head + enum_variants(e.variants@.take(i as int), n as nat),
        decreases n - i,
    {
        proof {
            assert(e.variants@.take(i + 1).drop_last() =~= e.variants@.take(i as int));
            assert(e.variants@.take(i + 1).last() == e.variants@[i as int]);
        }
        push_str(&mut s, "    ");
        push_str(&mut s, e.variants[i].name.name.as_str());
        if i < n - 1 {
            push_str(&mut s, ",");
        }
        push_str(&mut s, "\n");
        i = i + 1;
    }
    proof {
        assert(e.variants@.take(i as int) =~= e.variants@);
    }
    push_str(&mut s, "}\n");
    s
}

/// An event declaration without its `;`.
pub fn format_event_inline(e: &ast::EventDef) -> (r: String)
    requires
        event_ok(*e),
    ensures
        r@ == fmt_event_inline(*e),
{
    let mut ps: Vec<String> = Vec::new();
    let mut i: usize = 0;
    while i < e.params.len()
        invariant
            i <= e.params@.len(),
            event_ok(*e),
            strs_v(ps@) == event_params(e.params@.take(i as int)),
        decreases e.params@.len() - i,
    {
        proof {
            assert(type_ok(e.params@[i as int].ty));
        }
        let mut x = format_type(&e.params[i].ty);
        if e.params[i].indexed {
            push_str(&mut x, " indexed");
        }
        push_str(&mut x, " ");
        push_str(&mut x, e.params[i].name.name.as_str());
        let ghost before = ps@;
        ps.push(x);
        proof {
            assert(strs_v(ps@) =~= strs_v(before).push(x@));
            assert(event_params(e.params@.take(i + 1)) =~= event_params(e.params@.take(i as int)).push(x@));
        }
        i = i + 1;
    }
    proof {
        assert(e.params@.take(i as int) =~= e.params@);
    }
    let mut s = "event ".to_owned();
    push_str(&mut s, e.name.name.as_str());
    push_str(&mut s, "(");
    let j = join_strings(&ps, ", ");
    push_str(&mut s, j.as_str());
    push_str(&mut s, ")");
    s
}

/// An event declaration.
pub fn format_event(e: &ast::EventDef) -> (r: String)
    requires
        event_ok(*e),
    ensures
        r@ == fmt_event_inline(*e) + ";\n"@,
{
    let mut s = format_event_inline(e);
    push_str(&mut s, ";\n");
    s
}

/// An error declaration without its `;`.
pub fn format_error_inline(e: &ast::ErrorDef) -> (r: String)
    requires
        error_ok(*e),
    ensures
        r@ == fmt_error_inline(*e),
{
    let mut ps: Vec<String> = Vec::new();
    let mut i: usize = 0;
    while i < e.params.len()
        invariant
            i <= e.params@.len(),
            error_ok(*e),
            strs_v(ps@) == error_params(e.params@.take(i as int)),
        decreases e.params@.len() - i,
    {
        proof {
            assert(type_ok(e.params@[i as int].ty));
        }
        let mut x = format_type(&e.params[i].ty);
        push_str(&mut x, " ");
        push_str(&mut x, e.params[i].name.name.as_str());
        let ghost before = ps@;
        ps.push(x);
        proof {
            assert(strs_v(ps@) =~= strs_v(before).push(x@));
            assert(error_params(e.params@.take(i + 1)) =~= error_params(e.params@.take(i as int)).push(x@));
        }
        i = i + 1;
    }
    proof {
        assert(e.params@.take(i as int) =~= e.params@);
    }
    let mut s = "error ".to_owned();
    push_str(&mut s, e.name.name.as_str());
    push_str(&mut s, "(");
    let j = join_strings(&ps, ", ");
    push_str(&mut s, j.as_str());
    push_str(&mut s, ")");
    s
}

/// An error declaration.
pub fn format_error(e: &ast::ErrorDef) -> (r: String)
    requires
        error_ok(*e),
    ensures
        r@ == fmt_error_inline(*e) + ";\n"@,
{
    let mut s = format_error_inline(e);
    push_str(&mut s, ";\n");
    s
}

/// An import of names from a source.
pub fn format_import(i: &ast::ImportStmt) -> (r: String)
    ensures
        r@ == fmt_import(*i),
{
    let mut names: Vec<String> = Vec::new();
    let mut k: usize = 0;
    while k < i.items.len()
        invariant
            k <= i.items@.len(),
            strs_v(names@) == i.items@.take(k as int).map_values(|x: ast::ImportItem| x.name.name@),
        decreases i.items@.len() - k,
    {
        let x = i.items[k].name.name.clone();
        let ghost before = names@;
        names.push(x);
        proof {
            assert(strs_v(names@) =~= strs_v(before).push(x@));
            assert(i.items@.take(k + 1).map_values(|x: ast::ImportItem| x.name.name@)
                =~= i.items@.take(k as int).map_values(|x: ast::ImportItem| x.name.name@).push(x@));
        }
        k = k + 1;
    }
    proof {
        assert(i.items@.take(k as int) =~= i.items@);
    }
    let mut s = "import { ".to_owned();
    let j = join_strings(&names, ", ");
    push_str(&mut s, j.as_str());
    push_str(&mut s, " } from \"");
    push_str(&mut s, i.source.as_str());
    push_str(&mut s, "\";\n");
    s
}

/// Each line of a text indented by four spaces.
pub fn indent_each_line(t: &str) -> (r: String)
    ensures
        r@ == indent_lines(t@),
{
    let cs = chars_of(t);
    let mut out = String::new();
    let mut line: Vec<char> = Vec::new();
    let mut i: usize = 0;
    proof {
        assert(cs@.skip(0) =~= cs@);
    }
    while i < cs.len()
        invariant
            i <= cs@.len(),
            cs@ == t@,
            out@ + indent_lines_from(cs@.skip(i as int), line@) == indent_lines(t@),
        decreases cs@.len() - i,
    {
        let c = cs[i];
        proof {
            assert(cs@.skip(i as int)[0] == c);
            assert(cs@.skip(i as int).drop_first() =~= cs@.skip(i + 1));
        }
        if c == '\n' {
            let ghost before = out@;
            let ghost l = line@;
            let n = line.len();
            let keep = if n > 0 && line[n - 1] == '\r' { n - 1 } else { n };
            push_str(&mut out, "    ");
            let piece = string_of(&line.as_slice()[0..keep]);
            push_str(&mut out, piece.as_str());
            push_str(&mut out, "\n");
            proof {
                assert(piece@ =~= (if l.len() > 0 && l.last() == '\r' { l.drop_last() } else { l }));
            }
            line = Vec::new();
            proof {
                assert(line@ =~= Seq::<char>::empty());
            }
        } else {
            line.push(c);
        }
        i = i + 1;
    }
    proof {
        assert(cs@.skip(i as int).len() == 0);
    }
    if line.len() > 0 {
        push_str(&mut out, "    ");
        let piece = string_of(line.as_slice());
        push_str(&mut out, piece.as_str());
        push_str(&mut out, "\n");
    }
    out
}

/// A member of a contract: state variables, functions, constructors and modifiers at
/// the contract's indentation, events and errors as declarations, and structs and enums
/// indented line by line.
pub fn format_contract_member(m: &ast::ContractMember) -> (r: String)
    requires
        member_ok(*m),
    ensures
        r@ == fmt_member(*m),
{
    match m {
        ast::ContractMember::StateVar(v) => {
            let mut s = "    ".to_owned();
            let t = format_type(&v.ty);
            push_str(&mut s, t.as_str());
            let vp = vis_part_str(v.visibility);
            push_str(&mut s, vp.as_str());
            push_str(&mut s, " ");
            push_str(&mut s, v.name.name.as_str());
            push_str(&mut s, ";\n");
            s
        },
        ast::ContractMember::Function(f) => format_function(f, 1),
        ast::ContractMember::Constructor(c) => format_constructor(c),
        ast::ContractMember::Modifier(d) => format_modifier(d),
        ast::ContractMember::Event(e) => {
            let mut s = "    ".to_owned();
            let x = format_event_inline(e);
            push_str(&mut s, x.as_str());
            push_str(&mut s, ";\n");
            s
        },
        ast::ContractMember::Error(e) => {
            let mut s = "    ".to_owned();
            let x = format_error_inline(e);
            push_str(&mut s, x.as_str());
            push_str(&mut s, ";\n");
            s
        },
        ast::ContractMember::Struct(d) => {
            let x = format_struct(d);
            indent_each_line(x.as_str())
        },
        ast::ContractMember::Enum(e) => {
            let x = format_enum(e);
            indent_each_line(x.as_str())
        },
    }
}

/// A contract: `abstract` where it is, its bases and its members.
pub fn format_contract(c: &ast::ContractDef) -> (r: String)
    requires
        contract_ok(*c),
    ensures
        r@ == fmt_contract(*c),
{
    let mut s = if c.is_abstract { "abstract ".to_owned() } else { String::new() };
    push_str(&mut s, "contract ");
    push_str(&mut s, c.name.name.as_str());
    let b = bases_part_str(&c.bases);
    push_str(&mut s, b.as_str());
    push_str(&mut s, " {\n");
    let ghost head = s@;
    let mut k: usize = 0;
    while k < c.members.len()
        invariant
            k <= c.members@.len(),
            contract_ok(*c),
            s@ == head + fmt_members(c.members@.take(k as int)),
        decreases c.members@.len() - k,
    {
        proof {
            assert(c.members@.take(k + 1).drop_last() =~= c.members@.take(k as int));
            assert(c.members@.take(k + 1).last() == c.members@[k as int]);
            assert(member_ok(c.members@[k as int]));
        }
        let x = format_contract_member(&c.members[k]);
        push_str(&mut s, x.as_str());
        k = k + 1;
    }
    proof {
        assert(c.members@.take(k as int) =~= c.members@);
    }
    push_str(&mut s, "}\n");
    s
}

/// An item of a program.
pub fn format_item(it: &ast::Item) -> (r: String)
    requires
        item_ok(*it),
    ensures
        r@ == fmt_item(*it),
{
    match it {
        ast::Item::Contract(c) => format_contract(c),
        ast::Item::Interface(i) => format_interface(i),
        ast::Item::Struct(d) => format_struct(d),
        ast::Item::Enum(e) => format_enum(e),
        ast::Item::Event(e) => format_event(e),
        ast::Item::Error(e) => format_error(e),
        ast::Item::Import(i) => format_import(i),
        ast::Item::Function(f) => format_function(f, 0),
    }
}

/// A program written back in the canonical layout: its items, separated by an empty
/// line.
pub fn format_program(program: &ast::Program) -> (r: String)
    requires
        program_ok(*program),
    ensures
        r@ == fmt_program(*program),
{
    let ghost all = program.items@.map_values(|it: ast::Item| fmt_item(it));
    let mut texts: Vec<String> = Vec::new();
    let mut k: usize = 0;
    while k < program.items.len()
        invariant
            k <= program.items@.len(),
            program_ok(*program),
            all == program.items@.map_values(|it: ast::Item| fmt_item(it)),
            strs_v(texts@) == all.take(k as int),
        decreases program.items@.len() - k,
    {
        proof {
            assert(item_ok(program.items@[k as int]));
        }
        let x = format_item(&program.items[k]);
        let ghost before = texts@;
        texts.push(x);
        proof {
            assert(strs_v(texts@) =~= strs_v(before).push(x@));
            assert(all.take(k + 1) =~= all.take(k as int).push(all[k as int]));
        }
        k = k + 1;
    }
    proof {
        assert(all.take(k as int) =~= all);
    }
    join_strings(&texts, "\n")
}

/// A line without the white space at its ends.
pub open spec fn trim_start(l: Seq<char>) -> Seq<char>
    decreases l.len(),
{
    if l.len() > 0 && space_prop(l[0]) { trim_start(l.drop_first()) } else { l }
}

/// A line without the white space at its end.
pub open spec fn trim_end(l: Seq<char>) -> Seq<char>
    decreases l.len(),
{
    if l.len() > 0 && space_prop(l.last()) { trim_end(l.drop_last()) } else { l }
}

/// A line without the white space at its ends.
pub open spec fn trim(l: Seq<char>) -> Seq<char> {
    trim_end(trim_start(l))
}

/// The pieces of a text between line feeds; there is always at least one.
pub open spec fn split_lines(s: Seq<char>) -> Seq<Seq<char>>
    decreases s.len(),
{
    if s.len() == 0 {
        seq![seq![]]
    } else {
        let prev = split_lines(s.drop_last());
        if s.last() == '\n' {
            prev.push(seq![])
        } else {
            prev.update(prev.len() - 1, prev.last().push(s.last()))
        }
    }
}

/// The lines that hold more than white space, trimmed, in order.
pub open spec fn kept_lines(ls: Seq<Seq<char>>) -> Seq<Seq<char>>
    decreases ls.len(),
{
    if ls.len() == 0 {
        seq![]
    } else if trim(ls.last()).len() > 0 {
        kept_lines(ls.drop_last()).push(trim(ls.last()))
    } else {
        kept_lines(ls.drop_last())
    }
}

/// A text reduced to its trimmed lines that hold more than white space, one per line: a
/// carriage return before a line feed is white space, and so is dropped with it.
pub open spec fn normalized(s: Seq<char>) -> Seq<char> {
    join(kept_lines(split_lines(s)), "\n"@)
}

/// A line without the white space at its ends.
fn trim_line(l: &Vec<char>) -> (r: String)
    ensures
        r@ == trim(l@),
{
    let mut a: usize = 0;
    proof {
        assert(l@.skip(0) =~= l@);
    }
    while a < l.len() && is_whitespace(l[a])
        invariant
            a <= l@.len(),
            trim_start(l@) == trim_start(l@.skip(a as int)),
        decreases l@.len() - a,
    {
        proof {
            assert(l@.skip(a as int).drop_first() =~= l@.skip(a + 1));
        }
        a = a + 1;
    }
    proof {
        assert(trim_start(l@) == l@.skip(a as int));
        assert(l@.subrange(a as int, l@.len() as int) =~= l@.skip(a as int));
    }
    let mut b: usize = l.len();
    while b > a && is_whitespace(l[b - 1])
        invariant
            a <= b <= l@.len(),
            trim_start(l@) == l@.skip(a as int),
            trim(l@) == trim_end(l@.subrange(a as int, b as int)),
        decreases b - a,
    {
        proof {
            assert(l@.subrange(a as int, b as int).drop_last() =~= l@.subrange(a as int, b - 1));
        }
        b = b - 1;
    }
    proof {
        assert(trim_end(l@.subrange(a as int, b as int)) == l@.subrange(a as int, b as int));
    }
    string_of(&l.as_slice()[a..b])
}

/// A text reduced to its trimmed lines that hold more than white space, one per line.
pub fn normalize_whitespace(s: &str) -> (r: String)
    ensures
        r@ == normalized(s@),
{
    let cs = chars_of(s);
    let mut kept: Vec<String> = Vec::new();
    let mut line: Vec<char> = Vec::new();
    let mut i: usize = 0;
    while i < cs.len()
        invariant
            i <= cs@.len(),
            cs@ == s@,
            split_lines(cs@.take(i as int)).len() > 0,
            strs_v(kept@) == kept_lines(split_lines(cs@.take(i as int)).drop_last()),
            line@ == split_lines(cs@.take(i as int)).last(),
        decreases cs@.len() - i,
    {
        let c = cs[i];
        let ghost prev = split_lines(cs@.take(i as int));
        proof {
            assert(cs@.take(i + 1).drop_last() =~= cs@.take(i as int));
            assert(cs@.take(i + 1).last() == c);
        }
        if c == '\n' {
            let t = trim_line(&line);
            let tc = chars_of(t.as_str());
            if tc.len() > 0 {
                let ghost before = kept@;
                kept.push(t);
                proof {
                    assert(strs_v(kept@) =~= strs_v(before).push(t@));
                }
            }
            proof {
                assert(split_lines(cs@.take(i + 1)) == prev.push(seq![]));
                assert(prev.push(seq![]).drop_last() =~= prev);
                assert(prev =~= prev.drop_last().push(prev.last()));
            }
            line = Vec::new();
            proof {
                assert(line@ =~= Seq::<char>::empty());
            }
        } else {
            line.push(c);
            proof {
                let next = prev.update(prev.len() - 1, prev.last().push(c));
                assert(split_lines(cs@.take(i + 1)) == next);
                assert(next.drop_last() =~= prev.drop_last());
            }
        }
        i = i + 1;
    }
    proof {
        assert(cs@.take(i as int) =~= cs@);
        let ls = split_lines(cs@);
        assert(ls =~= ls.drop_last().push(ls.last()));
    }
    let t = trim_line(&line);
    let tc = chars_of(t.as_str());
    if tc.len() > 0 {
        let ghost before = kept@;
        kept.push(t);
        proof {
            assert(strs_v(kept@) =~= strs_v(before).push(t@));
        }
    }
    join_strings(&kept, "\n")
}

/// Whether formatting would change a file: its text and the formatted text differ once
/// both are normalized.
pub fn needs_formatting(source: &str, formatted: &str) -> (b: bool)
    ensures
        b == (normalized(source@) != normalized(formatted@)),
{
    let a = normalize_whitespace(source);
    let f = normalize_whitespace(formatted);
    !str_eq(a.as_str(), f.as_str())
}

/// Whether every path in a type has a segment.
pub fn type_is_ok(t: &TypeExpr) -> (b: bool)
    ensures
        b == type_ok(*t),
    decreases t, 1nat,
{
    match t {
        TypeExpr::Path(p) => p.segments.len() > 0,
        TypeExpr::Array(a) => a.element.segments.len() > 0,
        TypeExpr::Mapping(m) => type_is_ok(&m.key) && type_is_ok(&m.value),
        TypeExpr::Tuple(x) => {
            proof {
                assert(x.elements@.take(x.elements@.len() as int) =~= x.elements@);
            }
            types_are_ok(&x.elements, x.elements.len())
        },
    }
}

/// Whether every path in the first `n` types has a segment.
fn types_are_ok(ts: &Vec<TypeExpr>, n: usize) -> (b: bool)
    requires
        n <= ts@.len(),
    ensures
        b == types_ok(ts@.take(n as int)),
    decreases ts@, n,
{
    if n == 0 {
        return true;
    }
    proof {
        assert(ts@.take(n as int).drop_last() =~= ts@.take(n - 1));
        assert(ts@.take(n as int).last() == ts@[n - 1]);
    }
    types_are_ok(ts, n - 1) && type_is_ok(&ts[n - 1])
}

/// Whether the types of the parameters can be written.
fn params_are_ok(ps: &Vec<ast::Param>) -> (b: bool)
    ensures
        b == params_ok(ps@),
{
    let mut i: usize = 0;
    while i < ps.len()
        invariant
            i <= ps@.len(),
            forall|k: int| 0 <= k < i ==> #[trigger] type_ok(ps@[k].ty),
        decreases ps@.len() - i,
    {
        if !type_is_ok(&ps[i].ty) {
            return false;
        }
        i = i + 1;
    }
    true
}

/// Whether the return types can be written.
fn rets_are_ok(rs: &Vec<ast::ReturnParam>) -> (b: bool)
    ensures
        b == rets_ok(rs@),
{
    let mut i: usize = 0;
    while i < rs.len()
        invariant
            i <= rs@.len(),
            forall|k: int| 0 <= k < i ==> #[trigger] type_ok(rs@[k].ty),
        decreases rs@.len() - i,
    {
        if !type_is_ok(&rs[i].ty) {
            return false;
        }
        i = i + 1;
    }
    true
}

/// Whether every base has a segment to name it by.
fn bases_are_ok(bs: &Vec<TypePath>) -> (b: bool)
    ensures
        b == bases_ok(bs@),
{
    let mut i: usize = 0;
    while i < bs.len()
        invariant
            i <= bs@.len(),
            forall|k: int| 0 <= k < i ==> #[trigger] path_ok(bs@[k]),
        decreases bs@.len() - i,
    {
        if bs[i].segments.len() == 0 {
            proof {
                assert(!path_ok(bs@[i as int]));
            }
            return false;
        }
        i = i + 1;
    }
    true
}

/// Whether the field types of a struct can be written.
fn fields_are_ok(fs: &Vec<ast::StructField>) -> (b: bool)
    ensures
        b == fields_ok(fs@),
{
    let mut i: usize = 0;
    while i < fs.len()
        invariant
            i <= fs@.len(),
            forall|k: int| 0 <= k < i ==> #[trigger] type_ok(fs@[k].ty),
        decreases fs@.len() - i,
    {
        if !type_is_ok(&fs[i].ty) {
            return false;
        }
        i = i + 1;
    }
    true
}

/// Whether the parameter types of an event can be written.
fn event_is_ok(e: &ast::EventDef) -> (b: bool)
    ensures
        b == event_ok(*e),
{
    let mut i: usize = 0;
    while i < e.params.len()
        invariant
            i <= e.params@.len(),
            forall|k: int| 0 <= k < i ==> #[trigger] type_ok(e.params@[k].ty),
        decreases e.params@.len() - i,
    {
        if !type_is_ok(&e.params[i].ty) {
            return false;
        }
        i = i + 1;
    }
    true
}

/// Whether the parameter types of an error can be written.
fn error_is_ok(e: &ast::ErrorDef) -> (b: bool)
    ensures
        b == error_ok(*e),
{
    let mut i: usize = 0;
    while i < e.params.len()
        invariant
            i <= e.params@.len(),
            forall|k: int| 0 <= k < i ==> #[trigger] type_ok(e.params@[k].ty),
        decreases e.params@.len() - i,
    {
        if !type_is_ok(&e.params[i].ty) {
            return false;
        }
        i = i + 1;
    }
    true
}

/// Whether the types of a member can be written.
fn member_is_ok(m: &ast::ContractMember) -> (b: bool)
    ensures
        b == member_ok(*m),
{
    match m {
        ast::ContractMember::StateVar(v) => type_is_ok(&v.ty),
        ast::ContractMember::Function(f) => params_are_ok(&f.params) && rets_are_ok(&f.return_params),
        ast::ContractMember::Constructor(c) => params_are_ok(&c.params),
        ast::ContractMember::Modifier(d) => params_are_ok(&d.params),
        ast::ContractMember::Event(e) => event_is_ok(e),
        ast::ContractMember::Error(e) => error_is_ok(e),
        ast::ContractMember::Struct(d) => fields_are_ok(&d.fields),
        ast::ContractMember::Enum(_) => true,
    }
}

/// Whether the types of the signatures can be written.
fn sigs_are_ok(ss: &Vec<ast::FnSig>) -> (b: bool)
    ensures
        b == sigs_ok(ss@),
{
    let mut i: usize = 0;
    while i < ss.len()
        invariant
            i <= ss@.len(),
            forall|k: int| 0 <= k < i ==> #[trigger] sig_ok(ss@[k]),
        decreases ss@.len() - i,
    {
        if !(params_are_ok(&ss[i].params) && rets_are_ok(&ss[i].return_params)) {
            proof {
                assert(!sig_ok(ss@[i as int]));
            }
            return false;
        }
        proof {
            assert(sig_ok(ss@[i as int]));
        }
        i = i + 1;
    }
    true
}

/// Whether the types and bases of a contract can be written.
fn contract_is_ok(c: &ast::ContractDef) -> (b: bool)
    ensures
        b == contract_ok(*c),
{
    if !bases_are_ok(&c.bases) {
        return false;
    }
    let mut i: usize = 0;
    while i < c.members.len()
        invariant
            i <= c.members@.len(),
            bases_ok(c.bases@),
            forall|k: int| 0 <= k < i ==> #[trigger] member_ok(c.members@[k]),
        decreases c.members@.len() - i,
    {
        if !member_is_ok(&c.members[i]) {
            proof {
                assert(!member_ok(c.members@[i as int]));
            }
            return false;
        }
        i = i + 1;
    }
    true
}

/// Whether the types and bases of an item can be written.
fn item_is_ok(it: &ast::Item) -> (b: bool)
    ensures
        b == item_ok(*it),
{
    match it {
        ast::Item::Contract(c) => contract_is_ok(c),
        ast::Item::Interface(i) => bases_are_ok(&i.bases) && sigs_are_ok(&i.members),
        ast::Item::Struct(d) => fields_are_ok(&d.fields),
        ast::Item::Enum(_) => true,
        ast::Item::Event(e) => event_is_ok(e),
        ast::Item::Error(e) => error_is_ok(e),
        ast::Item::Import(_) => true,
        ast::Item::Function(f) => params_are_ok(&f.params) && rets_are_ok(&f.return_params),
    }
}

/// Whether every type and base in a program has a segment to name it by, so that it
/// can be formatted.
pub fn program_is_formattable(p: &ast::Program) -> (b: bool)
    ensures
        b == program_ok(*p),
{
    let mut i: usize = 0;
    while i < p.items.len()
        invariant
            i <= p.items@.len(),
            forall|k: int| 0 <= k < i ==> #[trigger] item_ok(p.items@[k]),
        decreases p.items@.len() - i,
    {
        if !item_is_ok(&p.items[i]) {
            return false;
        }
        i = i + 1;
    }
    true
}

} // verus!
