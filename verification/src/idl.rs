//! The Anchor IDL of a program: its instructions with their accounts and arguments, its
//! accounts, user types, events and errors, as a value that a serialiser writes out.

use vstd::prelude::*;
use crate::chars::{ascii_to_lower, ascii_to_upper, is_uppercase, lowercase, to_ascii_lower, to_ascii_upper, to_lowercase_str, upper_prop};
use crate::ir::{event_v, access_v, accesses_v, params_v, type_v, AccessV, Instruction, SolanaProgram, SolanaType, TypeV};
use crate::lower_contract::program_v;
use crate::lower_items::instr_v;
use crate::program_spec::{InstrV, ProgramV};
use crate::text::{chars_of, dec_seq, dec_string, push_char, push_str, str_eq};

verus! {

/// A type in the IDL.
#[derive(Debug)]
pub enum IdlType {
    Primitive(String),
    Defined(String),
    /// An array of a type and a length.
    Array(Box<IdlType>, usize),
    Vec(Box<IdlType>),
    Option(Box<IdlType>),
}

/// A named and typed field or argument.
#[derive(Debug)]
pub struct IdlField {
    pub name: String,
    pub ty: IdlType,
}

/// An account an instruction takes.
#[derive(Debug)]
pub struct IdlAccount {
    pub name: String,
    pub is_mut: bool,
    pub is_signer: bool,
}

/// An instruction: its accounts, its arguments and what it returns.
#[derive(Debug)]
pub struct IdlInstruction {
    pub name: String,
    pub accounts: Vec<IdlAccount>,
    pub args: Vec<IdlField>,
    pub returns: Option<IdlType>,
}

/// The layout of an account.
#[derive(Debug)]
pub struct IdlAccountType {
    pub kind: String,
    pub fields: Vec<IdlField>,
}

/// An account the program owns.
#[derive(Debug)]
pub struct IdlAccountDef {
    pub name: String,
    pub ty: IdlAccountType,
}

/// A variant of a user enum.
#[derive(Debug)]
pub struct IdlEnumVariant {
    pub name: String,
}

/// What a user type is: a struct with fields or an enum with variants.
#[derive(Debug)]
pub enum IdlTypeDefType {
    Struct { fields: Vec<IdlField> },
    Enum { variants: Vec<IdlEnumVariant> },
}

/// A user type.
#[derive(Debug)]
pub struct IdlTypeDef {
    pub name: String,
    pub ty: IdlTypeDefType,
}

/// A field of an event.
#[derive(Debug)]
pub struct IdlEventField {
    pub name: String,
    pub ty: IdlType,
    pub index: bool,
}

/// An event.
#[derive(Debug)]
pub struct IdlEvent {
    pub name: String,
    pub fields: Vec<IdlEventField>,
}

/// An error with its code.
#[derive(Debug)]
pub struct IdlError {
    pub code: u32,
    pub name: String,
    pub msg: String,
}

/// Where the program is deployed.
#[derive(Debug)]
pub struct IdlMetadata {
    pub address: String,
}

/// The IDL of a program.
#[derive(Debug)]
pub struct Idl {
    pub version: String,
    pub name: String,
    pub instructions: Vec<IdlInstruction>,
    pub accounts: Vec<IdlAccountDef>,
    pub types: Vec<IdlTypeDef>,
    pub events: Vec<IdlEvent>,
    pub errors: Vec<IdlError>,
    pub metadata: IdlMetadata,
}

/// An IDL type as a value.
pub enum IdlTypeV {
    Primitive(Seq<char>),
    Defined(Seq<char>),
    Array(Box<IdlTypeV>, usize),
    Vec(Box<IdlTypeV>),
    Option(Box<IdlTypeV>),
}

/// An IDL type as a value.
pub open spec fn idl_type_v(t: IdlType) -> IdlTypeV
    decreases t,
{
    match t {
        IdlType::Primitive(s) => IdlTypeV::Primitive(s@),
        IdlType::Defined(s) => IdlTypeV::Defined(s@),
        IdlType::Array(t, n) => IdlTypeV::Array(Box::new(idl_type_v(*t)), n),
        IdlType::Vec(t) => IdlTypeV::Vec(Box::new(idl_type_v(*t))),
        IdlType::Option(t) => IdlTypeV::Option(Box::new(idl_type_v(*t))),
    }
}

/// The IDL type of a type of the intermediate representation; a mapping, kept in
/// derived accounts, is bytes.
pub open spec fn idl_type_s(t: TypeV) -> IdlTypeV
    decreases t,
{
    match t {
        TypeV::U8 => IdlTypeV::Primitive("u8"@),
        TypeV::U16 => IdlTypeV::Primitive("u16"@),
        TypeV::U32 => IdlTypeV::Primitive("u32"@),
        TypeV::U64 => IdlTypeV::Primitive("u64"@),
        TypeV::U128 => IdlTypeV::Primitive("u128"@),
        TypeV::I8 => IdlTypeV::Primitive("i8"@),
        TypeV::I16 => IdlTypeV::Primitive("i16"@),
        TypeV::I32 => IdlTypeV::Primitive("i32"@),
        TypeV::I64 => IdlTypeV::Primitive("i64"@),
        TypeV::I128 => IdlTypeV::Primitive("i128"@),
        TypeV::Bool => IdlTypeV::Primitive("bool"@),
        TypeV::String => IdlTypeV::Primitive("string"@),
        TypeV::Pubkey => IdlTypeV::Primitive("publicKey"@),
        TypeV::Signer => IdlTypeV::Primitive("publicKey"@),
        TypeV::Bytes => IdlTypeV::Primitive("bytes"@),
        TypeV::FixedBytes(n) => IdlTypeV::Array(Box::new(IdlTypeV::Primitive("u8"@)), n),
        TypeV::Array(inner, size) => IdlTypeV::Array(Box::new(idl_type_s(*inner)), size),
        TypeV::Vec(inner) => IdlTypeV::Vec(Box::new(idl_type_s(*inner))),
        TypeV::Option(inner) => IdlTypeV::Option(Box::new(idl_type_s(*inner))),
        TypeV::Mapping(_, _) => IdlTypeV::Primitive("bytes"@),
        TypeV::Custom(name) => IdlTypeV::Defined(name),
    }
}

/// A name in camel case from `cap` on: `_` and `-` are dropped and the character after
/// them, like the first where `cap` holds, is put in ASCII upper case.
pub open spec fn camel_from(s: Seq<char>, cap: bool) -> Seq<char>
    decreases s.len(),
{
    if s.len() == 0 {
        seq![]
    } else if s[0] == '_' || s[0] == '-' {
        camel_from(s.drop_first(), true)
    } else if cap {
        seq![ascii_to_upper(s[0])] + camel_from(s.drop_first(), false)
    } else {
        seq![s[0]] + camel_from(s.drop_first(), false)
    }
}

/// A name in camel case with a capital first letter.
pub open spec fn camel(s: Seq<char>) -> Seq<char> {
    camel_from(s, true)
}

/// A name in camel case with a small first letter.
pub open spec fn camel_lower(s: Seq<char>) -> Seq<char> {
    let c = camel(s);
    if c.len() == 0 {
        seq![]
    } else {
        seq![ascii_to_lower(c[0])] + c.drop_first()
    }
}

/// A name in snake case as the IDL spells the program: each character in ASCII lower
/// case, with `_` before an uppercase one that is not the first.
pub open spec fn idl_snake(s: Seq<char>) -> Seq<char>
    decreases s.len(),
{
    if s.len() == 0 {
        seq![]
    } else if upper_prop(s.last()) && s.len() > 1 {
        idl_snake(s.drop_last()) + seq!['_', ascii_to_lower(s.last())]
    } else {
        idl_snake(s.drop_last()) + seq![ascii_to_lower(s.last())]
    }
}

/// An IDL type of the intermediate representation's type.
pub fn solana_type_to_idl_type(ty: &SolanaType) -> (r: IdlType)
    ensures
        idl_type_v(r) == idl_type_s(type_v(*ty)),
    decreases ty,
{
    match ty {
        SolanaType::U8 => IdlType::Primitive("u8".to_owned()),
        SolanaType::U16 => IdlType::Primitive("u16".to_owned()),
        SolanaType::U32 => IdlType::Primitive("u32".to_owned()),
        SolanaType::U64 => IdlType::Primitive("u64".to_owned()),
        SolanaType::U128 => IdlType::Primitive("u128".to_owned()),
        SolanaType::I8 => IdlType::Primitive("i8".to_owned()),
        SolanaType::I16 => IdlType::Primitive("i16".to_owned()),
        SolanaType::I32 => IdlType::Primitive("i32".to_owned()),
        SolanaType::I64 => IdlType::Primitive("i64".to_owned()),
        SolanaType::I128 => IdlType::Primitive("i128".to_owned()),
        SolanaType::Bool => IdlType::Primitive("bool".to_owned()),
        SolanaType::String => IdlType::Primitive("string".to_owned()),
        SolanaType::Pubkey => IdlType::Primitive("publicKey".to_owned()),
        SolanaType::Signer => IdlType::Primitive("publicKey".to_owned()),
        SolanaType::Bytes => IdlType::Primitive("bytes".to_owned()),
        SolanaType::FixedBytes(n) => {
            let byte = IdlType::Primitive("u8".to_owned());
            assert(idl_type_v(byte) == IdlTypeV::Primitive("u8"@));
            IdlType::Array(Box::new(byte), *n)
        },
        SolanaType::Array(inner, size) => IdlType::Array(Box::new(solana_type_to_idl_type(inner)), *size),
        SolanaType::Vec(inner) => IdlType::Vec(Box::new(solana_type_to_idl_type(inner))),
        SolanaType::Option(inner) => IdlType::Option(Box::new(solana_type_to_idl_type(inner))),
        SolanaType::Mapping(_, _) => IdlType::Primitive("bytes".to_owned()),
        SolanaType::Custom(name) => IdlType::Defined(name.clone()),
    }
}

/// A name in camel case with a capital first letter.
pub fn to_camel_case(s: &str) -> (r: String)
    ensures
        r@ == camel(s@),
{
    let cs = chars_of(s);
    let mut out = String::new();
    let mut cap = true;
    let mut i: usize = 0;
    proof {
        assert(cs@.skip(0) =~= cs@);
        assert(out@ + camel_from(cs@.skip(0), cap) =~= camel(s@));
    }
    while i < cs.len()
        invariant
            i <= cs@.len(),
            cs@ == s@,
            out@ + camel_from(cs@.skip(i as int), cap) == camel(s@),
        decreases cs@.len() - i,
    {
        let c = cs[i];
        proof {
            assert(cs@.skip(i as int)[0] == c);
            assert(cs@.skip(i as int).drop_first() =~= cs@.skip(i + 1));
        }
        if c == '_' || c == '-' {
            cap = true;
        } else if cap {
            let u = to_ascii_upper(c);
            let ghost before = out@;
            push_char(&mut out, u);
            proof {
                assert(out@ + camel_from(cs@.skip(i + 1), false) =~= before + (seq![u] + camel_from(cs@.skip(i + 1), false)));
            }
            cap = false;
        } else {
            let ghost before = out@;
            push_char(&mut out, c);
            proof {
                assert(out@ + camel_from(cs@.skip(i + 1), false) =~= before + (seq![c] + camel_from(cs@.skip(i + 1), false)));
            }
        }
        i = i + 1;
    }
    proof {
        assert(cs@.skip(i as int).len() == 0);
        assert(out@ + camel_from(cs@.skip(i as int), cap) =~= out@);
    }
    out
}

/// A name in camel case with a small first letter.
pub fn to_camel_case_lower(s: &str) -> (r: String)
    ensures
        r@ == camel_lower(s@),
{
    let camel_s = to_camel_case(s);
    let cs = chars_of(camel_s.as_str());
    if cs.len() == 0 {
        return String::new();
    }
    let mut out = String::new();
    let l = to_ascii_lower(cs[0]);
    push_char(&mut out, l);
    let mut i: usize = 1;
    while i < cs.len()
        invariant
            1 <= i <= cs@.len(),
            cs@ == camel(s@),
            out@ == seq![ascii_to_lower(cs@[0])] + cs@.subrange(1, i as int),
        decreases cs@.len() - i,
    {
        push_char(&mut out, cs[i]);
        proof {
            assert(cs@.subrange(1, i + 1) =~= cs@.subrange(1, i as int).push(cs@[i as int]));
        }
        i = i + 1;
    }
    proof {
        assert(cs@.subrange(1, cs@.len() as int) =~= cs@.drop_first());
    }
    out
}

/// The name of the program as the IDL spells it.
pub fn to_snake_case_idl(s: &str) -> (r: String)
    ensures
        r@ == idl_snake(s@),
{
    let cs = chars_of(s);
    let mut out = String::new();
    let mut i: usize = 0;
    while i < cs.len()
        invariant
            i <= cs@.len(),
            cs@ == s@,
            out@ == idl_snake(cs@.take(i as int)),
        decreases cs@.len() - i,
    {
        let c = cs[i];
        proof {
            assert(cs@.take(i + 1).drop_last() =~= cs@.take(i as int));
            assert(cs@.take(i + 1).last() == c);
        }
        let l = to_ascii_lower(c);
        if is_uppercase(c) && i > 0 {
            push_char(&mut out, '_');
            push_char(&mut out, l);
            proof {
                assert(out@ =~= idl_snake(cs@.take(i as int)) + seq!['_', l]);
            }
        } else {
            push_char(&mut out, l);
        }
        i = i + 1;
    }
    proof {
        assert(cs@.take(i as int) =~= cs@);
    }
    out
}

/// Named and typed fields as values.
pub open spec fn fields_idl_v(v: Seq<IdlField>) -> Seq<(Seq<char>, IdlTypeV)> {
    v.map_values(|f: IdlField| (f.name@, idl_type_v(f.ty)))
}

/// Accounts of an instruction as values: name, whether written, whether a signer.
pub open spec fn accounts_idl_v(v: Seq<IdlAccount>) -> Seq<(Seq<char>, bool, bool)> {
    v.map_values(|a: IdlAccount| (a.name@, a.is_mut, a.is_signer))
}

/// An IDL instruction as a value.
pub struct IdlInstrV {
    pub name: Seq<char>,
    pub accounts: Seq<(Seq<char>, bool, bool)>,
    pub args: Seq<(Seq<char>, IdlTypeV)>,
    pub returns: Option<IdlTypeV>,
}

/// An IDL instruction as a value.
pub open spec fn instr_idl_v(i: IdlInstruction) -> IdlInstrV {
    IdlInstrV {
        name: i.name@,
        accounts: accounts_idl_v(i.accounts@),
        args: fields_idl_v(i.args@),
        returns: match i.returns {
            Some(t) => Some(idl_type_v(t)),
            None => None,
        },
    }
}

/// The arguments of an instruction: its parameters with names in camel case.
pub open spec fn idl_args(ps: Seq<(Seq<char>, TypeV)>) -> Seq<(Seq<char>, IdlTypeV)> {
    ps.map_values(|q: (Seq<char>, TypeV)| (camel_lower(q.0), idl_type_s(q.1)))
}

/// The entry account of each mapping access, numbered in order.
pub open spec fn entry_accounts(accs: Seq<AccessV>, is_view: bool) -> Seq<(Seq<char>, bool, bool)> {
    Seq::new(accs.len(), |k: int| (camel_lower(accs[k].mapping_name) + "_entry_"@ + dec_seq(k as nat), !is_view, false))
}

/// The accounts of an instruction whose name in lower case is `lowered`: the state,
/// written unless the instruction only reads, the signer, the system program for
/// `initialize`, and the entry accounts of its mapping accesses.
pub open spec fn idl_accounts(i: InstrV, lowered: Seq<char>) -> Seq<(Seq<char>, bool, bool)> {
    seq![("state"@, !i.is_view, false), ("signer"@, true, true)]
        + (if lowered == "initialize"@ { seq![("systemProgram"@, false, false)] } else { Seq::<(Seq<char>, bool, bool)>::empty() })
        + entry_accounts(i.mapping_accesses, i.is_view)
}

/// The IDL of an instruction whose name in lower case is `lowered`.
pub open spec fn idl_instruction_s(i: InstrV, lowered: Seq<char>) -> IdlInstrV {
    IdlInstrV {
        name: camel_lower(i.name),
        accounts: idl_accounts(i, lowered),
        args: idl_args(i.params),
        returns: match i.returns_ty {
            Some(t) => Some(idl_type_s(t)),
            None => None,
        },
    }
}

/// A field of a user struct, of the state or of an entry as a value.
pub open spec fn idl_field_s(f: (Seq<char>, TypeV)) -> (Seq<char>, IdlTypeV) {
    (camel_lower(f.0), idl_type_s(f.1))
}

/// An account definition as a value: name, kind and fields.
pub open spec fn account_def_v(a: IdlAccountDef) -> (Seq<char>, Seq<char>, Seq<(Seq<char>, IdlTypeV)>) {
    (a.name@, a.ty.kind@, fields_idl_v(a.ty.fields@))
}

/// The accounts of a program: the state, named after the program, then the entry
/// account of each mapping, which holds its value.
pub open spec fn idl_accounts_s(p: ProgramV) -> Seq<(Seq<char>, Seq<char>, Seq<(Seq<char>, IdlTypeV)>)> {
    seq![(
        camel(idl_snake(p.name)) + "State"@,
        "struct"@,
        p.state.map_values(|f: (Seq<char>, TypeV, bool)| idl_field_s((f.0, f.1))),
    )] + p.mappings.map_values(
        |m: (Seq<char>, TypeV, TypeV, bool)| (camel(m.0) + "Entry"@, "struct"@, seq![("value"@, idl_type_s(m.2))]),
    )
}

/// What a user type is, as a value.
pub enum IdlTypeDefV {
    Struct(Seq<(Seq<char>, IdlTypeV)>),
    Enum(Seq<Seq<char>>),
}

/// A user type as a value.
pub open spec fn type_def_v(t: IdlTypeDef) -> (Seq<char>, IdlTypeDefV) {
    (t.name@, match t.ty {
        IdlTypeDefType::Struct { fields } => IdlTypeDefV::Struct(fields_idl_v(fields@)),
        IdlTypeDefType::Enum { variants } => IdlTypeDefV::Enum(variants@.map_values(|v: IdlEnumVariant| v.name@)),
    })
}

/// The user types of a program: the structs, then the enums.
pub open spec fn idl_types_s(p: ProgramV) -> Seq<(Seq<char>, IdlTypeDefV)> {
    p.structs.map_values(
        |s: (Seq<char>, Seq<(Seq<char>, TypeV)>)| (s.0, IdlTypeDefV::Struct(s.1.map_values(|f: (Seq<char>, TypeV)| idl_field_s(f)))),
    ) + p.enums.map_values(|e: (Seq<char>, Seq<Seq<char>>)| (e.0, IdlTypeDefV::Enum(e.1)))
}

/// An event as a value.
pub open spec fn event_idl_v(e: IdlEvent) -> (Seq<char>, Seq<(Seq<char>, IdlTypeV, bool)>) {
    (e.name@, e.fields@.map_values(|f: IdlEventField| (f.name@, idl_type_v(f.ty), f.index)))
}

/// The events of a program, with field names in camel case.
pub open spec fn idl_events_s(p: ProgramV) -> Seq<(Seq<char>, Seq<(Seq<char>, IdlTypeV, bool)>)> {
    p.events.map_values(
        |e: (Seq<char>, Seq<(Seq<char>, TypeV, bool)>)| (
            e.0,
            e.1.map_values(|f: (Seq<char>, TypeV, bool)| (camel_lower(f.0), idl_type_s(f.1), f.2)),
        ),
    )
}

/// An error as a value: code, name and message.
pub open spec fn error_idl_v(e: IdlError) -> (int, Seq<char>, Seq<char>) {
    (e.code as int, e.name@, e.msg@)
}

/// The errors of a program: code 6000 for a failed requirement, then each declared
/// error, numbered from 6001, with its name as its message.
pub open spec fn idl_errors_s(p: ProgramV) -> Seq<(int, Seq<char>, Seq<char>)> {
    seq![(6000int, "RequireFailed"@, "Requirement failed"@)]
        + Seq::new(p.errors.len(), |k: int| (6001 + k, p.errors[k].0, p.errors[k].0))
}

/// The IDL of a program as a value.
pub struct IdlV {
    pub version: Seq<char>,
    pub name: Seq<char>,
    pub instructions: Seq<IdlInstrV>,
    pub accounts: Seq<(Seq<char>, Seq<char>, Seq<(Seq<char>, IdlTypeV)>)>,
    pub types: Seq<(Seq<char>, IdlTypeDefV)>,
    pub events: Seq<(Seq<char>, Seq<(Seq<char>, IdlTypeV, bool)>)>,
    pub errors: Seq<(int, Seq<char>, Seq<char>)>,
    pub address: Seq<char>,
}

/// The IDL of a program as a value.
pub open spec fn idl_v(i: Idl) -> IdlV {
    IdlV {
        version: i.version@,
        name: i.name@,
        instructions: i.instructions@.map_values(|x: IdlInstruction| instr_idl_v(x)),
        accounts: i.accounts@.map_values(|x: IdlAccountDef| account_def_v(x)),
        types: i.types@.map_values(|x: IdlTypeDef| type_def_v(x)),
        events: i.events@.map_values(|x: IdlEvent| event_idl_v(x)),
        errors: i.errors@.map_values(|x: IdlError| error_idl_v(x)),
        address: i.metadata.address@,
    }
}

/// The IDL of a program: each instruction's accounts depend on its name in lower case,
/// as `str::to_lowercase` gives it.
pub open spec fn idl_s(p: ProgramV) -> IdlV {
    IdlV {
        version: "0.1.0"@,
        name: idl_snake(p.name),
        instructions: p.instructions.map_values(|i: InstrV| idl_instruction_s(i, lowercase(i.name))),
        accounts: idl_accounts_s(p),
        types: idl_types_s(p),
        events: idl_events_s(p),
        errors: idl_errors_s(p),
        address: "11111111111111111111111111111111"@,
    }
}

/// The arguments of an instruction.
fn idl_args_of(ps: &Vec<crate::ir::InstructionParam>) -> (r: Vec<IdlField>)
    ensures
        fields_idl_v(r@) == idl_args(params_v(ps@)),
{
    let ghost pv = params_v(ps@);
    let mut r: Vec<IdlField> = Vec::new();
    let mut i: usize = 0;
    while i < ps.len()
        invariant
            i <= ps@.len(),
            pv == params_v(ps@),
            fields_idl_v(r@) == idl_args(pv.take(i as int)),
        decreases ps@.len() - i,
    {
        let f = IdlField { name: to_camel_case_lower(ps[i].name.as_str()), ty: solana_type_to_idl_type(&ps[i].ty) };
        let ghost before = r@;
        r.push(f);
        proof {
            assert(fields_idl_v(r@) =~= fields_idl_v(before).push((f.name@, idl_type_v(f.ty))));
            assert(idl_args(pv.take(i + 1)) =~= idl_args(pv.take(i as int)).push(idl_field_s(pv[i as int])));
        }
        i = i + 1;
    }
    proof {
        assert(pv.take(i as int) =~= pv);
    }
    r
}

/// The IDL of an instruction whose name in lower case is `lowered_name`: its name in
/// camel case, its accounts, its arguments and what it returns.
pub fn idl_instruction(instr: &Instruction, lowered_name: &str) -> (r: IdlInstruction)
    ensures
        instr_idl_v(r) == idl_instruction_s(instr_v(*instr), lowered_name@),
{
    let ghost iv = instr_v(*instr);
    let args = idl_args_of(&instr.params);
    let mut accounts: Vec<IdlAccount> = Vec::new();
    accounts.push(IdlAccount { name: "state".to_owned(), is_mut: !instr.is_view, is_signer: false });
    accounts.push(IdlAccount { name: "signer".to_owned(), is_mut: true, is_signer: true });
    let is_init = str_eq(lowered_name, "initialize");
    if is_init {
        accounts.push(IdlAccount { name: "systemProgram".to_owned(), is_mut: false, is_signer: false });
    }
    let ghost head = accounts_idl_v(accounts@);
    proof {
        assert(head =~= seq![("state"@, !iv.is_view, false), ("signer"@, true, true)]
            + (if lowered_name@ == "initialize"@ { seq![("systemProgram"@, false, false)] } else { Seq::<(Seq<char>, bool, bool)>::empty() }));
        crate::ir::lemma_accesses_v_len(instr.mapping_accesses@);
    }
    let mas = &instr.mapping_accesses;
    let mut i: usize = 0;
    while i < mas.len()
        invariant
            i <= mas@.len(),
            iv == instr_v(*instr),
            mas == &instr.mapping_accesses,
            iv.mapping_accesses.len() == mas@.len(),
            accounts_idl_v(accounts@) == head + entry_accounts(iv.mapping_accesses, iv.is_view).take(i as int),
        decreases mas@.len() - i,
    {
        let mut name = to_camel_case_lower(mas[i].mapping_name.as_str());
        push_str(&mut name, "_entry_");
        let num = dec_string(i as u64);
        push_str(&mut name, num.as_str());
        let a = IdlAccount { name, is_mut: !instr.is_view, is_signer: false };
        let ghost before = accounts@;
        accounts.push(a);
        proof {
            crate::lower_stmt::lemma_accesses_v_index(mas@, i as int);
            assert(accounts_idl_v(accounts@) =~= accounts_idl_v(before).push((a.name@, a.is_mut, a.is_signer)));
            assert(entry_accounts(iv.mapping_accesses, iv.is_view).take(i + 1)
                =~= entry_accounts(iv.mapping_accesses, iv.is_view).take(i as int).push(entry_accounts(iv.mapping_accesses, iv.is_view)[i as int]));
            assert(head + entry_accounts(iv.mapping_accesses, iv.is_view).take(i + 1)
                =~= (head + entry_accounts(iv.mapping_accesses, iv.is_view).take(i as int)).push(entry_accounts(iv.mapping_accesses, iv.is_view)[i as int]));
        }
        i = i + 1;
    }
    proof {
        assert(entry_accounts(iv.mapping_accesses, iv.is_view).take(i as int) =~= entry_accounts(iv.mapping_accesses, iv.is_view));
    }
    let ret = match &instr.returns {
        Some(t) => Some(solana_type_to_idl_type(t)),
        None => None,
    };
    IdlInstruction { name: to_camel_case_lower(instr.name.as_str()), accounts, args, returns: ret }
}

/// A named and typed field with its name in camel case.
fn idl_field_of(name: &str, ty: &SolanaType) -> (r: IdlField)
    ensures
        (r.name@, idl_type_v(r.ty)) == idl_field_s((name@, type_v(*ty))),
{
    IdlField { name: to_camel_case_lower(name), ty: solana_type_to_idl_type(ty) }
}

/// The generator of the IDL of a program.
#[derive(Debug)]
pub struct IdlGenerator {
    program_name: String,
}

impl IdlGenerator {
    /// The name of the program last described.
    pub closed spec fn name_v(&self) -> Seq<char> {
        self.program_name@
    }

    /// A generator that has described no program.
    pub fn new() -> (g: IdlGenerator)
        ensures
            g.name_v() == Seq::<char>::empty(),
    {
        IdlGenerator { program_name: String::new() }
    }

    /// The IDL instructions of a program, in order.
    pub fn generate_instructions(&self, ir: &SolanaProgram) -> (r: Vec<IdlInstruction>)
        ensures
            r@.map_values(|x: IdlInstruction| instr_idl_v(x))
                == program_v(*ir).instructions.map_values(|i: InstrV| idl_instruction_s(i, lowercase(i.name))),
    {
        let ghost is = program_v(*ir).instructions;
        let mut r: Vec<IdlInstruction> = Vec::new();
        let mut i: usize = 0;
        while i < ir.instructions.len()
            invariant
                i <= ir.instructions@.len(),
                is == program_v(*ir).instructions,
                r@.map_values(|x: IdlInstruction| instr_idl_v(x))
                    == is.take(i as int).map_values(|v: InstrV| idl_instruction_s(v, lowercase(v.name))),
            decreases ir.instructions@.len() - i,
        {
            let lowered = to_lowercase_str(ir.instructions[i].name.as_str());
            let x = idl_instruction(&ir.instructions[i], lowered.as_str());
            let ghost before = r@;
            r.push(x);
            proof {
                assert(r@.map_values(|x: IdlInstruction| instr_idl_v(x))
                    =~= before.map_values(|x: IdlInstruction| instr_idl_v(x)).push(instr_idl_v(x)));
                assert(is.take(i + 1).map_values(|v: InstrV| idl_instruction_s(v, lowercase(v.name)))
                    =~= is.take(i as int).map_values(|v: InstrV| idl_instruction_s(v, lowercase(v.name))).push(
                    idl_instruction_s(is[i as int], lowercase(is[i as int].name)),
                ));
            }
            i = i + 1;
        }
        proof {
            assert(is.take(i as int) =~= is);
        }
        r
    }

    /// The accounts of a program: the state, named after the program as this generator
    /// spells it, then an entry account per mapping.
    pub fn generate_accounts(&self, ir: &SolanaProgram) -> (r: Vec<IdlAccountDef>)
        requires
            self.name_v() == idl_snake(ir.name@),
        ensures
            r@.map_values(|x: IdlAccountDef| account_def_v(x)) == idl_accounts_s(program_v(*ir)),
    {
        let ghost pv = program_v(*ir);
        let fs = &ir.state.fields;
        let mut fields: Vec<IdlField> = Vec::new();
        let mut i: usize = 0;
        while i < fs.len()
            invariant
                i <= fs@.len(),
                pv == program_v(*ir),
                fs == &ir.state.fields,
                fields_idl_v(fields@) == pv.state.take(i as int).map_values(|f: (Seq<char>, TypeV, bool)| idl_field_s((f.0, f.1))),
            decreases fs@.len() - i,
        {
            let f = idl_field_of(fs[i].name.as_str(), &fs[i].ty);
            let ghost before = fields@;
            fields.push(f);
            proof {
                assert(fields_idl_v(fields@) =~= fields_idl_v(before).push((f.name@, idl_type_v(f.ty))));
                assert(pv.state.take(i + 1).map_values(|f: (Seq<char>, TypeV, bool)| idl_field_s((f.0, f.1)))
                    =~= pv.state.take(i as int).map_values(|f: (Seq<char>, TypeV, bool)| idl_field_s((f.0, f.1))).push(
                    idl_field_s((pv.state[i as int].0, pv.state[i as int].1)),
                ));
            }
            i = i + 1;
        }
        proof {
            assert(pv.state.take(i as int) =~= pv.state);
        }
        let mut name = to_camel_case(self.program_name.as_str());
        push_str(&mut name, "State");
        let mut r: Vec<IdlAccountDef> = Vec::new();
        r.push(IdlAccountDef { name, ty: IdlAccountType { kind: "struct".to_owned(), fields } });
        let ghost head = r@.map_values(|x: IdlAccountDef| account_def_v(x));
        let ghost ms = pv.mappings.map_values(
            |m: (Seq<char>, TypeV, TypeV, bool)| (camel(m.0) + "Entry"@, "struct"@, seq![("value"@, idl_type_s(m.2))]),
        );
        let mut i: usize = 0;
        while i < ir.mappings.len()
            invariant
                i <= ir.mappings@.len(),
                pv == program_v(*ir),
                ms == pv.mappings.map_values(
                    |m: (Seq<char>, TypeV, TypeV, bool)| (camel(m.0) + "Entry"@, "struct"@, seq![("value"@, idl_type_s(m.2))]),
                ),
                r@.map_values(|x: IdlAccountDef| account_def_v(x)) == head + ms.take(i as int),
            decreases ir.mappings@.len() - i,
        {
            let m = &ir.mappings[i];
            let mut n = to_camel_case(m.name.as_str());
            push_str(&mut n, "Entry");
            let mut vf: Vec<IdlField> = Vec::new();
            vf.push(IdlField { name: "value".to_owned(), ty: solana_type_to_idl_type(&m.value_ty) });
            let d = IdlAccountDef { name: n, ty: IdlAccountType { kind: "struct".to_owned(), fields: vf } };
            let ghost before = r@;
            r.push(d);
            proof {
                assert(fields_idl_v(d.ty.fields@) =~= seq![("value"@, idl_type_s(type_v(m.value_ty)))]);
                assert(r@.map_values(|x: IdlAccountDef| account_def_v(x))
                    =~= before.map_values(|x: IdlAccountDef| account_def_v(x)).push(account_def_v(d)));
                assert(ms.take(i + 1) =~= ms.take(i as int).push(ms[i as int]));
            }
            i = i + 1;
        }
        proof {
            assert(ms.take(i as int) =~= ms);
            assert(head =~= seq![(
                camel(idl_snake(pv.name)) + "State"@,
                "struct"@,
                pv.state.map_values(|f: (Seq<char>, TypeV, bool)| idl_field_s((f.0, f.1))),
            )]);
        }
        r
    }

    /// The user types of a program: each struct with its fields, then each enum with its
    /// variants.
    pub fn generate_types(&self, ir: &SolanaProgram) -> (r: Vec<IdlTypeDef>)
        ensures
            r@.map_values(|x: IdlTypeDef| type_def_v(x)) == idl_types_s(program_v(*ir)),
    {
        let ghost pv = program_v(*ir);
        let ghost ss = pv.structs.map_values(
            |s: (Seq<char>, Seq<(Seq<char>, TypeV)>)| (s.0, IdlTypeDefV::Struct(s.1.map_values(|f: (Seq<char>, TypeV)| idl_field_s(f)))),
        );
        let ghost es = pv.enums.map_values(|e: (Seq<char>, Seq<Seq<char>>)| (e.0, IdlTypeDefV::Enum(e.1)));
        let mut r: Vec<IdlTypeDef> = Vec::new();
        let mut i: usize = 0;
        while i < ir.structs.len()
            invariant
                i <= ir.structs@.len(),
                pv == program_v(*ir),
                ss == pv.structs.map_values(
                    |s: (Seq<char>, Seq<(Seq<char>, TypeV)>)| (s.0, IdlTypeDefV::Struct(s.1.map_values(|f: (Seq<char>, TypeV)| idl_field_s(f)))),
                ),
                r@.map_values(|x: IdlTypeDef| type_def_v(x)) == ss.take(i as int),
            decreases ir.structs@.len() - i,
        {
            let sd = &ir.structs[i];
            let ghost sv = crate::ir::struct_v(*sd);
            let mut fields: Vec<IdlField> = Vec::new();
            let mut j: usize = 0;
            while j < sd.fields.len()
                invariant
                    j <= sd.fields@.len(),
                    sv == crate::ir::struct_v(*sd),
                    fields_idl_v(fields@) == sv.1.take(j as int).map_values(|f: (Seq<char>, TypeV)| idl_field_s(f)),
                decreases sd.fields@.len() - j,
            {
                let f = idl_field_of(sd.fields[j].name.as_str(), &sd.fields[j].ty);
                let ghost before = fields@;
                fields.push(f);
                proof {
                    assert(fields_idl_v(fields@) =~= fields_idl_v(before).push((f.name@, idl_type_v(f.ty))));
                    assert(sv.1.take(j + 1).map_values(|f: (Seq<char>, TypeV)| idl_field_s(f))
                        =~= sv.1.take(j as int).map_values(|f: (Seq<char>, TypeV)| idl_field_s(f)).push(idl_field_s(sv.1[j as int])));
                }
                j = j + 1;
            }
            proof {
                assert(sv.1.take(j as int) =~= sv.1);
            }
            let d = IdlTypeDef { name: sd.name.clone(), ty: IdlTypeDefType::Struct { fields } };
            let ghost before = r@;
            r.push(d);
            proof {
                assert(r@.map_values(|x: IdlTypeDef| type_def_v(x)) =~= before.map_values(|x: IdlTypeDef| type_def_v(x)).push(type_def_v(d)));
                assert(ss.take(i + 1) =~= ss.take(i as int).push(ss[i as int]));
            }
            i = i + 1;
        }
        proof {
            assert(ss.take(i as int) =~= ss);
        }
        let mut i: usize = 0;
        while i < ir.enums.len()
            invariant
                i <= ir.enums@.len(),
                pv == program_v(*ir),
                es == pv.enums.map_values(|e: (Seq<char>, Seq<Seq<char>>)| (e.0, IdlTypeDefV::Enum(e.1))),
                r@.map_values(|x: IdlTypeDef| type_def_v(x)) == ss + es.take(i as int),
            decreases ir.enums@.len() - i,
        {
            let ed = &ir.enums[i];
            let mut variants: Vec<IdlEnumVariant> = Vec::new();
            let mut j: usize = 0;
            while j < ed.variants.len()
                invariant
                    j <= ed.variants@.len(),
                    variants@.map_values(|v: IdlEnumVariant| v.name@) == ed.variants@.take(j as int).map_values(|v: String| v@),
                decreases ed.variants@.len() - j,
            {
                let v = IdlEnumVariant { name: ed.variants[j].clone() };
                let ghost before = variants@;
                variants.push(v);
                proof {
                    assert(variants@.map_values(|v: IdlEnumVariant| v.name@) =~= before.map_values(|v: IdlEnumVariant| v.name@).push(v.name@));
                    assert(ed.variants@.take(j + 1).map_values(|v: String| v@)
                        =~= ed.variants@.take(j as int).map_values(|v: String| v@).push(ed.variants@[j as int]@));
                }
                j = j + 1;
            }
            proof {
                assert(ed.variants@.take(j as int) =~= ed.variants@);
            }
            let d = IdlTypeDef { name: ed.name.clone(), ty: IdlTypeDefType::Enum { variants } };
            let ghost before = r@;
            r.push(d);
            proof {
                assert(r@.map_values(|x: IdlTypeDef| type_def_v(x)) =~= before.map_values(|x: IdlTypeDef| type_def_v(x)).push(type_def_v(d)));
                assert(es.take(i + 1) =~= es.take(i as int).push(es[i as int]));
                assert(ss + es.take(i + 1) =~= (ss + es.take(i as int)).push(es[i as int]));
            }
            i = i + 1;
        }
        proof {
            assert(es.take(i as int) =~= es);
        }
        r
    }

    /// The events of a program, with the names of their fields in camel case.
    pub fn generate_events(&self, ir: &SolanaProgram) -> (r: Vec<IdlEvent>)
        ensures
            r@.map_values(|x: IdlEvent| event_idl_v(x)) == idl_events_s(program_v(*ir)),
    {
        let ghost pv = program_v(*ir);
        let ghost all = idl_events_s(pv);
        let mut r: Vec<IdlEvent> = Vec::new();
        let mut i: usize = 0;
        while i < ir.events.len()
            invariant
                i <= ir.events@.len(),
                pv == program_v(*ir),
                all == idl_events_s(pv),
                r@.map_values(|x: IdlEvent| event_idl_v(x)) == all.take(i as int),
            decreases ir.events@.len() - i,
        {
            let e = &ir.events[i];
            let ghost ev = event_v(*e);
            let ghost want = ev.1.map_values(|f: (Seq<char>, TypeV, bool)| (camel_lower(f.0), idl_type_s(f.1), f.2));
            let mut fields: Vec<IdlEventField> = Vec::new();
            let mut j: usize = 0;
            while j < e.fields.len()
                invariant
                    j <= e.fields@.len(),
                    ev == event_v(*e),
                    want == ev.1.map_values(|f: (Seq<char>, TypeV, bool)| (camel_lower(f.0), idl_type_s(f.1), f.2)),
                    fields@.map_values(|f: IdlEventField| (f.name@, idl_type_v(f.ty), f.index)) == want.take(j as int),
                decreases e.fields@.len() - j,
            {
                let f = IdlEventField {
                    name: to_camel_case_lower(e.fields[j].name.as_str()),
                    ty: solana_type_to_idl_type(&e.fields[j].ty),
                    index: e.fields[j].indexed,
                };
                let ghost before = fields@;
                fields.push(f);
                proof {
                    assert(fields@.map_values(|f: IdlEventField| (f.name@, idl_type_v(f.ty), f.index))
                        =~= before.map_values(|f: IdlEventField| (f.name@, idl_type_v(f.ty), f.index)).push((f.name@, idl_type_v(f.ty), f.index)));
                    assert(want.take(j + 1) =~= want.take(j as int).push(want[j as int]));
                }
                j = j + 1;
            }
            proof {
                assert(want.take(j as int) =~= want);
            }
            let d = IdlEvent { name: e.name.clone(), fields };
            let ghost before = r@;
            r.push(d);
            proof {
                assert(r@.map_values(|x: IdlEvent| event_idl_v(x)) =~= before.map_values(|x: IdlEvent| event_idl_v(x)).push(event_idl_v(d)));
                assert(all.take(i + 1) =~= all.take(i as int).push(all[i as int]));
            }
            i = i + 1;
        }
        proof {
            assert(all.take(i as int) =~= all);
        }
        r
    }

    /// The errors of a program: code 6000 for a failed requirement, then each declared
    /// error numbered from 6001.
    pub fn generate_errors(&self, ir: &SolanaProgram) -> (r: Vec<IdlError>)
        requires
            ir.errors@.len() + 6001 <= u32::MAX,
        ensures
            r@.map_values(|x: IdlError| error_idl_v(x)) == idl_errors_s(program_v(*ir)),
    {
        let ghost pv = program_v(*ir);
        let ghost all = idl_errors_s(pv);
        let mut r: Vec<IdlError> = Vec::new();
        r.push(IdlError { code: 6000, name: "RequireFailed".to_owned(), msg: "Requirement failed".to_owned() });
        let mut i: usize = 0;
        while i < ir.errors.len()
            invariant
                i <= ir.errors@.len(),
                ir.errors@.len() + 6001 <= u32::MAX,
                pv == program_v(*ir),
                all == idl_errors_s(pv),
                r@.map_values(|x: IdlError| error_idl_v(x)) == all.take(i + 1),
            decreases ir.errors@.len() - i,
        {
            let code: u32 = 6001 + i as u32;
            let e = IdlError { code, name: ir.errors[i].name.clone(), msg: ir.errors[i].name.clone() };
            let ghost before = r@;
            r.push(e);
            proof {
                assert(r@.map_values(|x: IdlError| error_idl_v(x)) =~= before.map_values(|x: IdlError| error_idl_v(x)).push(error_idl_v(e)));
                assert(all.take(i + 2) =~= all.take(i + 1).push(all[i + 1]));
            }
            i = i + 1;
        }
        proof {
            assert(all.take(i + 1) =~= all);
        }
        r
    }

    /// The IDL of a program, which this generator then names.
    pub fn generate(&mut self, ir: &SolanaProgram) -> (r: Idl)
        requires
            ir.errors@.len() + 6001 <= u32::MAX,
        ensures
            final(self).name_v() == idl_snake(ir.name@),
            idl_v(r) == idl_s(program_v(*ir)),
    {
        self.program_name = to_snake_case_idl(ir.name.as_str());
        let instructions = self.generate_instructions(ir);
        let accounts = self.generate_accounts(ir);
        let types = self.generate_types(ir);
        let events = self.generate_events(ir);
        let errors = self.generate_errors(ir);
        Idl {
            version: "0.1.0".to_owned(),
            name: self.program_name.clone(),
            instructions,
            accounts,
            types,
            events,
            errors,
            metadata: IdlMetadata { address: "11111111111111111111111111111111".to_owned() },
        }
    }
}

} // verus!
