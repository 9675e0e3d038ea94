//! Type expressions.

use vstd::prelude::*;
use crate::span::Span;
use crate::ast::{GenericArgs, Ident};
use crate::text::{
    chars_eq_str, chars_of, concat, dec_seq, dec_string, is_digit, lemma_dec_seq_digits,
    lemma_dec_seq_len, lemma_dec_seq_value, lemma_dec_value_bound, parse_dec_u64, str_eq,
};

verus! {

/// A type as written in the source.
#[derive(Debug)]
pub enum TypeExpr {
    /// `uint256`, `address`, `ContractName`
    Path(TypePath),
    /// `mapping(K => V)`
    Mapping(Box<MappingType>),
    /// `T[]` or `T[N]`
    Array(Box<ArrayType>),
    /// `(T, U)`
    Tuple(TypeTuple),
}

/// `A::B::C<args>`
#[derive(Debug)]
pub struct TypePath {
    pub segments: Vec<Ident>,
    pub generic_args: Option<GenericArgs>,
    pub span: Span,
}

#[derive(Debug)]
pub struct MappingType {
    pub key: TypeExpr,
    pub value: TypeExpr,
    pub span: Span,
}

/// An array type; each size is `None` for `[]` and `Some(n)` for `[n]`.
#[derive(Debug)]
pub struct ArrayType {
    pub element: TypePath,
    pub sizes: Vec<Option<u64>>,
    pub span: Span,
}

#[derive(Debug)]
pub struct TypeTuple {
    pub elements: Vec<TypeExpr>,
    pub span: Span,
}


/// Built-in primitive types, named as in Solidity.
#[derive(Debug, Clone, Copy, PartialEq, Eq, Structural, Hash)]
pub enum PrimitiveType {
    Uint8,
    Uint16,
    Uint24,
    Uint32,
    Uint40,
    Uint48,
    Uint56,
    Uint64,
    Uint72,
    Uint80,
    Uint88,
    Uint96,
    Uint104,
    Uint112,
    Uint120,
    Uint128,
    Uint136,
    Uint144,
    Uint152,
    Uint160,
    Uint168,
    Uint176,
    Uint184,
    Uint192,
    Uint200,
    Uint208,
    Uint216,
    Uint224,
    Uint232,
    Uint240,
    Uint248,
    Uint256,
    Int8,
    Int16,
    Int24,
    Int32,
    Int40,
    Int48,
    Int56,
    Int64,
    Int72,
    Int80,
    Int88,
    Int96,
    Int104,
    Int112,
    Int120,
    Int128,
    Int136,
    Int144,
    Int152,
    Int160,
    Int168,
    Int176,
    Int184,
    Int192,
    Int200,
    Int208,
    Int216,
    Int224,
    Int232,
    Int240,
    Int248,
    Int256,
    Bool,
    Address,
    String,
    Bytes,
    Bytes1,
    Bytes2,
    Bytes3,
    Bytes4,
    Bytes5,
    Bytes6,
    Bytes7,
    Bytes8,
    Bytes9,
    Bytes10,
    Bytes11,
    Bytes12,
    Bytes13,
    Bytes14,
    Bytes15,
    Bytes16,
    Bytes17,
    Bytes18,
    Bytes19,
    Bytes20,
    Bytes21,
    Bytes22,
    Bytes23,
    Bytes24,
    Bytes25,
    Bytes26,
    Bytes27,
    Bytes28,
    Bytes29,
    Bytes30,
    Bytes31,
    Bytes32,
}

/// The families of primitive types.
#[derive(Debug, Clone, Copy, PartialEq, Eq, Structural)]
pub enum PrimKind {
    /// `uintN`: an unsigned integer of N bits
    Uint,
    /// `intN`: a signed integer of N bits
    Int,
    /// `bytesN`: N bytes
    FixedBytes,
    Bool,
    Address,
    /// `string`
    Str,
    /// `bytes`: a byte string of any length
    DynBytes,
}

/// The family of a primitive type, with its width in bytes (zero where the family has none).
pub open spec fn prim_kind(t: PrimitiveType) -> (PrimKind, nat) {
    match t {
        PrimitiveType::Uint8 => (PrimKind::Uint, 1),
        PrimitiveType::Uint16 => (PrimKind::Uint, 2),
        PrimitiveType::Uint24 => (PrimKind::Uint, 3),
        PrimitiveType::Uint32 => (PrimKind::Uint, 4),
        PrimitiveType::Uint40 => (PrimKind::Uint, 5),
        PrimitiveType::Uint48 => (PrimKind::Uint, 6),
        PrimitiveType::Uint56 => (PrimKind::Uint, 7),
        PrimitiveType::Uint64 => (PrimKind::Uint, 8),
        PrimitiveType::Uint72 => (PrimKind::Uint, 9),
        PrimitiveType::Uint80 => (PrimKind::Uint, 10),
        PrimitiveType::Uint88 => (PrimKind::Uint, 11),
        PrimitiveType::Uint96 => (PrimKind::Uint, 12),
        PrimitiveType::Uint104 => (PrimKind::Uint, 13),
        PrimitiveType::Uint112 => (PrimKind::Uint, 14),
        PrimitiveType::Uint120 => (PrimKind::Uint, 15),
        PrimitiveType::Uint128 => (PrimKind::Uint, 16),
        PrimitiveType::Uint136 => (PrimKind::Uint, 17),
        PrimitiveType::Uint144 => (PrimKind::Uint, 18),
        PrimitiveType::Uint152 => (PrimKind::Uint, 19),
        PrimitiveType::Uint160 => (PrimKind::Uint, 20),
        PrimitiveType::Uint168 => (PrimKind::Uint, 21),
        PrimitiveType::Uint176 => (PrimKind::Uint, 22),
        PrimitiveType::Uint184 => (PrimKind::Uint, 23),
        PrimitiveType::Uint192 => (PrimKind::Uint, 24),
        PrimitiveType::Uint200 => (PrimKind::Uint, 25),
        PrimitiveType::Uint208 => (PrimKind::Uint, 26),
        PrimitiveType::Uint216 => (PrimKind::Uint, 27),
        PrimitiveType::Uint224 => (PrimKind::Uint, 28),
        PrimitiveType::Uint232 => (PrimKind::Uint, 29),
        PrimitiveType::Uint240 => (PrimKind::Uint, 30),
        PrimitiveType::Uint248 => (PrimKind::Uint, 31),
        PrimitiveType::Uint256 => (PrimKind::Uint, 32),
        PrimitiveType::Int8 => (PrimKind::Int, 1),
        PrimitiveType::Int16 => (PrimKind::Int, 2),
        PrimitiveType::Int24 => (PrimKind::Int, 3),
        PrimitiveType::Int32 => (PrimKind::Int, 4),
        PrimitiveType::Int40 => (PrimKind::Int, 5),
        PrimitiveType::Int48 => (PrimKind::Int, 6),
        PrimitiveType::Int56 => (PrimKind::Int, 7),
        PrimitiveType::Int64 => (PrimKind::Int, 8),
        PrimitiveType::Int72 => (PrimKind::Int, 9),
        PrimitiveType::Int80 => (PrimKind::Int, 10),
        PrimitiveType::Int88 => (PrimKind::Int, 11),
        PrimitiveType::Int96 => (PrimKind::Int, 12),
        PrimitiveType::Int104 => (PrimKind::Int, 13),
        PrimitiveType::Int112 => (PrimKind::Int, 14),
        PrimitiveType::Int120 => (PrimKind::Int, 15),
        PrimitiveType::Int128 => (PrimKind::Int, 16),
        PrimitiveType::Int136 => (PrimKind::Int, 17),
        PrimitiveType::Int144 => (PrimKind::Int, 18),
        PrimitiveType::Int152 => (PrimKind::Int, 19),
        PrimitiveType::Int160 => (PrimKind::Int, 20),
        PrimitiveType::Int168 => (PrimKind::Int, 21),
        PrimitiveType::Int176 => (PrimKind::Int, 22),
        PrimitiveType::Int184 => (PrimKind::Int, 23),
        PrimitiveType::Int192 => (PrimKind::Int, 24),
        PrimitiveType::Int200 => (PrimKind::Int, 25),
        PrimitiveType::Int208 => (PrimKind::Int, 26),
        PrimitiveType::Int216 => (PrimKind::Int, 27),
        PrimitiveType::Int224 => (PrimKind::Int, 28),
        PrimitiveType::Int232 => (PrimKind::Int, 29),
        PrimitiveType::Int240 => (PrimKind::Int, 30),
        PrimitiveType::Int248 => (PrimKind::Int, 31),
        PrimitiveType::Int256 => (PrimKind::Int, 32),
        PrimitiveType::Bool => (PrimKind::Bool, 0),
        PrimitiveType::Address => (PrimKind::Address, 0),
        PrimitiveType::String => (PrimKind::Str, 0),
        PrimitiveType::Bytes => (PrimKind::DynBytes, 0),
        PrimitiveType::Bytes1 => (PrimKind::FixedBytes, 1),
        PrimitiveType::Bytes2 => (PrimKind::FixedBytes, 2),
        PrimitiveType::Bytes3 => (PrimKind::FixedBytes, 3),
        PrimitiveType::Bytes4 => (PrimKind::FixedBytes, 4),
        PrimitiveType::Bytes5 => (PrimKind::FixedBytes, 5),
        PrimitiveType::Bytes6 => (PrimKind::FixedBytes, 6),
        PrimitiveType::Bytes7 => (PrimKind::FixedBytes, 7),
        PrimitiveType::Bytes8 => (PrimKind::FixedBytes, 8),
        PrimitiveType::Bytes9 => (PrimKind::FixedBytes, 9),
        PrimitiveType::Bytes10 => (PrimKind::FixedBytes, 10),
        PrimitiveType::Bytes11 => (PrimKind::FixedBytes, 11),
        PrimitiveType::Bytes12 => (PrimKind::FixedBytes, 12),
        PrimitiveType::Bytes13 => (PrimKind::FixedBytes, 13),
        PrimitiveType::Bytes14 => (PrimKind::FixedBytes, 14),
        PrimitiveType::Bytes15 => (PrimKind::FixedBytes, 15),
        PrimitiveType::Bytes16 => (PrimKind::FixedBytes, 16),
        PrimitiveType::Bytes17 => (PrimKind::FixedBytes, 17),
        PrimitiveType::Bytes18 => (PrimKind::FixedBytes, 18),
        PrimitiveType::Bytes19 => (PrimKind::FixedBytes, 19),
        PrimitiveType::Bytes20 => (PrimKind::FixedBytes, 20),
        PrimitiveType::Bytes21 => (PrimKind::FixedBytes, 21),
        PrimitiveType::Bytes22 => (PrimKind::FixedBytes, 22),
        PrimitiveType::Bytes23 => (PrimKind::FixedBytes, 23),
        PrimitiveType::Bytes24 => (PrimKind::FixedBytes, 24),
        PrimitiveType::Bytes25 => (PrimKind::FixedBytes, 25),
        PrimitiveType::Bytes26 => (PrimKind::FixedBytes, 26),
        PrimitiveType::Bytes27 => (PrimKind::FixedBytes, 27),
        PrimitiveType::Bytes28 => (PrimKind::FixedBytes, 28),
        PrimitiveType::Bytes29 => (PrimKind::FixedBytes, 29),
        PrimitiveType::Bytes30 => (PrimKind::FixedBytes, 30),
        PrimitiveType::Bytes31 => (PrimKind::FixedBytes, 31),
        PrimitiveType::Bytes32 => (PrimKind::FixedBytes, 32),
    }
}

/// Whether a family and width name a primitive type.
pub open spec fn kind_ok(k: PrimKind, n: nat) -> bool {
    match k {
        PrimKind::Uint | PrimKind::Int | PrimKind::FixedBytes => 1 <= n <= 32,
        _ => n == 0,
    }
}

/// The name of a primitive type: `uint` or `int` followed by its width in bits, `bytes`
/// followed by its width in bytes, or the name of the family.
pub open spec fn prim_name(t: PrimitiveType) -> Seq<char> {
    let (k, n) = prim_kind(t);
    match k {
        PrimKind::Uint => "uint"@ + dec_seq(8 * n),
        PrimKind::Int => "int"@ + dec_seq(8 * n),
        PrimKind::FixedBytes => "bytes"@ + dec_seq(n),
        PrimKind::Bool => "bool"@,
        PrimKind::Address => "address"@,
        PrimKind::Str => "string"@,
        PrimKind::DynBytes => "bytes"@,
    }
}

/// The size of a value of a primitive type in bytes; none for the types of any length.
pub open spec fn prim_byte_size(t: PrimitiveType) -> Option<nat> {
    let (k, n) = prim_kind(t);
    match k {
        PrimKind::Uint | PrimKind::Int | PrimKind::FixedBytes => Some(n),
        PrimKind::Bool => Some(1),
        PrimKind::Address => Some(20),
        PrimKind::Str | PrimKind::DynBytes => None,
    }
}

/// What reading `s` as a primitive type gives: a type whose name is `s`, the 256-bit
/// integer types for the short names `uint` and `int`, and nothing for any other text.
pub open spec fn parses_as(s: Seq<char>, r: Option<PrimitiveType>) -> bool {
    match r {
        Some(t) => s == prim_name(t) || (s == "uint"@ && t == PrimitiveType::Uint256) || (s
            == "int"@ && t == PrimitiveType::Int256),
        None => s != "uint"@ && s != "int"@ && forall|t: PrimitiveType| s != #[trigger] prim_name(t),
    }
}

/// The primitive type of a family and width.
fn prim_of(k: PrimKind, n: u8) -> (t: PrimitiveType)
    requires
        kind_ok(k, n as nat),
    ensures
        prim_kind(t) == (k, n as nat),
{
    match k {
        PrimKind::Bool => PrimitiveType::Bool,
        PrimKind::Address => PrimitiveType::Address,
        PrimKind::Str => PrimitiveType::String,
        PrimKind::DynBytes => PrimitiveType::Bytes,
        PrimKind::Uint => {
            match n {
                1 => PrimitiveType::Uint8,
                2 => PrimitiveType::Uint16,
                3 => PrimitiveType::Uint24,
                4 => PrimitiveType::Uint32,
                5 => PrimitiveType::Uint40,
                6 => PrimitiveType::Uint48,
                7 => PrimitiveType::Uint56,
                8 => PrimitiveType::Uint64,
                9 => PrimitiveType::Uint72,
                10 => PrimitiveType::Uint80,
                11 => PrimitiveType::Uint88,
                12 => PrimitiveType::Uint96,
                13 => PrimitiveType::Uint104,
                14 => PrimitiveType::Uint112,
                15 => PrimitiveType::Uint120,
                16 => PrimitiveType::Uint128,
                17 => PrimitiveType::Uint136,
                18 => PrimitiveType::Uint144,
                19 => PrimitiveType::Uint152,
                20 => PrimitiveType::Uint160,
                21 => PrimitiveType::Uint168,
                22 => PrimitiveType::Uint176,
                23 => PrimitiveType::Uint184,
                24 => PrimitiveType::Uint192,
                25 => PrimitiveType::Uint200,
                26 => PrimitiveType::Uint208,
                27 => PrimitiveType::Uint216,
                28 => PrimitiveType::Uint224,
                29 => PrimitiveType::Uint232,
                30 => PrimitiveType::Uint240,
                31 => PrimitiveType::Uint248,
                _ => PrimitiveType::Uint256,
            }
        },
        PrimKind::Int => {
            match n {
                1 => PrimitiveType::Int8,
                2 => PrimitiveType::Int16,
                3 => PrimitiveType::Int24,
                4 => PrimitiveType::Int32,
                5 => PrimitiveType::Int40,
                6 => PrimitiveType::Int48,
                7 => PrimitiveType::Int56,
                8 => PrimitiveType::Int64,
                9 => PrimitiveType::Int72,
                10 => PrimitiveType::Int80,
                11 => PrimitiveType::Int88,
                12 => PrimitiveType::Int96,
                13 => PrimitiveType::Int104,
                14 => PrimitiveType::Int112,
                15 => PrimitiveType::Int120,
                16 => PrimitiveType::Int128,
                17 => PrimitiveType::Int136,
                18 => PrimitiveType::Int144,
                19 => PrimitiveType::Int152,
                20 => PrimitiveType::Int160,
                21 => PrimitiveType::Int168,
                22 => PrimitiveType::Int176,
                23 => PrimitiveType::Int184,
                24 => PrimitiveType::Int192,
                25 => PrimitiveType::Int200,
                26 => PrimitiveType::Int208,
                27 => PrimitiveType::Int216,
                28 => PrimitiveType::Int224,
                29 => PrimitiveType::Int232,
                30 => PrimitiveType::Int240,
                31 => PrimitiveType::Int248,
                _ => PrimitiveType::Int256,
            }
        },
        PrimKind::FixedBytes => {
            match n {
                1 => PrimitiveType::Bytes1,
                2 => PrimitiveType::Bytes2,
                3 => PrimitiveType::Bytes3,
                4 => PrimitiveType::Bytes4,
                5 => PrimitiveType::Bytes5,
                6 => PrimitiveType::Bytes6,
                7 => PrimitiveType::Bytes7,
                8 => PrimitiveType::Bytes8,
                9 => PrimitiveType::Bytes9,
                10 => PrimitiveType::Bytes10,
                11 => PrimitiveType::Bytes11,
                12 => PrimitiveType::Bytes12,
                13 => PrimitiveType::Bytes13,
                14 => PrimitiveType::Bytes14,
                15 => PrimitiveType::Bytes15,
                16 => PrimitiveType::Bytes16,
                17 => PrimitiveType::Bytes17,
                18 => PrimitiveType::Bytes18,
                19 => PrimitiveType::Bytes19,
                20 => PrimitiveType::Bytes20,
                21 => PrimitiveType::Bytes21,
                22 => PrimitiveType::Bytes22,
                23 => PrimitiveType::Bytes23,
                24 => PrimitiveType::Bytes24,
                25 => PrimitiveType::Bytes25,
                26 => PrimitiveType::Bytes26,
                27 => PrimitiveType::Bytes27,
                28 => PrimitiveType::Bytes28,
                29 => PrimitiveType::Bytes29,
                30 => PrimitiveType::Bytes30,
                31 => PrimitiveType::Bytes31,
                _ => PrimitiveType::Bytes32,
            }
        },
    }
}

impl PrimitiveType {
    /// The family and width of the type.
    pub fn kind(&self) -> (r: (PrimKind, u8))
        ensures
            (r.0, r.1 as nat) == prim_kind(*self),
            kind_ok(r.0, r.1 as nat),
    {
        match self {
            PrimitiveType::Uint8 => (PrimKind::Uint, 1),
            PrimitiveType::Uint16 => (PrimKind::Uint, 2),
            PrimitiveType::Uint24 => (PrimKind::Uint, 3),
            PrimitiveType::Uint32 => (PrimKind::Uint, 4),
            PrimitiveType::Uint40 => (PrimKind::Uint, 5),
            PrimitiveType::Uint48 => (PrimKind::Uint, 6),
            PrimitiveType::Uint56 => (PrimKind::Uint, 7),
            PrimitiveType::Uint64 => (PrimKind::Uint, 8),
            PrimitiveType::Uint72 => (PrimKind::Uint, 9),
            PrimitiveType::Uint80 => (PrimKind::Uint, 10),
            PrimitiveType::Uint88 => (PrimKind::Uint, 11),
            PrimitiveType::Uint96 => (PrimKind::Uint, 12),
            PrimitiveType::Uint104 => (PrimKind::Uint, 13),
            PrimitiveType::Uint112 => (PrimKind::Uint, 14),
            PrimitiveType::Uint120 => (PrimKind::Uint, 15),
            PrimitiveType::Uint128 => (PrimKind::Uint, 16),
            PrimitiveType::Uint136 => (PrimKind::Uint, 17),
            PrimitiveType::Uint144 => (PrimKind::Uint, 18),
            PrimitiveType::Uint152 => (PrimKind::Uint, 19),
            PrimitiveType::Uint160 => (PrimKind::Uint, 20),
            PrimitiveType::Uint168 => (PrimKind::Uint, 21),
            PrimitiveType::Uint176 => (PrimKind::Uint, 22),
            PrimitiveType::Uint184 => (PrimKind::Uint, 23),
            PrimitiveType::Uint192 => (PrimKind::Uint, 24),
            PrimitiveType::Uint200 => (PrimKind::Uint, 25),
            PrimitiveType::Uint208 => (PrimKind::Uint, 26),
            PrimitiveType::Uint216 => (PrimKind::Uint, 27),
            PrimitiveType::Uint224 => (PrimKind::Uint, 28),
            PrimitiveType::Uint232 => (PrimKind::Uint, 29),
            PrimitiveType::Uint240 => (PrimKind::Uint, 30),
            PrimitiveType::Uint248 => (PrimKind::Uint, 31),
            PrimitiveType::Uint256 => (PrimKind::Uint, 32),
            PrimitiveType::Int8 => (PrimKind::Int, 1),
            PrimitiveType::Int16 => (PrimKind::Int, 2),
            PrimitiveType::Int24 => (PrimKind::Int, 3),
            PrimitiveType::Int32 => (PrimKind::Int, 4),
            PrimitiveType::Int40 => (PrimKind::Int, 5),
            PrimitiveType::Int48 => (PrimKind::Int, 6),
            PrimitiveType::Int56 => (PrimKind::Int, 7),
            PrimitiveType::Int64 => (PrimKind::Int, 8),
            PrimitiveType::Int72 => (PrimKind::Int, 9),
            PrimitiveType::Int80 => (PrimKind::Int, 10),
            PrimitiveType::Int88 => (PrimKind::Int, 11),
            PrimitiveType::Int96 => (PrimKind::Int, 12),
            PrimitiveType::Int104 => (PrimKind::Int, 13),
            PrimitiveType::Int112 => (PrimKind::Int, 14),
            PrimitiveType::Int120 => (PrimKind::Int, 15),
            PrimitiveType::Int128 => (PrimKind::Int, 16),
            PrimitiveType::Int136 => (PrimKind::Int, 17),
            PrimitiveType::Int144 => (PrimKind::Int, 18),
            PrimitiveType::Int152 => (PrimKind::Int, 19),
            PrimitiveType::Int160 => (PrimKind::Int, 20),
            PrimitiveType::Int168 => (PrimKind::Int, 21),
            PrimitiveType::Int176 => (PrimKind::Int, 22),
            PrimitiveType::Int184 => (PrimKind::Int, 23),
            PrimitiveType::Int192 => (PrimKind::Int, 24),
            PrimitiveType::Int200 => (PrimKind::Int, 25),
            PrimitiveType::Int208 => (PrimKind::Int, 26),
            PrimitiveType::Int216 => (PrimKind::Int, 27),
            PrimitiveType::Int224 => (PrimKind::Int, 28),
            PrimitiveType::Int232 => (PrimKind::Int, 29),
            PrimitiveType::Int240 => (PrimKind::Int, 30),
            PrimitiveType::Int248 => (PrimKind::Int, 31),
            PrimitiveType::Int256 => (PrimKind::Int, 32),
            PrimitiveType::Bool => (PrimKind::Bool, 0),
            PrimitiveType::Address => (PrimKind::Address, 0),
            PrimitiveType::String => (PrimKind::Str, 0),
            PrimitiveType::Bytes => (PrimKind::DynBytes, 0),
            PrimitiveType::Bytes1 => (PrimKind::FixedBytes, 1),
            PrimitiveType::Bytes2 => (PrimKind::FixedBytes, 2),
            PrimitiveType::Bytes3 => (PrimKind::FixedBytes, 3),
            PrimitiveType::Bytes4 => (PrimKind::FixedBytes, 4),
            PrimitiveType::Bytes5 => (PrimKind::FixedBytes, 5),
            PrimitiveType::Bytes6 => (PrimKind::FixedBytes, 6),
            PrimitiveType::Bytes7 => (PrimKind::FixedBytes, 7),
            PrimitiveType::Bytes8 => (PrimKind::FixedBytes, 8),
            PrimitiveType::Bytes9 => (PrimKind::FixedBytes, 9),
            PrimitiveType::Bytes10 => (PrimKind::FixedBytes, 10),
            PrimitiveType::Bytes11 => (PrimKind::FixedBytes, 11),
            PrimitiveType::Bytes12 => (PrimKind::FixedBytes, 12),
            PrimitiveType::Bytes13 => (PrimKind::FixedBytes, 13),
            PrimitiveType::Bytes14 => (PrimKind::FixedBytes, 14),
            PrimitiveType::Bytes15 => (PrimKind::FixedBytes, 15),
            PrimitiveType::Bytes16 => (PrimKind::FixedBytes, 16),
            PrimitiveType::Bytes17 => (PrimKind::FixedBytes, 17),
            PrimitiveType::Bytes18 => (PrimKind::FixedBytes, 18),
            PrimitiveType::Bytes19 => (PrimKind::FixedBytes, 19),
            PrimitiveType::Bytes20 => (PrimKind::FixedBytes, 20),
            PrimitiveType::Bytes21 => (PrimKind::FixedBytes, 21),
            PrimitiveType::Bytes22 => (PrimKind::FixedBytes, 22),
            PrimitiveType::Bytes23 => (PrimKind::FixedBytes, 23),
            PrimitiveType::Bytes24 => (PrimKind::FixedBytes, 24),
            PrimitiveType::Bytes25 => (PrimKind::FixedBytes, 25),
            PrimitiveType::Bytes26 => (PrimKind::FixedBytes, 26),
            PrimitiveType::Bytes27 => (PrimKind::FixedBytes, 27),
            PrimitiveType::Bytes28 => (PrimKind::FixedBytes, 28),
            PrimitiveType::Bytes29 => (PrimKind::FixedBytes, 29),
            PrimitiveType::Bytes30 => (PrimKind::FixedBytes, 30),
            PrimitiveType::Bytes31 => (PrimKind::FixedBytes, 31),
            PrimitiveType::Bytes32 => (PrimKind::FixedBytes, 32),
        }
    }
}

/// A sequence of decimal digits that starts with `prefix`, after which stands the decimal
/// notation of a number of at most three digits: that number.
fn width_after(cs: &Vec<char>, prefix: &str) -> (r: Option<u64>)
    ensures
        r matches Some(v) ==> cs@ == prefix@ + dec_seq(v as nat),
        r is None ==> forall|v: nat| v < 1000 ==> cs@ != prefix@ + #[trigger] dec_seq(v),
{
    let p = chars_of(prefix);
    if cs.len() <= p.len() || cs.len() - p.len() > 3 {
        proof {
            assert forall|v: nat| v < 1000 implies cs@ != prefix@ + #[trigger] dec_seq(v) by {
                lemma_dec_seq_digits(v);
                lemma_dec_seq_len(v);
            }
        }
        return None;
    }
    let mut i: usize = 0;
    while i < p.len()
        invariant
            i <= p@.len() < cs@.len(),
            p@ == prefix@,
            forall|j: int| 0 <= j < i ==> cs@[j] == p@[j],
        decreases p@.len() - i,
    {
        if cs[i] != p[i] {
            proof {
                assert forall|v: nat| v < 1000 implies cs@ != prefix@ + #[trigger] dec_seq(v) by {
                    assert((prefix@ + dec_seq(v))[i as int] == p@[i as int]);
                }
            }
            return None;
        }
        i = i + 1;
    }
    let mut rest: Vec<char> = Vec::new();
    let mut k = p.len();
    while k < cs.len()
        invariant
            p@.len() <= k <= cs@.len(),
            rest@ == cs@.subrange(p@.len() as int, k as int),
        decreases cs@.len() - k,
    {
        rest.push(cs[k]);
        k = k + 1;
        assert(rest@ =~= cs@.subrange(p@.len() as int, k as int));
    }
    proof {
        assert(cs@ =~= prefix@ + rest@);
    }
    let mut j: usize = 0;
    while j < rest.len()
        invariant
            j <= rest@.len(),
            cs@ == prefix@ + rest@,
            forall|m: int| 0 <= m < j ==> is_digit(#[trigger] rest@[m]),
        decreases rest@.len() - j,
    {
        if !('0' <= rest[j] && rest[j] <= '9') {
            proof {
                assert forall|v: nat| v < 1000 implies cs@ != prefix@ + #[trigger] dec_seq(v) by {
                    lemma_dec_seq_digits(v);
                    if cs@ == prefix@ + dec_seq(v) {
                        assert(rest@ =~= (prefix@ + rest@).subrange(prefix@.len() as int, cs@.len() as int));
                        assert(dec_seq(v) =~= (prefix@ + dec_seq(v)).subrange(prefix@.len() as int, cs@.len() as int));
                        assert(is_digit(dec_seq(v)[j as int]));
                    }
                }
            }
            return None;
        }
        j = j + 1;
    }
    let v = parse_dec_u64(rest.as_slice());
    proof {
        lemma_dec_value_bound(rest@);
    }
    let d = dec_string(v);
    if chars_eq_str(rest.as_slice(), d.as_str()) {
        Some(v)
    } else {
        proof {
            assert forall|w: nat| w < 1000 implies cs@ != prefix@ + #[trigger] dec_seq(w) by {
                if cs@ == prefix@ + dec_seq(w) {
                    assert(rest@ =~= (prefix@ + rest@).subrange(prefix@.len() as int, cs@.len() as int));
                    assert(dec_seq(w) =~= (prefix@ + dec_seq(w)).subrange(prefix@.len() as int, cs@.len() as int));
                    lemma_dec_seq_value(w);
                }
            }
        }
        None
    }
}

/// Facts about the names of the families that tell them apart.
proof fn lemma_family_names()
    ensures
        "uint"@ =~= seq!['u', 'i', 'n', 't'],
        "int"@ =~= seq!['i', 'n', 't'],
        "bytes"@ =~= seq!['b', 'y', 't', 'e', 's'],
        "bool"@ =~= seq!['b', 'o', 'o', 'l'],
        "address"@ =~= seq!['a', 'd', 'd', 'r', 'e', 's', 's'],
        "string"@ =~= seq!['s', 't', 'r', 'i', 'n', 'g'],
{
    reveal_strlit("uint");
    reveal_strlit("int");
    reveal_strlit("bytes");
    reveal_strlit("bool");
    reveal_strlit("address");
    reveal_strlit("string");
}

/// Each primitive type is the one of its family and width.
proof fn lemma_kind_determines(a: PrimitiveType, b: PrimitiveType)
    requires
        prim_kind(a) == prim_kind(b),
    ensures
        a == b,
{
}

/// No two primitive types share a name.
pub proof fn lemma_prim_name_injective(a: PrimitiveType, b: PrimitiveType)
    requires
        prim_name(a) == prim_name(b),
    ensures
        a == b,
{
    lemma_family_names();
    let (ka, na) = prim_kind(a);
    let (kb, nb) = prim_kind(b);
    lemma_dec_seq_digits(8 * na);
    lemma_dec_seq_digits(8 * nb);
    lemma_dec_seq_digits(na);
    lemma_dec_seq_digits(nb);
    let x = prim_name(a);
    let y = prim_name(b);
    assert(x[0] == y[0]);
    if ka == kb {
        if ka == PrimKind::Uint || ka == PrimKind::Int || ka == PrimKind::FixedBytes {
            let p = if ka == PrimKind::Uint { "uint"@ } else if ka == PrimKind::Int { "int"@ } else { "bytes"@ };
            let (u, v) = if ka == PrimKind::FixedBytes { (na, nb) } else { (8 * na, 8 * nb) };
            assert(x == p + dec_seq(u));
            assert(y == p + dec_seq(v));
            assert(dec_seq(u) =~= x.subrange(p.len() as int, x.len() as int));
            assert(dec_seq(v) =~= y.subrange(p.len() as int, y.len() as int));
            lemma_dec_seq_value(u);
            lemma_dec_seq_value(v);
        }
        lemma_kind_determines(a, b);
    } else {
        assert(x.len() == y.len());
        assert(x[1] == y[1]);
        assert(false);
    }
}

/// A name never reads as the short names `uint` and `int`.
proof fn lemma_prim_name_not_short(t: PrimitiveType)
    ensures
        prim_name(t) != "uint"@,
        prim_name(t) != "int"@,
{
    lemma_family_names();
    let (k, n) = prim_kind(t);
    lemma_dec_seq_digits(8 * n);
    lemma_dec_seq_digits(n);
    let x = prim_name(t);
    if x == "uint"@ || x == "int"@ {
        assert(x[0] == 'u' || x[0] == 'i');
        assert(x.len() <= 4);
        assert(false);
    }
}

impl PrimitiveType {
    /// Read a primitive type from its name; `uint` and `int` stand for the 256-bit types.
    pub fn parse(s: &str) -> (r: Option<PrimitiveType>)
        ensures
            parses_as(s@, r),
    {
        proof {
            lemma_family_names();
        }
        if str_eq(s, "uint") {
            return Some(PrimitiveType::Uint256);
        }
        if str_eq(s, "int") {
            return Some(PrimitiveType::Int256);
        }
        if str_eq(s, "bool") {
            return Some(PrimitiveType::Bool);
        }
        if str_eq(s, "address") {
            return Some(PrimitiveType::Address);
        }
        if str_eq(s, "string") {
            return Some(PrimitiveType::String);
        }
        if str_eq(s, "bytes") {
            return Some(PrimitiveType::Bytes);
        }
        let cs = chars_of(s);
        let wu = width_after(&cs, "uint");
        if let Some(v) = wu {
            if v % 8 == 0 && 8 <= v && v <= 256 {
                let t = prim_of(PrimKind::Uint, (v / 8) as u8);
                assert(8 * ((v / 8) as nat) == v);
                return Some(t);
            }
        }
        let wi = width_after(&cs, "int");
        if let Some(v) = wi {
            if v % 8 == 0 && 8 <= v && v <= 256 {
                let t = prim_of(PrimKind::Int, (v / 8) as u8);
                assert(8 * ((v / 8) as nat) == v);
                return Some(t);
            }
        }
        let wb = width_after(&cs, "bytes");
        if let Some(v) = wb {
            if 1 <= v && v <= 32 {
                return Some(prim_of(PrimKind::FixedBytes, v as u8));
            }
        }
        proof {
            assert forall|t: PrimitiveType| s@ != #[trigger] prim_name(t) by {
                let (k, n) = prim_kind(t);
                if s@ == prim_name(t) {
                    if k == PrimKind::Uint {
                        lemma_dec_seq_value(8 * n);
                        if let Some(v) = wu {
                            lemma_dec_seq_value(v as nat);
                            assert(dec_seq(v as nat) =~= s@.subrange(4, s@.len() as int));
                            assert(dec_seq(8 * n) =~= s@.subrange(4, s@.len() as int));
                        }
                    } else if k == PrimKind::Int {
                        lemma_dec_seq_value(8 * n);
                        if let Some(v) = wi {
                            lemma_dec_seq_value(v as nat);
                            assert(dec_seq(v as nat) =~= s@.subrange(3, s@.len() as int));
                            assert(dec_seq(8 * n) =~= s@.subrange(3, s@.len() as int));
                        }
                    } else if k == PrimKind::FixedBytes {
                        lemma_dec_seq_value(n);
                        if let Some(v) = wb {
                            lemma_dec_seq_value(v as nat);
                            assert(dec_seq(v as nat) =~= s@.subrange(5, s@.len() as int));
                            assert(dec_seq(n) =~= s@.subrange(5, s@.len() as int));
                        }
                    }
                }
            }
        }
        None
    }

    /// The name of the type.
    pub fn as_str(&self) -> (s: String)
        ensures
            s@ == prim_name(*self),
    {
        let (k, n) = self.kind();
        match k {
            PrimKind::Uint => {
                let d = dec_string(8 * n as u64);
                concat("uint", d.as_str())
            },
            PrimKind::Int => {
                let d = dec_string(8 * n as u64);
                concat("int", d.as_str())
            },
            PrimKind::FixedBytes => {
                let d = dec_string(n as u64);
                concat("bytes", d.as_str())
            },
            PrimKind::Bool => "bool".to_owned(),
            PrimKind::Address => "address".to_owned(),
            PrimKind::Str => "string".to_owned(),
            PrimKind::DynBytes => "bytes".to_owned(),
        }
    }

    /// The size of a value of the type in bytes; `None` for `string` and `bytes`.
    pub fn byte_size(&self) -> (r: Option<usize>)
        ensures
            match r {
                Some(v) => prim_byte_size(*self) == Some(v as nat),
                None => prim_byte_size(*self) == None::<nat>,
            },
    {
        let (k, n) = self.kind();
        match k {
            PrimKind::Uint | PrimKind::Int | PrimKind::FixedBytes => Some(n as usize),
            PrimKind::Bool => Some(1),
            PrimKind::Address => Some(20),
            PrimKind::Str | PrimKind::DynBytes => None,
        }
    }
}

/// Reading the name of a primitive type gives that type back.
pub proof fn law_parse_name(t: PrimitiveType, r: Option<PrimitiveType>)
    requires
        parses_as(prim_name(t), r),
    ensures
        r == Some(t),
{
    lemma_prim_name_not_short(t);
    match r {
        Some(u) => {
            lemma_prim_name_not_short(u);
            if prim_name(t) == prim_name(u) {
                lemma_prim_name_injective(t, u);
            }
        },
        None => {
            assert(prim_name(t) != prim_name(t));
        },
    }
}

/// Reading a text as a primitive type has at most one outcome.
pub proof fn law_parses_as_unique(s: Seq<char>, r1: Option<PrimitiveType>, r2: Option<PrimitiveType>)
    requires
        parses_as(s, r1),
        parses_as(s, r2),
    ensures
        r1 == r2,
{
    lemma_family_names();
    match (r1, r2) {
        (Some(a), Some(b)) => {
            lemma_prim_name_not_short(a);
            lemma_prim_name_not_short(b);
            if s == prim_name(a) && s == prim_name(b) {
                lemma_prim_name_injective(a, b);
            }
        },
        (Some(a), None) => {
            assert(s != prim_name(a));
        },
        (None, Some(b)) => {
            assert(s != prim_name(b));
        },
        (None, None) => {},
    }
}

} // verus!
