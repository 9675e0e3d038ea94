//! The intermediate representation of a program for Solana: each deployable contract
//! becomes a program with a state account, mapping entries kept in derived accounts,
//! and instructions.

use vstd::prelude::*;

verus! {

/// A program for Solana: what one deployable contract becomes.
#[derive(Debug)]
pub struct SolanaProgram {
    pub name: String,
    pub state: ProgramState,
    pub mappings: Vec<MappingDef>,
    pub modifiers: Vec<ModifierDefinition>,
    pub instructions: Vec<Instruction>,
    pub events: Vec<Event>,
    pub errors: Vec<ProgramError>,
    pub structs: Vec<StructDef>,
    pub enums: Vec<EnumDef>,
    /// The functions marked `#[test]`
    pub tests: Vec<TestFunction>,
}

/// A function marked `#[test]`.
#[derive(Debug)]
pub struct TestFunction {
    pub name: String,
    pub body: Vec<Statement>,
    /// The message a `#[should_fail("...")]` test expects; empty when none is given.
    pub should_fail: Option<String>,
}

#[derive(Debug)]
pub struct EnumDef {
    pub name: String,
    pub variants: Vec<String>,
}

#[derive(Debug)]
pub struct StructDef {
    pub name: String,
    pub fields: Vec<StructField>,
}

#[derive(Debug)]
pub struct StructField {
    pub name: String,
    pub ty: SolanaType,
}

/// A modifier: its body is put around the bodies of the functions that name it.
#[derive(Debug)]
pub struct ModifierDefinition {
    pub name: String,
    pub params: Vec<InstructionParam>,
    pub body: Vec<Statement>,
}

/// A mapping: its entries are kept in accounts derived from the keys.
#[derive(Debug)]
pub struct MappingDef {
    pub name: String,
    pub key_ty: SolanaType,
    pub value_ty: SolanaType,
    pub is_public: bool,
}

/// The state account.
#[derive(Debug)]
pub struct ProgramState {
    pub fields: Vec<StateField>,
}

#[derive(Debug)]
pub struct StateField {
    pub name: String,
    pub ty: SolanaType,
    pub is_public: bool,
}

/// An instruction: what a function or the constructor becomes.
#[derive(Debug)]
pub struct Instruction {
    pub name: String,
    pub params: Vec<InstructionParam>,
    pub returns: Option<SolanaType>,
    pub body: Vec<Statement>,
    pub is_public: bool,
    pub is_view: bool,
    pub is_payable: bool,
    pub uses_token_program: bool,
    pub uses_sol_transfer: bool,
    pub modifiers: Vec<ModifierCall>,
    /// The mapping entries the instruction reads or writes
    pub mapping_accesses: Vec<MappingAccess>,
    /// Whether the instruction closes the state account (`selfdestruct`)
    pub closes_state: bool,
}

/// One access to a mapping entry within an instruction.
#[derive(Debug)]
pub struct MappingAccess {
    pub mapping_name: String,
    /// The keys, outermost first
    pub key_exprs: Vec<Expression>,
    pub is_write: bool,
    /// Whether the entry's account is closed (`delete`)
    pub should_close: bool,
    /// The name of the account the entry is read through
    pub account_name: String,
}

#[derive(Debug)]
pub struct InstructionParam {
    pub name: String,
    pub ty: SolanaType,
}

/// A modifier named by a function, with its arguments.
#[derive(Debug)]
pub struct ModifierCall {
    pub name: String,
    pub args: Vec<Expression>,
}

#[derive(Debug)]
pub struct Event {
    pub name: String,
    pub fields: Vec<EventField>,
}

#[derive(Debug)]
pub struct EventField {
    pub name: String,
    pub ty: SolanaType,
    pub indexed: bool,
}

/// A custom error.
#[derive(Debug)]
pub struct ProgramError {
    pub name: String,
    pub fields: Vec<ErrorField>,
}

#[derive(Debug)]
pub struct ErrorField {
    pub name: String,
    pub ty: SolanaType,
}

/// Types as a Solana program holds them.
#[derive(Debug)]
pub enum SolanaType {
    U8,
    U16,
    U32,
    U64,
    U128,
    I8,
    I16,
    I32,
    I64,
    I128,
    Bool,
    /// An address
    Pubkey,
    /// An account that must sign
    Signer,
    String,
    Bytes,
    /// `[u8; N]`
    FixedBytes(usize),
    Array(Box<SolanaType>, usize),
    Vec(Box<SolanaType>),
    Option(Box<SolanaType>),
    /// A mapping, kept in derived accounts
    Mapping(Box<SolanaType>, Box<SolanaType>),
    /// A type the program defines
    Custom(String),
}

/// Statements of the intermediate representation.
#[derive(Debug)]
pub enum Statement {
    VarDecl { name: String, ty: SolanaType, value: Option<Expression> },
    Assign { target: Expression, value: Expression },
    If { condition: Expression, then_block: Vec<Statement>, else_block: Option<Vec<Statement>> },
    While { condition: Expression, body: Vec<Statement> },
    For {
        init: Option<Box<Statement>>,
        condition: Option<Expression>,
        update: Option<Expression>,
        body: Vec<Statement>,
    },
    Return(Option<Expression>),
    Emit { event: String, args: Vec<Expression> },
    Require { condition: Expression, message: Option<String> },
    /// `revert Error(args)`
    RevertWithError { error_name: String, args: Vec<Expression> },
    /// Reset the target to its default value
    Delete(Expression),
    /// Close the state account and send its lamports to the recipient
    Selfdestruct { recipient: Expression },
    Expr(Expression),
    /// Where a modifier's body takes the function's body (`_`)
    Placeholder,
}

#[derive(Debug)]
pub enum Literal {
    Bool(bool),
    Int(i128),
    Uint(u128),
    String(String),
    /// An address, as written
    Pubkey(String),
    /// `address(0)`
    ZeroAddress,
    /// `bytesN(0)`
    ZeroBytes(usize),
}

#[derive(Debug, Clone, Copy, PartialEq, Eq, Structural)]
pub enum BinaryOp {
    Add,
    Sub,
    Mul,
    Div,
    Rem,
    Eq,
    Ne,
    Lt,
    Le,
    Gt,
    Ge,
    And,
    Or,
    BitAnd,
    BitOr,
    BitXor,
    Shl,
    Shr,
}

#[derive(Debug, Clone, Copy, PartialEq, Eq, Structural)]
pub enum UnaryOp {
    Neg,
    Not,
    BitNot,
}

/// Expressions of the intermediate representation.
#[derive(Debug)]
pub enum Expression {
    Literal(Literal),
    Var(String),
    StateAccess(String),
    /// An entry of a mapping, `name[k1][k2]...`, read through the account named here.
    MappingAccess { mapping_name: String, keys: Vec<Expression>, account_name: String },
    /// `msg.sender`: the signer.
    MsgSender,
    /// `msg.value`
    MsgValue,
    /// `block.timestamp`
    BlockTimestamp,
    /// `clock.slot`
    ClockSlot,
    /// `clock.epoch`
    ClockEpoch,
    /// `clock.unix_timestamp`
    ClockUnixTimestamp,
    RentMinimumBalance { data_len: Box<Expression> },
    RentIsExempt { lamports: Box<Expression>, data_len: Box<Expression> },
    Binary { op: BinaryOp, left: Box<Expression>, right: Box<Expression> },
    Unary { op: UnaryOp, expr: Box<Expression> },
    Call { func: String, args: Vec<Expression> },
    MethodCall { receiver: Box<Expression>, method: String, args: Vec<Expression> },
    /// `Interface(programId)`: a program to call through an interface.
    InterfaceCast { interface_name: String, program_id: Box<Expression> },
    /// A call into another program.
    CpiCall { program: Box<Expression>, interface_name: String, method: String, args: Vec<Expression> },
    /// An SPL token transfer.
    TokenTransfer { from: Box<Expression>, to: Box<Expression>, authority: Box<Expression>, amount: Box<Expression> },
    /// An SPL token mint.
    TokenMint { mint: Box<Expression>, to: Box<Expression>, authority: Box<Expression>, amount: Box<Expression> },
    /// An SPL token burn.
    TokenBurn { from: Box<Expression>, mint: Box<Expression>, authority: Box<Expression>, amount: Box<Expression> },
    /// A transfer of lamports.
    SolTransfer { to: Box<Expression>, amount: Box<Expression> },
    /// The associated token account of an owner for a mint.
    GetATA { owner: Box<Expression>, mint: Box<Expression> },
    Index { expr: Box<Expression>, index: Box<Expression> },
    Field { expr: Box<Expression>, field: String },
    Ternary { condition: Box<Expression>, then_expr: Box<Expression>, else_expr: Box<Expression> },
    Assert { condition: Box<Expression>, message: Option<String> },
    AssertEq { left: Box<Expression>, right: Box<Expression>, message: Option<String> },
    AssertNe { left: Box<Expression>, right: Box<Expression>, message: Option<String> },
    AssertGt { left: Box<Expression>, right: Box<Expression>, message: Option<String> },
    AssertGe { left: Box<Expression>, right: Box<Expression>, message: Option<String> },
    AssertLt { left: Box<Expression>, right: Box<Expression>, message: Option<String> },
    AssertLe { left: Box<Expression>, right: Box<Expression>, message: Option<String> },
}

/// A copy of an expression.
pub fn clone_expr(e: &Expression) -> (r: Expression)
    ensures
        expr_v(r) == expr_v(*e),
    decreases e,
{
    match e {
        Expression::Literal(x) => Expression::Literal(clone_literal(x)),
        Expression::Var(x) => Expression::Var(x.clone()),
        Expression::StateAccess(x) => Expression::StateAccess(x.clone()),
        Expression::MappingAccess { mapping_name, keys, account_name } => Expression::MappingAccess { mapping_name: mapping_name.clone(), keys: clone_exprs(keys), account_name: account_name.clone() },
        Expression::MsgSender => Expression::MsgSender,
        Expression::MsgValue => Expression::MsgValue,
        Expression::BlockTimestamp => Expression::BlockTimestamp,
        Expression::ClockSlot => Expression::ClockSlot,
        Expression::ClockEpoch => Expression::ClockEpoch,
        Expression::ClockUnixTimestamp => Expression::ClockUnixTimestamp,
        Expression::RentMinimumBalance { data_len } => Expression::RentMinimumBalance { data_len: Box::new(clone_expr(data_len)) },
        Expression::RentIsExempt { lamports, data_len } => Expression::RentIsExempt { lamports: Box::new(clone_expr(lamports)), data_len: Box::new(clone_expr(data_len)) },
        Expression::Binary { op, left, right } => Expression::Binary { op: *op, left: Box::new(clone_expr(left)), right: Box::new(clone_expr(right)) },
        Expression::Unary { op, expr } => Expression::Unary { op: *op, expr: Box::new(clone_expr(expr)) },
        Expression::Call { func, args } => Expression::Call { func: func.clone(), args: clone_exprs(args) },
        Expression::MethodCall { receiver, method, args } => Expression::MethodCall { receiver: Box::new(clone_expr(receiver)), method: method.clone(), args: clone_exprs(args) },
        Expression::InterfaceCast { interface_name, program_id } => Expression::InterfaceCast { interface_name: interface_name.clone(), program_id: Box::new(clone_expr(program_id)) },
        Expression::CpiCall { program, interface_name, method, args } => Expression::CpiCall { program: Box::new(clone_expr(program)), interface_name: interface_name.clone(), method: method.clone(), args: clone_exprs(args) },
        Expression::TokenTransfer { from, to, authority, amount } => Expression::TokenTransfer { from: Box::new(clone_expr(from)), to: Box::new(clone_expr(to)), authority: Box::new(clone_expr(authority)), amount: Box::new(clone_expr(amount)) },
        Expression::TokenMint { mint, to, authority, amount } => Expression::TokenMint { mint: Box::new(clone_expr(mint)), to: Box::new(clone_expr(to)), authority: Box::new(clone_expr(authority)), amount: Box::new(clone_expr(amount)) },
        Expression::TokenBurn { from, mint, authority, amount } => Expression::TokenBurn { from: Box::new(clone_expr(from)), mint: Box::new(clone_expr(mint)), authority: Box::new(clone_expr(authority)), amount: Box::new(clone_expr(amount)) },
        Expression::SolTransfer { to, amount } => Expression::SolTransfer { to: Box::new(clone_expr(to)), amount: Box::new(clone_expr(amount)) },
        Expression::GetATA { owner, mint } => Expression::GetATA { owner: Box::new(clone_expr(owner)), mint: Box::new(clone_expr(mint)) },
        Expression::Index { expr, index } => Expression::Index { expr: Box::new(clone_expr(expr)), index: Box::new(clone_expr(index)) },
        Expression::Field { expr, field } => Expression::Field { expr: Box::new(clone_expr(expr)), field: field.clone() },
        Expression::Ternary { condition, then_expr, else_expr } => Expression::Ternary { condition: Box::new(clone_expr(condition)), then_expr: Box::new(clone_expr(then_expr)), else_expr: Box::new(clone_expr(else_expr)) },
        Expression::Assert { condition, message } => Expression::Assert { condition: Box::new(clone_expr(condition)), message: clone_opt_string(message) },
        Expression::AssertEq { left, right, message } => Expression::AssertEq { left: Box::new(clone_expr(left)), right: Box::new(clone_expr(right)), message: clone_opt_string(message) },
        Expression::AssertNe { left, right, message } => Expression::AssertNe { left: Box::new(clone_expr(left)), right: Box::new(clone_expr(right)), message: clone_opt_string(message) },
        Expression::AssertGt { left, right, message } => Expression::AssertGt { left: Box::new(clone_expr(left)), right: Box::new(clone_expr(right)), message: clone_opt_string(message) },
        Expression::AssertGe { left, right, message } => Expression::AssertGe { left: Box::new(clone_expr(left)), right: Box::new(clone_expr(right)), message: clone_opt_string(message) },
        Expression::AssertLt { left, right, message } => Expression::AssertLt { left: Box::new(clone_expr(left)), right: Box::new(clone_expr(right)), message: clone_opt_string(message) },
        Expression::AssertLe { left, right, message } => Expression::AssertLe { left: Box::new(clone_expr(left)), right: Box::new(clone_expr(right)), message: clone_opt_string(message) },
    }
}

/// What an expression is, as a mathematical value.
pub enum ExprV {
    Literal(LitV),
    Var(Seq<char>),
    StateAccess(Seq<char>),
    MappingAccess { mapping_name: Seq<char>, keys: Seq<ExprV>, account_name: Seq<char> },
    MsgSender,
    MsgValue,
    BlockTimestamp,
    ClockSlot,
    ClockEpoch,
    ClockUnixTimestamp,
    RentMinimumBalance { data_len: Box<ExprV> },
    RentIsExempt { lamports: Box<ExprV>, data_len: Box<ExprV> },
    Binary { op: BinaryOp, left: Box<ExprV>, right: Box<ExprV> },
    Unary { op: UnaryOp, expr: Box<ExprV> },
    Call { func: Seq<char>, args: Seq<ExprV> },
    MethodCall { receiver: Box<ExprV>, method: Seq<char>, args: Seq<ExprV> },
    InterfaceCast { interface_name: Seq<char>, program_id: Box<ExprV> },
    CpiCall { program: Box<ExprV>, interface_name: Seq<char>, method: Seq<char>, args: Seq<ExprV> },
    TokenTransfer { from: Box<ExprV>, to: Box<ExprV>, authority: Box<ExprV>, amount: Box<ExprV> },
    TokenMint { mint: Box<ExprV>, to: Box<ExprV>, authority: Box<ExprV>, amount: Box<ExprV> },
    TokenBurn { from: Box<ExprV>, mint: Box<ExprV>, authority: Box<ExprV>, amount: Box<ExprV> },
    SolTransfer { to: Box<ExprV>, amount: Box<ExprV> },
    GetATA { owner: Box<ExprV>, mint: Box<ExprV> },
    Index { expr: Box<ExprV>, index: Box<ExprV> },
    Field { expr: Box<ExprV>, field: Seq<char> },
    Ternary { condition: Box<ExprV>, then_expr: Box<ExprV>, else_expr: Box<ExprV> },
    Assert { condition: Box<ExprV>, message: Option<Seq<char>> },
    AssertEq { left: Box<ExprV>, right: Box<ExprV>, message: Option<Seq<char>> },
    AssertNe { left: Box<ExprV>, right: Box<ExprV>, message: Option<Seq<char>> },
    AssertGt { left: Box<ExprV>, right: Box<ExprV>, message: Option<Seq<char>> },
    AssertGe { left: Box<ExprV>, right: Box<ExprV>, message: Option<Seq<char>> },
    AssertLt { left: Box<ExprV>, right: Box<ExprV>, message: Option<Seq<char>> },
    AssertLe { left: Box<ExprV>, right: Box<ExprV>, message: Option<Seq<char>> },
}

/// The value an expression stands for.
pub open spec fn expr_v(e: Expression) -> ExprV
    decreases e,
{
    match e {
        Expression::Literal(x) => ExprV::Literal(lit_v(x)),
        Expression::Var(x) => ExprV::Var(x@),
        Expression::StateAccess(x) => ExprV::StateAccess(x@),
        Expression::MappingAccess { mapping_name, keys, account_name } => ExprV::MappingAccess { mapping_name: mapping_name@, keys: exprs_v(keys@), account_name: account_name@ },
        Expression::MsgSender => ExprV::MsgSender,
        Expression::MsgValue => ExprV::MsgValue,
        Expression::BlockTimestamp => ExprV::BlockTimestamp,
        Expression::ClockSlot => ExprV::ClockSlot,
        Expression::ClockEpoch => ExprV::ClockEpoch,
        Expression::ClockUnixTimestamp => ExprV::ClockUnixTimestamp,
        Expression::RentMinimumBalance { data_len } => ExprV::RentMinimumBalance { data_len: Box::new(expr_v(*data_len)) },
        Expression::RentIsExempt { lamports, data_len } => ExprV::RentIsExempt { lamports: Box::new(expr_v(*lamports)), data_len: Box::new(expr_v(*data_len)) },
        Expression::Binary { op, left, right } => ExprV::Binary { op: op, left: Box::new(expr_v(*left)), right: Box::new(expr_v(*right)) },
        Expression::Unary { op, expr } => ExprV::Unary { op: op, expr: Box::new(expr_v(*expr)) },
        Expression::Call { func, args } => ExprV::Call { func: func@, args: exprs_v(args@) },
        Expression::MethodCall { receiver, method, args } => ExprV::MethodCall { receiver: Box::new(expr_v(*receiver)), method: method@, args: exprs_v(args@) },
        Expression::InterfaceCast { interface_name, program_id } => ExprV::InterfaceCast { interface_name: interface_name@, program_id: Box::new(expr_v(*program_id)) },
        Expression::CpiCall { program, interface_name, method, args } => ExprV::CpiCall { program: Box::new(expr_v(*program)), interface_name: interface_name@, method: method@, args: exprs_v(args@) },
        Expression::TokenTransfer { from, to, authority, amount } => ExprV::TokenTransfer { from: Box::new(expr_v(*from)), to: Box::new(expr_v(*to)), authority: Box::new(expr_v(*authority)), amount: Box::new(expr_v(*amount)) },
        Expression::TokenMint { mint, to, authority, amount } => ExprV::TokenMint { mint: Box::new(expr_v(*mint)), to: Box::new(expr_v(*to)), authority: Box::new(expr_v(*authority)), amount: Box::new(expr_v(*amount)) },
        Expression::TokenBurn { from, mint, authority, amount } => ExprV::TokenBurn { from: Box::new(expr_v(*from)), mint: Box::new(expr_v(*mint)), authority: Box::new(expr_v(*authority)), amount: Box::new(expr_v(*amount)) },
        Expression::SolTransfer { to, amount } => ExprV::SolTransfer { to: Box::new(expr_v(*to)), amount: Box::new(expr_v(*amount)) },
        Expression::GetATA { owner, mint } => ExprV::GetATA { owner: Box::new(expr_v(*owner)), mint: Box::new(expr_v(*mint)) },
        Expression::Index { expr, index } => ExprV::Index { expr: Box::new(expr_v(*expr)), index: Box::new(expr_v(*index)) },
        Expression::Field { expr, field } => ExprV::Field { expr: Box::new(expr_v(*expr)), field: field@ },
        Expression::Ternary { condition, then_expr, else_expr } => ExprV::Ternary { condition: Box::new(expr_v(*condition)), then_expr: Box::new(expr_v(*then_expr)), else_expr: Box::new(expr_v(*else_expr)) },
        Expression::Assert { condition, message } => ExprV::Assert { condition: Box::new(expr_v(*condition)), message: opt_str_v(message) },
        Expression::AssertEq { left, right, message } => ExprV::AssertEq { left: Box::new(expr_v(*left)), right: Box::new(expr_v(*right)), message: opt_str_v(message) },
        Expression::AssertNe { left, right, message } => ExprV::AssertNe { left: Box::new(expr_v(*left)), right: Box::new(expr_v(*right)), message: opt_str_v(message) },
        Expression::AssertGt { left, right, message } => ExprV::AssertGt { left: Box::new(expr_v(*left)), right: Box::new(expr_v(*right)), message: opt_str_v(message) },
        Expression::AssertGe { left, right, message } => ExprV::AssertGe { left: Box::new(expr_v(*left)), right: Box::new(expr_v(*right)), message: opt_str_v(message) },
        Expression::AssertLt { left, right, message } => ExprV::AssertLt { left: Box::new(expr_v(*left)), right: Box::new(expr_v(*right)), message: opt_str_v(message) },
        Expression::AssertLe { left, right, message } => ExprV::AssertLe { left: Box::new(expr_v(*left)), right: Box::new(expr_v(*right)), message: opt_str_v(message) },
    }
}

/// The values a list of expressions stands for.
pub open spec fn exprs_v(s: Seq<Expression>) -> Seq<ExprV>
    decreases s,
{
    if s.len() == 0 {
        seq![]
    } else {
        exprs_v(s.drop_last()).push(expr_v(s.last()))
    }
}

pub open spec fn opt_str_v(o: Option<String>) -> Option<Seq<char>> {
    match o {
        Some(s) => Some(s@),
        None => None,
    }
}

/// What a literal is, as a mathematical value.
pub enum LitV {
    Bool(bool),
    Int(i128),
    Uint(u128),
    String(Seq<char>),
    Pubkey(Seq<char>),
    ZeroAddress,
    ZeroBytes(usize),
}

pub open spec fn lit_v(l: Literal) -> LitV {
    match l {
        Literal::Bool(b) => LitV::Bool(b),
        Literal::Int(n) => LitV::Int(n),
        Literal::Uint(n) => LitV::Uint(n),
        Literal::String(s) => LitV::String(s@),
        Literal::Pubkey(s) => LitV::Pubkey(s@),
        Literal::ZeroAddress => LitV::ZeroAddress,
        Literal::ZeroBytes(n) => LitV::ZeroBytes(n),
    }
}

/// What a type is, as a mathematical value.
pub enum TypeV {
    U8,
    U16,
    U32,
    U64,
    U128,
    I8,
    I16,
    I32,
    I64,
    I128,
    Bool,
    Pubkey,
    Signer,
    String,
    Bytes,
    FixedBytes(usize),
    Array(Box<TypeV>, usize),
    Vec(Box<TypeV>),
    Option(Box<TypeV>),
    Mapping(Box<TypeV>, Box<TypeV>),
    Custom(Seq<char>),
}

pub open spec fn type_v(t: SolanaType) -> TypeV
    decreases t,
{
    match t {
        SolanaType::U8 => TypeV::U8,
        SolanaType::U16 => TypeV::U16,
        SolanaType::U32 => TypeV::U32,
        SolanaType::U64 => TypeV::U64,
        SolanaType::U128 => TypeV::U128,
        SolanaType::I8 => TypeV::I8,
        SolanaType::I16 => TypeV::I16,
        SolanaType::I32 => TypeV::I32,
        SolanaType::I64 => TypeV::I64,
        SolanaType::I128 => TypeV::I128,
        SolanaType::Bool => TypeV::Bool,
        SolanaType::Pubkey => TypeV::Pubkey,
        SolanaType::Signer => TypeV::Signer,
        SolanaType::String => TypeV::String,
        SolanaType::Bytes => TypeV::Bytes,
        SolanaType::FixedBytes(n) => TypeV::FixedBytes(n),
        SolanaType::Array(x, n) => TypeV::Array(Box::new(type_v(*x)), n),
        SolanaType::Vec(x) => TypeV::Vec(Box::new(type_v(*x))),
        SolanaType::Option(x) => TypeV::Option(Box::new(type_v(*x))),
        SolanaType::Mapping(k, v) => TypeV::Mapping(Box::new(type_v(*k)), Box::new(type_v(*v))),
        SolanaType::Custom(s) => TypeV::Custom(s@),
    }
}

pub open spec fn opt_type_v(t: Option<SolanaType>) -> Option<TypeV> {
    match t {
        Some(x) => Some(type_v(x)),
        None => None,
    }
}

/// What a statement is, as a mathematical value.
pub enum StmtV {
    VarDecl { name: Seq<char>, ty: TypeV, value: Option<ExprV> },
    Assign { target: ExprV, value: ExprV },
    If { condition: ExprV, then_block: Seq<StmtV>, else_block: Option<Seq<StmtV>> },
    While { condition: ExprV, body: Seq<StmtV> },
    For { init: Option<Box<StmtV>>, condition: Option<ExprV>, update: Option<ExprV>, body: Seq<StmtV> },
    Return(Option<ExprV>),
    Emit { event: Seq<char>, args: Seq<ExprV> },
    Require { condition: ExprV, message: Option<Seq<char>> },
    RevertWithError { error_name: Seq<char>, args: Seq<ExprV> },
    Delete(ExprV),
    Selfdestruct { recipient: ExprV },
    Expr(ExprV),
    Placeholder,
}

pub open spec fn opt_expr_v(e: Option<Expression>) -> Option<ExprV> {
    match e {
        Some(x) => Some(expr_v(x)),
        None => None,
    }
}

pub open spec fn stmt_v(s: Statement) -> StmtV
    decreases s,
{
    match s {
        Statement::VarDecl { name, ty, value } => StmtV::VarDecl { name: name@, ty: type_v(ty), value: opt_expr_v(value) },
        Statement::Assign { target, value } => StmtV::Assign { target: expr_v(target), value: expr_v(value) },
        Statement::If { condition, then_block, else_block } => StmtV::If {
            condition: expr_v(condition),
            then_block: stmts_v(then_block@),
            else_block: match else_block {
                Some(b) => Some(stmts_v(b@)),
                None => None,
            },
        },
        Statement::While { condition, body } => StmtV::While { condition: expr_v(condition), body: stmts_v(body@) },
        Statement::For { init, condition, update, body } => StmtV::For {
            init: match init {
                Some(b) => Some(Box::new(stmt_v(*b))),
                None => None,
            },
            condition: opt_expr_v(condition),
            update: opt_expr_v(update),
            body: stmts_v(body@),
        },
        Statement::Return(v) => StmtV::Return(opt_expr_v(v)),
        Statement::Emit { event, args } => StmtV::Emit { event: event@, args: exprs_v(args@) },
        Statement::Require { condition, message } => StmtV::Require { condition: expr_v(condition), message: opt_str_v(message) },
        Statement::RevertWithError { error_name, args } => StmtV::RevertWithError { error_name: error_name@, args: exprs_v(args@) },
        Statement::Delete(x) => StmtV::Delete(expr_v(x)),
        Statement::Selfdestruct { recipient } => StmtV::Selfdestruct { recipient: expr_v(recipient) },
        Statement::Expr(x) => StmtV::Expr(expr_v(x)),
        Statement::Placeholder => StmtV::Placeholder,
    }
}

pub open spec fn stmts_v(s: Seq<Statement>) -> Seq<StmtV>
    decreases s,
{
    if s.len() == 0 {
        seq![]
    } else {
        stmts_v(s.drop_last()).push(stmt_v(s.last()))
    }
}

/// What a mapping access is, as a mathematical value.
pub struct AccessV {
    pub mapping_name: Seq<char>,
    pub key_exprs: Seq<ExprV>,
    pub is_write: bool,
    pub should_close: bool,
    pub account_name: Seq<char>,
}

pub open spec fn access_v(a: MappingAccess) -> AccessV {
    AccessV {
        mapping_name: a.mapping_name@,
        key_exprs: exprs_v(a.key_exprs@),
        is_write: a.is_write,
        should_close: a.should_close,
        account_name: a.account_name@,
    }
}

pub open spec fn accesses_v(s: Seq<MappingAccess>) -> Seq<AccessV>
    decreases s.len(),
{
    if s.len() == 0 {
        seq![]
    } else {
        accesses_v(s.drop_last()).push(access_v(s.last()))
    }
}

/// The values of a list of accesses are as many as the accesses.
pub proof fn lemma_accesses_v_len(s: Seq<MappingAccess>)
    ensures
        accesses_v(s).len() == s.len(),
    decreases s.len(),
{
    if s.len() > 0 {
        lemma_accesses_v_len(s.drop_last());
    }
}

/// A parameter, field or variable as a value: its name and type.
pub open spec fn param_v(p: InstructionParam) -> (Seq<char>, TypeV) {
    (p.name@, type_v(p.ty))
}

pub open spec fn params_v(s: Seq<InstructionParam>) -> Seq<(Seq<char>, TypeV)> {
    s.map_values(|p: InstructionParam| param_v(p))
}

pub open spec fn event_v(e: Event) -> (Seq<char>, Seq<(Seq<char>, TypeV, bool)>) {
    (e.name@, e.fields@.map_values(|f: EventField| (f.name@, type_v(f.ty), f.indexed)))
}

pub open spec fn error_v(e: ProgramError) -> (Seq<char>, Seq<(Seq<char>, TypeV)>) {
    (e.name@, e.fields@.map_values(|f: ErrorField| (f.name@, type_v(f.ty))))
}

pub open spec fn struct_v(s: StructDef) -> (Seq<char>, Seq<(Seq<char>, TypeV)>) {
    (s.name@, s.fields@.map_values(|f: StructField| (f.name@, type_v(f.ty))))
}

pub open spec fn enum_v(e: EnumDef) -> (Seq<char>, Seq<Seq<char>>) {
    (e.name@, e.variants@.map_values(|v: String| v@))
}

/// A copy of a list of expressions.
pub fn clone_exprs(v: &Vec<Expression>) -> (r: Vec<Expression>)
    ensures
        exprs_v(r@) == exprs_v(v@),
    decreases v@,
{
    let mut out: Vec<Expression> = Vec::new();
    let mut i: usize = 0;
    while i < v.len()
        invariant
            i <= v@.len(),
            exprs_v(out@) == exprs_v(v@.take(i as int)),
        decreases v@.len() - i,
    {
        assert(decreases_to!(v@ => v@[i as int]));
        let ghost before = out@;
        out.push(clone_expr(&v[i]));
        proof {
            assert(out@.drop_last() =~= before);
            assert(v@.take(i + 1).drop_last() =~= v@.take(i as int));
        }
        i = i + 1;
    }
    assert(v@.take(v@.len() as int) =~= v@);
    out
}

/// A copy of an optional string.
pub fn clone_opt_string(o: &Option<String>) -> (r: Option<String>)
    ensures
        r == *o,
{
    match o {
        Some(s) => Some(s.clone()),
        None => None,
    }
}

/// A copy of a literal.
pub fn clone_literal(l: &Literal) -> (r: Literal)
    ensures
        r == *l,
{
    match l {
        Literal::Bool(b) => Literal::Bool(*b),
        Literal::Int(n) => Literal::Int(*n),
        Literal::Uint(n) => Literal::Uint(*n),
        Literal::String(s) => Literal::String(s.clone()),
        Literal::Pubkey(s) => Literal::Pubkey(s.clone()),
        Literal::ZeroAddress => Literal::ZeroAddress,
        Literal::ZeroBytes(n) => Literal::ZeroBytes(*n),
    }
}

/// A copy of a type.
pub fn clone_type(t: &SolanaType) -> (r: SolanaType)
    ensures
        r == *t,
    decreases t,
{
    match t {
        SolanaType::U8 => SolanaType::U8,
        SolanaType::U16 => SolanaType::U16,
        SolanaType::U32 => SolanaType::U32,
        SolanaType::U64 => SolanaType::U64,
        SolanaType::U128 => SolanaType::U128,
        SolanaType::I8 => SolanaType::I8,
        SolanaType::I16 => SolanaType::I16,
        SolanaType::I32 => SolanaType::I32,
        SolanaType::I64 => SolanaType::I64,
        SolanaType::I128 => SolanaType::I128,
        SolanaType::Bool => SolanaType::Bool,
        SolanaType::Pubkey => SolanaType::Pubkey,
        SolanaType::Signer => SolanaType::Signer,
        SolanaType::String => SolanaType::String,
        SolanaType::Bytes => SolanaType::Bytes,
        SolanaType::FixedBytes(n) => SolanaType::FixedBytes(*n),
        SolanaType::Array(x, n) => SolanaType::Array(Box::new(clone_type(x)), *n),
        SolanaType::Vec(x) => SolanaType::Vec(Box::new(clone_type(x))),
        SolanaType::Option(x) => SolanaType::Option(Box::new(clone_type(x))),
        SolanaType::Mapping(k, v) => SolanaType::Mapping(Box::new(clone_type(k)), Box::new(clone_type(v))),
        SolanaType::Custom(s) => SolanaType::Custom(s.clone()),
    }
}

/// A copy of a list of strings.
pub fn clone_strings(v: &Vec<String>) -> (r: Vec<String>)
    ensures
        r@ == v@,
{
    let mut out: Vec<String> = Vec::new();
    let mut i: usize = 0;
    while i < v.len()
        invariant
            i <= v@.len(),
            out@ == v@.take(i as int),
        decreases v@.len() - i,
    {
        out.push(v[i].clone());
        i = i + 1;
        assert(out@ =~= v@.take(i as int));
    }
    assert(v@.take(v@.len() as int) =~= v@);
    out
}

/// A copy of an event.
pub fn clone_event(e: &Event) -> (r: Event)
    ensures
        event_v(r) == event_v(*e),
{
    let mut fields: Vec<EventField> = Vec::new();
    let mut i: usize = 0;
    while i < e.fields.len()
        invariant
            i <= e.fields@.len(),
            fields@ == e.fields@.take(i as int),
        decreases e.fields@.len() - i,
    {
        let f = &e.fields[i];
        fields.push(EventField { name: f.name.clone(), ty: clone_type(&f.ty), indexed: f.indexed });
        i = i + 1;
        assert(fields@ =~= e.fields@.take(i as int));
    }
    assert(e.fields@.take(e.fields@.len() as int) =~= e.fields@);
    let r = Event { name: e.name.clone(), fields };
    assert(event_v(r).1 =~= event_v(*e).1);
    r
}

/// A copy of an error.
pub fn clone_error(e: &ProgramError) -> (r: ProgramError)
    ensures
        error_v(r) == error_v(*e),
{
    let mut fields: Vec<ErrorField> = Vec::new();
    let mut i: usize = 0;
    while i < e.fields.len()
        invariant
            i <= e.fields@.len(),
            fields@ == e.fields@.take(i as int),
        decreases e.fields@.len() - i,
    {
        let f = &e.fields[i];
        fields.push(ErrorField { name: f.name.clone(), ty: clone_type(&f.ty) });
        i = i + 1;
        assert(fields@ =~= e.fields@.take(i as int));
    }
    assert(e.fields@.take(e.fields@.len() as int) =~= e.fields@);
    let r = ProgramError { name: e.name.clone(), fields };
    assert(error_v(r).1 =~= error_v(*e).1);
    r
}

/// A copy of a struct definition.
pub fn clone_struct(s: &StructDef) -> (r: StructDef)
    ensures
        struct_v(r) == struct_v(*s),
{
    let mut fields: Vec<StructField> = Vec::new();
    let mut i: usize = 0;
    while i < s.fields.len()
        invariant
            i <= s.fields@.len(),
            fields@ == s.fields@.take(i as int),
        decreases s.fields@.len() - i,
    {
        let f = &s.fields[i];
        fields.push(StructField { name: f.name.clone(), ty: clone_type(&f.ty) });
        i = i + 1;
        assert(fields@ =~= s.fields@.take(i as int));
    }
    assert(s.fields@.take(s.fields@.len() as int) =~= s.fields@);
    let r = StructDef { name: s.name.clone(), fields };
    assert(struct_v(r).1 =~= struct_v(*s).1);
    r
}

/// A copy of an enum definition.
pub fn clone_enum(e: &EnumDef) -> (r: EnumDef)
    ensures
        enum_v(r) == enum_v(*e),
{
    let r = EnumDef { name: e.name.clone(), variants: clone_strings(&e.variants) };
    assert(enum_v(r).1 =~= enum_v(*e).1);
    r
}

} // verus!
