//! Splitting source text into tokens.

use vstd::prelude::*;
use crate::span::Span;
use crate::text::{chars_eq_str, is_digit, string_of};
use crate::lex_laws::lemma_no_reading;

verus! {

/// Reserved words of the language.
#[derive(Debug, Clone, Copy, PartialEq, Eq, Structural)]
pub enum Keyword {
    Abstract,
    Contract,
    Interface,
    Function,
    Constructor,
    Modifier,
    Returns,
    Return,
    If,
    Else,
    While,
    For,
    Emit,
    Require,
    Revert,
    Delete,
    Selfdestruct,
    New,
    Mapping,
    Struct,
    Enum,
    Event,
    Error,
    Import,
    Public,
    Private,
    Internal,
    External,
    View,
    Pure,
    Payable,
    Memory,
    Storage,
    Calldata,
    Indexed,
    True,
    False,
}

/// Punctuation and operators.
#[derive(Debug, Clone, Copy, PartialEq, Eq, Structural)]
pub enum Punct {
    LParen,
    RParen,
    LBrace,
    RBrace,
    LBracket,
    RBracket,
    Semi,
    Comma,
    Dot,
    Colon,
    ColonColon,
    Question,
    FatArrow,
    Hash,
    Assign,
    EqEq,
    NotEq,
    Lt,
    Le,
    Gt,
    Ge,
    AndAnd,
    OrOr,
    Amp,
    Pipe,
    Caret,
    Shl,
    Shr,
    Plus,
    Minus,
    Star,
    StarStar,
    Slash,
    Percent,
    Bang,
    Tilde,
    PlusPlus,
    MinusMinus,
    PlusEq,
    MinusEq,
    StarEq,
    SlashEq,
    PercentEq,
    AmpEq,
    PipeEq,
    CaretEq,
}

/// What a token is, with the text that the parser keeps from it.
#[derive(Debug)]
pub enum Tok {
    /// A name that is not a reserved word.
    Ident(String),
    Kw(Keyword),
    /// A decimal number: its digits.
    Int(Vec<char>),
    /// `0x` followed by hexadecimal digits, other than an address: the whole text.
    HexInt(String),
    /// `0x` followed by exactly forty hexadecimal digits: the whole text.
    Address(String),
    /// A string literal: the text between the quotes, escapes left as written.
    Str(String),
    /// `hex"..."`: the text between the quotes.
    HexStr(String),
    P(Punct),
}

/// A token with its place: character positions `cstart..cend` and the byte span.
#[derive(Debug)]
pub struct Token {
    pub tok: Tok,
    pub cstart: usize,
    pub cend: usize,
    pub span: Span,
}

/// Why the text could not be split into tokens: the character position where it went wrong.
#[derive(Debug, Clone, Copy, PartialEq, Eq, Structural)]
pub enum LexError {
    /// A character that starts no token.
    UnexpectedChar(usize),
    /// A string literal without its closing quote.
    UnterminatedString(usize),
    /// A block comment without its closing `*/`.
    UnterminatedComment(usize),
}

pub open spec fn keyword_text(k: Keyword) -> Seq<char> {
    match k {
        Keyword::Abstract => "abstract"@,
        Keyword::Contract => "contract"@,
        Keyword::Interface => "interface"@,
        Keyword::Function => "function"@,
        Keyword::Constructor => "constructor"@,
        Keyword::Modifier => "modifier"@,
        Keyword::Returns => "returns"@,
        Keyword::Return => "return"@,
        Keyword::If => "if"@,
        Keyword::Else => "else"@,
        Keyword::While => "while"@,
        Keyword::For => "for"@,
        Keyword::Emit => "emit"@,
        Keyword::Require => "require"@,
        Keyword::Revert => "revert"@,
        Keyword::Delete => "delete"@,
        Keyword::Selfdestruct => "selfdestruct"@,
        Keyword::New => "new"@,
        Keyword::Mapping => "mapping"@,
        Keyword::Struct => "struct"@,
        Keyword::Enum => "enum"@,
        Keyword::Event => "event"@,
        Keyword::Error => "error"@,
        Keyword::Import => "import"@,
        Keyword::Public => "public"@,
        Keyword::Private => "private"@,
        Keyword::Internal => "internal"@,
        Keyword::External => "external"@,
        Keyword::View => "view"@,
        Keyword::Pure => "pure"@,
        Keyword::Payable => "payable"@,
        Keyword::Memory => "memory"@,
        Keyword::Storage => "storage"@,
        Keyword::Calldata => "calldata"@,
        Keyword::Indexed => "indexed"@,
        Keyword::True => "true"@,
        Keyword::False => "false"@,
    }
}

pub open spec fn punct_text(p: Punct) -> Seq<char> {
    match p {
        Punct::LParen => seq!['('],
        Punct::RParen => seq![')'],
        Punct::LBrace => seq!['{'],
        Punct::RBrace => seq!['}'],
        Punct::LBracket => seq!['['],
        Punct::RBracket => seq![']'],
        Punct::Semi => seq![';'],
        Punct::Comma => seq![','],
        Punct::Dot => seq!['.'],
        Punct::Colon => seq![':'],
        Punct::ColonColon => seq![':', ':'],
        Punct::Question => seq!['?'],
        Punct::FatArrow => seq!['=', '>'],
        Punct::Hash => seq!['#'],
        Punct::Assign => seq!['='],
        Punct::EqEq => seq!['=', '='],
        Punct::NotEq => seq!['!', '='],
        Punct::Lt => seq!['<'],
        Punct::Le => seq!['<', '='],
        Punct::Gt => seq!['>'],
        Punct::Ge => seq!['>', '='],
        Punct::AndAnd => seq!['&', '&'],
        Punct::OrOr => seq!['|', '|'],
        Punct::Amp => seq!['&'],
        Punct::Pipe => seq!['|'],
        Punct::Caret => seq!['^'],
        Punct::Shl => seq!['<', '<'],
        Punct::Shr => seq!['>', '>'],
        Punct::Plus => seq!['+'],
        Punct::Minus => seq!['-'],
        Punct::Star => seq!['*'],
        Punct::StarStar => seq!['*', '*'],
        Punct::Slash => seq!['/'],
        Punct::Percent => seq!['%'],
        Punct::Bang => seq!['!'],
        Punct::Tilde => seq!['~'],
        Punct::PlusPlus => seq!['+', '+'],
        Punct::MinusMinus => seq!['-', '-'],
        Punct::PlusEq => seq!['+', '='],
        Punct::MinusEq => seq!['-', '='],
        Punct::StarEq => seq!['*', '='],
        Punct::SlashEq => seq!['/', '='],
        Punct::PercentEq => seq!['%', '='],
        Punct::AmpEq => seq!['&', '='],
        Punct::PipeEq => seq!['|', '='],
        Punct::CaretEq => seq!['^', '='],
    }
}

pub open spec fn is_ws(c: char) -> bool {
    c == ' ' || c == '\t' || c == '\n' || c == '\r'
}

pub open spec fn is_alpha(c: char) -> bool {
    ('a' <= c && c <= 'z') || ('A' <= c && c <= 'Z')
}

pub open spec fn is_ident_start(c: char) -> bool {
    is_alpha(c) || c == '_'
}

pub open spec fn is_ident_char(c: char) -> bool {
    is_alpha(c) || is_digit(c) || c == '_'
}

pub open spec fn is_hex_digit(c: char) -> bool {
    is_digit(c) || ('a' <= c && c <= 'f') || ('A' <= c && c <= 'F')
}

/// A word: an identifier start followed by identifier characters.
pub open spec fn is_word(w: Seq<char>) -> bool {
    &&& w.len() > 0
    &&& is_ident_start(w[0])
    &&& forall|i: int| 1 <= i < w.len() ==> is_ident_char(#[trigger] w[i])
}

/// `0x` (or `0X`) followed by at least one hexadecimal digit.
pub open spec fn is_hex_literal(w: Seq<char>) -> bool {
    &&& w.len() > 2
    &&& w[0] == '0'
    &&& (w[1] == 'x' || w[1] == 'X')
    &&& forall|i: int| 2 <= i < w.len() ==> is_hex_digit(#[trigger] w[i])
}

/// The source text that a token stands for.
pub open spec fn tok_text(t: Tok) -> Seq<char> {
    match t {
        Tok::Ident(s) => s@,
        Tok::Kw(k) => keyword_text(k),
        Tok::Int(d) => d@,
        Tok::HexInt(s) => s@,
        Tok::Address(s) => s@,
        Tok::Str(s) => seq!['"'] + s@ + seq!['"'],
        Tok::HexStr(s) => "hex"@ + seq!['"'] + s@ + seq!['"'],
        Tok::P(p) => punct_text(p),
    }
}

/// What each kind of token may hold.
pub open spec fn tok_wf(t: Tok) -> bool {
    match t {
        Tok::Ident(s) => is_word(s@) && forall|k: Keyword| s@ != keyword_text(k),
        Tok::Kw(k) => is_word(keyword_text(k)),
        Tok::Int(d) => d@.len() > 0 && forall|i: int| 0 <= i < d@.len() ==> is_digit(#[trigger] d@[i]),
        Tok::HexInt(s) => is_hex_literal(s@) && s@.len() != 42,
        Tok::Address(s) => is_hex_literal(s@) && s@.len() == 42,
        Tok::Str(_) => true,
        Tok::HexStr(_) => true,
        Tok::P(p) => 1 <= punct_text(p).len() <= 2 && !is_ident_start(punct_text(p)[0]) && !is_digit(
            punct_text(p)[0],
        ) && punct_text(p)[0] != '"',
    }
}

/// The number of bytes a character takes in UTF-8.
pub open spec fn utf8_len(c: char) -> nat {
    if (c as u32) < 0x80 {
        1
    } else if (c as u32) < 0x800 {
        2
    } else if (c as u32) < 0x10000 {
        3
    } else {
        4
    }
}

/// The byte offset of character position `i`.
pub open spec fn byte_pos(s: Seq<char>, i: int) -> nat
    decreases i,
{
    if i <= 0 || i > s.len() {
        0
    } else {
        byte_pos(s, i - 1) + utf8_len(s[i - 1])
    }
}

/// Where the whitespace and comments that start at `i` end, reading in `mode`
/// (0: between tokens, 1: inside a line comment, 2: inside a block comment);
/// `None` when a block comment is not closed.
pub open spec fn trivia_from(s: Seq<char>, i: int, mode: int) -> Option<int>
    decreases s.len() - i,
{
    if i < 0 || i >= s.len() {
        if mode == 2 { None } else { Some(s.len() as int) }
    } else if mode == 1 {
        if s[i] == '\n' { trivia_from(s, i + 1, 0) } else { trivia_from(s, i + 1, 1) }
    } else if mode == 2 {
        if s[i] == '*' && i + 1 < s.len() && s[i + 1] == '/' {
            trivia_from(s, i + 2, 0)
        } else {
            trivia_from(s, i + 1, 2)
        }
    } else if is_ws(s[i]) {
        trivia_from(s, i + 1, 0)
    } else if s[i] == '/' && i + 1 < s.len() && s[i + 1] == '/' {
        trivia_from(s, i + 2, 1)
    } else if s[i] == '/' && i + 1 < s.len() && s[i + 1] == '*' {
        trivia_from(s, i + 2, 2)
    } else {
        Some(i)
    }
}

/// A token stands at its place: its text is the source text there, and its span
/// gives the byte offsets of its character positions.
pub open spec fn token_ok(s: Seq<char>, t: Token) -> bool {
    &&& t.cstart < t.cend <= s.len()
    &&& s.subrange(t.cstart as int, t.cend as int) == tok_text(t.tok)
    &&& tok_wf(t.tok)
    &&& t.span.start == byte_pos(s, t.cstart as int)
    &&& t.span.end == byte_pos(s, t.cend as int)
}

/// The tokens cover the source: each stands at its place, and only whitespace and
/// comments lie before, between and after them.
pub open spec fn lexed(s: Seq<char>, toks: Seq<Token>) -> bool {
    &&& forall|k: int| 0 <= k < toks.len() ==> token_ok(s, #[trigger] toks[k])
    &&& toks.len() == 0 ==> trivia_from(s, 0, 0) == Some(s.len() as int)
    &&& toks.len() > 0 ==> trivia_from(s, 0, 0) == Some(toks[0].cstart as int)
    &&& forall|k: int|
        0 <= k < toks.len() - 1 ==> trivia_from(s, #[trigger] toks[k].cend as int, 0) == Some(
            toks[k + 1].cstart as int,
        )
    &&& toks.len() > 0 ==> trivia_from(s, toks.last().cend as int, 0) == Some(s.len() as int)
}

/// The position of the first quote at or after `k` that no backslash escapes:
/// where a string literal whose text starts at `k` closes.
pub open spec fn string_close(s: Seq<char>, k: int) -> Option<int>
    decreases s.len() + 1 - k,
{
    if k < 0 || k >= s.len() {
        None
    } else if s[k] == '"' {
        Some(k)
    } else if s[k] == '\\' {
        string_close(s, k + 2)
    } else {
        string_close(s, k + 1)
    }
}

/// Some operator or punctuation mark begins with `c`.
pub open spec fn starts_punct(c: char) -> bool {
    exists|p: Punct| #[trigger] punct_text(p)[0] == c
}

/// Some two-character operator is spelled `c d`.
pub open spec fn two_char_punct(c: char, d: char) -> bool {
    exists|p: Punct| #[trigger] punct_text(p).len() == 2 && punct_text(p)[0] == c && punct_text(p)[1] == d
}

/// A character that can begin a token.
pub open spec fn starts_token(c: char) -> bool {
    is_ident_start(c) || is_digit(c) || c == '"' || starts_punct(c)
}

/// `0x` (or `0X`) and a hexadecimal digit start at `i`.
pub open spec fn hex_start(s: Seq<char>, i: int) -> bool {
    &&& 0 <= i
    &&& i + 2 < s.len()
    &&& s[i] == '0'
    &&& (s[i + 1] == 'x' || s[i + 1] == 'X')
    &&& is_hex_digit(s[i + 2])
}

/// `hex"` starts at `i`.
pub open spec fn hex_quote_at(s: Seq<char>, i: int) -> bool {
    &&& 0 <= i
    &&& i + 3 < s.len()
    &&& s.subrange(i, i + 3) == "hex"@
    &&& s[i + 3] == '"'
}

/// A string literal opens at `i` and is never closed.
pub open spec fn unclosed_string_at(s: Seq<char>, i: int) -> bool {
    ||| (0 <= i < s.len() && s[i] == '"' && string_close(s, i + 1) is None)
    ||| (hex_quote_at(s, i) && string_close(s, i + 4) is None)
}

/// The token `t` read at `i..j` is the longest that can be read there: a word or
/// number takes every character that can continue it, a string ends at its first
/// unescaped quote, and an operator is read with two characters where it can.
pub open spec fn longest_at(s: Seq<char>, t: Tok, i: int, j: int) -> bool {
    match t {
        Tok::Ident(_) | Tok::Kw(_) => (j == s.len() || !is_ident_char(s[j])) && !hex_quote_at(s, i),
        Tok::Int(_) => (j == s.len() || !is_digit(s[j])) && !hex_start(s, i),
        Tok::HexInt(_) | Tok::Address(_) => j == s.len() || !is_hex_digit(s[j]),
        Tok::Str(_) => string_close(s, i + 1) == Some(j - 1),
        Tok::HexStr(_) => string_close(s, i + 4) == Some(j - 1),
        Tok::P(p) => punct_text(p).len() == 2 || !(i + 1 < s.len() && two_char_punct(s[i], s[i + 1])),
    }
}

/// A token read as long as it goes.
pub open spec fn token_max(s: Seq<char>, t: Token) -> bool {
    longest_at(s, t.tok, t.cstart as int, t.cend as int)
}

/// The text reads completely as these tokens, each read as long as it goes.
pub open spec fn lexed_max(s: Seq<char>, toks: Seq<Token>) -> bool {
    lexed(s, toks) && forall|k: int| 0 <= k < toks.len() ==> token_max(s, #[trigger] toks[k])
}

/// Where a run of tokens ends: after the last one, or at the start of the text.
pub open spec fn prefix_end(toks: Seq<Token>) -> int {
    if toks.len() == 0 { 0 } else { toks.last().cend as int }
}

/// The tokens stand at their places, each read as long as it goes, with only
/// whitespace and comments before and between them.
pub open spec fn lexed_prefix(s: Seq<char>, toks: Seq<Token>) -> bool {
    &&& forall|k: int| 0 <= k < toks.len() ==> token_ok(s, #[trigger] toks[k]) && token_max(s, toks[k])
    &&& toks.len() > 0 ==> trivia_from(s, 0, 0) == Some(toks[0].cstart as int)
    &&& forall|k: int|
        0 <= k < toks.len() - 1 ==> trivia_from(s, #[trigger] toks[k].cend as int, 0) == Some(
            toks[k + 1].cstart as int,
        )
}

/// The text up to position `i` reads as these tokens, with the whitespace and
/// comments after them reaching `i`.
pub open spec fn lexed_upto(s: Seq<char>, toks: Seq<Token>, i: int) -> bool {
    lexed_prefix(s, toks) && trivia_from(s, prefix_end(toks), 0) == Some(i)
}

fn is_ws_exec(c: char) -> (b: bool)
    ensures
        b == is_ws(c),
{
    c == ' ' || c == '\t' || c == '\n' || c == '\r'
}

fn is_alpha_exec(c: char) -> (b: bool)
    ensures
        b == is_alpha(c),
{
    ('a' <= c && c <= 'z') || ('A' <= c && c <= 'Z')
}

fn is_digit_exec(c: char) -> (b: bool)
    ensures
        b == is_digit(c),
{
    '0' <= c && c <= '9'
}

fn is_ident_char_exec(c: char) -> (b: bool)
    ensures
        b == is_ident_char(c),
{
    is_alpha_exec(c) || is_digit_exec(c) || c == '_'
}

fn is_hex_digit_exec(c: char) -> (b: bool)
    ensures
        b == is_hex_digit(c),
{
    is_digit_exec(c) || ('a' <= c && c <= 'f') || ('A' <= c && c <= 'F')
}

fn utf8_len_exec(c: char) -> (n: usize)
    ensures
        n == utf8_len(c),
{
    let u = c as u32;
    if u < 0x80 {
        1
    } else if u < 0x800 {
        2
    } else if u < 0x10000 {
        3
    } else {
        4
    }
}

proof fn lemma_byte_pos_bound(s: Seq<char>, i: int)
    requires
        0 <= i <= s.len(),
    ensures
        byte_pos(s, i) <= 4 * i,
    decreases i,
{
    if i > 0 {
        lemma_byte_pos_bound(s, i - 1);
    }
}

/// Byte offsets grow with character positions.
pub proof fn lemma_byte_pos_mono(s: Seq<char>, i: int, j: int)
    requires
        0 <= i <= j <= s.len(),
    ensures
        byte_pos(s, i) <= byte_pos(s, j),
    decreases j - i,
{
    if i < j {
        lemma_byte_pos_mono(s, i, j - 1);
    }
}

/// The byte offset of character position `i`.
pub fn byte_offset(s: &[char], i: usize) -> (r: usize)
    requires
        i <= s@.len(),
        s@.len() <= usize::MAX / 4,
    ensures
        r == byte_pos(s@, i as int),
{
    advance_bytes(s, 0, i, 0)
}

/// The byte offset of character position `j`, given that of position `i`.
fn advance_bytes(s: &[char], i: usize, j: usize, b: usize) -> (r: usize)
    requires
        i <= j <= s@.len(),
        s@.len() <= usize::MAX / 4,
        b == byte_pos(s@, i as int),
    ensures
        r == byte_pos(s@, j as int),
{
    let mut k = i;
    let mut r = b;
    while k < j
        invariant
            i <= k <= j <= s@.len(),
            s@.len() <= usize::MAX / 4,
            r == byte_pos(s@, k as int),
        decreases j - k,
    {
        proof {
            lemma_byte_pos_bound(s@, k + 1);
        }
        r = r + utf8_len_exec(s[k]);
        k = k + 1;
    }
    r
}

/// Skip whitespace and comments from position `i`: the position of the next token,
/// or of the end, or the position of a block comment that is not closed.
fn skip_trivia(s: &[char], i: usize) -> (r: Result<usize, usize>)
    requires
        i <= s@.len(),
    ensures
        r matches Ok(j) ==> trivia_from(s@, i as int, 0) == Some(j as int) && i <= j <= s@.len(),
        r is Err ==> trivia_from(s@, i as int, 0) is None,
        r matches Err(p) ==> i <= p && p + 1 < s@.len() && s@[p as int] == '/' && s@[p + 1] == '*'
            && trivia_from(s@, p + 2, 2) is None,
{
    let mut k = i;
    let mut mode: u8 = 0;
    let mut open_at = i;
    while k < s.len()
        invariant
            i <= k <= s@.len(),
            mode <= 2,
            trivia_from(s@, k as int, mode as int) == trivia_from(s@, i as int, 0),
            open_at <= s@.len(),
            mode == 2 ==> i <= open_at && open_at + 1 < s@.len() && s@[open_at as int] == '/'
                && s@[open_at + 1] == '*' && trivia_from(s@, k as int, 2) == trivia_from(
                s@,
                open_at + 2,
                2,
            ),
        decreases s@.len() - k,
    {
        let c = s[k];
        if mode == 1 {
            if c == '\n' {
                mode = 0;
            }
            k = k + 1;
        } else if mode == 2 {
            if c == '*' && k + 1 < s.len() && s[k + 1] == '/' {
                mode = 0;
                k = k + 2;
            } else {
                k = k + 1;
            }
        } else if is_ws_exec(c) {
            k = k + 1;
        } else if c == '/' && k + 1 < s.len() && s[k + 1] == '/' {
            mode = 1;
            k = k + 2;
        } else if c == '/' && k + 1 < s.len() && s[k + 1] == '*' {
            mode = 2;
            open_at = k;
            k = k + 2;
        } else {
            return Ok(k);
        }
    }
    if mode == 2 {
        Err(open_at)
    } else {
        Ok(k)
    }
}

fn keyword_of(w: &[char]) -> (r: Option<Keyword>)
    ensures
        r matches Some(k) ==> w@ == keyword_text(k),
        r is None ==> forall|k: Keyword| w@ != keyword_text(k),
{
    if chars_eq_str(w, "abstract") { return Some(Keyword::Abstract); }
    if chars_eq_str(w, "contract") { return Some(Keyword::Contract); }
    if chars_eq_str(w, "interface") { return Some(Keyword::Interface); }
    if chars_eq_str(w, "function") { return Some(Keyword::Function); }
    if chars_eq_str(w, "constructor") { return Some(Keyword::Constructor); }
    if chars_eq_str(w, "modifier") { return Some(Keyword::Modifier); }
    if chars_eq_str(w, "returns") { return Some(Keyword::Returns); }
    if chars_eq_str(w, "return") { return Some(Keyword::Return); }
    if chars_eq_str(w, "if") { return Some(Keyword::If); }
    if chars_eq_str(w, "else") { return Some(Keyword::Else); }
    if chars_eq_str(w, "while") { return Some(Keyword::While); }
    if chars_eq_str(w, "for") { return Some(Keyword::For); }
    if chars_eq_str(w, "emit") { return Some(Keyword::Emit); }
    if chars_eq_str(w, "require") { return Some(Keyword::Require); }
    if chars_eq_str(w, "revert") { return Some(Keyword::Revert); }
    if chars_eq_str(w, "delete") { return Some(Keyword::Delete); }
    if chars_eq_str(w, "selfdestruct") { return Some(Keyword::Selfdestruct); }
    if chars_eq_str(w, "new") { return Some(Keyword::New); }
    if chars_eq_str(w, "mapping") { return Some(Keyword::Mapping); }
    if chars_eq_str(w, "struct") { return Some(Keyword::Struct); }
    if chars_eq_str(w, "enum") { return Some(Keyword::Enum); }
    if chars_eq_str(w, "event") { return Some(Keyword::Event); }
    if chars_eq_str(w, "error") { return Some(Keyword::Error); }
    if chars_eq_str(w, "import") { return Some(Keyword::Import); }
    if chars_eq_str(w, "public") { return Some(Keyword::Public); }
    if chars_eq_str(w, "private") { return Some(Keyword::Private); }
    if chars_eq_str(w, "internal") { return Some(Keyword::Internal); }
    if chars_eq_str(w, "external") { return Some(Keyword::External); }
    if chars_eq_str(w, "view") { return Some(Keyword::View); }
    if chars_eq_str(w, "pure") { return Some(Keyword::Pure); }
    if chars_eq_str(w, "payable") { return Some(Keyword::Payable); }
    if chars_eq_str(w, "memory") { return Some(Keyword::Memory); }
    if chars_eq_str(w, "storage") { return Some(Keyword::Storage); }
    if chars_eq_str(w, "calldata") { return Some(Keyword::Calldata); }
    if chars_eq_str(w, "indexed") { return Some(Keyword::Indexed); }
    if chars_eq_str(w, "true") { return Some(Keyword::True); }
    if chars_eq_str(w, "false") { return Some(Keyword::False); }
    assert forall|k: Keyword| w@ != keyword_text(k) by {
        match k {
            _ => {},
        }
    }
    None
}

/// The operator or punctuation that starts at `i`, longest first.
fn lex_punct(s: &[char], i: usize) -> (r: Option<Punct>)
    requires
        i < s@.len(),
    ensures
        r matches Some(p) ==> i + punct_text(p).len() <= s@.len() && s@.subrange(
            i as int,
            i + punct_text(p).len(),
        ) == punct_text(p),
        r matches Some(p) ==> punct_text(p).len() == 2 || !(i + 1 < s@.len() && two_char_punct(
            s@[i as int],
            s@[i + 1],
        )),
        r is None ==> !starts_punct(s@[i as int]),
{
    let c = s[i];
    if i + 1 < s.len() {
        let d = s[i + 1];
        let two = if c == '=' && d == '=' {
            Some(Punct::EqEq)
        } else if c == '=' && d == '>' {
            Some(Punct::FatArrow)
        } else if c == '!' && d == '=' {
            Some(Punct::NotEq)
        } else if c == '<' && d == '=' {
            Some(Punct::Le)
        } else if c == '<' && d == '<' {
            Some(Punct::Shl)
        } else if c == '>' && d == '=' {
            Some(Punct::Ge)
        } else if c == '>' && d == '>' {
            Some(Punct::Shr)
        } else if c == '&' && d == '&' {
            Some(Punct::AndAnd)
        } else if c == '&' && d == '=' {
            Some(Punct::AmpEq)
        } else if c == '|' && d == '|' {
            Some(Punct::OrOr)
        } else if c == '|' && d == '=' {
            Some(Punct::PipeEq)
        } else if c == '^' && d == '=' {
            Some(Punct::CaretEq)
        } else if c == '+' && d == '+' {
            Some(Punct::PlusPlus)
        } else if c == '+' && d == '=' {
            Some(Punct::PlusEq)
        } else if c == '-' && d == '-' {
            Some(Punct::MinusMinus)
        } else if c == '-' && d == '=' {
            Some(Punct::MinusEq)
        } else if c == '*' && d == '*' {
            Some(Punct::StarStar)
        } else if c == '*' && d == '=' {
            Some(Punct::StarEq)
        } else if c == '/' && d == '=' {
            Some(Punct::SlashEq)
        } else if c == '%' && d == '=' {
            Some(Punct::PercentEq)
        } else if c == ':' && d == ':' {
            Some(Punct::ColonColon)
        } else {
            None
        };
        if two.is_some() {
            assert(s@.subrange(i as int, i + 2) =~= seq![c, d]);
            return two;
        }
        assert forall|p: Punct|
            !(#[trigger] punct_text(p).len() == 2 && punct_text(p)[0] == c && punct_text(p)[1] == d) by {
            match p {
                _ => {},
            }
        }
    }
    let one = if c == '(' {
        Some(Punct::LParen)
    } else if c == ')' {
        Some(Punct::RParen)
    } else if c == '{' {
        Some(Punct::LBrace)
    } else if c == '}' {
        Some(Punct::RBrace)
    } else if c == '[' {
        Some(Punct::LBracket)
    } else if c == ']' {
        Some(Punct::RBracket)
    } else if c == ';' {
        Some(Punct::Semi)
    } else if c == ',' {
        Some(Punct::Comma)
    } else if c == '.' {
        Some(Punct::Dot)
    } else if c == ':' {
        Some(Punct::Colon)
    } else if c == '?' {
        Some(Punct::Question)
    } else if c == '#' {
        Some(Punct::Hash)
    } else if c == '=' {
        Some(Punct::Assign)
    } else if c == '<' {
        Some(Punct::Lt)
    } else if c == '>' {
        Some(Punct::Gt)
    } else if c == '&' {
        Some(Punct::Amp)
    } else if c == '|' {
        Some(Punct::Pipe)
    } else if c == '^' {
        Some(Punct::Caret)
    } else if c == '+' {
        Some(Punct::Plus)
    } else if c == '-' {
        Some(Punct::Minus)
    } else if c == '*' {
        Some(Punct::Star)
    } else if c == '/' {
        Some(Punct::Slash)
    } else if c == '%' {
        Some(Punct::Percent)
    } else if c == '!' {
        Some(Punct::Bang)
    } else if c == '~' {
        Some(Punct::Tilde)
    } else {
        None
    };
    assert(s@.subrange(i as int, i + 1) =~= seq![c]);
    if one.is_none() {
        assert forall|p: Punct| #[trigger] punct_text(p)[0] != c by {
            match p {
                _ => {},
            }
        }
    }
    one
}


/// The length of an operator's text.
pub fn punct_len(p: Punct) -> (n: usize)
    ensures
        n == punct_text(p).len(),
        1 <= n <= 2,
{
    match p {
        Punct::ColonColon | Punct::FatArrow | Punct::EqEq | Punct::NotEq | Punct::Le | Punct::Ge
        | Punct::AndAnd | Punct::OrOr | Punct::Shl | Punct::Shr | Punct::StarStar
        | Punct::PlusPlus | Punct::MinusMinus | Punct::PlusEq | Punct::MinusEq | Punct::StarEq
        | Punct::SlashEq | Punct::PercentEq | Punct::AmpEq | Punct::PipeEq | Punct::CaretEq => 2,
        _ => 1,
    }
}

/// The characters at positions `i..j`.
fn slice_chars(s: &[char], i: usize, j: usize) -> (v: Vec<char>)
    requires
        i <= j <= s@.len(),
    ensures
        v@ == s@.subrange(i as int, j as int),
{
    let mut v: Vec<char> = Vec::new();
    let mut k = i;
    while k < j
        invariant
            i <= k <= j <= s@.len(),
            v@ == s@.subrange(i as int, k as int),
        decreases j - k,
    {
        v.push(s[k]);
        k = k + 1;
        assert(v@ =~= s@.subrange(i as int, k as int));
    }
    v
}

/// The end of the identifier characters that start at `i`.
fn scan_ident_chars(s: &[char], i: usize) -> (j: usize)
    requires
        i <= s@.len(),
    ensures
        i <= j <= s@.len(),
        forall|k: int| i <= k < j ==> is_ident_char(#[trigger] s@[k]),
        j < s@.len() ==> !is_ident_char(s@[j as int]),
{
    let mut j = i;
    while j < s.len() && is_ident_char_exec(s[j])
        invariant
            i <= j <= s@.len(),
            forall|k: int| i <= k < j ==> is_ident_char(#[trigger] s@[k]),
        decreases s@.len() - j,
    {
        j = j + 1;
    }
    j
}

/// The end of the decimal digits that start at `i`.
fn scan_digits(s: &[char], i: usize) -> (j: usize)
    requires
        i <= s@.len(),
    ensures
        i <= j <= s@.len(),
        forall|k: int| i <= k < j ==> is_digit(#[trigger] s@[k]),
        i < s@.len() && is_digit(s@[i as int]) ==> i < j,
        j < s@.len() ==> !is_digit(s@[j as int]),
{
    let mut j = i;
    while j < s.len() && is_digit_exec(s[j])
        invariant
            i <= j <= s@.len(),
            forall|k: int| i <= k < j ==> is_digit(#[trigger] s@[k]),
        decreases s@.len() - j,
    {
        j = j + 1;
    }
    j
}

/// The end of the hexadecimal digits that start at `i`.
fn scan_hex_digits(s: &[char], i: usize) -> (j: usize)
    requires
        i <= s@.len(),
    ensures
        i <= j <= s@.len(),
        forall|k: int| i <= k < j ==> is_hex_digit(#[trigger] s@[k]),
        i < s@.len() && is_hex_digit(s@[i as int]) ==> i < j,
        j < s@.len() ==> !is_hex_digit(s@[j as int]),
{
    let mut j = i;
    while j < s.len() && is_hex_digit_exec(s[j])
        invariant
            i <= j <= s@.len(),
            forall|k: int| i <= k < j ==> is_hex_digit(#[trigger] s@[k]),
        decreases s@.len() - j,
    {
        j = j + 1;
    }
    j
}

/// The position of the quote that closes a string literal whose text starts at `i`.
fn scan_string_body(s: &[char], i: usize) -> (r: Option<usize>)
    requires
        i <= s@.len(),
        s@.len() <= usize::MAX / 4,
    ensures
        r matches Some(k) ==> i <= k < s@.len() && s@[k as int] == '"',
        r matches Some(k) ==> string_close(s@, i as int) == Some(k as int),
        r is None ==> string_close(s@, i as int) is None,
{
    let mut k = i;
    while k < s.len()
        invariant
            i <= k <= s@.len() + 1,
            s@.len() <= usize::MAX / 4,
            string_close(s@, k as int) == string_close(s@, i as int),
        decreases s@.len() + 1 - k,
    {
        let c = s[k];
        if c == '"' {
            return Some(k);
        }
        if c == '\\' {
            k = k + 2;
        } else {
            k = k + 1;
        }
    }
    None
}

/// One token starting at position `i`, and the position after it.
fn lex_one(s: &[char], i: usize) -> (r: Result<(Tok, usize), LexError>)
    requires
        i < s@.len(),
        s@.len() <= usize::MAX / 4,
    ensures
        r matches Ok((t, j)) ==> i < j <= s@.len() && s@.subrange(i as int, j as int) == tok_text(t)
            && tok_wf(t),
        r matches Ok((t, j)) ==> longest_at(s@, t, i as int, j as int),
        r matches Err(e) ==> (e == LexError::UnexpectedChar(i) && !starts_token(s@[i as int])) || (e
            == LexError::UnterminatedString(i) && unclosed_string_at(s@, i as int)),
{
    proof {
        reveal_strlit("hex");
    }
    let c = s[i];
    if is_alpha_exec(c) || c == '_' {
        let j = scan_ident_chars(s, i + 1);
        let word = slice_chars(s, i, j);
        if j < s.len() && s[j] == '"' && chars_eq_str(word.as_slice(), "hex") {
            match scan_string_body(s, j + 1) {
                Some(k) => {
                    let body = slice_chars(s, j + 1, k);
                    let content = string_of(body.as_slice());
                    assert(s@.subrange(i as int, k + 1) =~= "hex"@ + seq!['"'] + content@ + seq!['"']);
                    return Ok((Tok::HexStr(content), k + 1));
                },
                None => {
                    assert(word@ == "hex"@);
                    assert("hex"@.len() == 3);
                    assert(word@.len() == j - i);
                    assert(j == i + 3);
                    assert(s@.subrange(i as int, i + 3) == "hex"@);
                    assert(hex_quote_at(s@, i as int));
                    return Err(LexError::UnterminatedString(i));
                },
            }
        }
        assert(!hex_quote_at(s@, i as int)) by {
            if hex_quote_at(s@, i as int) {
                assert(s@.subrange(i as int, i + 3)[1] == 'e');
                assert(s@.subrange(i as int, i + 3)[2] == 'x');
                assert(s@[i + 1] == 'e' && s@[i + 2] == 'x');
                assert(is_ident_char(s@[i + 1]) && is_ident_char(s@[i + 2]));
                assert(!is_ident_char(s@[i + 3]));
                assert(j == i + 3);
                assert(word@ =~= "hex"@);
            }
        }
        match keyword_of(word.as_slice()) {
            Some(k) => {
                return Ok((Tok::Kw(k), j));
            },
            None => {
                let name = string_of(word.as_slice());
                assert(is_word(name@));
                return Ok((Tok::Ident(name), j));
            },
        }
    }
    if is_digit_exec(c) {
        if c == '0' && i + 2 < s.len() && (s[i + 1] == 'x' || s[i + 1] == 'X') && is_hex_digit_exec(
            s[i + 2],
        ) {
            let j = scan_hex_digits(s, i + 2);
            let text = slice_chars(s, i, j);
            let t = string_of(text.as_slice());
            assert(t@[0] == s@[i as int]);
            assert(t@[1] == s@[i + 1]);
            assert forall|k: int| 2 <= k < t@.len() implies is_hex_digit(#[trigger] t@[k]) by {
                assert(t@[k] == s@[i + k]);
            }
            assert(is_hex_literal(t@));
            if j - i == 42 {
                return Ok((Tok::Address(t), j));
            } else {
                return Ok((Tok::HexInt(t), j));
            }
        }
        let j = scan_digits(s, i);
        let digits = slice_chars(s, i, j);
        return Ok((Tok::Int(digits), j));
    }
    if c == '"' {
        match scan_string_body(s, i + 1) {
            Some(k) => {
                let body = slice_chars(s, i + 1, k);
                let content = string_of(body.as_slice());
                assert(s@.subrange(i as int, k + 1) =~= seq!['"'] + content@ + seq!['"']);
                return Ok((Tok::Str(content), k + 1));
            },
            None => {
                return Err(LexError::UnterminatedString(i));
            },
        }
    }
    match lex_punct(s, i) {
        Some(p) => {
            let j = i + punct_len(p);
            Ok((Tok::P(p), j))
        },
        None => Err(LexError::UnexpectedChar(i)),
    }
}

/// Split source text into tokens, skipping whitespace and comments, each token
/// read as long as it goes. An error gives the place where reading stopped, with
/// everything before it read.
pub fn tokenize(s: &[char]) -> (r: Result<Vec<Token>, LexError>)
    requires
        s@.len() <= usize::MAX / 4,
    ensures
        r matches Ok(toks) ==> lexed_max(s@, toks@),
        r is Ok <==> exists|toks: Seq<Token>| lexed_max(s@, toks),
        r matches Err(LexError::UnexpectedChar(i)) ==> i < s@.len() && !starts_token(s@[i as int])
            && exists|toks: Seq<Token>| lexed_upto(s@, toks, i as int),
        r matches Err(LexError::UnterminatedString(i)) ==> unclosed_string_at(s@, i as int) && exists|
            toks: Seq<Token>,
        | lexed_upto(s@, toks, i as int),
        r matches Err(LexError::UnterminatedComment(p)) ==> p + 1 < s@.len() && s@[p as int] == '/'
            && s@[p + 1] == '*' && trivia_from(s@, p + 2, 2) is None && exists|toks: Seq<Token>|
            lexed_prefix(s@, toks) && prefix_end(toks) <= p && trivia_from(s@, prefix_end(toks), 0) is None,
{
    let mut toks: Vec<Token> = Vec::new();
    let mut i = match skip_trivia(s, 0) {
        Ok(j) => j,
        Err(p) => {
            assert(lexed_prefix(s@, toks@));
            proof {
                lemma_no_reading(s@, toks@, 0);
            }
            return Err(LexError::UnterminatedComment(p));
        },
    };
    let mut b = advance_bytes(s, 0, i, 0);
    while i < s.len()
        invariant
            i <= s@.len(),
            s@.len() <= usize::MAX / 4,
            b == byte_pos(s@, i as int),
            forall|k: int| 0 <= k < toks@.len() ==> token_ok(s@, #[trigger] toks@[k]),
            forall|k: int| 0 <= k < toks@.len() ==> token_max(s@, #[trigger] toks@[k]),
            toks@.len() == 0 ==> trivia_from(s@, 0, 0) == Some(i as int),
            toks@.len() > 0 ==> trivia_from(s@, 0, 0) == Some(toks@[0].cstart as int),
            forall|k: int|
                0 <= k < toks@.len() - 1 ==> trivia_from(s@, #[trigger] toks@[k].cend as int, 0)
                    == Some(toks@[k + 1].cstart as int),
            toks@.len() > 0 ==> trivia_from(s@, toks@.last().cend as int, 0) == Some(i as int),
        decreases s@.len() - i,
    {
        assert(lexed_upto(s@, toks@, i as int));
        let (t, j) = match lex_one(s, i) {
            Ok(p) => p,
            Err(e) => {
                proof {
                    lemma_no_reading(s@, toks@, i as int);
                }
                return Err(e);
            },
        };
        let bj = advance_bytes(s, i, j, b);
        let ghost old_toks = toks@;
        toks.push(Token { tok: t, cstart: i, cend: j, span: Span { start: b, end: bj } });
        assert forall|k: int| 0 <= k < toks@.len() - 1 implies trivia_from(
            s@,
            #[trigger] toks@[k].cend as int,
            0,
        ) == Some(toks@[k + 1].cstart as int) by {
            if k < old_toks.len() - 1 {
                assert(toks@[k] == old_toks[k]);
                assert(toks@[k + 1] == old_toks[k + 1]);
            }
        }
        assert(lexed_prefix(s@, toks@));
        let next = match skip_trivia(s, j) {
            Ok(n) => n,
            Err(p) => {
                proof {
                    lemma_no_reading(s@, toks@, 0);
                }
                return Err(LexError::UnterminatedComment(p));
            },
        };
        i = next;
        b = advance_bytes(s, j, next, bj);
    }
    assert(lexed_max(s@, toks@));
    Ok(toks)
}

} // verus!
