//! Splitting source text into tokens.

use solscript::lexer::{tokenize, Keyword, LexError, Punct, Tok, Token};

fn lex(src: &str) -> Result<Vec<Token>, LexError> {
    let chars: Vec<char> = src.chars().collect();
    tokenize(&chars)
}

fn kinds(src: &str) -> Vec<String> {
    lex(src)
        .unwrap()
        .iter()
        .map(|t| match &t.tok {
            Tok::Ident(s) => format!("id:{}", s),
            Tok::Kw(k) => format!("kw:{:?}", k),
            Tok::Int(d) => format!("int:{}", d.iter().collect::<String>()),
            Tok::HexInt(s) => format!("hex:{}", s),
            Tok::Address(s) => format!("addr:{}", s),
            Tok::Str(s) => format!("str:{}", s),
            Tok::HexStr(s) => format!("hexstr:{}", s),
            Tok::P(p) => format!("p:{:?}", p),
        })
        .collect()
}

#[test]
fn operators_take_two_characters_where_they_can() {
    assert_eq!(kinds("a<=b"), vec!["id:a", "p:Le", "id:b"]);
    assert_eq!(kinds("a< =b"), vec!["id:a", "p:Lt", "p:Assign", "id:b"]);
    assert_eq!(kinds("x+++y"), vec!["id:x", "p:PlusPlus", "p:Plus", "id:y"]);
    assert_eq!(kinds("a**=b"), vec!["id:a", "p:StarStar", "p:Assign", "id:b"]);
}

#[test]
fn words_and_numbers_take_every_character_they_can() {
    assert_eq!(kinds("abc123 _x"), vec!["id:abc123", "id:_x"]);
    assert_eq!(kinds("contracts contract"), vec!["id:contracts", "kw:Contract"]);
    assert_eq!(kinds("123abc"), vec!["int:123", "id:abc"]);
    assert_eq!(kinds("0x1fz"), vec!["hex:0x1f", "id:z"]);
    assert_eq!(kinds("0xg"), vec!["int:0", "id:xg"]);
}

#[test]
fn addresses_have_forty_hex_digits() {
    let addr = "0x1234567890123456789012345678901234567890";
    assert_eq!(kinds(addr), vec![format!("addr:{}", addr)]);
    let shorter = "0x123456789012345678901234567890123456789";
    assert_eq!(kinds(shorter), vec![format!("hex:{}", shorter)]);
}

#[test]
fn strings_end_at_the_first_unescaped_quote() {
    assert_eq!(kinds(r#""a\"b" c"#), vec![r#"str:a\"b"#, "id:c"]);
    assert_eq!(kinds(r#"hex"00ff""#), vec!["hexstr:00ff"]);
    assert_eq!(kinds(r#"hexa"x""#), vec!["id:hexa", "str:x"]);
}

#[test]
fn comments_and_whitespace_are_skipped() {
    assert_eq!(kinds("a // line\n/* block */ b"), vec!["id:a", "id:b"]);
    assert_eq!(kinds("  \t\n"), Vec::<String>::new());
}

#[test]
fn token_places_are_character_and_byte_positions() {
    let toks = lex("/*\u{e9}*/ ab").unwrap();
    assert_eq!(toks.len(), 1);
    assert_eq!((toks[0].cstart, toks[0].cend), (6, 8));
    assert_eq!((toks[0].span.start, toks[0].span.end), (7, 9));
    assert_eq!(lex("\u{e9}").unwrap_err(), LexError::UnexpectedChar(0));
}

#[test]
fn reading_stops_where_no_token_starts() {
    assert_eq!(lex("a @ b").unwrap_err(), LexError::UnexpectedChar(2));
    assert_eq!(lex("x = \"abc").unwrap_err(), LexError::UnterminatedString(4));
    assert_eq!(lex("x hex\"ab").unwrap_err(), LexError::UnterminatedString(2));
    assert_eq!(lex("x /* open").unwrap_err(), LexError::UnterminatedComment(2));
    assert_eq!(lex("/* open").unwrap_err(), LexError::UnterminatedComment(0));
}

#[test]
fn keywords_and_punctuation() {
    let toks = lex("function f() public {}").unwrap();
    assert!(matches!(toks[0].tok, Tok::Kw(Keyword::Function)));
    assert!(matches!(toks[2].tok, Tok::P(Punct::LParen)));
    assert!(matches!(toks[4].tok, Tok::Kw(Keyword::Public)));
    assert_eq!(toks.len(), 7);
}
