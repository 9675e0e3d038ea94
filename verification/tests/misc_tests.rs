//! Spans, type paths, parse errors, packages and the program id of a build.

use solscript::ast::Ident;
use solscript::base58::base58_encode;
use solscript::chars::is_whitespace;
use solscript::bpf::{choose_build_mode, read_program_id, BpfError, BuildMode};
use solscript::config::{Dependency, DependencySpec};
use solscript::package::{release_alt_url_of, release_url_of, InstallAction, PackageManager};
use solscript::parse_error::ParseError;
use solscript::span::Span;
use solscript::types::TypePath;

fn ident(n: &str) -> Ident {
    Ident { name: n.to_string(), span: Span::dummy() }
}

#[test]
fn spans() {
    assert!(Span::dummy().is_dummy());
    assert!(!Span::new(1, 4).is_dummy());
    let m = Span::new(5, 9).merge(Span::new(2, 6));
    assert_eq!((m.start, m.end), (2, 9));
    assert_eq!(m.len(), 7);
}

#[test]
fn default_span_is_the_dummy_span() {
    let d = Span::default();
    assert_eq!(d, Span::dummy());
    assert_eq!(d, Span::new(0, 0));
    assert!(d.is_dummy());
    assert!(d.is_empty());
    assert_eq!(d.len(), 0);
}

#[test]
fn type_paths() {
    let p = TypePath { segments: vec![ident("lib"), ident("Token")], generic_args: None, span: Span::dummy() };
    assert_eq!(p.full_path(), "lib::Token");
    assert_eq!(p.name(), "Token");
    assert!(!p.is_simple());
    let q = TypePath { segments: vec![ident("uint256")], generic_args: None, span: Span::dummy() };
    assert!(q.is_simple());
    assert_eq!(q.full_path(), "uint256");
}

#[test]
fn parse_error_constructors() {
    let e = ParseError::unexpected_token("identifier", "}", (3, 4), "a {}");
    assert_eq!((e.span().start, e.span().end), (3, 4));
    assert!(matches!(e, ParseError::UnexpectedToken { .. }));
    let i = ParseError::invalid_int("too large", (0, 2), "99");
    assert!(matches!(i, ParseError::InvalidInt { .. }));
    assert_eq!((i.span().start, i.span().end), (0, 2));
}

#[test]
fn package_locations_and_actions() {
    let m = PackageManager::new("/proj".to_string());
    assert_eq!(m.package_source_dir("math"), format!("{}/src", m.package_dir("math")));
    assert_ne!(release_alt_url_of("math", "1.0"), release_url_of("math", "1.0"));
    assert!(release_alt_url_of("math", "1.0").contains("math"));
    let git = Dependency::Detailed(DependencySpec {
        version: None,
        git: Some("https://x/y.git".to_string()),
        branch: None,
        tag: None,
        rev: None,
        path: None,
        github: None,
    });
    assert!(matches!(m.install_action("y", &git, true), InstallAction::UpdateGit(_)));
    assert!(matches!(m.install_action("y", &git, false), InstallAction::CloneGit(_)));
    let v = Dependency::Version("1.0".to_string());
    assert!(matches!(m.install_action("v", &v, true), InstallAction::Installed(_)));
    assert!(matches!(m.install_action("v", &v, false), InstallAction::Download(_)));
}

fn keypair_json(bytes: &[u8]) -> String {
    let parts: Vec<String> = bytes.iter().map(|b| b.to_string()).collect();
    format!("[{}]", parts.join(","))
}

#[test]
fn program_id_is_read_from_the_keypair() {
    let bytes: Vec<u8> = (0u8..64).collect();
    let text = keypair_json(&bytes);
    assert_eq!(
        read_program_id(Some(text.as_str())),
        Some("3ARMH9zfVCnU2TKiphU4xcEyWdA45fc1sjKEtYMdf3gr".to_string())
    );
    let mut zeros = vec![7u8; 32];
    zeros.extend(vec![0u8; 32]);
    assert_eq!(read_program_id(Some(keypair_json(&zeros).as_str())), Some("1".repeat(32)));
    let mut one = vec![0u8; 63];
    one.push(1);
    assert_eq!(
        read_program_id(Some(keypair_json(&one).as_str())),
        Some("11111111111111111111111111111112".to_string())
    );
}

#[test]
fn program_id_needs_a_keypair_file() {
    assert_eq!(read_program_id(None), None);
    assert_eq!(read_program_id(Some("not json")), None);
    assert_eq!(read_program_id(Some("[1,2,3]")), None);
    assert_eq!(read_program_id(Some("[1,2,300]")), None);
}

#[test]
fn base58_of_bytes() {
    assert_eq!(base58_encode(&[]), "");
    assert_eq!(base58_encode(&[0, 0, 1]), "112");
    assert_eq!(base58_encode(&[255]), "5Q");
    assert_eq!(base58_encode(&[0, 0, 0]), "111");
}

#[test]
fn build_mode_follows_the_options() {
    assert_eq!(choose_build_mode(true, false).unwrap(), BuildMode::Anchor);
    assert_eq!(choose_build_mode(true, true).unwrap(), BuildMode::Anchor);
    assert_eq!(choose_build_mode(false, true).unwrap(), BuildMode::DirectLlvm);
    match choose_build_mode(false, false) {
        Err(BpfError::BuildError(m)) => assert_eq!(m, "Direct LLVM compilation requires the 'llvm' feature"),
        _ => panic!("expected a build error"),
    }
}

#[test]
fn whitespace_is_the_unicode_white_space_set() {
    for c in ['\t', '\n', '\u{0B}', '\u{0C}', '\r', ' ', '\u{85}', '\u{A0}', '\u{1680}', '\u{2000}', '\u{200A}', '\u{2028}', '\u{2029}', '\u{202F}', '\u{205F}', '\u{3000}'] {
        assert!(is_whitespace(c), "{:?}", c);
    }
    for c in ['a', '0', '_', '\u{08}', '\u{0E}', '\u{180E}', '\u{200B}', '\u{FEFF}'] {
        assert!(!is_whitespace(c), "{:?}", c);
    }
}
