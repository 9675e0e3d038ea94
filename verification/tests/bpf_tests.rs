//! Compile options, tool detection and build commands.

use solscript::bpf::{build_command, release_opt_level, BpfError, CompileOptions, ToolStatus};

#[test]
fn test_default_options() {
    let opts = CompileOptions::default();
    assert_eq!(opts.opt_level, 2);
    assert!(!opts.debug_info);
    assert!(opts.use_cargo_sbf);
}

#[test]
fn test_tool_status_can_build() {
    let status = ToolStatus {
        cargo_build_sbf: Some("1.0".to_string()),
        cargo_build_bpf: None,
        solana_cli: None,
        anchor: None,
        llvm_available: false,
    };
    assert!(status.can_build());
}

#[test]
fn tool_status_without_tools_cannot_build() {
    let status = ToolStatus {
        cargo_build_sbf: None,
        cargo_build_bpf: None,
        solana_cli: Some("1.18".to_string()),
        anchor: None,
        llvm_available: false,
    };
    assert!(!status.can_build());
    let legacy = ToolStatus {
        cargo_build_sbf: None,
        cargo_build_bpf: Some("1.0".to_string()),
        solana_cli: None,
        anchor: None,
        llvm_available: false,
    };
    assert!(legacy.can_build());
}

#[test]
fn build_command_prefers_sbf() {
    assert_eq!(build_command(true, true).ok(), Some("build-sbf".to_string()));
    assert_eq!(build_command(false, true).ok(), Some("build-bpf".to_string()));
    match build_command(false, false) {
        Err(BpfError::ToolNotFound(_)) => {}
        other => panic!("unexpected: {:?}", other),
    }
}

#[test]
fn release_opt_levels() {
    assert_eq!(release_opt_level(0), None);
    assert_eq!(release_opt_level(1), Some("1".to_string()));
    assert_eq!(release_opt_level(3), Some("3".to_string()));
    assert_eq!(release_opt_level(9), Some("3".to_string()));
}
