//! The decisions of the command line.

use solscript::commands::{any_source_changed, confirmed, deploy_args, is_valid_cluster, needs_confirmation, test_args};

#[test]
fn clusters() {
    for c in ["localnet", "devnet", "testnet", "mainnet-beta"] {
        assert!(is_valid_cluster(c));
    }
    assert!(!is_valid_cluster("mainnet"));
    assert!(!is_valid_cluster(""));
}

#[test]
fn confirmation() {
    assert!(!needs_confirmation("localnet", false));
    assert!(needs_confirmation("devnet", false));
    assert!(!needs_confirmation("devnet", true));
    assert!(confirmed("y\n"));
    assert!(confirmed("  Y  "));
    assert!(!confirmed("yes"));
    assert!(!confirmed("\n"));
    assert!(!confirmed("n"));
}

#[test]
fn command_arguments() {
    assert_eq!(deploy_args("devnet", &None), vec!["deploy", "--provider.cluster", "devnet"]);
    assert_eq!(
        deploy_args("testnet", &Some("id.json".to_string())),
        vec!["deploy", "--provider.cluster", "testnet", "--provider.wallet", "id.json"]
    );
    assert_eq!(test_args(&None, false), vec!["test"]);
    assert_eq!(test_args(&Some("sum".to_string()), true), vec!["test", "sum", "--", "--nocapture"]);
}

#[test]
fn source_changes() {
    assert!(any_source_changed(&vec![Some("rs".to_string()), Some("sol".to_string())]));
    assert!(!any_source_changed(&vec![None, Some("toml".to_string())]));
    assert!(!any_source_changed(&vec![]));
}
