//! Project configuration and packages.

use solscript::config::{dependency_from_args, dependency_source, Config, BuildConfig, ContractConfig, Dependency, DependencySpec, ProjectConfig, SolanaConfig};
use solscript::package::{archive_name_of, release_url_of, reset_target, InstalledPackages, PackageManager};

fn empty_config() -> Config {
    Config {
        project: ProjectConfig {
            name: "demo".to_string(),
            version: "0.1.0".to_string(),
            authors: vec![],
            description: String::new(),
            license: None,
            repository: None,
        },
        contract: ContractConfig::default(),
        build: BuildConfig::default(),
        solana: SolanaConfig::default(),
        dependencies: vec![],
    }
}

#[test]
fn dependency_accessors() {
    let v = Dependency::Version("1.2.3".to_string());
    assert_eq!(v.version(), Some("1.2.3"));
    assert!(!v.is_git());
    assert!(!v.is_path());
    let mut spec = DependencySpec::default();
    spec.github = Some("owner/repo".to_string());
    spec.branch = Some("main".to_string());
    spec.tag = Some("v1".to_string());
    let g = Dependency::Detailed(spec);
    assert!(g.is_git());
    assert_eq!(g.git_url(), Some("https://github.com/owner/repo.git".to_string()));
    assert_eq!(g.git_ref(), Some("v1".to_string()));
    let mut local = DependencySpec::default();
    local.path = Some("../lib".to_string());
    let l = Dependency::Detailed(local);
    assert!(l.is_path());
    assert_eq!(l.local_path(), Some("../lib"));
}

#[test]
fn add_then_remove_dependency() {
    let mut c = empty_config();
    c.add_dependency("math".to_string(), Dependency::Version("1.0".to_string()));
    c.add_dependency("math".to_string(), Dependency::Version("2.0".to_string()));
    assert_eq!(c.dependencies.len(), 1);
    match &c.dependencies[0].1 {
        Dependency::Version(v) => assert_eq!(v, "2.0"),
        other => panic!("unexpected: {:?}", other),
    }
    let removed = c.remove_dependency("math");
    assert!(matches!(removed, Some(Dependency::Version(_))));
    assert!(c.dependencies.is_empty());
    assert!(c.remove_dependency("math").is_none());
}

#[test]
fn config_search_walks_up() {
    let paths = Config::search_paths("/a/b");
    assert_eq!(paths[0], "/a/b/solscript.toml");
    let found = Config::find("/a/b", &vec!["/a/solscript.toml".to_string()]);
    assert_eq!(found, Some("/a/solscript.toml".to_string()));
    assert_eq!(Config::find("/a/b", &vec![]), None);
}

#[test]
fn package_paths() {
    let m = PackageManager::new("/proj".to_string());
    assert_eq!(m.project_root(), "/proj");
    assert_eq!(m.package_dir("math"), format!("{}/math", m.packages_dir()));
    assert_eq!(release_url_of("math", "1.0"), release_url_of("math", "1.0"));
    assert!(archive_name_of("math", "1.0").contains("math"));
    assert_eq!(reset_target(&Some("v1".to_string())), "origin/v1");
    let installed = InstalledPackages::new();
    assert!(installed.get("math").is_none());
}

#[test]
fn dependency_from_arguments() {
    let d = dependency_from_args(Some("1.0".to_string()), None, None, None, None, None);
    assert!(matches!(d, Dependency::Version(ref v) if v == "1.0"));
    assert_eq!(dependency_source(&d), "version: 1.0");
    let any = dependency_from_args(None, None, None, None, None, None);
    assert!(matches!(any, Dependency::Version(ref v) if v == "*"));
    let gh = dependency_from_args(Some("2".to_string()), Some("o/r".to_string()), None, Some("v1".to_string()), None, None);
    assert_eq!(dependency_source(&gh), "git: https://github.com/o/r.git (v1)");
    let git = dependency_from_args(None, None, Some("https://x/y.git".to_string()), None, None, None);
    assert_eq!(dependency_source(&git), "git: https://x/y.git (HEAD)");
    let local = dependency_from_args(None, Some("o/r".to_string()), None, None, None, Some("../lib".to_string()));
    assert_eq!(dependency_source(&local), "path: ../lib");
}
