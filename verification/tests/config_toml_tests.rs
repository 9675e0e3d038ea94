//! Dependencies read from a project file.

use solscript::config::{Dependency, DependencySpec};

/// The dependencies of a project file, each as the library holds it.
fn dependencies_of(text: &str) -> Vec<(String, Dependency)> {
    let table: toml::Table = text.parse().expect("valid project file");
    let deps = match table.get("dependencies") {
        Some(toml::Value::Table(t)) => t.clone(),
        _ => toml::Table::new(),
    };
    let field = |t: &toml::Table, k: &str| t.get(k).and_then(|v| v.as_str()).map(|s| s.to_string());
    deps.iter()
        .map(|(name, v)| {
            let dep = match v {
                toml::Value::String(s) => Dependency::Version(s.clone()),
                toml::Value::Table(t) => Dependency::Detailed(DependencySpec {
                    version: field(t, "version"),
                    git: field(t, "git"),
                    branch: field(t, "branch"),
                    tag: field(t, "tag"),
                    rev: field(t, "rev"),
                    path: field(t, "path"),
                    github: field(t, "github"),
                }),
                other => panic!("unexpected dependency {:?}", other),
            };
            (name.clone(), dep)
        })
        .collect()
}

fn find<'a>(deps: &'a [(String, Dependency)], name: &str) -> Option<&'a Dependency> {
    deps.iter().find(|(n, _)| n == name).map(|(_, d)| d)
}

#[test]
fn test_parse_simple_dependency() {
    let toml_str = r#"
[project]
name = "test"

[dependencies]
token = "1.0.0"
"#;
    let deps = dependencies_of(toml_str);
    assert!(find(&deps, "token").is_some());
    assert_eq!(find(&deps, "token").unwrap().version(), Some("1.0.0"));
}

#[test]
fn test_parse_git_dependency() {
    let toml_str = r#"
[project]
name = "test"

[dependencies]
token = { github = "cryptuon/token-lib", tag = "v1.0.0" }
"#;
    let deps = dependencies_of(toml_str);
    let dep = find(&deps, "token").unwrap();
    assert!(dep.is_git());
    assert_eq!(dep.git_url(), Some("https://github.com/cryptuon/token-lib.git".to_string()));
}

#[test]
fn test_parse_path_dependency() {
    let toml_str = r#"
[project]
name = "test"

[dependencies]
mylib = { path = "../mylib" }
"#;
    let deps = dependencies_of(toml_str);
    let dep = find(&deps, "mylib").unwrap();
    assert!(dep.is_path());
    assert_eq!(dep.local_path(), Some("../mylib"));
}
