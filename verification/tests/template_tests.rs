//! The project templates.

use solscript::templates::{get_template, templates, Difficulty, config_content, features_list, readme_content, replace_all, to_pascal_case};

#[test]
fn test_get_template() {
    assert!(get_template("counter").is_some());
    assert!(get_template("nonexistent").is_none());
}

#[test]
fn test_all_templates_exist() {
    for id in ["simple", "counter", "token", "voting", "escrow", "nft"] {
        assert!(get_template(id).is_some(), "Template '{}' should exist", id);
    }
}

#[test]
fn template_ids_are_the_six_known() {
    let all = templates();
    let ids: Vec<String> = all.iter().map(|t| t.metadata.id.clone()).collect();
    assert_eq!(ids, vec!["simple", "counter", "token", "voting", "escrow", "nft"]);
}

#[test]
fn counter_template_is_for_beginners() {
    let t = get_template("counter").unwrap();
    assert_eq!(t.metadata.id, "counter");
    assert_eq!(t.metadata.difficulty.name(), "Beginner");
    assert!(matches!(t.metadata.difficulty, Difficulty::Beginner));
    assert!(t.gitignore.contains("target/"));
}

#[test]
fn contract_names_of_projects() {
    assert_eq!(to_pascal_case("my-token"), "MyToken");
    assert_eq!(to_pascal_case("my_cool  project"), "MyCoolProject");
    assert_eq!(to_pascal_case("--x"), "X");
    assert_eq!(to_pascal_case("straße"), "Straße");
    assert_eq!(to_pascal_case("ßig"), "SSig");
    assert_eq!(to_pascal_case(""), "");
}

#[test]
fn placeholders_are_filled() {
    assert_eq!(replace_all("a{{X}}b{{X}}", "{{X}}", "1"), "a1b1");
    assert_eq!(replace_all("aaa", "aa", "b"), "ba");
    assert_eq!(replace_all("none", "{{X}}", "1"), "none");
    let config = config_content(
        "[project]\nname = \"{{PROJECT_NAME}}\"\n# {{CONTRACT_NAME}}: {{DESCRIPTION}}\n",
        "my-app",
        "A demo",
    );
    assert_eq!(config, "[project]\nname = \"my-app\"\n# MyApp: A demo\n");
    let readme = readme_content(
        "# {{PROJECT_NAME}}\n{{FEATURES_LIST}}\n",
        "my-app",
        "A demo",
        &vec!["events".to_string(), "errors".to_string()],
    );
    assert_eq!(readme, "# my-app\n- events\n- errors\n");
    assert_eq!(features_list(&vec![]), "");
}
