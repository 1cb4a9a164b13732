use update_server::config::{lookup_var, trim_token_suffixes, ProductConfig, ProductTable};

fn vars(list: &[(&str, &str)]) -> Vec<(String, String)> {
    list.iter()
        .map(|(k, v)| (k.to_string(), v.to_string()))
        .collect()
}

#[test]
fn products_come_from_token_owner_and_repo() {
    let v = vars(&[
        ("NATURLAND_TOKEN", "SECRET-REDACTED"),
        ("NATURLAND_OWNER", "kwalis"),
        ("NATURLAND_REPO", "naturland"),
        ("PATH", "/usr/bin"),
    ]);
    let table = ProductTable::from_vars(&v);
    let c = table.get("naturland").unwrap();
    assert_eq!(c.github_token, "SECRET-REDACTED");
    assert_eq!(c.repo_owner, "kwalis");
    assert_eq!(c.repo_name, "naturland");
    let c = table.get("NaturLand").unwrap();
    assert_eq!(c.repo_owner, "kwalis");
    assert!(table.get("path").is_none());
}

#[test]
fn product_without_repo_is_left_out() {
    let v = vars(&[("LUMINA_TOKEN", "t"), ("LUMINA_OWNER", "o")]);
    let table = ProductTable::from_vars(&v);
    assert!(table.get("lumina").is_none());
}

#[test]
fn empty_environment_gives_empty_table() {
    let table = ProductTable::from_vars(&Vec::new());
    assert!(table.get("anything").is_none());
}

#[test]
fn every_token_suffix_is_trimmed() {
    assert_eq!(trim_token_suffixes("A_TOKEN_TOKEN"), "A");
    assert_eq!(trim_token_suffixes("A_TOKEN"), "A");
    assert_eq!(trim_token_suffixes("A_token"), "A_token");
    assert_eq!(trim_token_suffixes("_TOKEN"), "");
    let v = vars(&[("A_TOKEN_TOKEN", "t"), ("A_OWNER", "o"), ("A_REPO", "r")]);
    assert_eq!(ProductTable::from_vars(&v).get("a").unwrap().github_token, "t");
}

#[test]
fn insert_overrides_and_lookup_lower_cases() {
    let mut table = ProductTable::new();
    let cfg = |t: &str| ProductConfig {
        github_token: t.to_string(),
        repo_owner: "o".to_string(),
        repo_name: "r".to_string(),
    };
    table.insert("lumina".to_string(), cfg("one"));
    table.insert("lumina".to_string(), cfg("two"));
    assert_eq!(table.get("LUMINA").unwrap().github_token, "two");
}

#[test]
fn variable_lookup_takes_first() {
    let v = vars(&[("K", "1"), ("K", "2")]);
    assert_eq!(lookup_var(&v, "K"), Some("1".to_string()));
    assert_eq!(lookup_var(&v, "k"), None);
}
