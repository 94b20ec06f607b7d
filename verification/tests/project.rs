use blacc::error::ErrorKind;
use blacc::project::{black_section, read_config, rename_keys};
use toml::value::{Table, Value};

fn kind(text: &str) -> ErrorKind {
    read_config(text).unwrap_err().kind
}

fn table(entries: &[(&str, i64)]) -> Table {
    let mut table = Table::new();
    for (key, value) in entries {
        table.insert(key.to_string(), Value::Integer(*value));
    }
    table
}

fn listed(table: &Table) -> Vec<(String, i64)> {
    table.iter().map(|(key, value)| (key.clone(), value.as_integer().unwrap())).collect()
}

#[test]
fn sections_are_read_with_underscores() {
    let section = read_config(
        "[tool.poetry]\nname = 'x'\n[tool.black]\nline-length = 100\npyi = true\n\
         skip-string-normalization = false\ntarget-version = ['py36']\n",
    )
    .unwrap();
    let keys: Vec<&str> = section.keys().map(|key| key.as_str()).collect();
    assert_eq!(keys, vec!["line_length", "pyi", "skip_string_normalization", "target_version"]);
    assert_eq!(section["line_length"].as_integer(), Some(100));
    assert_eq!(section["pyi"].as_bool(), Some(true));
    assert_eq!(section["skip_string_normalization"].as_bool(), Some(false));
    assert_eq!(section["target_version"][0].as_str(), Some("py36"));
}

#[test]
fn sections_that_cannot_be_read() {
    assert_eq!(kind("tool ="), ErrorKind::ParseToml);
    assert_eq!(kind(""), ErrorKind::NoToolSection);
    assert_eq!(kind("[other]"), ErrorKind::NoToolSection);
    assert_eq!(kind("tool = 1"), ErrorKind::NoBlackSection);
    assert_eq!(kind("[tool.poetry]"), ErrorKind::NoBlackSection);
    assert_eq!(kind("[tool]\nblack = []"), ErrorKind::BlackSectionIsNoTable);
    assert!(read_config("tool =").unwrap_err().cause.is_some());
    assert!(read_config("").unwrap_err().cause.is_none());
}

#[test]
fn an_empty_section_is_a_section() {
    assert_eq!(read_config("[tool.black]").unwrap().len(), 0);
}

#[test]
fn a_document_at_hand() {
    let mut tool = Table::new();
    tool.insert("black".to_string(), Value::Table(table(&[("a-b", 1)])));
    let mut root = Table::new();
    root.insert("tool".to_string(), Value::Table(tool));
    let section = black_section(Ok(Value::Table(root))).unwrap();
    assert_eq!(listed(&section), vec![("a_b".to_string(), 1)]);
    let failure = black_section(Ok(Value::Integer(1))).unwrap_err();
    assert_eq!(failure.kind, ErrorKind::NoToolSection);
}

#[test]
fn keys_with_dashes_win_and_the_last_of_them() {
    let mut section = table(&[("a_b", 1), ("a-b", 2)]);
    rename_keys(&mut section);
    assert_eq!(listed(&section), vec![("a_b".to_string(), 2)]);

    let mut section =
        table(&[("a-b-c", 1), ("a-b_c", 2), ("a_b-c", 3), ("a_b_c", 4), ("z", 5)]);
    rename_keys(&mut section);
    assert_eq!(listed(&section), vec![("a_b_c".to_string(), 3), ("z".to_string(), 5)]);
}

#[test]
fn renaming_twice_is_renaming_once() {
    let mut section = table(&[("a-b", 1), ("c", 2), ("--", 3)]);
    rename_keys(&mut section);
    let once = section.clone();
    rename_keys(&mut section);
    assert_eq!(section, once);
    assert_eq!(
        listed(&once),
        vec![("__".to_string(), 3), ("a_b".to_string(), 1), ("c".to_string(), 2)]
    );
}
