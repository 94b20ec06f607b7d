use blacc::config::{
    is_known_version, make_config, BlackConfig, Options, DEFAULT_EXCLUDE, DEFAULT_INCLUDE,
};

fn bare() -> Options {
    Options {
        url: "http://localhost:45484".to_string(),
        quiet: false,
        verbosity: 0,
        srcs: None,
        exclude: Some(DEFAULT_EXCLUDE.to_string()),
        include_pattern: Some(DEFAULT_INCLUDE.to_string()),
        line_length: None,
        target_version: None,
        skip_string_normalization: false,
        fast: false,
        safe: false,
    }
}

fn from_file() -> BlackConfig {
    BlackConfig {
        exclude: Some("vendored".to_string()),
        include_pattern: Some("py$".to_string()),
        line_length: Some(79),
        target_version: Some(vec!["py27".to_string()]),
        skip_string_normalization: Some(false),
        pyi: Some(true),
        fast: Some(false),
    }
}

#[test]
fn nothing_is_configured_by_default() {
    let config = BlackConfig::default();
    assert_eq!(config.exclude, None);
    assert_eq!(config.include_pattern, None);
    assert_eq!(config.line_length, None);
    assert_eq!(config.target_version, None);
    assert_eq!(config.skip_string_normalization, None);
    assert_eq!(config.pyi, None);
    assert_eq!(config.fast, None);
}

#[test]
fn defaults_without_a_file() {
    let (client, black) = make_config(bare(), None);
    assert_eq!(client.url, "http://localhost:45484");
    assert!(!client.quiet);
    assert_eq!(client.verbosity, 0);
    assert!(client.srcs.is_empty());
    assert_eq!(
        black.exclude.as_deref(),
        Some(r"/(\.eggs|\.git|\.hg|\.mypy_cache|\.nox|\.tox|\.venv|_build|buck-out|build|dist)/")
    );
    assert_eq!(black.include_pattern.as_deref(), Some(r"\.pyi?$"));
    assert_eq!(black.line_length, None);
    assert_eq!(black.fast, None);
}

#[test]
fn the_file_beats_the_defaults() {
    let (_, black) = make_config(bare(), Some(from_file()));
    assert_eq!(black.exclude.as_deref(), Some("vendored"));
    assert_eq!(black.include_pattern.as_deref(), Some("py$"));
    assert_eq!(black.line_length, Some(79));
    assert_eq!(black.target_version, Some(vec!["py27".to_string()]));
    assert_eq!(black.skip_string_normalization, Some(false));
    assert_eq!(black.pyi, Some(true));
    assert_eq!(black.fast, Some(false));
}

#[test]
fn the_command_line_beats_the_file() {
    let options = Options {
        quiet: true,
        verbosity: 2,
        srcs: Some(vec!["a".to_string(), "b".to_string()]),
        exclude: Some("".to_string()),
        include_pattern: Some("pyi$".to_string()),
        line_length: Some("+120".to_string()),
        target_version: Some(vec!["py38".to_string()]),
        skip_string_normalization: true,
        fast: true,
        ..bare()
    };
    let (client, black) = make_config(options, Some(from_file()));
    assert!(client.quiet);
    assert_eq!(client.verbosity, 2);
    assert_eq!(client.srcs, vec!["a".to_string(), "b".to_string()]);
    assert_eq!(black.exclude.as_deref(), Some(""));
    assert_eq!(black.include_pattern.as_deref(), Some("pyi$"));
    assert_eq!(black.line_length, Some(120));
    assert_eq!(black.target_version, Some(vec!["py38".to_string()]));
    assert_eq!(black.skip_string_normalization, Some(true));
    assert_eq!(black.pyi, Some(true));
    assert_eq!(black.fast, Some(true));
}

#[test]
fn patterns_that_nobody_gives_stay_unset() {
    let options = Options { exclude: None, include_pattern: None, ..bare() };
    let (_, black) = make_config(options, None);
    assert_eq!(black.exclude, None);
    assert_eq!(black.include_pattern, None);
}

#[test]
fn safe_beats_a_fast_file() {
    let file = BlackConfig { fast: Some(true), ..BlackConfig::default() };
    let (_, black) = make_config(Options { safe: true, ..bare() }, Some(file));
    assert_eq!(black.fast, Some(false));
    let (_, black) = make_config(Options { safe: true, ..bare() }, None);
    assert_eq!(black.fast, Some(false));
    let file = BlackConfig { fast: Some(true), ..BlackConfig::default() };
    let (_, black) = make_config(bare(), Some(file));
    assert_eq!(black.fast, Some(true));
}

#[test]
fn known_versions() {
    for name in ["py27", "py33", "py34", "py35", "py36", "py37", "py38"] {
        assert!(is_known_version(&name.to_string()));
    }
    for name in ["", "py", "py26", "py32", "py39", "PY36", "py36 ", "py360"] {
        assert!(!is_known_version(&name.to_string()));
    }
}

#[test]
fn options_that_are_not_valid() {
    let versions = |names: &[&str]| Some(names.iter().map(|name| name.to_string()).collect());
    assert!(bare().is_valid());
    assert!(Options { line_length: Some("88".to_string()), ..bare() }.is_valid());
    assert!(!Options { line_length: Some("wide".to_string()), ..bare() }.is_valid());
    assert!(Options { target_version: versions(&["py36", "py37"]), ..bare() }.is_valid());
    assert!(Options { target_version: versions(&[]), ..bare() }.is_valid());
    assert!(!Options { target_version: versions(&["py36", "py39"]), ..bare() }.is_valid());
    assert!(Options { fast: true, ..bare() }.is_valid());
    assert!(Options { safe: true, ..bare() }.is_valid());
    assert!(!Options { fast: true, safe: true, ..bare() }.is_valid());
}
