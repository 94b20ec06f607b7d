use blacc::config::{BlaccConfig, BlackConfig};
use blacc::error::{ErrorKind, Failure};
use blacc::filter::build_filters;
use blacc::format::{format_bytes, Step};
use blacc::limits::{files_at_a_time, get_fd_limit};
use blacc::plan::{log_level, plan_work, run, Work};
use blacc::walk::{collect_sources, Entry, Visited};

fn client(srcs: &[&str]) -> BlaccConfig {
    BlaccConfig {
        url: "http://localhost:45484".to_string(),
        quiet: false,
        verbosity: 1,
        srcs: srcs.iter().map(|src| src.to_string()).collect(),
    }
}

fn black(exclusion: Option<&str>, inclusion: Option<&str>) -> BlackConfig {
    BlackConfig {
        exclude: exclusion.map(str::to_string),
        include_pattern: inclusion.map(str::to_string),
        line_length: Some(99),
        ..BlackConfig::default()
    }
}

#[test]
fn limits_from_the_system() {
    assert_eq!(get_fd_limit(0, 1024, "unused").unwrap(), 1024);
    assert_eq!(get_fd_limit(0, 0, "unused").unwrap(), 0);
    let most = get_fd_limit(0, u64::MAX, "unused").unwrap();
    assert_eq!(most, usize::MAX);
    let failure = get_fd_limit(-1, 1024, "denied").unwrap_err();
    assert_eq!(failure.kind, ErrorKind::FileDescriptorLimit);
    assert_eq!(failure.cause, Some("denied"));
    assert_eq!(failure.kind.description(), "Unable to get file descriptor limit");
}

#[test]
fn half_the_limit_is_used() {
    assert_eq!(files_at_a_time::<()>(Ok(1024)), 512);
    assert_eq!(files_at_a_time::<()>(Ok(5)), 2);
    let unknown = Failure::caused_by(ErrorKind::FileDescriptorLimit, ());
    assert_eq!(files_at_a_time(Err(unknown)), 50);
}

#[test]
fn sources_name_the_work() {
    let strings = |names: &[&str]| names.iter().map(|name| name.to_string()).collect::<Vec<_>>();
    assert_eq!(plan_work(vec![]), Work::Nothing);
    assert_eq!(plan_work(strings(&["-"])), Work::Stdin);
    assert_eq!(plan_work(strings(&["--"])), Work::Paths(strings(&["--"])));
    assert_eq!(plan_work(strings(&["-", "a"])), Work::Paths(strings(&["-", "a"])));
    assert_eq!(plan_work(strings(&["a", "b"])), Work::Paths(strings(&["a", "b"])));
}

#[test]
fn a_run_is_planned() {
    let plan = run(client(&["src"]), black(Some("b$"), Some(r"\.py$"))).unwrap();
    assert_eq!(plan.url, "http://localhost:45484");
    assert_eq!(plan.config.line_length, Some(99));
    assert_eq!(plan.work, Work::Paths(vec!["src".to_string()]));
    assert!(plan.filters.excludes("a/b"));
    assert!(plan.filters.includes("a.py"));
    assert!(!plan.filters.includes("a.txt"));
}

#[test]
fn runs_that_are_refused() {
    let kind = |exclusion, inclusion| run(client(&[]), black(exclusion, inclusion)).unwrap_err().kind;
    assert_eq!(kind(None, Some("")), ErrorKind::NoExclude);
    assert_eq!(kind(Some("["), None), ErrorKind::InvalidExclude);
    assert_eq!(kind(Some(""), None), ErrorKind::NoInclude);
    assert_eq!(kind(Some(""), Some("*")), ErrorKind::InvalidInclude);
}

#[test]
fn output_levels() {
    assert_eq!(log_level(&client(&[])), 2);
}

#[test]
fn failures_in_words() {
    let words = [
        (ErrorKind::Configuration, "Unable to set up configuration"),
        (ErrorKind::Logging, "Unable to set up logging"),
        (ErrorKind::ReadConfigFile, "Unable to read config file"),
        (ErrorKind::ParseToml, "Unable to parse TOML"),
        (ErrorKind::NoToolSection, "No `tool` section in config"),
        (ErrorKind::NoBlackSection, "No `tool.black` section in config"),
        (ErrorKind::BlackSectionIsNoTable, "`tool.black` is not a table"),
        (ErrorKind::ConfigShape, "Invalid config shape"),
        (ErrorKind::NoExclude, "no exclude regex set"),
        (ErrorKind::InvalidExclude, "exclude is not a valid regex"),
        (ErrorKind::NoInclude, "no include regex set"),
        (ErrorKind::InvalidInclude, "include is not a valid regex"),
        (ErrorKind::ReadStdin, "Unable to read stdin"),
        (ErrorKind::OpenSource, "error opening file"),
        (ErrorKind::SendRequest, "Error sending format request"),
        (ErrorKind::UnexpectedStatus(404), "unexpected status: 404"),
        (ErrorKind::ReadResponse, "Error reading HTTP response"),
        (ErrorKind::OpenTarget, "Unable to open file for writing"),
        (ErrorKind::OpenStdout, "Unable to open stdout for writing"),
        (ErrorKind::WriteOutput, "Error writing output"),
    ];
    for (kind, text) in words {
        assert_eq!(kind.description(), text);
    }
}

#[test]
fn readable_files_are_sent_once_per_source() {
    let file = |depth: usize, path: &str| {
        Visited::Found(Entry {
            path: Some(path.to_string()),
            depth,
            is_dir: false,
            is_file: true,
        })
    };
    let filters = build_filters(&Some("".to_string()), &Some(r"\.py$".to_string())).unwrap();
    let walks = vec![
        vec![file(1, "src/a.py"), file(1, "src/b.py"), file(1, "src/c.txt")],
        vec![file(0, "src/a.py")],
        vec![],
    ];
    let files: Vec<String> =
        walks.iter().flat_map(|walk| collect_sources(&filters, walk)).collect();
    assert_eq!(files, vec!["src/a.py", "src/b.py", "src/a.py"]);

    let config = BlackConfig::default();
    let mut sent = vec![];
    let mut failed = vec![];
    for fname in files {
        let contents = if fname == "src/b.py" {
            Err(Failure::caused_by(ErrorKind::OpenSource, "denied"))
        } else {
            Ok(b"x=1".to_vec())
        };
        match format_bytes(contents, "http://x", &config, &Some(fname.clone())) {
            Step::Send(request) => sent.push((fname, request.body)),
            Step::Done(report) => failed.push(report.name),
            Step::Write(_) => panic!("nothing to write yet"),
        }
    }
    assert_eq!(
        sent,
        vec![
            ("src/a.py".to_string(), b"x=1".to_vec()),
            ("src/a.py".to_string(), b"x=1".to_vec()),
        ]
    );
    assert_eq!(failed, vec!["src/b.py".to_string()]);
}
