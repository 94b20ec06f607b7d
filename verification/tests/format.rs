use blacc::config::BlackConfig;
use blacc::error::{ErrorKind, Failure};
use blacc::format::{
    format_bytes, handle_reformat, handle_response, report_line, send_req, ActionTaken,
    Destination, Report, Step,
};

fn done(step: Step<String>) -> Report<String> {
    match step {
        Step::Done(report) => report,
        other => panic!("not done: {:?}", other),
    }
}

fn headers(config: &BlackConfig) -> Vec<(String, String)> {
    send_req("http://localhost:45484", config, vec![])
        .headers
        .into_iter()
        .map(|header| (header.name, header.value))
        .collect()
}

fn pair(name: &str, value: &str) -> (String, String) {
    (name.to_string(), value.to_string())
}

#[test]
fn test_handle_response_error() {
    let report = done(handle_response(Ok(404), &None));
    assert!(report.result.is_err());
}

#[test]
fn test_handle_response_noop() {
    let action = done(handle_response(Ok(204), &None)).result;
    assert!(action.is_ok());
    assert_eq!(action.unwrap(), ActionTaken::Noop);
}

#[test]
fn test_handle_response_reformat() {
    match handle_response::<String>(Ok(200), &None) {
        Step::Write(destination) => assert_eq!(destination, Destination::Stdout),
        other => panic!("nothing to write: {:?}", other),
    }
    let action = done(handle_reformat(Ok(()), &None)).result;
    assert!(action.is_ok());
    assert_eq!(action.unwrap(), ActionTaken::Reformatted);
}

#[test]
fn unexpected_statuses_are_named() {
    for status in [0u16, 100, 201, 203, 205, 400, 500, 65535] {
        let failure = done(handle_response(Ok(status), &None)).result.unwrap_err();
        assert_eq!(failure.kind, ErrorKind::UnexpectedStatus(status));
        assert!(failure.cause.is_none());
        assert_eq!(failure.kind.description(), format!("unexpected status: {}", status));
    }
}

#[test]
fn formatted_text_goes_back_to_its_file() {
    match handle_response::<String>(Ok(200), &Some("a.py".to_string())) {
        Step::Write(destination) => {
            assert_eq!(destination, Destination::File("a.py".to_string()))
        }
        other => panic!("nothing to write: {:?}", other),
    }
}

#[test]
fn failures_are_reported_under_the_name_of_the_source() {
    let fname = Some("src/a.py".to_string());
    let config = BlackConfig::default();
    let unread = Failure::caused_by(ErrorKind::OpenSource, "gone".to_string());
    let report = done(format_bytes(Err(unread), "http://x", &config, &fname));
    assert_eq!(report.name, "src/a.py");
    let failure = report.result.unwrap_err();
    assert_eq!(failure.kind, ErrorKind::OpenSource);
    assert_eq!(failure.cause, Some("gone".to_string()));

    let unsent = Failure::caused_by(ErrorKind::SendRequest, "refused".to_string());
    let report = done(handle_response(Err(unsent), &None));
    assert_eq!(report.name, "<stdin>");
    assert_eq!(report.result.unwrap_err().kind, ErrorKind::SendRequest);

    let unwritten = Failure::caused_by(ErrorKind::WriteOutput, "full".to_string());
    let report = done(handle_reformat(Err(unwritten), &fname));
    assert_eq!(report.name, "src/a.py");
    assert_eq!(report.result.unwrap_err().kind, ErrorKind::WriteOutput);
}

#[test]
fn contents_are_sent_as_they_are() {
    let config = BlackConfig::default();
    let step = format_bytes::<String>(Ok(vec![0, 255, 10]), "http://x", &config, &None);
    match step {
        Step::Send(request) => {
            assert_eq!(request.url, "http://x");
            assert_eq!(request.body, vec![0, 255, 10]);
            assert_eq!(request.headers.len(), 1);
        }
        other => panic!("nothing sent: {:?}", other),
    }
}

#[test]
fn headers_of_the_default_configuration() {
    assert_eq!(
        headers(&BlackConfig::default()),
        vec![pair("X-Protocol-Version", "1")]
    );
}

#[test]
fn headers_of_a_full_configuration() {
    let config = BlackConfig {
        exclude: None,
        include_pattern: None,
        line_length: Some(100),
        target_version: Some(vec!["py36".to_string(), "py37".to_string()]),
        skip_string_normalization: Some(true),
        pyi: Some(true),
        fast: Some(true),
    };
    assert_eq!(
        headers(&config),
        vec![
            pair("X-Protocol-Version", "1"),
            pair("X-Python-Variant", "pyi"),
            pair("X-Python-Variant", "py36,py37"),
            pair("X-Skip-String-Normalization", "true"),
            pair("X-Line-Length", "100"),
            pair("X-Fast-Or-Safe", "fast"),
        ]
    );
}

#[test]
fn settings_that_are_off_send_no_header() {
    let config = BlackConfig {
        target_version: Some(vec![]),
        skip_string_normalization: Some(false),
        pyi: Some(false),
        fast: Some(false),
        ..BlackConfig::default()
    };
    assert_eq!(
        headers(&config),
        vec![pair("X-Protocol-Version", "1"), pair("X-Python-Variant", "")]
    );
}

#[test]
fn outcomes_in_words() {
    assert_eq!(ActionTaken::Reformatted.to_string(), "reformatted");
    assert_eq!(ActionTaken::Noop.to_string(), "already well-formatted");
    assert_eq!(
        report_line("a.py", &ActionTaken::Noop.to_string()),
        "a.py: already well-formatted"
    );
}
