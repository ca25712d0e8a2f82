use baobab::args::{parse_args, ArgsError};
use baobab::number::{decimal_text, parse_u64};
use baobab::poll::{backoff, Action, FetchError, Phase, Poller};
use baobab::render::{color_of_status, descriptor_of, notice_of, Color, Notice};
use baobab::teamcity::{build_url, resolve_parts, Build, BuildRequest, ResolveError, RunningInfo, UrlParts};

fn build(status: &str, state: &str, pct: Option<i64>, stage: Option<&str>) -> Build {
    Build {
        status: status.to_string(),
        state: state.to_string(),
        percentage_complete: pct,
        web_url: "https://tc/b".to_string(),
        running_info: stage.map(|s| RunningInfo {
            elapsed_seconds: 1,
            estimated_total_seconds: 2,
            current_stage_text: s.to_string(),
        }),
    }
}

#[test]
fn resolves_build_url() {
    let r = BuildRequest::from_ui_url("https://tc.example.com/viewLog.html?buildId=42&tab=log").unwrap();
    assert_eq!(r.api_url, "https://tc.example.com");
    assert_eq!(r.build_id, 42);
}

#[test]
fn resolves_with_path_and_port_dropped() {
    let r = BuildRequest::from_ui_url("http://host/a/b?x=1&buildId=0").unwrap();
    assert_eq!(r.api_url, "http://host");
    assert_eq!(r.build_id, 0);
}

#[test]
fn missing_build_id() {
    assert!(matches!(
        BuildRequest::from_ui_url("https://tc/viewLog.html?tab=log"),
        Err(ResolveError::MissingParameter)
    ));
}

#[test]
fn non_numeric_build_id() {
    assert!(matches!(
        BuildRequest::from_ui_url("https://tc/viewLog.html?buildId=abc"),
        Err(ResolveError::InvalidParameter)
    ));
}

#[test]
fn not_a_url() {
    assert!(matches!(BuildRequest::from_ui_url("not a url"), Err(ResolveError::InvalidUrl)));
}

#[test]
fn url_without_host() {
    assert!(matches!(
        BuildRequest::from_ui_url("mailto:someone?buildId=1"),
        Err(ResolveError::InvalidUrl)
    ));
}

#[test]
fn first_build_id_pair_wins() {
    let parts = UrlParts {
        scheme: "https".to_string(),
        host: Some("h".to_string()),
        query: vec![
            ("a".to_string(), "1".to_string()),
            ("buildId".to_string(), "7".to_string()),
            ("buildId".to_string(), "x".to_string()),
        ],
    };
    let r = resolve_parts(&parts).unwrap();
    assert_eq!(r.api_url, "https://h");
    assert_eq!(r.build_id, 7);
}

#[test]
fn parses_u64_like_std() {
    assert_eq!(parse_u64("0"), Some(0));
    assert_eq!(parse_u64("+12"), Some(12));
    assert_eq!(parse_u64("18446744073709551615"), Some(u64::MAX));
    assert_eq!(parse_u64("18446744073709551616"), None);
    assert_eq!(parse_u64(""), None);
    assert_eq!(parse_u64("+"), None);
    assert_eq!(parse_u64("-1"), None);
    assert_eq!(parse_u64("1a"), None);
}

#[test]
fn decimal_text_and_build_url() {
    assert_eq!(decimal_text(0), "0");
    assert_eq!(decimal_text(1234), "1234");
    assert_eq!(decimal_text(u64::MAX), "18446744073709551615");
    assert_eq!(build_url("https://tc", 42), "https://tc/app/rest/builds/id:42");
}

#[test]
fn status_colors() {
    assert_eq!(color_of_status("SUCCESS"), Color::Green);
    assert_eq!(color_of_status("FAILURE"), Color::Red);
    assert_eq!(color_of_status("UNKNOWN"), Color::Gray);
    assert_eq!(color_of_status(""), Color::Gray);
    assert_eq!(color_of_status("success"), Color::Gray);
}

#[test]
fn descriptor_uses_stage_text() {
    let d = descriptor_of(&build("SUCCESS", "running", Some(40), Some("compiling")));
    assert_eq!(d.percentage, 40);
    assert_eq!(d.label, "compiling");
    assert_eq!(d.color, Color::Green);
}

#[test]
fn descriptor_without_running_info() {
    let d = descriptor_of(&build("FAILURE", "finished", None, None));
    assert_eq!(d.percentage, 100);
    assert_eq!(d.label, "build is FAILURE (finished)");
    assert_eq!(d.color, Color::Red);
}

#[test]
fn notice_only_when_finished() {
    assert_eq!(notice_of(&build("SUCCESS", "running", None, None)), None);
    assert_eq!(notice_of(&build("SUCCESS", "finished", None, None)), Some(Notice::Success));
    assert_eq!(notice_of(&build("FAILURE", "finished", None, None)), Some(Notice::Failure));
    assert_eq!(notice_of(&build("UNKNOWN", "finished", None, None)), Some(Notice::Finished));
    assert_eq!(Notice::Success.summary(), "Build finished successfully :)");
    assert_eq!(Notice::Failure.summary(), "Build failed :(");
    assert_eq!(Notice::Finished.summary(), "Build finished?");
}

#[test]
fn delivers_until_finished() {
    let mut p = Poller::new(3, 100);
    let fetched = vec![
        build("SUCCESS", "running", Some(10), None),
        build("SUCCESS", "running", Some(50), None),
        build("SUCCESS", "finished", Some(100), None),
        build("SUCCESS", "finished", Some(100), None),
    ];
    let mut delivered = Vec::new();
    for b in fetched {
        if !p.is_polling() {
            break;
        }
        match p.step(Ok(b)) {
            Action::DeliverThenWait(b) => delivered.push(b.percentage_complete),
            Action::DeliverThenStop(b) => delivered.push(b.percentage_complete),
            _ => panic!("unexpected action"),
        }
    }
    assert_eq!(delivered, vec![Some(10), Some(50), Some(100)]);
    assert_eq!(p.phase, Phase::Terminal);
}

#[test]
fn transient_failure_then_success_continues() {
    let mut p = Poller::new(2, 100);
    assert!(matches!(p.step(Err(FetchError::Request)), Action::RetryAfter(100)));
    assert!(matches!(
        p.step(Err(FetchError::Response { status: 503, body: String::new() })),
        Action::RetryAfter(200)
    ));
    assert!(matches!(p.step(Ok(build("SUCCESS", "running", None, None))), Action::DeliverThenWait(_)));
    assert_eq!(p.failures, 0);
    assert_eq!(p.phase, Phase::Polling);
}

#[test]
fn exceeding_retry_budget_gives_up() {
    let mut p = Poller::new(2, 100);
    assert!(matches!(p.step(Err(FetchError::Request)), Action::RetryAfter(_)));
    assert!(matches!(p.step(Err(FetchError::Request)), Action::RetryAfter(_)));
    assert!(matches!(p.step(Err(FetchError::Request)), Action::GiveUp(FetchError::Request)));
    assert_eq!(p.phase, Phase::Failed);
}

#[test]
fn fatal_errors_are_not_retried() {
    let mut p = Poller::new(5, 100);
    assert!(matches!(p.step(Err(FetchError::Decode)), Action::GiveUp(FetchError::Decode)));
    let mut p = Poller::new(5, 100);
    assert!(matches!(
        p.step(Err(FetchError::Response { status: 401, body: String::new() })),
        Action::GiveUp(FetchError::Response { status: 401, .. })
    ));
    assert_eq!(p.phase, Phase::Failed);
}

#[test]
fn cancel_stops_polling() {
    let mut p = Poller::new(1, 1);
    p.cancel();
    assert!(!p.is_polling());
    assert_eq!(p.phase, Phase::Cancelled);
}

#[test]
fn backoff_doubles_and_saturates() {
    assert_eq!(backoff(100, 0), 100);
    assert_eq!(backoff(100, 3), 800);
    assert_eq!(backoff(u64::MAX / 2 + 1, 1), u64::MAX);
}

#[test]
fn args_take_one_url() {
    assert_eq!(parse_args(&vec!["https://x".to_string()]).unwrap().url, "https://x");
    assert!(matches!(parse_args(&vec![]), Err(ArgsError::MissingUrl)));
    assert!(matches!(
        parse_args(&vec!["a".to_string(), "b".to_string()]),
        Err(ArgsError::TooManyArguments)
    ));
}
