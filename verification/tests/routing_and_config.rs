use codaze::config::{
    default_accounts_dir_fallback_text, default_accounts_dir_with_env, ensure_loopback_listener,
    AccountsDir, ConfigError, FingerprintMode, ListenIp, RoutingPolicy, RuntimeConfig,
};
use codaze::router::{select_candidate, RouteCandidate};
use codaze::time::{utc_now, Timestamp};
use std::path::PathBuf;

fn path_of(dir: AccountsDir) -> PathBuf {
    match dir {
        AccountsDir::Given(path) => PathBuf::from(path),
        AccountsDir::InHome { home, name } => PathBuf::from(home).join(name),
    }
}

fn candidate(id: &str, in_flight: u32, selected: Option<Timestamp>) -> RouteCandidate {
    RouteCandidate {
        account_id: id.to_string(),
        in_flight_requests: in_flight,
        last_selected_at: selected,
    }
}

#[test]
fn fill_first_picks_stable_first_candidate() {
    let candidates = vec![
        RouteCandidate {
            account_id: "b-account".to_string(),
            in_flight_requests: 99,
            last_selected_at: Some(utc_now()),
        },
        RouteCandidate {
            account_id: "a-account".to_string(),
            in_flight_requests: 0,
            last_selected_at: None,
        },
    ];

    let mut cursor = 0;
    let selected = select_candidate(RoutingPolicy::FillFirst, &candidates, &mut cursor).unwrap();

    assert_eq!(selected, "a-account");
}

#[test]
fn round_robin_walks_the_candidates_in_turn() {
    let candidates = vec![candidate("a", 0, None), candidate("b", 0, None), candidate("c", 0, None)];
    let mut cursor = 0;
    let mut order = Vec::new();
    for _ in 0..4 {
        order.push(select_candidate(RoutingPolicy::RoundRobin, &candidates, &mut cursor).unwrap());
    }
    assert_eq!(order, vec!["a", "b", "c", "a"]);
    assert_eq!(cursor, 4);
}

#[test]
fn round_robin_cursor_stays_at_the_end_of_the_type() {
    let candidates = vec![candidate("a", 0, None), candidate("b", 0, None)];
    let mut cursor = usize::MAX;
    assert_eq!(
        select_candidate(RoutingPolicy::RoundRobin, &candidates, &mut cursor).unwrap(),
        "b"
    );
    assert_eq!(cursor, usize::MAX);
}

#[test]
fn least_in_flight_prefers_fewer_requests_then_the_longer_rest() {
    let mut cursor = 7;
    let early = Timestamp { nanos: 5 };
    let late = Timestamp { nanos: 9 };
    let candidates = vec![
        candidate("a", 1, None),
        candidate("b", 0, Some(late)),
        candidate("c", 0, Some(early)),
    ];
    assert_eq!(
        select_candidate(RoutingPolicy::LeastInFlight, &candidates, &mut cursor).unwrap(),
        "c"
    );
    assert_eq!(cursor, 7);
    let unused = vec![candidate("b", 0, Some(early)), candidate("c", 0, None)];
    assert_eq!(
        select_candidate(RoutingPolicy::LeastInFlight, &unused, &mut cursor).unwrap(),
        "c"
    );
}

#[test]
fn no_candidate_gives_no_pick() {
    let mut cursor = 3;
    assert_eq!(select_candidate(RoutingPolicy::RoundRobin, &Vec::new(), &mut cursor), None);
    assert_eq!(cursor, 3);
    assert_eq!(select_candidate(RoutingPolicy::FillFirst, &Vec::new(), &mut cursor), None);
    assert_eq!(select_candidate(RoutingPolicy::LeastInFlight, &Vec::new(), &mut cursor), None);
}

#[test]
fn explicit_accounts_dir_does_not_require_home_env() {
    let config = RuntimeConfig::from_args_with_home_env(
        &vec!["--accounts-dir".to_string(), "/tmp/codaze".to_string()],
        false,
        None,
        None,
        None,
        None,
    )
    .expect("config parses");

    assert_eq!(path_of(config.accounts_dir), PathBuf::from("/tmp/codaze"));
}

#[test]
fn unix_default_accounts_dir_uses_home() {
    let path = default_accounts_dir_with_env(false, Some("/home/tester".into()), None, None, None)
        .expect("path resolves");

    assert_eq!(path_of(path), PathBuf::from("/home/tester/.codaze"));
}

#[test]
fn windows_default_accounts_dir_uses_userprofile() {
    let path =
        default_accounts_dir_with_env(true, None, Some(r"C:\Users\tester".into()), None, None)
            .expect("path resolves");

    assert_eq!(path_of(path), PathBuf::from(r"C:\Users\tester").join(".codaze"));
}

#[test]
fn windows_default_accounts_dir_falls_back_to_homedrive_homepath() {
    let path = default_accounts_dir_with_env(
        true,
        None,
        None,
        Some("C:".into()),
        Some(r"\Users\tester".into()),
    )
    .expect("path resolves");

    assert_eq!(path_of(path), PathBuf::from(r"C:\Users\tester").join(".codaze"));
}

#[test]
fn missing_home_env_returns_actionable_error() {
    let error = default_accounts_dir_with_env(false, None, None, None, None)
        .expect_err("missing env should fail");

    assert!(error
        .message()
        .contains("HOME is not set or empty and --accounts-dir was not provided"));
}

#[test]
fn empty_home_env_returns_actionable_error() {
    let error = default_accounts_dir_with_env(false, Some("".into()), None, None, None)
        .expect_err("empty env should fail");

    assert!(error
        .message()
        .contains("HOME is not set or empty and --accounts-dir was not provided"));
}

#[test]
fn empty_windows_home_env_returns_actionable_error() {
    let error = default_accounts_dir_with_env(
        true,
        None,
        Some("".into()),
        Some("".into()),
        Some("".into()),
    )
    .expect_err("empty env should fail");

    assert!(error.message().contains(
        "USERPROFILE/HOMEDRIVE/HOMEPATH are not set or are empty and --accounts-dir was not provided"
    ));
}

#[test]
fn help_text_does_not_hardcode_unix_tilde_path() {
    let text = match default_accounts_dir_with_env(true, None, None, None, None) {
        Ok(dir) => path_of(dir).display().to_string(),
        Err(_) => default_accounts_dir_fallback_text(),
    };

    assert!(!text.contains("~/.codaze"));
    assert!(text.contains(".codaze"));
}

fn parse(args: &[&str]) -> Result<RuntimeConfig, ConfigError> {
    let args: Vec<String> = args.iter().map(|arg| arg.to_string()).collect();
    RuntimeConfig::from_args_with_home_env(&args, false, Some("/home/tester".into()), None, None, None)
}

#[test]
fn arguments_set_what_they_name() {
    let config = parse(&[
        "--listen",
        "127.0.0.1:1",
        "--admin-listen",
        "127.0.0.1:2",
        "--routing-policy",
        "fill_first",
        "--fingerprint-mode",
        "passthrough",
        "--codex-version",
        "9.9.9",
        "--shutdown-grace-period-seconds",
        "42",
    ])
    .expect("config parses");
    assert_eq!(config.listen, "127.0.0.1:1");
    assert_eq!(config.admin_listen, "127.0.0.1:2");
    assert_eq!(config.routing_policy, RoutingPolicy::FillFirst);
    assert_eq!(config.fingerprint_mode, FingerprintMode::Passthrough);
    assert_eq!(config.codex_version, "9.9.9");
    assert_eq!(config.shutdown_grace_period_seconds, 42);
    assert_eq!(path_of(config.accounts_dir), PathBuf::from("/home/tester/.codaze"));
}

#[test]
fn no_arguments_leave_the_defaults() {
    let config = parse(&[]).expect("config parses");
    assert_eq!(config.listen, "127.0.0.1:18039");
    assert_eq!(config.admin_listen, "127.0.0.1:18040");
    assert_eq!(config.upstream_base_url, "https://chatgpt.com/backend-api/codex");
    assert_eq!(config.codex_version, "0.118.0");
    assert_eq!(config.stream_timeout_seconds, 600);
    assert_eq!(config.refresh_skew_seconds, 8);
    assert_eq!(config.accounts_scan_interval_seconds, 15);
    assert_eq!(config.shutdown_grace_period_seconds, 10);
}

#[test]
fn bad_arguments_are_refused() {
    assert_eq!(
        parse(&["--listen"]).unwrap_err(),
        ConfigError::MissingValue { flag: "--listen".to_string() }
    );
    assert_eq!(
        parse(&["--routing-policy", "random"]).unwrap_err(),
        ConfigError::UnsupportedPolicy { value: "random".to_string() }
    );
    assert_eq!(
        parse(&["--fingerprint-mode", "random"]).unwrap_err(),
        ConfigError::UnsupportedMode { value: "random".to_string() }
    );
    assert_eq!(
        parse(&["--shutdown-grace-period-seconds", "soon"]).unwrap_err(),
        ConfigError::InvalidGracePeriod { value: "soon".to_string() }
    );
    assert_eq!(
        parse(&["--verbose"]).unwrap_err(),
        ConfigError::UnknownArgument { argument: "--verbose".to_string() }
    );
    assert_eq!(parse(&["--codex-version", "  "]).unwrap_err(), ConfigError::EmptyCodexVersion);
    assert_eq!(
        parse(&["--listen", "127.0.0.1:18040"]).unwrap_err(),
        ConfigError::SameAddresses
    );
    assert_eq!(parse(&["--help"]).unwrap_err(), ConfigError::Help);
}

#[test]
fn names_of_policies_and_modes_are_read_back() {
    for policy in [RoutingPolicy::RoundRobin, RoutingPolicy::LeastInFlight, RoutingPolicy::FillFirst] {
        assert_eq!(RoutingPolicy::parse(policy.as_str()), Ok(policy));
    }
    for mode in [FingerprintMode::Normalize, FingerprintMode::Passthrough] {
        assert_eq!(FingerprintMode::parse(mode.as_str()), Ok(mode));
    }
}

#[test]
fn listeners_stay_on_the_machine() {
    assert_eq!(ensure_loopback_listener(ListenIp::V4(127, 0, 0, 1), "127.0.0.1:1"), Ok(()));
    assert_eq!(ensure_loopback_listener(ListenIp::V4(127, 9, 9, 9), "127.9.9.9:1"), Ok(()));
    assert_eq!(ensure_loopback_listener(ListenIp::V6(1), "[::1]:1"), Ok(()));
    assert_eq!(
        ensure_loopback_listener(ListenIp::V4(0, 0, 0, 0), "0.0.0.0:18039"),
        Err("codaze is local-only; bind to 127.0.0.1 or ::1, got `0.0.0.0:18039`".to_string())
    );
    assert!(ensure_loopback_listener(ListenIp::V6(0), "[::]:1").is_err());
}
