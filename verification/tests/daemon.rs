//! Monitor, argument and configuration tests.

use wraith::args::{Args, ParsedCommand};
use wraith::config::{
    data_file_of, get_flush_interval, get_idle_timeout, get_parent_check_interval,
    get_server_endpoint, infraiq_dir_of, is_telemetry_enabled, validate_install_id,
};
use wraith::monitor::ParentMonitor;

#[test]
fn parent_monitor_idle_countdown() {
    let mut monitor = ParentMonitor::new(1);
    assert!(!monitor.parent_exited());
    // Alive for the first three poll cycles: never a shutdown.
    assert!(!monitor.monitor_step(true, 5_000));
    assert!(!monitor.monitor_step(true, 10_000));
    assert!(!monitor.monitor_step(true, 15_000));
    assert!(!monitor.parent_exited());
    // Absent on the fourth: the countdown has only started.
    assert!(!monitor.monitor_step(false, 20_000));
    assert!(monitor.parent_exited());
    // Still inside the idle timeout (300 s past last seen alive).
    assert!(!monitor.monitor_step(false, 15_000 + 299_999));
    // Exactly at the timeout: shutdown.
    assert!(monitor.monitor_step(false, 15_000 + 300_000));
}

#[test]
fn parent_monitor_recovers_when_parent_returns() {
    let mut monitor = ParentMonitor::new(1);
    assert!(!monitor.monitor_step(true, 1_000));
    assert!(!monitor.monitor_step(false, 100_000));
    // A short gap between invocations must not tear the daemon down.
    assert!(!monitor.monitor_step(true, 200_000));
    assert!(!monitor.monitor_step(false, 200_000 + 299_999));
    assert!(monitor.monitor_step(false, 200_000 + 300_000));
}

fn strings(parts: &[&str]) -> Vec<String> {
    parts.iter().map(|s| s.to_string()).collect()
}

#[test]
fn args_parse_run() {
    let parsed = Args::parse(&strings(&["wraith", "--parent-pid", "123"])).unwrap();
    match parsed {
        ParsedCommand::Run(a) => {
            assert_eq!(a.parent_pid, 123);
            assert!(!a.foreground);
            assert_eq!(a.socket_path, None);
            assert_eq!(a.log_path, None);
        }
        _ => panic!("expected a run"),
    }

    let parsed = Args::parse(&strings(&[
        "wraith",
        "--parent-pid",
        "7",
        "--foreground",
        "--socket",
        "/tmp/w.sock",
        "--log",
        "/tmp/w.log",
    ]))
    .unwrap();
    match parsed {
        ParsedCommand::Run(a) => {
            assert_eq!(a.parent_pid, 7);
            assert!(a.foreground);
            assert_eq!(a.socket_path.as_deref(), Some("/tmp/w.sock"));
            assert_eq!(a.log_path.as_deref(), Some("/tmp/w.log"));
        }
        _ => panic!("expected a run"),
    }
}

#[test]
fn args_parse_help_and_version() {
    assert!(matches!(
        Args::parse(&strings(&["wraith", "--help"])).unwrap(),
        ParsedCommand::Help
    ));
    assert!(matches!(
        Args::parse(&strings(&["wraith", "-h"])).unwrap(),
        ParsedCommand::Help
    ));
    assert!(matches!(
        Args::parse(&strings(&["wraith", "--version"])).unwrap(),
        ParsedCommand::Version
    ));
    assert!(matches!(
        Args::parse(&strings(&["wraith", "-V"])).unwrap(),
        ParsedCommand::Version
    ));
}

#[test]
fn args_parse_errors() {
    assert_eq!(
        Args::parse(&strings(&["wraith"])).unwrap_err(),
        "--parent-pid is required"
    );
    assert_eq!(
        Args::parse(&strings(&["wraith", "--parent-pid"])).unwrap_err(),
        "--parent-pid requires a value"
    );
    assert_eq!(
        Args::parse(&strings(&["wraith", "--parent-pid", "abc"])).unwrap_err(),
        "Invalid PID"
    );
    assert_eq!(
        Args::parse(&strings(&["wraith", "--parent-pid", "4294967296"])).unwrap_err(),
        "Invalid PID"
    );
    assert_eq!(
        Args::parse(&strings(&["wraith", "--socket"])).unwrap_err(),
        "--socket requires a path"
    );
    assert_eq!(
        Args::parse(&strings(&["wraith", "--log"])).unwrap_err(),
        "--log requires a path"
    );
    assert_eq!(
        Args::parse(&strings(&["wraith", "--bogus"])).unwrap_err(),
        "Unknown argument: --bogus"
    );
}

#[test]
fn timing_constants() {
    assert_eq!(get_flush_interval(), 30);
    assert_eq!(get_parent_check_interval(), 5);
    assert_eq!(get_idle_timeout(), 300);
}

#[test]
fn telemetry_opt_out() {
    assert!(is_telemetry_enabled(None));
    assert!(is_telemetry_enabled(Some("yes".to_string())));
    assert!(is_telemetry_enabled(Some("1".to_string())));
    assert!(!is_telemetry_enabled(Some("false".to_string())));
    assert!(!is_telemetry_enabled(Some("FALSE".to_string())));
    assert!(!is_telemetry_enabled(Some("FaLsE".to_string())));
    assert!(!is_telemetry_enabled(Some("0".to_string())));
}

#[test]
fn server_endpoint_selection() {
    assert_eq!(
        get_server_endpoint(None, None).as_deref(),
        Some("https://telemetry.autonops.io/events")
    );
    assert_eq!(
        get_server_endpoint(None, Some("http://localhost:9000/events".to_string())).as_deref(),
        Some("http://localhost:9000/events")
    );
    assert_eq!(get_server_endpoint(Some("false".to_string()), None), None);
    assert_eq!(
        get_server_endpoint(Some("0".to_string()), Some("http://x/".to_string())),
        None
    );
}

#[test]
fn install_id_validation() {
    assert_eq!(validate_install_id("").as_deref(), None);
    assert_eq!(validate_install_id(" \n\t ").as_deref(), None);
    assert_eq!(validate_install_id("abc-123\n").as_deref(), Some("abc-123"));
    assert_eq!(validate_install_id("  abc 123  ").as_deref(), Some("abc 123"));
}

#[test]
fn data_file_paths_join_exactly() {
    assert_eq!(infraiq_dir_of("/home/u"), "/home/u/.infraiq");
    assert_eq!(data_file_of("/home/u", "wraith.sock"), "/home/u/.infraiq/wraith.sock");
    assert_eq!(data_file_of("/home/u", "events.log"), "/home/u/.infraiq/events.log");
    assert_eq!(
        data_file_of("/home/u", "installation_id"),
        "/home/u/.infraiq/installation_id"
    );
}
