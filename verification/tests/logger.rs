use minimal_api::config::{ConfigError, ServerConfig};
use minimal_api::logger::{
    get_logging_severity, log_line, set_logging_severity, LogColor, LogSeverity, Logger,
};
use minimal_api::pool::{worker_action, PoolState, PoolStatus, Received, WorkerAction};

#[test]
fn severities_have_their_colours() {
    assert_eq!(LogColor::BrightGreen, LogSeverity::Debug.get_color());
    assert_eq!(LogColor::BrightBlue, LogSeverity::Info.get_color());
    assert_eq!(LogColor::BrightYellow, LogSeverity::Warning.get_color());
    assert_eq!(LogColor::BrightRed, LogSeverity::Error.get_color());
}

#[test]
fn severities_have_their_names_and_ranks() {
    assert_eq!("debug", LogSeverity::Debug.to_string());
    assert_eq!("info", LogSeverity::Info.to_string());
    assert_eq!("warn", LogSeverity::Warning.to_string());
    assert_eq!("error", LogSeverity::Error.to_string());
    assert_eq!(
        vec![0, 1, 2, 3],
        vec![
            LogSeverity::Debug.level(),
            LogSeverity::Info.level(),
            LogSeverity::Warning.level(),
            LogSeverity::Error.level()
        ]
    );
}

#[test]
fn colours_have_their_escape_sequences() {
    assert_eq!("\x1b[32m", LogColor::Green.to_string());
    assert_eq!("\x1b[32;1m", LogColor::BrightGreen.to_string());
    assert_eq!("\x1b[34m", LogColor::Blue.to_string());
    assert_eq!("\x1b[34;1m", LogColor::BrightBlue.to_string());
    assert_eq!("\x1b[33m", LogColor::Yellow.to_string());
    assert_eq!("\x1b[33;1m", LogColor::BrightYellow.to_string());
    assert_eq!("\x1b[31m", LogColor::Red.to_string());
    assert_eq!("\x1b[31;1m", LogColor::BrightRed.to_string());
    assert_eq!("\x1b[37;0m", LogColor::White.to_string());
    assert_eq!("\x1b[37;2m", LogColor::Grey.to_string());
    assert_eq!("\x1b[37;2m", LogColor::Grey.as_str());
}

#[test]
fn severity_is_info_unless_set() {
    let mut logger = Logger::new();

    assert_eq!(LogSeverity::Info, get_logging_severity(&mut logger));
    assert_eq!(Some(LogSeverity::Info), logger.severity);
}

#[test]
fn severity_can_be_set_once() {
    let mut logger = Logger::new();

    assert!(set_logging_severity(&mut logger, LogSeverity::Debug));
    assert!(!set_logging_severity(&mut logger, LogSeverity::Error));
    assert_eq!(LogSeverity::Debug, get_logging_severity(&mut logger));
}

#[test]
fn severity_cannot_be_set_after_it_was_asked_for() {
    let mut logger = Logger::new();
    get_logging_severity(&mut logger);

    assert!(!set_logging_severity(&mut logger, LogSeverity::Debug));
    assert_eq!(LogSeverity::Info, get_logging_severity(&mut logger));
}

#[test]
fn lines_at_or_above_the_severity_are_shown() {
    let mut logger = Logger::new();
    set_logging_severity(&mut logger, LogSeverity::Warning);

    assert_eq!(None, log_line(&mut logger, "quiet", LogSeverity::Debug));
    assert_eq!(None, log_line(&mut logger, "quiet", LogSeverity::Info));
    assert_eq!(
        Some("\x1b[33;1m[warn] \x1b[37;2m careful\x1b[37;0m".to_string()),
        log_line(&mut logger, "careful", LogSeverity::Warning)
    );
    assert_eq!(
        Some("\x1b[31;1m[error]\x1b[37;2m broken\x1b[37;0m".to_string()),
        log_line(&mut logger, "broken", LogSeverity::Error)
    );
}

#[test]
fn tags_are_seven_characters_wide() {
    let mut logger = Logger::new();
    set_logging_severity(&mut logger, LogSeverity::Debug);

    assert_eq!(
        Some("\x1b[32;1m[debug]\x1b[37;2m d\x1b[37;0m".to_string()),
        log_line(&mut logger, "d", LogSeverity::Debug)
    );
    assert_eq!(
        Some("\x1b[34;1m[info] \x1b[37;2m i\x1b[37;0m".to_string()),
        log_line(&mut logger, "i", LogSeverity::Info)
    );
}

#[test]
fn logging_fixes_the_severity() {
    let mut logger = Logger::new();

    assert_eq!(None, log_line(&mut logger, "x", LogSeverity::Debug));
    assert!(!set_logging_severity(&mut logger, LogSeverity::Debug));
}

#[test]
fn valid_settings_are_taken() {
    let config = ServerConfig::from_values("127.0.0.1", "8080", "4").unwrap();

    assert_eq!("127.0.0.1", config.ip_address);
    assert_eq!("8080", config.port);
    assert_eq!(4, config.workers);
    assert_eq!("127.0.0.1:8080", config.get_server_address());
}

#[test]
fn settings_are_refused_for_their_first_fault() {
    assert_eq!(Err(ConfigError::InvalidWorkers), ServerConfig::from_values("", "", "four"));
    assert_eq!(Err(ConfigError::InvalidWorkers), ServerConfig::from_values("h", "1", ""));
    assert_eq!(Err(ConfigError::InvalidWorkers), ServerConfig::from_values("h", "1", " 4"));
    assert_eq!(Err(ConfigError::MissingIpAddress), ServerConfig::from_values("", "", "0"));
    assert_eq!(Err(ConfigError::MissingPort), ServerConfig::from_values("h", "", "0"));
    assert_eq!(Err(ConfigError::NoWorkers), ServerConfig::from_values("h", "1", "0"));
}

#[test]
fn server_address_joins_address_and_port() {
    let config = ServerConfig { ip_address: "::1".to_string(), port: String::new(), workers: 1 };

    assert_eq!("::1:", config.get_server_address());
}

#[test]
fn pool_needs_a_worker() {
    assert_eq!(None, PoolStatus::new(0));
    assert_eq!(Some(PoolStatus { size: 3, live: 3, open: true }), PoolStatus::new(3));
}

#[test]
fn pool_runs_until_closed_and_stops_when_all_have_left() {
    let mut pool = PoolStatus::new(2).unwrap();
    assert_eq!(PoolState::Running, pool.current());
    assert!(pool.accepts_jobs());
    assert!(!pool.worker_left());
    assert_eq!(PoolState::Running, pool.current());

    pool.close();
    assert_eq!(PoolState::ShuttingDown, pool.current());
    assert!(!pool.accepts_jobs());

    assert!(pool.worker_left());
    assert_eq!(PoolState::ShuttingDown, pool.current());
    assert!(pool.worker_left());
    assert_eq!(PoolState::Stopped, pool.current());
    assert!(!pool.worker_left());
    assert_eq!(PoolStatus { size: 2, live: 0, open: false }, pool);

    pool.close();
    assert_eq!(PoolState::Stopped, pool.current());
}

#[test]
fn worker_runs_jobs_and_leaves_on_disconnect() {
    assert_eq!(WorkerAction::Run, worker_action(Received::Job));
    assert_eq!(WorkerAction::Exit, worker_action(Received::Disconnected));
}
