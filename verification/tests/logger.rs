use tiny_discord_bot::logger::{LogLevel, LogPlan, Logger};

#[test]
fn own_modules_log_up_to_debug() {
    for l in [LogLevel::Error, LogLevel::Warn, LogLevel::Info, LogLevel::Debug] {
        assert!(Logger::can_log("tiny_discord_bot", "tiny_discord_bot::commands", l));
    }
    assert!(!Logger::can_log("tiny_discord_bot", "tiny_discord_bot::commands", LogLevel::Trace));
}

#[test]
fn other_modules_log_errors_and_warnings_only() {
    assert!(Logger::can_log("tiny_discord_bot", "serenity::gateway", LogLevel::Error));
    assert!(Logger::can_log("tiny_discord_bot", "serenity::gateway", LogLevel::Warn));
    assert!(!Logger::can_log("tiny_discord_bot", "serenity::gateway", LogLevel::Info));
    assert!(!Logger::can_log("tiny_discord_bot", "tiny", LogLevel::Debug));
}

#[test]
fn plans() {
    assert_eq!(Logger::plan("tiny_discord_bot", "serenity", LogLevel::Info, Some(0)), LogPlan::Skip);
    assert_eq!(
        Logger::plan("tiny_discord_bot", "tiny_discord_bot", LogLevel::Info, Some(0)),
        LogPlan::Write { separator: false, to_stderr: false }
    );
    assert_eq!(
        Logger::plan("tiny_discord_bot", "tiny_discord_bot", LogLevel::Warn, Some(2)),
        LogPlan::Write { separator: true, to_stderr: true }
    );
    assert_eq!(
        Logger::plan("tiny_discord_bot", "x", LogLevel::Error, None),
        LogPlan::Write { separator: true, to_stderr: true }
    );
}

#[test]
fn own_modules_follow_the_program_name() {
    assert!(Logger::can_log("bot_app", "bot_app::events", LogLevel::Info));
    assert!(!Logger::can_log("bot_app", "tiny_discord_bot::events", LogLevel::Info));
    assert_eq!(
        Logger::plan("bot_app", "bot_app", LogLevel::Debug, Some(0)),
        LogPlan::Write { separator: false, to_stderr: false }
    );
}
