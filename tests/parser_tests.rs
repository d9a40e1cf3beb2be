use pass_it_on_minecraft_log_monitor::log_record::{
    parse_class, parse_log_level, parse_server_overloaded_log, parse_server_start_log,
    parse_status_message, LogClass, LogLevel, LogRecord,
};

#[test]
fn line_without_bracket_is_dropped() {
    assert_eq!(LogRecord::from_record(""), None);
    assert_eq!(LogRecord::from_record("15:44:37 [Server thread/INFO]: Done"), None);
    assert_eq!(LogRecord::from_record(" [15:44:37] [Server thread/INFO]: Done"), None);
    assert_eq!(LogRecord::from_record("\tat net.minecraft.server.Main"), None);
}

#[test]
fn line_without_colon_after_timestamp_is_dropped() {
    assert_eq!(LogRecord::from_record("[15:44:37] [Server thread/INFO] no colon"), None);
    assert_eq!(LogRecord::from_record("[15:44:37]"), None);
    assert_eq!(LogRecord::from_record("[15:44"), None);
    assert_eq!(LogRecord::from_record("[15:44:37:"), None);
}

#[test]
fn colon_right_after_timestamp_gives_record() {
    let rec = LogRecord::from_record("[15:44:37]: hello").unwrap();
    assert_eq!(rec.time, "15:44:37");
    assert_eq!(rec.level, LogLevel::Other);
    assert_eq!(rec.class, LogClass::Other);
    assert_eq!(rec.status_message, "15:44:37 - hello");
}

#[test]
fn error_level_gets_prefix() {
    let rec =
        LogRecord::from_record("[10:00:00] [Server thread/ERROR]: Something broke").unwrap();
    assert_eq!(rec.level, LogLevel::Error);
    assert_eq!(rec.class, LogClass::Other);
    assert_eq!(rec.status_message, "10:00:00 - Error - Something broke");
}

#[test]
fn level_tags() {
    assert_eq!(parse_log_level(" [Server thread/INFO]"), LogLevel::Info);
    assert_eq!(parse_log_level("[Server thread/WARN]"), LogLevel::Warning);
    assert_eq!(parse_log_level("[Server thread/ERROR]"), LogLevel::Error);
    assert_eq!(parse_log_level("[Server thread/DEBUG]"), LogLevel::Other);
    assert_eq!(parse_log_level("[Server thread/info]"), LogLevel::Other);
    assert_eq!(parse_log_level("[no slash]"), LogLevel::Other);
}

#[test]
fn classification_order() {
    assert_eq!(parse_class("UUID of player x joined the game"), LogClass::UserAuth);
    assert_eq!(parse_class("  Player left the game  "), LogClass::UserLeft);
    assert_eq!(parse_class("Done (1s)! Stopping server"), LogClass::ServerStart);
    assert_eq!(parse_class("Stopping the server"), LogClass::Other);
    assert_eq!(parse_class("Can't keep up! 10 ticks"), LogClass::ServerOverload);
    assert_eq!(parse_class(""), LogClass::Other);
}

#[test]
fn server_start_status() {
    assert_eq!(parse_server_start_log("Done (4.736s)! For help"), "Server started after 4.736s");
    assert_eq!(parse_server_start_log("Done )x) y"), "Server started after x");
    assert_eq!(parse_server_start_log("Done (4.736s"), "Done (4.736s");
    assert_eq!(parse_server_start_log("Done"), "Done");
}

#[test]
fn server_overload_status() {
    assert_eq!(
        parse_server_overloaded_log("Can't keep up! Is it? Running 5ms"),
        "Server running slow. Running 5ms"
    );
    assert_eq!(parse_server_overloaded_log("Can't keep up!"), "Can't keep up!");
}

#[test]
fn status_messages() {
    assert_eq!(
        parse_status_message("01:02:03", LogLevel::Warning, LogClass::ServerStop, "Stopping server"),
        "01:02:03 - Warning - Server is shutting down"
    );
    assert_eq!(
        parse_status_message(
            "01:02:03",
            LogLevel::Info,
            LogClass::ServerVersion,
            "Starting minecraft server version 1.20.1  "
        ),
        "01:02:03 - Server starting up using version: 1.20.1"
    );
    assert_eq!(
        parse_status_message("01:02:03", LogLevel::Error, LogClass::ServerVersion, "   "),
        "01:02:03 - Error - Server starting up using version: Unknown"
    );
    assert_eq!(
        parse_status_message("t", LogLevel::Other, LogClass::UserJoined, "A joined the game"),
        "t - A joined the game"
    );
}

#[test]
fn scenario_server_start_record() {
    let rec = LogRecord::from_record(
        "[15:44:37] [Server thread/INFO]: Done (4.736s)! For help, type \"help\"",
    )
    .unwrap();
    assert_eq!(
        rec,
        LogRecord::new(
            "15:44:37".to_string(),
            LogLevel::Info,
            LogClass::ServerStart,
            "15:44:37 - Server started after 4.736s".to_string()
        )
    );
}

#[test]
fn unicode_whitespace_is_trimmed() {
    let rec = LogRecord::from_record("[12:00:00]\u{3000}[T/INFO]:\u{a0}Player left the game\u{2003}")
        .unwrap();
    assert_eq!(rec.class, LogClass::UserLeft);
    assert_eq!(rec.status_message, "12:00:00 - Player left the game");
}
