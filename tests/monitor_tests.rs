use pass_it_on_minecraft_log_monitor::configuration::{
    default_classes, default_freq, default_levels, MonitorConfiguration, Notification,
};
use pass_it_on_minecraft_log_monitor::filter::{
    filter_messages, plan_deliveries, should_forward, to_messages,
};
use pass_it_on_minecraft_log_monitor::log_monitor::{
    parse_log_records, split_lines, FileStamp, FileTime, FileTracker, PollAction,
};
use pass_it_on_minecraft_log_monitor::{CliArgs, LogClass, LogLevel, LogRecord};

fn stamp(identity: u64, secs: u64) -> FileStamp {
    FileStamp { identity, modified: FileTime { secs, nanos: 0 } }
}

fn record(level: LogLevel, class: LogClass, text: &str) -> LogRecord {
    LogRecord::new("00:00:00".to_string(), level, class, text.to_string())
}

fn default_subscriber(name: &str) -> Notification {
    Notification::new(name, default_levels(), default_classes())
}

#[test]
fn defaults() {
    assert_eq!(default_freq(), 5);
    assert_eq!(default_levels(), vec![LogLevel::Error]);
    assert_eq!(
        default_classes(),
        vec![LogClass::ServerVersion, LogClass::ServerStart, LogClass::ServerStop]
    );
}

#[test]
fn forward_iff_level_or_class() {
    let sub = Notification::new("s", vec![LogLevel::Warning], vec![LogClass::UserJoined]);
    assert!(should_forward(&record(LogLevel::Warning, LogClass::Other, "a"), &sub));
    assert!(should_forward(&record(LogLevel::Info, LogClass::UserJoined, "b"), &sub));
    assert!(should_forward(&record(LogLevel::Warning, LogClass::UserJoined, "c"), &sub));
    assert!(!should_forward(&record(LogLevel::Error, LogClass::UserLeft, "d"), &sub));
}

#[test]
fn default_rules_skip_info_other() {
    let sub = default_subscriber("s");
    assert!(!should_forward(&record(LogLevel::Info, LogClass::Other, "x"), &sub));
    assert!(should_forward(&record(LogLevel::Info, LogClass::ServerStop, "x"), &sub));
    assert!(should_forward(&record(LogLevel::Error, LogClass::Other, "x"), &sub));
}

#[test]
fn overload_warning_needs_overload_class() {
    let rec = LogRecord::from_record(
        "[19:33:39] [Server thread/WARN]: Can't keep up! Is the server overloaded? Running 2033ms or 40 ticks behind",
    )
    .unwrap();
    let defaults = Notification::new("d", vec![LogLevel::Error], default_classes());
    assert!(!should_forward(&rec, &defaults));
    let mut classes = default_classes();
    classes.push(LogClass::ServerOverload);
    let with_overload = Notification::new("o", vec![LogLevel::Error], classes);
    assert!(should_forward(&rec, &with_overload));
}

#[test]
fn deliveries_follow_record_then_subscriber_order() {
    let records = vec![
        record(LogLevel::Error, LogClass::Other, "first"),
        record(LogLevel::Info, LogClass::Other, "skipped"),
        record(LogLevel::Info, LogClass::ServerStart, "second"),
    ];
    let subs = vec![
        default_subscriber("a"),
        Notification::new("b", vec![LogLevel::Error], vec![]),
    ];
    let plan = plan_deliveries(&records, &subs);
    let got: Vec<(String, String)> =
        plan.iter().map(|d| (d.destination.clone(), d.content.clone())).collect();
    assert_eq!(
        got,
        vec![
            ("a".to_string(), "first".to_string()),
            ("b".to_string(), "first".to_string()),
            ("a".to_string(), "second".to_string()),
        ]
    );
}

#[test]
fn messages_carry_name_and_text() {
    let records = vec![record(LogLevel::Error, LogClass::Other, "boom")];
    let subs = vec![default_subscriber("mc_test1")];
    let msgs = filter_messages(&records, &subs);
    assert_eq!(msgs.len(), 1);
    assert_eq!(msgs[0].notification_name(), "mc_test1");
    assert_eq!(msgs[0].message().text(), "boom");
    let plan = plan_deliveries(&records, &subs);
    let again = to_messages(&plan);
    assert_eq!(again[0].message().text(), "boom");
}

#[test]
fn lines_split_at_newlines() {
    assert_eq!(split_lines(""), Vec::<String>::new());
    assert_eq!(split_lines("a"), vec!["a"]);
    assert_eq!(split_lines("a\n"), vec!["a"]);
    assert_eq!(split_lines("a\r\nb\n\nc"), vec!["a", "b", "", "c"]);
    assert_eq!(split_lines("\n"), vec![""]);
    assert_eq!(split_lines("x\r"), vec!["x\r"]);
}

#[test]
fn records_in_line_order() {
    let lines = vec![
        "[15:51:33] [Server thread/INFO]: Player joined the game".to_string(),
        "garbage".to_string(),
        "[17:47:21] [Server thread/INFO]: Stopping server".to_string(),
    ];
    let recs = parse_log_records(Some(lines)).unwrap();
    assert_eq!(recs.len(), 2);
    assert_eq!(recs[0].status_message, "15:51:33 - Player joined the game");
    assert_eq!(recs[1].class, LogClass::ServerStop);
    assert!(parse_log_records(None).is_none());
}

#[test]
fn open_follows_from_end() {
    let t = FileTracker::open(stamp(7, 100), 42);
    assert_eq!(t.cursor(), 42);
    assert_eq!(t.poll(Some(stamp(7, 100))), PollAction::Idle);
    assert_eq!(t.poll(Some(stamp(7, 101))), PollAction::Read { offset: 42, reopen: false });
}

#[test]
fn repeated_poll_without_change_is_idle() {
    let mut t = FileTracker::open_from_start(stamp(1, 10));
    assert_eq!(t.poll(Some(stamp(1, 10))), PollAction::Read { offset: 0, reopen: false });
    let (lines, ok) = t.receive(stamp(1, 10), &b"one\ntwo\n".to_vec());
    assert!(ok);
    assert_eq!(lines, vec!["one", "two"]);
    assert_eq!(t.cursor(), 8);
    assert_eq!(t.poll(Some(stamp(1, 10))), PollAction::Idle);
    assert_eq!(t.poll(Some(stamp(1, 10))), PollAction::Idle);
    assert_eq!(t.cursor(), 8);
}

#[test]
fn failed_read_is_asked_again() {
    let t = FileTracker::open(stamp(1, 10), 5);
    assert_eq!(t.poll(None), PollAction::Retry);
    assert_eq!(t.poll(Some(stamp(1, 11))), PollAction::Read { offset: 5, reopen: false });
    assert_eq!(t.poll(Some(stamp(1, 11))), PollAction::Read { offset: 5, reopen: false });
    assert_eq!(t.cursor(), 5);
    assert_eq!(t.identity(), 1);
    assert_eq!(t.last_modified(), Some(FileTime { secs: 10, nanos: 0 }));
}

#[test]
fn cursor_only_moves_back_on_rotation() {
    let mut t = FileTracker::open(stamp(1, 10), 0);
    let mut last = t.cursor();
    let steps: Vec<(FileStamp, &[u8])> = vec![
        (stamp(1, 11), &b"abc\n"[..]),
        (stamp(1, 11), &b""[..]),
        (stamp(1, 12), &b"de\n"[..]),
    ];
    for (s, bytes) in steps {
        if let PollAction::Read { .. } = t.poll(Some(s)) {
            t.receive(s, &bytes.to_vec());
        }
        assert!(t.cursor() >= last);
        last = t.cursor();
    }
    assert_eq!(last, 7);
    assert_eq!(t.poll(Some(stamp(2, 1))), PollAction::Read { offset: 0, reopen: true });
    t.receive(stamp(2, 1), &b"x\n".to_vec());
    assert_eq!(t.cursor(), 2);
    assert_eq!(t.identity(), 2);
}

#[test]
fn rotation_reads_only_replacement() {
    let subs = vec![Notification::new("n", vec![LogLevel::Info], vec![])];
    let mut t = FileTracker::open_from_start(stamp(1, 10));
    assert_eq!(t.poll(Some(stamp(1, 10))), PollAction::Read { offset: 0, reopen: false });
    let old = b"[10:00:00] [Server thread/INFO]: old line\n".to_vec();
    let first = t.ingest(stamp(1, 10), &old, &subs);
    assert_eq!(first.deliveries.len(), 1);
    assert_eq!(first.deliveries[0].content, "10:00:00 - old line");

    assert_eq!(t.poll(Some(stamp(2, 20))), PollAction::Read { offset: 0, reopen: true });
    let new = b"[11:00:00] [Server thread/INFO]: new line\n".to_vec();
    let second = t.ingest(stamp(2, 20), &new, &subs);
    assert!(second.decoded);
    let texts: Vec<String> = second.deliveries.iter().map(|d| d.content.clone()).collect();
    assert_eq!(texts, vec!["11:00:00 - new line"]);
    assert_eq!(t.identity(), 2);
    assert_eq!(t.cursor(), new.len() as u64);
    assert_eq!(t.poll(Some(stamp(2, 20))), PollAction::Idle);
}

#[test]
fn invalid_utf8_counts_as_no_text() {
    let mut t = FileTracker::open(stamp(1, 1), 3);
    assert_eq!(t.poll(Some(stamp(1, 2))), PollAction::Read { offset: 3, reopen: false });
    let (lines, ok) = t.receive(stamp(1, 2), &vec![0x5b, 0xff, 0xfe, 0x0a]);
    assert!(!ok);
    assert!(lines.is_empty());
    assert_eq!(t.cursor(), 7);
    assert_eq!(t.poll(Some(stamp(1, 2))), PollAction::Idle);
}

#[test]
fn configuration_getters() {
    let subs = vec![default_subscriber("mc_test1")];
    let cfg = MonitorConfiguration::new("logs/latest.log".to_string(), 5, subs);
    assert_eq!(cfg.log_path(), "logs/latest.log");
    assert_eq!(cfg.frequency(), 5);
    assert_eq!(cfg.notification().len(), 1);
    let n = &cfg.notification()[0];
    assert_eq!(n.name(), "mc_test1");
    assert_eq!(n.include_level(), vec![LogLevel::Error]);
    assert!(n.includes_class(LogClass::ServerStart));
    assert!(!n.includes_level(LogLevel::Info));
    assert_eq!(n.include_class(), default_classes());
}

#[test]
fn cli_getters() {
    let args = CliArgs::new("monitor.toml".to_string(), log::LevelFilter::Debug, Some(3));
    assert_eq!(args.monitor_config(), Some("monitor.toml"));
    assert_eq!(args.log_level(), log::LevelFilter::Debug);
    assert_eq!(args.delay(), Some(3));
}
