use progflow::config::{
    default_background, default_shell, is_valid_url, parse_env, stamped_note, EnvVars, FlowConfig,
    LockFile, StartCommand,
};
use progflow::error::AppError;
use progflow::listing::{flow_names, latest_lock_flow, flow_of_file};
use progflow::paths::{config_dir_in, config_path_in, join_path, lock_path_in, log_dir_in, log_path_in};

fn config(name: &str) -> FlowConfig {
    FlowConfig {
        name: name.to_string(),
        directory: None,
        editor_cmd: None,
        url_list: None,
        shell: default_shell(),
        env: EnvVars::new(),
        note: String::new(),
        start_commands: Vec::new(),
        last_note: None,
        total_seconds: 0,
        session_count: 0,
        last_activated: None,
    }
}

fn config_error(c: &FlowConfig) -> String {
    match c.validate() {
        Err(AppError::Config(m)) => m,
        Err(e) => panic!("unexpected error {:?}", e),
        Ok(()) => panic!("expected an error"),
    }
}

#[test]
fn validate_accepts_plain_flow() {
    let mut c = config("work");
    c.directory = Some(".".to_string());
    c.editor_cmd = Some("code .".to_string());
    c.url_list = Some(vec!["http://localhost:3000".to_string(), "".to_string()]);
    assert!(c.validate().is_ok());
}

#[test]
fn validate_rejects_empty_name() {
    assert_eq!(config_error(&config("")), "Flow name cannot be empty");
}

#[test]
fn validate_rejects_separators_in_name() {
    assert_eq!(config_error(&config("a/b")), "Flow name cannot contain / or \\");
    assert_eq!(config_error(&config("a\\b")), "Flow name cannot contain / or \\");
}

#[test]
fn validate_rejects_empty_directory_and_editor() {
    let mut c = config("x");
    c.directory = Some(String::new());
    assert_eq!(config_error(&c), "Directory cannot be empty");
    let mut c = config("x");
    c.editor_cmd = Some(String::new());
    assert_eq!(config_error(&c), "Editor command cannot be empty");
}

#[test]
fn validate_reports_first_bad_url() {
    let mut c = config("x");
    c.url_list = Some(vec![
        "https://example.com".to_string(),
        "example.com".to_string(),
        "http://".to_string(),
    ]);
    assert_eq!(config_error(&c), "Invalid URL: example.com");
    let mut c = config("x");
    c.url_list = Some(vec!["   ".to_string()]);
    assert_eq!(config_error(&c), "Invalid URL:    ");
}

#[test]
fn valid_urls() {
    assert!(is_valid_url("localhost:8080"));
    assert!(is_valid_url("127.0.0.1"));
    assert!(is_valid_url("0.0.0.0:5000/x"));
    assert!(is_valid_url("http://example.com"));
    assert!(is_valid_url("  https://example.com/path  "));
    assert!(is_valid_url("file://host/tmp"));
    assert!(is_valid_url("ftp://host:21"));
    assert!(is_valid_url("http://a://b"));
}

#[test]
fn invalid_urls() {
    assert!(!is_valid_url(""));
    assert!(!is_valid_url("   "));
    assert!(!is_valid_url("example.com"));
    assert!(!is_valid_url("http://"));
    assert!(!is_valid_url("http://:8080"));
    assert!(!is_valid_url("https:///path"));
    assert!(!is_valid_url("http://://x"));
    assert!(!is_valid_url("mailto:someone"));
}

#[test]
fn defaults() {
    assert!(default_background());
    assert_eq!(default_shell(), "/bin/sh");
}

#[test]
fn env_parsing_trims_and_later_wins() {
    let env = parse_env(" A = 1, B=two=2 ,C, A=3");
    let pairs = env.to_pairs();
    assert_eq!(
        pairs,
        vec![("A".to_string(), "3".to_string()), ("B".to_string(), "two=2".to_string())]
    );
    assert!(parse_env("").to_pairs().is_empty());
}

#[test]
fn env_insert_and_from_pairs() {
    let mut env = EnvVars::new();
    env.insert("K".to_string(), "1".to_string());
    env.insert("L".to_string(), "2".to_string());
    env.insert("K".to_string(), "3".to_string());
    assert_eq!(
        env.to_pairs(),
        vec![("K".to_string(), "3".to_string()), ("L".to_string(), "2".to_string())]
    );
    let back = EnvVars::from_pairs(vec![
        ("X".to_string(), "1".to_string()),
        ("X".to_string(), "2".to_string()),
    ]);
    assert_eq!(back.to_pairs(), vec![("X".to_string(), "2".to_string())]);
}

#[test]
fn notes_are_stamped_and_saved() {
    assert_eq!(stamped_note("2024-01-01 10:00", "  hello world \n"), "[2024-01-01 10:00] hello world");
    let mut c = config("n");
    assert!(c.previous_note().is_none());
    c.set_note("[t] persistent note content".to_string());
    assert_eq!(c.note, "[t] persistent note content");
    assert_eq!(c.last_note.as_deref(), Some("[t] persistent note content"));
    assert_eq!(c.previous_note().unwrap(), "Previous note: [t] persistent note content");
    c.adopt_edited_note("  edited\n");
    assert_eq!(c.note, "edited");
    assert_eq!(c.last_note.as_deref(), Some("edited"));
}

#[test]
fn sessions_are_recorded() {
    let mut c = config("s");
    c.record_session(90);
    c.record_session(30);
    assert_eq!(c.total_seconds, 120);
    assert_eq!(c.session_count, 2);
    c.mark_activated("2024-01-01T00:00:00+00:00".to_string());
    assert_eq!(c.last_activated.as_deref(), Some("2024-01-01T00:00:00+00:00"));
}

#[test]
fn lock_file_record() {
    let lock = LockFile { pids: vec![1, 2], start_time: None };
    assert_eq!(lock.pids.len(), 2);
    let cmd = StartCommand {
        command: "sleep 60".to_string(),
        working_directory: None,
        env: EnvVars::new(),
        background: true,
    };
    assert!(cmd.background);
}

fn bytes(s: &str) -> Vec<u8> {
    s.as_bytes().to_vec()
}

#[test]
fn path_joining() {
    assert_eq!(join_path(b"/home/u/.config", b"flow"), bytes("/home/u/.config/flow"));
    assert_eq!(join_path(b"/home/u/", b"flow"), bytes("/home/u/flow"));
    assert_eq!(join_path(b"", b"flow"), bytes("flow"));
    assert_eq!(join_path(b"/home/u", b"/etc/passwd"), bytes("/etc/passwd"));
    assert_eq!(join_path(b"/a", b""), bytes("/a/"));
}

#[test]
fn flow_file_paths() {
    assert_eq!(config_path_in(b"/c", "demo"), bytes("/c/flow/demo.json"));
    assert_eq!(lock_path_in(b"/c", "demo"), bytes("/c/flow/demo.lock"));
    assert_eq!(log_dir_in(b"/c"), bytes("/c/flow/logs"));
    assert_eq!(log_path_in(b"/c", "demo"), bytes("/c/flow/logs/demo.log"));
}

#[test]
fn paths_keep_bytes_that_are_not_text() {
    let base: &[u8] = &[b'/', b'h', 0xff, 0xfe];
    let mut want = base.to_vec();
    want.extend_from_slice("/flow/d\u{e9}mo.json".as_bytes());
    assert_eq!(config_path_in(base, "d\u{e9}mo"), want);
    assert_eq!(config_dir_in(base)[..4], *base);
}

#[test]
fn paths_under_config_dir() {
    match progflow::config::get_config_path("demo") {
        Ok(p) => assert!(p.ends_with(b"/flow/demo.json")),
        Err(e) => assert_eq!(e.message(), "Could not find config directory"),
    }
    match progflow::config::get_lock_path("demo") {
        Ok(p) => assert!(p.ends_with(b"/flow/demo.lock")),
        Err(e) => assert!(e.is_user_error()),
    }
    match progflow::config::get_log_path("demo") {
        Ok(p) => assert!(p.ends_with(b"/flow/logs/demo.log")),
        Err(e) => assert!(e.is_user_error()),
    }
}

#[test]
fn flows_are_listed_sorted() {
    let names: Vec<String> = ["b.json", "a.json", "x.lock", "noext", ".json", "c.d.json", "B.json", "..", "z.JSON"]
        .iter()
        .map(|s| s.to_string())
        .collect();
    assert_eq!(flow_names(&names), vec!["B", "a", "b", "c.d"]);
    assert!(flow_names(&Vec::new()).is_empty());
}

#[test]
fn file_names_name_flows() {
    assert_eq!(flow_of_file("work.json", "json").as_deref(), Some("work"));
    assert_eq!(flow_of_file(".hidden.json", "json").as_deref(), Some(".hidden"));
    assert_eq!(flow_of_file(".json", "json"), None);
    assert_eq!(flow_of_file("work.lock", "json"), None);
    assert_eq!(flow_of_file("work.lock", "lock").as_deref(), Some("work"));
}

#[test]
fn latest_lock_is_active() {
    let entries = vec![
        (10i128, "a.lock".to_string()),
        (30, "b.json".to_string()),
        (20, "c.lock".to_string()),
        (20, "d.lock".to_string()),
        (-5, "e.lock".to_string()),
    ];
    assert_eq!(latest_lock_flow(&entries).as_deref(), Some("c"));
    let none = vec![(1i128, "a.json".to_string())];
    assert_eq!(latest_lock_flow(&none), None);
}

#[test]
fn validate_rejects_hidden_names() {
    assert_eq!(config_error(&config(".hidden")), "Flow name cannot start with a dot");
    assert_eq!(config_error(&config("..")), "Flow name cannot start with a dot");
    assert!(config("a.b").validate().is_ok());
}

#[test]
fn saved_flow_is_listed_under_its_name() {
    let path = String::from_utf8(config_path_in(b"/home/u/.config", "my.flow")).unwrap();
    assert_eq!(path, "/home/u/.config/flow/my.flow.json");
    let file = path.rsplit('/').next().unwrap().to_string();
    assert_eq!(flow_names(&vec![file]), vec!["my.flow"]);
    let lock = String::from_utf8(lock_path_in(b"/home/u/.config", "my.flow")).unwrap();
    let lock_file = lock.rsplit('/').next().unwrap().to_string();
    assert_eq!(latest_lock_flow(&vec![(1, lock_file)]).as_deref(), Some("my.flow"));
}

#[test]
fn begin_session_records_the_time() {
    let mut c = config("w");
    let at = c.begin_session();
    assert_eq!(c.last_activated.as_deref(), Some(at.as_str()));
    assert!(!at.is_empty());
}

#[test]
fn url_is_judged_by_trimmed_text() {
    for u in ["  http://x.y ", "\tlocalhost", " nope ", "  "] {
        assert_eq!(is_valid_url(u), is_valid_url(u.trim()));
    }
}

#[test]
fn env_pairs_round_trip() {
    let env = parse_env("A=1,B=2,C=3");
    let back = EnvVars::from_pairs(env.to_pairs());
    assert_eq!(back.to_pairs(), env.to_pairs());
    let mut reversed = env.to_pairs();
    reversed.reverse();
    let mut again = EnvVars::from_pairs(reversed).to_pairs();
    again.sort();
    assert_eq!(again, env.to_pairs());
}

#[test]
fn padding_never_changes_url_verdict() {
    for url in ["http://localhost:3000", "https://a.b/c", "ftp://x", "", "http://", "localhost:8080", "www.x"] {
        let padded = format!(" \t{}\n\u{3000}", url);
        assert_eq!(is_valid_url(&padded), is_valid_url(url));
        assert_eq!(is_valid_url(url.trim()), is_valid_url(url));
    }
}
