use progflow::commands::list::{list_json, status_json};
use progflow::commands::off::{grace_seconds, next_signal, signal_line, StopRound, StopSignal};
use progflow::commands::aliases::{alias_line, alias_lines, alias_name};
use progflow::commands::delete::{delete_question, missing_flow_error};
use progflow::commands::edit::apply_edits;
use progflow::commands::list::{
    list_lines, log_output, note_lines, status_head_lines, status_note_lines,
};
use progflow::commands::matrix::{
    cell_kind, initial_columns, rain_glyphs, lcg_step, parse_terminal_size, rand_simple, render_row,
    step_column, usize_rem, Cell,
};
use progflow::commands::new::{
    answer, background_answer, new_flow_config, parse_env_answer, parse_url_answer,
    parse_url_list, start_commands_from_flags,
};
use progflow::commands::off::{elapsed_seconds, no_active_flow_error, not_running_error, session_seconds, session_seconds_at};
use progflow::commands::on::{
    activation_conflict, running_check_needed, Conflict, already_active_error, command_dir_with_home, is_yes, launch_summary, missing_directory_error,
    other_active_error, start_summary, switch_question, unresponsive_warning, url_probe, work_dir,
};
use progflow::commands::stats::{format_duration, stats_lines, stats_report};
use progflow::commands::update::{parse_remote_version, parse_version, update_needed};
use progflow::config::LockFile;
use progflow::error::AppError;

fn strings(v: &[&str]) -> Vec<String> {
    v.iter().map(|s| s.to_string()).collect()
}

fn user_message(e: AppError) -> String {
    match e {
        AppError::User(m) => m,
        other => panic!("unexpected {:?}", other),
    }
}

#[test]
fn durations() {
    assert_eq!(format_duration(0), "0s");
    assert_eq!(format_duration(59), "59s");
    assert_eq!(format_duration(120), "2m");
    assert_eq!(format_duration(3600), "1h");
    assert_eq!(format_duration(3605), "1h 5s");
    assert_eq!(format_duration(3661), "1h 1m 1s");
    assert_eq!(format_duration(90061), "25h 1m 1s");
}

#[test]
fn stats_report_lines() {
    let mut c = new_flow_config("w", None, None, None, None, None);
    c.total_seconds = 7200;
    c.session_count = 3;
    assert_eq!(
        stats_lines("w", &c, Some("2024-05-01 10:30".to_string())),
        strings(&[
            "Analytics for flow: w",
            "-------------------",
            "Total time spent:      2h",
            "Total sessions:        3",
            "Average session:       40m",
            "Last activated:        2024-05-01 10:30",
        ])
    );
    c.last_activated = Some("2024-05-01T10:30:00+02:00".to_string());
    let r = stats_report("w", &c);
    assert_eq!(r.last().unwrap(), "Last activated:        2024-05-01 10:30");
    c.last_activated = Some("yesterday".to_string());
    c.session_count = 0;
    assert_eq!(stats_report("w", &c).len(), 4);
}

#[test]
fn summaries() {
    assert_eq!(start_summary(false, 0, 0), "started (no processes)");
    assert_eq!(start_summary(true, 1, 2), "editor, 1 start command, 2 urls");
    assert_eq!(start_summary(false, 2, 1), "2 start commands, 1 url");
    let mut c = new_flow_config("w", None, Some("vim".to_string()), Some("a,b".to_string()), None, None);
    assert_eq!(launch_summary(&c), "editor, 2 urls");
    c.editor_cmd = None;
    c.url_list = None;
    assert_eq!(launch_summary(&c), "started (no processes)");
}

#[test]
fn url_probes() {
    let p = url_probe("http://localhost:12345").unwrap();
    assert_eq!(p.host_port, "localhost:12345");
    assert_eq!(p.address, "127.0.0.1:12345");
    assert_eq!(
        unresponsive_warning(&p.host_port),
        "Warning: localhost:12345 does not respond – browser may show error"
    );
    let p = url_probe("https://0.0.0.0/app").unwrap();
    assert_eq!(p.host_port, "0.0.0.0");
    assert_eq!(p.address, "127.0.0.1:80");
    let p = url_probe("HTTP://LOCALHOST:8080/x").unwrap();
    assert_eq!(p.host_port, "LOCALHOST:8080");
    assert_eq!(p.address, "LOCALHOST:8080");
    let p = url_probe("http://[::1]:9000/").unwrap();
    assert_eq!(p.host_port, "[::1]:9000");
    assert!(url_probe("http://example.com").is_none());
    assert!(url_probe("http:///localhost").is_none());
}

#[test]
fn command_directories() {
    let home = Some(b"/home/u".to_vec());
    assert_eq!(command_dir_with_home(&Some("home".to_string()), "/w", home.clone()), b"/home/u".to_vec());
    assert_eq!(command_dir_with_home(&Some("home".to_string()), "/w", None), b".".to_vec());
    assert_eq!(command_dir_with_home(&Some("/srv".to_string()), "/w", home.clone()), b"/srv".to_vec());
    assert_eq!(command_dir_with_home(&Some(String::new()), "/w", home.clone()), b"/w".to_vec());
    assert_eq!(command_dir_with_home(&None, "/w", home), b"/w".to_vec());
    let odd = Some(vec![b'/', 0xff]);
    assert_eq!(command_dir_with_home(&Some("home".to_string()), "/w", odd), vec![b'/', 0xff]);
    let mut c = new_flow_config("w", None, None, None, None, None);
    assert_eq!(work_dir(&c), ".");
    c.directory = Some("/proj".to_string());
    assert_eq!(work_dir(&c), "/proj");
}

#[test]
fn answers() {
    assert!(is_yes(" Y \n"));
    assert!(is_yes("y"));
    assert!(!is_yes("yes"));
    assert!(!is_yes(""));
    assert!(background_answer(""));
    assert!(background_answer("y"));
    assert!(!background_answer(" N "));
    assert_eq!(answer("  ~/src \n").as_deref(), Some("~/src"));
    assert_eq!(answer("   "), None);
}

#[test]
fn activation_messages() {
    assert_eq!(
        user_message(already_active_error("w")),
        "Flow 'w' is already active. Stop it first with 'progflow off w'"
    );
    assert_eq!(
        user_message(other_active_error("a")),
        "Another flow ('a') is currently active. Use --switch to transition automatically."
    );
    assert_eq!(switch_question("a", "b"), "Flow 'a' is active. Stop it and switch to 'b'? [y/N]: ");
    assert_eq!(
        user_message(missing_directory_error("/nope", "w")),
        "Directory does not exist: /nope. Run 'progflow edit w' to update the directory path"
    );
}

#[test]
fn url_lists() {
    assert_eq!(parse_url_list("a, b,,c "), strings(&["a", "b", "", "c"]));
    assert_eq!(parse_url_list(""), strings(&[""]));
    assert_eq!(parse_url_answer("  a, ,b \n"), Some(strings(&["a", "b"])));
    assert_eq!(parse_url_answer("   "), None);
}

#[test]
fn new_flow_from_flags() {
    let c = new_flow_config(
        "test_non_interactive",
        Some(".".to_string()),
        Some("echo 'hello'".to_string()),
        Some("http://localhost:1, https://x.y".to_string()),
        Some("A=1,B=2".to_string()),
        None,
    );
    assert_eq!(c.name, "test_non_interactive");
    assert_eq!(c.directory.as_deref(), Some("."));
    assert_eq!(c.editor_cmd.as_deref(), Some("echo 'hello'"));
    assert_eq!(c.url_list.clone().unwrap(), strings(&["http://localhost:1", "https://x.y"]));
    assert_eq!(c.shell, "/bin/sh");
    assert_eq!(c.env.to_pairs().len(), 2);
    assert!(c.validate().is_ok());
    let e = parse_env_answer("  K=V  ");
    assert_eq!(e.to_pairs(), vec![("K".to_string(), "V".to_string())]);
}

#[test]
fn start_commands_from_cmd_flags() {
    let cmds = start_commands_from_flags(
        &strings(&["sleep 60", "make watch", "npm start"]),
        &strings(&["."]),
        &strings(&["true", "false"]),
    );
    assert_eq!(cmds.len(), 3);
    assert_eq!(cmds[0].command, "sleep 60");
    assert_eq!(cmds[0].working_directory.as_deref(), Some("."));
    assert!(cmds[0].background);
    assert_eq!(cmds[1].working_directory, None);
    assert!(!cmds[1].background);
    assert!(cmds[2].background);
}

#[test]
fn edits_replace_given_fields() {
    let mut c = new_flow_config("w", Some("/a".to_string()), None, None, None, None);
    apply_edits(
        &mut c,
        None,
        Some("code .".to_string()),
        Some("a, b".to_string()),
        Some("X=1".to_string()),
        Some("/bin/bash".to_string()),
        Some("  test note ".to_string()),
    );
    assert_eq!(c.directory.as_deref(), Some("/a"));
    assert_eq!(c.editor_cmd.as_deref(), Some("code ."));
    assert_eq!(c.url_list.clone().unwrap(), strings(&["a", "b"]));
    assert_eq!(c.shell, "/bin/bash");
    assert!(c.note.ends_with("] test note"));
    assert!(c.note.starts_with('['));
    assert_eq!(c.last_note.as_deref(), Some(c.note.as_str()));
}

#[test]
fn sessions_from_lock() {
    let lock = LockFile { pids: vec![], start_time: None };
    assert_eq!(session_seconds(&lock), None);
    let lock = LockFile { pids: vec![], start_time: Some("not a time".to_string()) };
    assert_eq!(session_seconds(&lock), None);
    let lock = LockFile { pids: vec![], start_time: Some("2000-01-01T00:00:00+00:00".to_string()) };
    assert!(session_seconds(&lock).unwrap() > 0);
    let lock = LockFile { pids: vec![], start_time: Some("2999-01-01T00:00:00+00:00".to_string()) };
    assert_eq!(session_seconds(&lock), Some(0));
    assert_eq!(elapsed_seconds(-3), 0);
    assert_eq!(elapsed_seconds(42), 42);
}

#[test]
fn sessions_at_fixed_end() {
    let lock = LockFile { pids: vec![], start_time: Some("2000-01-01T00:00:00+00:00".to_string()) };
    assert_eq!(session_seconds_at(&lock, "2000-01-01T00:01:40+00:00"), Some(100));
    assert_eq!(session_seconds_at(&lock, "2000-01-01T02:01:40+02:00"), Some(100));
    assert_eq!(session_seconds_at(&lock, "2000-01-01T00:00:01.900+00:00"), Some(1));
    assert_eq!(session_seconds_at(&lock, "1999-12-31T23:59:00+00:00"), Some(0));
    assert_eq!(session_seconds_at(&lock, "yesterday"), None);
    let open = LockFile { pids: vec![], start_time: None };
    assert_eq!(session_seconds_at(&open, "2000-01-01T00:01:40+00:00"), None);
    let bad = LockFile { pids: vec![], start_time: Some("noon".to_string()) };
    assert_eq!(session_seconds_at(&bad, "2000-01-01T00:01:40+00:00"), None);
}

#[test]
fn stop_messages() {
    assert_eq!(user_message(no_active_flow_error()), "No active flow found");
    assert_eq!(
        user_message(not_running_error("w")),
        "Flow 'w' doesn't seem to be running (no lock file)"
    );
    assert_eq!(user_message(missing_flow_error("w")), "Flow 'w' does not exist");
    assert_eq!(delete_question("w"), "Delete flow 'w'? [y/N]: ");
}

#[test]
fn listing_output() {
    assert_eq!(list_lines(&Vec::new(), &Vec::new()), strings(&["no flows configured"]));
    assert_eq!(
        list_lines(&strings(&["a", "b"]), &vec![false, true]),
        strings(&["a", "b (active)"])
    );
    assert_eq!(note_lines("w", "", false, false), strings(&["(no note saved)"]));
    assert!(note_lines("w", "", false, true).is_empty());
    assert_eq!(note_lines("w", "hi", true, false), strings(&["Note for flow 'w':", "hi"]));
    assert_eq!(note_lines("w", "hi", false, true), strings(&["hi"]));
    assert_eq!(log_output("w", None), "(no logs found for flow 'w')");
    assert_eq!(log_output("w", Some(String::new())), "(logs are empty)");
    assert_eq!(log_output("w", Some("out".to_string())), "out");
    assert_eq!(status_head_lines("w", Some(2), false), strings(&["Active flow: w", "Running processes: 2"]));
    assert_eq!(status_head_lines("w", Some(2), true), strings(&["2"]));
    assert_eq!(status_head_lines("w", None, false), strings(&["Active flow: w"]));
    assert_eq!(status_note_lines("", false, false), strings(&["(no note saved)"]));
    assert_eq!(status_note_lines("n", true, false), strings(&["Note saved: n"]));
    assert_eq!(status_note_lines("n", false, false), strings(&["n"]));
    assert!(status_note_lines("n", true, true).is_empty());
}

#[test]
fn shell_aliases() {
    assert_eq!(alias_name("my flow.2"), "my-flow-2");
    assert_eq!(alias_name("café"), "café");
    assert_eq!(alias_line("my flow"), "alias flow-my-flow='progflow on \"my flow\"'");
    assert!(alias_lines(&Vec::new()).is_empty());
    let lines = alias_lines(&strings(&["a"]));
    assert_eq!(
        lines,
        strings(&[
            "# Progflow Aliases",
            "# Add this to your .bashrc or .zshrc: eval \"\\$(progflow aliases)\"",
            "",
            "alias flow-a='progflow on \"a\"'",
        ])
    );
}

#[test]
fn remote_versions() {
    let toml = "[package]\nname = \"progflow\"\nversion = \"0.2.0\"\nedition = \"2021\"\n";
    assert_eq!(parse_remote_version(toml).as_deref(), Some("0.2.0"));
    assert_eq!(parse_remote_version("name = \"x\"\n"), None);
    assert_eq!(parse_remote_version("version = \"1.0\r\nx"), Some("1.0".to_string()));
    assert_eq!(parse_remote_version("version = \"1.0\r"), Some("1.0\r".to_string()));
    assert_eq!(parse_remote_version(" version = \"2\""), None);
}

#[test]
fn matrix_helpers() {
    assert_eq!(lcg_step(0, 0), 12345);
    assert_eq!(lcg_step(1, 0), (1103515245u32.wrapping_add(12345)) % 2147483647);
    assert!(rand_simple(7) < 2147483647);
    assert!(matches!(cell_kind(5, 5), Cell::Head));
    assert!(matches!(cell_kind(4, 5), Cell::Bright));
    assert!(matches!(cell_kind(2, 5), Cell::Normal));
    assert!(matches!(cell_kind(0, 9), Cell::Dim));
    assert!(matches!(cell_kind(0, 10), Cell::Blank));
    assert!(matches!(cell_kind(6, 5), Cell::Blank));
    assert_eq!(step_column(3, 2, 10, 5, 1), 5);
    assert_eq!(step_column(9, 2, 10, 5, 1), 1);
    assert_eq!(step_column(3, 2, 10, 50, 1), 3);
    assert_eq!(step_column(3, 2, 10, 5, 1000), 0);
    assert_eq!(usize_rem(17, 5), 2);
    let (cols, speeds) = initial_columns(4, 3);
    assert_eq!(cols.len(), 4);
    assert!(cols.iter().all(|c| *c < 3));
    assert!(speeds.iter().all(|s| (1..=3).contains(s)));
    let row = render_row(0, &vec![15, 20], 1, "A");
    assert_eq!(row, "  ");
    let row = render_row(2, &vec![2], 1, "Z");
    assert_eq!(row, "\x1b[1;37mZ");
    assert_eq!(parse_terminal_size("24 80\n"), Some((24, 80)));
    assert_eq!(parse_terminal_size("  +5\t7 9"), Some((5, 7)));
    assert_eq!(parse_terminal_size("a b"), None);
    assert_eq!(parse_terminal_size("24"), None);
    assert_eq!(parse_terminal_size("-1 3"), None);
    assert_eq!(parse_terminal_size("99999999999999999999999 3"), None);
}

#[test]
fn new_flow_validates_by_name() {
    assert!(new_flow_config("plain", None, None, None, None, None).validate().is_ok());
    assert!(new_flow_config(".dot", None, None, None, None, None).validate().is_err());
    assert!(new_flow_config("a/b", None, None, None, None, None).validate().is_err());
    assert!(new_flow_config("", None, None, None, None, None).validate().is_err());
}

#[test]
fn deleting_active_flow_needs_force() {
    assert_eq!(
        user_message(progflow::commands::delete::active_flow_error("w")),
        "Flow 'w' is active. Stop it first with 'progflow off' or use --force"
    );
}

#[test]
fn activation_conflicts() {
    let other = Some("a".to_string());
    let same = Some("w".to_string());
    assert!(matches!(activation_conflict(&None, "w", false, false, true), Conflict::Clear));
    assert!(matches!(activation_conflict(&same, "w", false, false, true), Conflict::Clear));
    assert!(matches!(activation_conflict(&same, "w", true, false, true), Conflict::AlreadyRunning));
    assert!(matches!(activation_conflict(&other, "w", true, true, true), Conflict::AlreadyRunning));
    assert!(matches!(activation_conflict(&None, "w", true, false, false), Conflict::AlreadyRunning));
    assert!(matches!(activation_conflict(&other, "w", false, true, false), Conflict::StopOther));
    assert!(matches!(activation_conflict(&other, "w", false, false, true), Conflict::Ask));
    assert!(matches!(activation_conflict(&other, "w", false, false, false), Conflict::Refuse));
    assert!(matches!(activation_conflict(&other, "w", true, false, true), Conflict::Ask));
    assert!(matches!(activation_conflict(&other, "w", true, false, false), Conflict::Refuse));
    assert!(matches!(activation_conflict(&same, "w", false, true, false), Conflict::Clear));
    assert!(running_check_needed(&same, "w", false));
    assert!(running_check_needed(&other, "w", true));
    assert!(running_check_needed(&None, "w", false));
    assert!(!running_check_needed(&other, "w", false));
}

#[test]
fn lowered_answers_and_probes() {
    use_lowered();
}

fn use_lowered() {
    assert!(progflow::commands::on::is_yes_lowered("y"));
    assert!(!progflow::commands::on::is_yes_lowered("Y"));
    assert!(!progflow::commands::new::background_answer_lowered("n"));
    assert!(progflow::commands::new::background_answer_lowered("N"));
    let p = progflow::commands::on::url_probe_lowered("HTTP://LOCALHOST:1", "http://localhost:1").unwrap();
    assert_eq!(p.host_port, "LOCALHOST:1");
    assert!(progflow::commands::on::url_probe_lowered("http://localhost:1", "http://example:1").is_none());
}

#[test]
fn stale_locks() {
    assert!(progflow::config::lock_is_stale(&vec![]));
    assert!(progflow::config::lock_is_stale(&vec![false, false]));
    assert!(!progflow::config::lock_is_stale(&vec![false, true]));
}

#[test]
fn rain_glyph_set() {
    let g = rain_glyphs();
    assert!(g.starts_with("ABC"));
    assert!(g.ends_with('こ'));
    assert_eq!(g.chars().count(), 76);
}

#[test]
fn newer_versions_only() {
    assert!(update_needed("0.2.0", "0.1.4"));
    assert!(update_needed("1.10", "1.9"));
    assert!(update_needed("0.1.4.1", "0.1.4"));
    assert!(!update_needed("0.1.3", "0.1.4"));
    assert!(!update_needed("0.1.4", "0.1.4"));
    assert!(!update_needed("1.9", "1.10"));
    assert!(update_needed("beta", "0.1.4"));
    assert!(!update_needed("beta", "beta"));
    assert_eq!(parse_version("1.2.3"), Some(vec![1, 2, 3]));
    assert_eq!(parse_version("1.a"), None);
    assert_eq!(parse_version(""), None);
    assert_eq!(parse_version("1..2"), None);
}

#[test]
fn stop_rounds() {
    assert!(next_signal(StopRound::Terminate, true) == Some(StopSignal::Term));
    assert!(next_signal(StopRound::Kill, true) == Some(StopSignal::Kill));
    assert!(next_signal(StopRound::Terminate, false).is_none());
    assert!(next_signal(StopRound::Kill, false).is_none());
    assert_eq!(grace_seconds(0), 0);
    assert_eq!(grace_seconds(2), 3);
    assert_eq!(signal_line(StopSignal::Term, 42), "Sending SIGTERM to PID 42");
    assert_eq!(signal_line(StopSignal::Kill, 7), "Sending SIGKILL to PID 7");
}

#[test]
fn status_reports_as_json() {
    assert_eq!(status_json(None, 0, &vec![], "", None), "{\n  \"active\": false\n}");
    let r = status_json(Some("work"), 1, &vec![12, 34], "[2024-01-01 10:00] hi", None);
    assert_eq!(
        r,
        "{\n  \"active\": true,\n  \"lastNote\": null,\n  \"name\": \"work\",\n  \"note\": \"[2024-01-01 10:00] hi\",\n  \"pids\": [\n    12,\n    34\n  ],\n  \"runningProcesses\": 1\n}"
    );
    let r = status_json(Some("w"), 0, &vec![], "", Some("n"));
    assert_eq!(
        r,
        "{\n  \"active\": true,\n  \"lastNote\": \"n\",\n  \"name\": \"w\",\n  \"note\": \"\",\n  \"pids\": [],\n  \"runningProcesses\": 0\n}"
    );
}

#[test]
fn flow_lists_as_json() {
    let flows = vec!["a".to_string(), "w".to_string()];
    assert_eq!(
        list_json(&flows, &vec![false, true]),
        "{\n  \"count\": 2,\n  \"flows\": [\n    {\n      \"active\": false,\n      \"name\": \"a\"\n    },\n    {\n      \"active\": true,\n      \"name\": \"w\"\n    }\n  ]\n}"
    );
    assert_eq!(list_json(&vec![], &vec![]), "{\n  \"count\": 0,\n  \"flows\": []\n}");
}
