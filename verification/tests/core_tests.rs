use progflow::error::AppError;
use progflow::platform::{desktop_open_commands, is_termux_prefix, termux_open_commands};
use progflow::text::{decimal_string, replace_str, split_char, trim_str};
use progflow::tips::{
    get_create_tips, get_off_tips, get_on_tips, pick_tip, select_random_tip, tip_line, tips_for,
    TipEvent,
};

#[test]
fn errors_show_and_exit() {
    let e = AppError::with_suggestion("Directory does not exist: x", "Run it");
    assert!(e.is_user_error());
    assert_eq!(e.message(), "Directory does not exist: x. Run it");
    assert_eq!(e.exit_code(), 1);
    let c = AppError::Config("bad".to_string());
    assert!(!c.is_user_error());
    assert_eq!(c.message(), "Configuration error: bad");
    assert_eq!(c.exit_code(), 1);
    let io = AppError::Io("/p".to_string(), std::io::Error::new(std::io::ErrorKind::Other, "boom"));
    assert_eq!(io.message(), "IO error: /p: boom");
    assert_eq!(io.exit_code(), 2);
    let json_err = serde_json::from_str::<u32>("x").unwrap_err();
    let j = AppError::Json("/c.json".to_string(), json_err);
    let shown = serde_json::from_str::<u32>("x").unwrap_err().to_string();
    assert_eq!(j.message(), format!("JSON error in /c.json: {}", shown));
    assert_eq!(j.exit_code(), 2);
}

#[test]
fn text_helpers() {
    assert_eq!(trim_str(" \t a b \u{3000}"), "a b");
    assert_eq!(split_char("a,,b", ','), vec!["a", "", "b"]);
    assert_eq!(replace_str("localhost:0.0.0.0", "0.0.0.0", "127.0.0.1"), "localhost:127.0.0.1");
    assert_eq!(replace_str("aaa", "aa", "b"), "ba");
    assert_eq!(decimal_string(0), "0");
    assert_eq!(decimal_string(1234567890), "1234567890");
}

#[test]
fn termux_detection() {
    assert!(is_termux_prefix("/data/data/com.termux/files/usr"));
    assert!(!is_termux_prefix("/usr"));
}

#[test]
fn url_openers() {
    let d = desktop_open_commands("http://x");
    assert_eq!(d.len(), 6);
    assert_eq!(d[0], vec!["xdg-open", "http://x"]);
    assert_eq!(d[2], vec!["gio", "open", "http://x"]);
    assert_eq!(d[5], vec!["brave", "http://x"]);
    let t = termux_open_commands("u");
    assert_eq!(t[0], vec!["termux-open-url", "u"]);
    assert_eq!(t[1], vec!["am", "start", "-a", "android.intent.action.VIEW", "-d", "u"]);
}

#[test]
fn tips_by_platform() {
    assert_eq!(get_create_tips("linux", true).len(), 5);
    assert_eq!(
        get_create_tips("linux", true)[4],
        "In Termux, you can use 'termux-boot' to run progflow on startup."
    );
    assert_eq!(get_create_tips("windows", false).len(), 4);
    assert_eq!(get_on_tips("linux", true).len(), 4);
    assert_eq!(get_on_tips("linux", false).len(), 5);
    assert_eq!(get_off_tips("macos", false).len(), 5);
    assert_eq!(tips_for(TipEvent::Off, "macos", false), get_off_tips("macos", false));
    assert_eq!(pick_tip(vec!["a", "b", "c"], 7), Some("b"));
    assert_eq!(pick_tip(Vec::new(), 7), None);
    let t = select_random_tip(vec!["x", "y"]).unwrap();
    assert!(t == "x" || t == "y");
    assert_eq!(select_random_tip(Vec::new()), None);
    assert_eq!(tip_line("t"), "\n💡 Tip: t");
}

#[test]
fn trimming_twice_is_trimming_once() {
    for s in ["  a b  ", "\u{2003}x", "", "   ", "q"] {
        assert_eq!(trim_str(trim_str(s)), trim_str(s));
    }
}
