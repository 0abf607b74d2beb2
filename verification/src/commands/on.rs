//! Starting a flow: where its commands run, which pages are probed before
//! they open, and the summary of what was started.

use vstd::prelude::*;
use vstd::utf8::encode_utf8;

use crate::config::{opt_view, FlowConfig, StartCommand};
use crate::error::AppError;
use crate::text::{
    before_char, before_char_exec, chars_of, contains_char, contains_str, contains_text, decimal,
    decimal_string, join, join_strings, lowercase, lowercase_text, replace_all, replace_str,
    same_text, strip_all, strip_all_str, trim, trim_str, views,
};

verus! {

/// The parts of the start summary: the editor, the start commands and the URLs.
pub open spec fn summary_parts(has_editor: bool, commands: nat, urls: nat) -> Seq<Seq<char>> {
    (if has_editor {
        seq!["editor"@]
    } else {
        Seq::<Seq<char>>::empty()
    }) + (if commands > 0 {
        seq![
            decimal(commands) + " start "@ + (if commands == 1 {
                "command"@
            } else {
                "commands"@
            }),
        ]
    } else {
        Seq::<Seq<char>>::empty()
    }) + (if urls > 0 {
        seq![
            decimal(urls) + " "@ + (if urls == 1 {
                "url"@
            } else {
                "urls"@
            }),
        ]
    } else {
        Seq::<Seq<char>>::empty()
    })
}

/// The summary of a start: its parts separated by commas, or `started (no
/// processes)` when there are none.
pub open spec fn summary_text(has_editor: bool, commands: nat, urls: nat) -> Seq<char> {
    let parts = summary_parts(has_editor, commands, urls);
    if parts.len() == 0 {
        "started (no processes)"@
    } else {
        join(parts, ", "@)
    }
}

/// With an editor, the summary names it first: `editor` alone when nothing
/// else starts, else `editor, ` followed by what the summary without the
/// editor lists; it is never `started (no processes)`.
pub proof fn lemma_summary_names_editor_first(commands: nat, urls: nat)
    ensures
        summary_text(true, commands, urls) == if commands == 0 && urls == 0 {
            "editor"@
        } else {
            "editor"@ + ", "@ + summary_text(false, commands, urls)
        },
        summary_text(true, commands, urls) != "started (no processes)"@,
{
    let rest = summary_parts(false, commands, urls);
    assert(summary_parts(true, commands, urls) =~= seq!["editor"@] + rest);
    crate::text::lemma_join_first("editor"@, rest, ", "@);
    reveal_strlit("editor");
    reveal_strlit("started (no processes)");
    let t = summary_text(true, commands, urls);
    assert(t[0] == 'e');
    assert("started (no processes)"@[0] == 's');
}

/// `n` followed by `middle` and the singular or plural word.
fn counted(n: usize, middle: &str, one: &str, many: &str) -> (r: String)
    ensures
        r@ == decimal(n as nat) + middle@ + (if n == 1 {
            one@
        } else {
            many@
        }),
{
    let mut r = decimal_string(n as u64);
    r.append(middle);
    if n == 1 {
        r.append(one);
    } else {
        r.append(many);
    }
    r
}

/// The summary of a start with or without an editor, `commands` start
/// commands and `urls` URLs.
pub fn start_summary(has_editor: bool, commands: usize, urls: usize) -> (r: String)
    ensures
        r@ == summary_text(has_editor, commands as nat, urls as nat),
{
    let mut parts: Vec<String> = Vec::new();
    if has_editor {
        parts.push("editor".to_owned());
    }
    if commands > 0 {
        parts.push(counted(commands, " start ", "command", "commands"));
    }
    if urls > 0 {
        parts.push(counted(urls, " ", "url", "urls"));
    }
    assert(views(parts@) =~= summary_parts(has_editor, commands as nat, urls as nat));
    if parts.len() == 0 {
        "started (no processes)".to_owned()
    } else {
        join_strings(&parts, ", ")
    }
}

/// The number of URLs of `c` (the empty ones too).
pub open spec fn url_count(c: FlowConfig) -> nat {
    match c.url_list {
        Some(us) => us@.len(),
        None => 0,
    }
}

/// The summary of starting the flow `config`.
pub fn launch_summary(config: &FlowConfig) -> (r: String)
    ensures
        r@ == summary_text(
            config.editor_cmd is Some,
            config.start_commands@.len(),
            url_count(*config),
        ),
{
    let urls = match &config.url_list {
        Some(us) => us.len(),
        None => 0,
    };
    start_summary(config.editor_cmd.is_some(), config.start_commands.len(), urls)
}

/// The directory where the flow's editor and commands run by default.
pub open spec fn work_dir_text(c: FlowConfig) -> Seq<char> {
    match c.directory {
        Some(d) => d@,
        None => "."@,
    }
}

/// The directory where the flow's editor and commands run by default: its
/// directory, or `.`.
pub fn work_dir(config: &FlowConfig) -> (r: String)
    ensures
        r@ == work_dir_text(*config),
{
    match &config.directory {
        Some(d) => d.clone(),
        None => ".".to_owned(),
    }
}

/// Where a start command runs, as the bytes of the path: `home` means the
/// home directory (`.` when there is none), a non-empty directory is used as
/// it is, and otherwise the flow's directory `work_dir`.
pub open spec fn command_dir_path(
    wd: Option<Seq<char>>,
    work_dir: Seq<char>,
    home: Option<Seq<u8>>,
) -> Seq<u8> {
    match wd {
        Some(d) => if d == "home"@ {
            match home {
                Some(h) => h,
                None => encode_utf8("."@),
            }
        } else if d.len() > 0 {
            encode_utf8(d)
        } else {
            encode_utf8(work_dir)
        },
        None => encode_utf8(work_dir),
    }
}

/// Where a start command with working directory `wd` runs, given the home
/// directory `home`.
pub fn command_dir_with_home(wd: &Option<String>, work_dir: &str, home: Option<Vec<u8>>) -> (r:
    Vec<u8>)
    ensures
        r@ == command_dir_path(opt_view(*wd), work_dir@, opt_bytes(home)),
{
    match wd {
        Some(d) => {
            if same_text(d.as_str(), "home") {
                match home {
                    Some(h) => h,
                    None => ".".as_bytes_vec(),
                }
            } else if d.as_str().unicode_len() > 0 {
                d.as_str().as_bytes_vec()
            } else {
                work_dir.as_bytes_vec()
            }
        },
        None => work_dir.as_bytes_vec(),
    }
}

/// The bytes held by an optional byte vector.
pub open spec fn opt_bytes(v: Option<Vec<u8>>) -> Option<Seq<u8>> {
    match v {
        Some(b) => Some(b@),
        None => None,
    }
}

/// The user's home directory as `dirs::home_dir` finds it, as the bytes of the
/// path (`OsString::into_encoded_bytes`). It depends on the environment, so
/// nothing is stated of it.
#[verifier::external_body]
fn user_home_dir() -> Option<Vec<u8>> {
    match dirs::home_dir() {
        Some(p) => Some(p.into_os_string().into_encoded_bytes()),
        None => None,
    }
}

/// Where the start command `cmd` of a flow whose directory is `work_dir` runs,
/// as the bytes of the path. The home directory is looked up only for `home`.
pub fn command_dir(cmd: &StartCommand, work_dir: &str) -> (r: Vec<u8>)
    ensures
        exists|home: Option<Seq<u8>>| r@ == command_dir_path(
            opt_view(cmd.working_directory),
            work_dir@,
            home,
        ),
        opt_view(cmd.working_directory) != Some("home"@) ==> r@ == command_dir_path(
            opt_view(cmd.working_directory),
            work_dir@,
            None,
        ),
{
    let is_home = match &cmd.working_directory {
        Some(d) => same_text(d.as_str(), "home"),
        None => false,
    };
    let home = if is_home {
        user_home_dir()
    } else {
        None
    };
    command_dir_with_home(&cmd.working_directory, work_dir, home)
}

/// The address probed before a local page opens.
pub struct UrlProbe {
    /// The host and port as written in the URL.
    pub host_port: String,
    /// The address connected to: `127.0.0.1` for `localhost` and `0.0.0.0`,
    /// with port 80 when none is given.
    pub address: String,
}

/// The URL without its leading `http://`, `https://`, `HTTP://`, `HTTPS://`
/// (each repeated), up to its first `/`.
pub open spec fn host_port_of(url: Seq<char>) -> Seq<char> {
    before_char(
        strip_all(
            strip_all(strip_all(strip_all(url, "http://"@), "https://"@), "HTTP://"@),
            "HTTPS://"@,
        ),
        '/',
    )
}

/// The address connected to for `host_port`.
pub open spec fn probe_address(host_port: Seq<char>) -> Seq<char> {
    let a = replace_all(
        replace_all(host_port, "localhost"@, "127.0.0.1"@),
        "0.0.0.0"@,
        "127.0.0.1"@,
    );
    if host_port.contains(':') {
        a
    } else {
        a + ":80"@
    }
}

/// The text `lower` (the URL in lower case) names the local machine.
pub open spec fn names_local_host_lowered(lower: Seq<char>) -> bool {
    contains_text(lower, "localhost"@) || contains_text(lower, "127.0.0.1"@) || contains_text(
        lower,
        "0.0.0.0"@,
    ) || contains_text(lower, "[::1]"@)
}

/// The probe of `url`, given `lower`, the URL in lower case: only local URLs
/// with a host are probed.
pub open spec fn url_probe_lowered_spec(url: Seq<char>, lower: Seq<char>) -> Option<
    (Seq<char>, Seq<char>),
> {
    if !names_local_host_lowered(lower) || host_port_of(url).len() == 0 {
        None
    } else {
        Some((host_port_of(url), probe_address(host_port_of(url))))
    }
}

/// The probe of a URL before it opens: only local URLs with a host are probed.
pub open spec fn url_probe_spec(url: Seq<char>) -> Option<(Seq<char>, Seq<char>)> {
    url_probe_lowered_spec(url, lowercase_text(url))
}

/// Which address to probe, if any, before `url` opens.
pub fn url_probe(url: &str) -> (r: Option<UrlProbe>)
    ensures
        match r {
            Some(p) => url_probe_spec(url@) == Some((p.host_port@, p.address@)),
            None => url_probe_spec(url@) is None,
        },
{
    let lower = lowercase(url);
    url_probe_lowered(url, lower.as_str())
}

/// Which address to probe, if any, before `url` opens, where `lower` is the
/// URL in lower case (which decides whether it names the local machine).
pub fn url_probe_lowered(url: &str, lower: &str) -> (r: Option<UrlProbe>)
    ensures
        match r {
            Some(p) => url_probe_lowered_spec(url@, lower@) == Some((p.host_port@, p.address@)),
            None => url_probe_lowered_spec(url@, lower@) is None,
        },
{
    proof {
        reveal_strlit("localhost");
        reveal_strlit("127.0.0.1");
        reveal_strlit("0.0.0.0");
        reveal_strlit("[::1]");
    }
    let l = lower;
    if !(contains_str(l, "localhost") || contains_str(l, "127.0.0.1") || contains_str(l, "0.0.0.0")
        || contains_str(l, "[::1]")) {
        return None;
    }
    let s1 = strip_all_str(url, "http://");
    let s2 = strip_all_str(s1, "https://");
    let s3 = strip_all_str(s2, "HTTP://");
    let s4 = strip_all_str(s3, "HTTPS://");
    let hp = before_char_exec(&chars_of(s4), '/');
    proof {
        crate::text::lemma_before_char_prefix(s4@, '/');
    }
    if hp.len() == 0 {
        return None;
    }
    let host_port = s4.substring_char(0, hp.len());
    let r1 = replace_str(host_port, "localhost", "127.0.0.1");
    let mut address = replace_str(r1.as_str(), "0.0.0.0", "127.0.0.1");
    if !contains_char(&hp, ':') {
        address.append(":80");
    }
    Some(UrlProbe { host_port: host_port.to_owned(), address })
}

/// The warning shown when a probed page does not answer.
pub fn unresponsive_warning(host_port: &str) -> (r: String)
    ensures
        r@ == "Warning: "@ + host_port@ + " does not respond – browser may show error"@,
{
    let mut r = "Warning: ".to_owned();
    r.append(host_port);
    r.append(" does not respond – browser may show error");
    r
}

/// An answer to a yes/no question is yes: `y` in any case, with white space around.
pub open spec fn is_yes_text(answer: Seq<char>) -> bool {
    lowercase_text(trim(answer)) == "y"@
}

/// Whether `answer` says yes.
pub fn is_yes(answer: &str) -> (b: bool)
    ensures
        b == is_yes_text(answer@),
{
    let l = lowercase(trim_str(answer));
    is_yes_lowered(l.as_str())
}

/// Whether an answer, trimmed and in lower case as `lowered`, says yes: it is `y`.
pub fn is_yes_lowered(lowered: &str) -> (b: bool)
    ensures
        b == (lowered@ == "y"@),
{
    same_text(lowered, "y")
}

/// The error when the flow `name` is started while it runs.
pub fn already_active_error(name: &str) -> (e: AppError)
    ensures
        e matches AppError::User(m) && m@ == "Flow '"@ + name@
            + "' is already active. Stop it first with 'progflow off "@ + name@ + "'"@,
{
    let mut m = "Flow '".to_owned();
    m.append(name);
    m.append("' is already active. Stop it first with 'progflow off ");
    m.append(name);
    m.append("'");
    AppError::User(m)
}

/// The error when another flow runs and the user does not switch.
pub fn other_active_error(active: &str) -> (e: AppError)
    ensures
        e matches AppError::User(m) && m@ == "Another flow ('"@ + active@
            + "') is currently active. Use --switch to transition automatically."@,
{
    let mut m = "Another flow ('".to_owned();
    m.append(active);
    m.append("') is currently active. Use --switch to transition automatically.");
    AppError::User(m)
}

/// The question asked before switching from the flow `active` to `name`.
pub fn switch_question(active: &str, name: &str) -> (r: String)
    ensures
        r@ == "Flow '"@ + active@ + "' is active. Stop it and switch to '"@ + name@
            + "'? [y/N]: "@,
{
    let mut r = "Flow '".to_owned();
    r.append(active);
    r.append("' is active. Stop it and switch to '");
    r.append(name);
    r.append("'? [y/N]: ");
    r
}

/// The error when the directory `dir` of the flow `name` does not exist.
pub fn missing_directory_error(dir: &str, name: &str) -> (e: AppError)
    ensures
        e matches AppError::User(m) && m@ == "Directory does not exist: "@ + dir@ + ". "@
            + "Run 'progflow edit "@ + name@ + "' to update the directory path"@,
{
    let mut msg = "Directory does not exist: ".to_owned();
    msg.append(dir);
    let mut hint = "Run 'progflow edit ".to_owned();
    hint.append(name);
    hint.append("' to update the directory path");
    AppError::with_suggestion(msg.as_str(), hint.as_str())
}


/// What starting a flow does about the flows that run.
pub enum Conflict {
    /// The flow already runs: the start is refused.
    AlreadyRunning,
    /// No other flow is active: go on.
    Clear,
    /// Another flow is active and `--switch` was given: stop it first.
    StopOther,
    /// Another flow is active and the user is asked whether to stop it; a
    /// yes counts as `--switch`.
    Ask,
    /// Another flow is active and nobody can be asked: fail, naming it.
    Refuse,
}

/// What starting the flow `name` does, given the active flow `active` (the one
/// whose lock changed last), whether `name` runs already (`running`),
/// `--switch` (`switch`) and whether the user can be asked (`interactive`).
/// Without `--switch`, another active flow is reported whatever `name` does;
/// with it, or when `name` is the active flow itself, a running `name` is
/// refused, and its stale lock does not stop it.
pub open spec fn conflict_spec(
    active: Option<Seq<char>>,
    name: Seq<char>,
    running: bool,
    switch: bool,
    interactive: bool,
) -> Conflict {
    match active {
        Some(a) => if a != name && !switch {
            if interactive {
                Conflict::Ask
            } else {
                Conflict::Refuse
            }
        } else if running {
            Conflict::AlreadyRunning
        } else if a != name {
            Conflict::StopOther
        } else {
            Conflict::Clear
        },
        None => if running {
            Conflict::AlreadyRunning
        } else {
            Conflict::Clear
        },
    }
}

/// Whether the decision for starting `name` depends on whether `name` runs:
/// not when another flow is active and `--switch` was not given.
pub open spec fn running_matters(active: Option<Seq<char>>, name: Seq<char>, switch: bool) -> bool {
    match active {
        Some(a) => a == name || switch,
        None => true,
    }
}

/// What starting the flow `name` does (see `conflict_spec`). The start goes
/// on (`Clear` or `StopOther`) only when `name` does not run.
pub fn activation_conflict(
    active: &Option<String>,
    name: &str,
    running: bool,
    switch: bool,
    interactive: bool,
) -> (c: Conflict)
    ensures
        c == conflict_spec(opt_view(*active), name@, running, switch, interactive),
        running ==> !(c is Clear) && !(c is StopOther),
        (c is AlreadyRunning) ==> running,
{
    match active {
        Some(a) => {
            let same = same_text(a.as_str(), name);
            if !same && !switch {
                if interactive {
                    Conflict::Ask
                } else {
                    Conflict::Refuse
                }
            } else if running {
                Conflict::AlreadyRunning
            } else if !same {
                Conflict::StopOther
            } else {
                Conflict::Clear
            }
        },
        None => if running {
            Conflict::AlreadyRunning
        } else {
            Conflict::Clear
        },
    }
}

/// Whether the start of `name` must first find out whether `name` runs: only
/// when the answer can change the decision.
pub fn running_check_needed(active: &Option<String>, name: &str, switch: bool) -> (b: bool)
    ensures
        b == running_matters(opt_view(*active), name@, switch),
        !b ==> forall|r1: bool, r2: bool, i: bool|
            #![trigger conflict_spec(opt_view(*active), name@, r1, switch, i), conflict_spec(opt_view(*active), name@, r2, switch, i)]
            conflict_spec(opt_view(*active), name@, r1, switch, i) == conflict_spec(
                opt_view(*active),
                name@,
                r2,
                switch,
                i,
            ),
{
    match active {
        Some(a) => switch || same_text(a.as_str(), name),
        None => true,
    }
}

/// A running flow is never started a second time: whatever the active flow,
/// `--switch` and the user's answer (a yes decides again as `--switch`), the
/// start goes on only when the flow does not run.
pub proof fn lemma_running_flow_not_restarted(
    active: Option<Seq<char>>,
    name: Seq<char>,
    switch: bool,
    interactive: bool,
)
    ensures
        !(conflict_spec(active, name, true, switch, interactive) is Clear),
        !(conflict_spec(active, name, true, switch, interactive) is StopOther),
        conflict_spec(active, name, true, switch, interactive) is Ask ==> conflict_spec(
            active,
            name,
            true,
            true,
            interactive,
        ) is AlreadyRunning,
{
}

} // verus!
