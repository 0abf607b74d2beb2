//! What depends on the platform: recognising Termux, and the programs that
//! open a URL.

use vstd::prelude::*;

use crate::text::{chars_of, has_prefix, is_prefix, views};

verus! {

/// The `PREFIX` of a Termux installation starts with `/data/data/com.termux`.
pub open spec fn termux_prefix_text(prefix: Seq<char>) -> bool {
    is_prefix("/data/data/com.termux"@, prefix)
}

/// Whether the value of `PREFIX` is that of a Termux installation.
pub fn is_termux_prefix(prefix: &str) -> (b: bool)
    ensures
        b == termux_prefix_text(prefix@),
{
    has_prefix(&chars_of(prefix), "/data/data/com.termux")
}

/// The command lines tried in turn to open `url` on Linux and macOS.
pub open spec fn desktop_openers(url: Seq<char>) -> Seq<Seq<Seq<char>>> {
    seq![
        seq!["xdg-open"@, url],
        seq!["open"@, url],
        seq!["gio"@, "open"@, url],
        seq!["firefox"@, url],
        seq!["chromium"@, url],
        seq!["brave"@, url],
    ]
}

/// The command lines tried in turn to open `url` on Termux.
pub open spec fn termux_openers(url: Seq<char>) -> Seq<Seq<Seq<char>>> {
    seq![
        seq!["termux-open-url"@, url],
        seq!["am"@, "start"@, "-a"@, "android.intent.action.VIEW"@, "-d"@, url],
    ]
}

/// The texts of a list of command lines.
pub open spec fn argv_views(v: Seq<Vec<String>>) -> Seq<Seq<Seq<char>>> {
    v.map_values(|a: Vec<String>| views(a@))
}

/// The command line `program url`.
fn command_line(program: &str, url: &str) -> (r: Vec<String>)
    ensures
        views(r@) == seq![program@, url@],
{
    let mut r: Vec<String> = Vec::new();
    r.push(program.to_owned());
    r.push(url.to_owned());
    assert(views(r@) =~= seq![program@, url@]);
    r
}

/// The command lines tried in turn to open `url` on Linux and macOS; the
/// first whose program exists and starts is used.
pub fn desktop_open_commands(url: &str) -> (r: Vec<Vec<String>>)
    ensures
        argv_views(r@) == desktop_openers(url@),
{
    let mut r: Vec<Vec<String>> = Vec::new();
    r.push(command_line("xdg-open", url));
    r.push(command_line("open", url));
    let mut gio: Vec<String> = Vec::new();
    gio.push("gio".to_owned());
    gio.push("open".to_owned());
    gio.push(url.to_owned());
    assert(views(gio@) =~= seq!["gio"@, "open"@, url@]);
    r.push(gio);
    r.push(command_line("firefox", url));
    r.push(command_line("chromium", url));
    r.push(command_line("brave", url));
    assert(argv_views(r@) =~= desktop_openers(url@));
    r
}

/// The command lines tried in turn to open `url` on Termux; the first that
/// succeeds is used.
pub fn termux_open_commands(url: &str) -> (r: Vec<Vec<String>>)
    ensures
        argv_views(r@) == termux_openers(url@),
{
    let mut r: Vec<Vec<String>> = Vec::new();
    r.push(command_line("termux-open-url", url));
    let mut am: Vec<String> = Vec::new();
    am.push("am".to_owned());
    am.push("start".to_owned());
    am.push("-a".to_owned());
    am.push("android.intent.action.VIEW".to_owned());
    am.push("-d".to_owned());
    am.push(url.to_owned());
    assert(views(am@) =~= seq!["am"@, "start"@, "-a"@, "android.intent.action.VIEW"@, "-d"@, url@]);
    r.push(am);
    assert(argv_views(r@) =~= termux_openers(url@));
    r
}

} // verus!
