//! Session analytics of a flow.

use vstd::prelude::*;

use crate::clock::{rfc3339_accepts, rfc3339_minutes, rfc3339_minutes_text};
use crate::config::FlowConfig;
use crate::text::{decimal, decimal_string, join, join_strings, views};

verus! {

/// The non-zero parts of a duration of `s` seconds as `Nh`, `Nm`, `Ns`, the
/// seconds also when nothing else is shown.
pub open spec fn duration_parts(s: nat) -> Seq<Seq<char>> {
    let h = s / 3600;
    let m = (s % 3600) / 60;
    let sec = s % 60;
    (if h > 0 {
        seq![decimal(h) + "h"@]
    } else {
        Seq::<Seq<char>>::empty()
    }) + (if m > 0 {
        seq![decimal(m) + "m"@]
    } else {
        Seq::<Seq<char>>::empty()
    }) + (if sec > 0 || (h == 0 && m == 0) {
        seq![decimal(sec) + "s"@]
    } else {
        Seq::<Seq<char>>::empty()
    })
}

/// A duration of `s` seconds as text: `0s`, or its parts separated by spaces
/// (for example `1h 1m 1s`, `2m`, `1h 5s`).
pub open spec fn duration_text(s: nat) -> Seq<char> {
    if s == 0 {
        "0s"@
    } else {
        join(duration_parts(s), " "@)
    }
}

/// Whenever a duration has seconds beyond its whole minutes, they are shown,
/// last, whatever its hours and minutes: the text ends with them and `s`.
pub proof fn lemma_duration_ends_with_seconds(s: nat)
    requires
        s % 60 > 0,
    ensures
        crate::text::is_suffix(decimal(s % 60) + "s"@, duration_text(s)),
{
    let parts = duration_parts(s);
    assert(parts.len() > 0 && parts.last() == decimal(s % 60) + "s"@);
    crate::text::lemma_join_ends_with_last(parts, " "@);
}

/// Under a minute, a duration is its seconds and `s`; from an hour on, its
/// text starts with the whole hours and `h`.
pub proof fn lemma_duration_ends(s: nat)
    ensures
        0 < s < 60 ==> duration_text(s) == decimal(s) + "s"@,
        s >= 3600 ==> crate::text::is_prefix(decimal(s / 3600) + "h"@, duration_text(s)),
{
    let parts = duration_parts(s);
    if 0 < s < 60 {
        assert(parts =~= seq![decimal(s) + "s"@]);
    }
    if s >= 3600 {
        let first = decimal(s / 3600) + "h"@;
        let rest = parts.subrange(1, parts.len() as int);
        assert(parts =~= seq![first] + rest);
        crate::text::lemma_join_first(first, rest, " "@);
        let t = duration_text(s);
        assert(t.subrange(0, first.len() as int) =~= first);
    }
}

/// `n` followed by the unit letter `unit`.
fn with_unit(n: u64, unit: &str) -> (r: String)
    ensures
        r@ == decimal(n as nat) + unit@,
{
    let mut r = decimal_string(n);
    r.append(unit);
    r
}

/// A duration of `seconds` seconds as text.
pub fn format_duration(seconds: u64) -> (r: String)
    ensures
        r@ == duration_text(seconds as nat),
{
    if seconds == 0 {
        return "0s".to_owned();
    }
    let hours = seconds / 3600;
    let minutes = (seconds % 3600) / 60;
    let secs = seconds % 60;
    let mut parts: Vec<String> = Vec::new();
    if hours > 0 {
        parts.push(with_unit(hours, "h"));
    }
    if minutes > 0 {
        parts.push(with_unit(minutes, "m"));
    }
    if secs > 0 || parts.len() == 0 {
        parts.push(with_unit(secs, "s"));
    }
    assert(views(parts@) =~= duration_parts(seconds as nat));
    join_strings(&parts, " ")
}

/// The lines of the analytics report of the flow `name`, where `last` is the
/// minute of its last activation when that could be read.
pub open spec fn stats_text(
    name: Seq<char>,
    total: nat,
    count: nat,
    last: Option<Seq<char>>,
) -> Seq<Seq<char>> {
    seq![
        "Analytics for flow: "@ + name,
        "-------------------"@,
        "Total time spent:      "@ + duration_text(total),
        "Total sessions:        "@ + decimal(count),
    ] + (if count > 0 {
        seq!["Average session:       "@ + duration_text(total / count)]
    } else {
        Seq::<Seq<char>>::empty()
    }) + match last {
        Some(t) => seq!["Last activated:        "@ + t],
        None => Seq::<Seq<char>>::empty(),
    }
}

/// `prefix` followed by `rest`.
fn line(prefix: &str, rest: &str) -> (r: String)
    ensures
        r@ == prefix@ + rest@,
{
    let mut r = prefix.to_owned();
    r.append(rest);
    r
}

/// The lines of the analytics report of the flow `name` with configuration
/// `config`, given the minute of its last activation when that could be read.
pub fn stats_lines(name: &str, config: &FlowConfig, last: Option<String>) -> (r: Vec<String>)
    ensures
        views(r@) == stats_text(
            name@,
            config.total_seconds as nat,
            config.session_count as nat,
            match last {
                Some(t) => Some(t@),
                None => None,
            },
        ),
{
    let mut r: Vec<String> = Vec::new();
    r.push(line("Analytics for flow: ", name));
    r.push("-------------------".to_owned());
    r.push(line("Total time spent:      ", format_duration(config.total_seconds).as_str()));
    r.push(line("Total sessions:        ", decimal_string(config.session_count).as_str()));
    if config.session_count > 0 {
        let avg = config.total_seconds / config.session_count;
        r.push(line("Average session:       ", format_duration(avg).as_str()));
    }
    if let Some(t) = &last {
        r.push(line("Last activated:        ", t.as_str()));
    }
    assert(views(r@) =~= stats_text(
        name@,
        config.total_seconds as nat,
        config.session_count as nat,
        match last {
            Some(t) => Some(t@),
            None => None,
        },
    ));
    r
}

/// The analytics report of the flow `name` (what `progflow stats` prints):
/// the last activation is shown when its timestamp can be read.
pub fn stats_report(name: &str, config: &FlowConfig) -> (r: Vec<String>)
    ensures
        views(r@) == stats_text(
            name@,
            config.total_seconds as nat,
            config.session_count as nat,
            match config.last_activated {
                Some(s) => if rfc3339_accepts(s@) {
                    Some(rfc3339_minutes_text(s@))
                } else {
                    None
                },
                None => None,
            },
        ),
{
    let last = match &config.last_activated {
        Some(s) => rfc3339_minutes(s.as_str()),
        None => None,
    };
    stats_lines(name, config, last)
}

} // verus!
