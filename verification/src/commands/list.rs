//! What `progflow list`, `status`, `note` and `logs` print.

use vstd::prelude::*;

use crate::json::{
    field_views, item_view, pretty_json, pretty_json_text, record_view, JsonItem, JsonScalar, JsonValue,
};
use crate::text::{decimal, decimal_string, views};

verus! {

/// The lines of the flow list: each flow, marked when it is active.
pub open spec fn list_text(flows: Seq<Seq<char>>, active: Seq<bool>) -> Seq<Seq<char>> {
    if flows.len() == 0 {
        seq!["no flows configured"@]
    } else {
        Seq::new(
            flows.len(),
            |i: int|
                flows[i] + if active[i] {
                    " (active)"@
                } else {
                    ""@
                },
        )
    }
}

/// The lines of `progflow list` for `flows`, where `active[i]` tells whether
/// `flows[i]` runs.
pub fn list_lines(flows: &Vec<String>, active: &Vec<bool>) -> (r: Vec<String>)
    requires
        active@.len() == flows@.len(),
    ensures
        views(r@) == list_text(views(flows@), active@),
{
    let mut r: Vec<String> = Vec::new();
    if flows.len() == 0 {
        r.push("no flows configured".to_owned());
        assert(views(r@) =~= list_text(views(flows@), active@));
        return r;
    }
    let mut i: usize = 0;
    while i < flows.len()
        invariant
            i <= flows@.len(),
            active@.len() == flows@.len(),
            flows@.len() > 0,
            r@.len() == i,
            views(r@) == list_text(views(flows@), active@).subrange(0, i as int),
        decreases flows@.len() - i,
    {
        assert(views(flows@)[i as int] == flows@[i as int]@);
        let mut l = flows[i].clone();
        if active[i] {
            l.append(" (active)");
        } else {
            l.append("");
        }
        r.push(l);
        assert(views(r@) =~= list_text(views(flows@), active@).subrange(0, i + 1));
        i = i + 1;
    }
    assert(list_text(views(flows@), active@).subrange(0, i as int) =~= list_text(
        views(flows@),
        active@,
    ));
    r
}

/// The lines `progflow note` prints for the flow `name` with note `note`.
pub open spec fn note_text_lines(name: Seq<char>, note: Seq<char>, verbose: bool, quiet: bool) -> Seq<
    Seq<char>,
> {
    if note.len() == 0 {
        if quiet {
            Seq::<Seq<char>>::empty()
        } else {
            seq!["(no note saved)"@]
        }
    } else if verbose {
        seq!["Note for flow '"@ + name + "':"@, note]
    } else {
        seq![note]
    }
}

/// The lines `progflow note` prints for the flow `name` with note `note`.
pub fn note_lines(name: &str, note: &str, verbose: bool, quiet: bool) -> (r: Vec<String>)
    ensures
        views(r@) == note_text_lines(name@, note@, verbose, quiet),
{
    let mut r: Vec<String> = Vec::new();
    if note.unicode_len() == 0 {
        if !quiet {
            r.push("(no note saved)".to_owned());
        }
    } else {
        if verbose {
            let mut l = "Note for flow '".to_owned();
            l.append(name);
            l.append("':");
            r.push(l);
        }
        r.push(note.to_owned());
    }
    assert(views(r@) =~= note_text_lines(name@, note@, verbose, quiet));
    r
}

/// What `progflow logs` prints for the flow `name`, given the content of its
/// log file when there is one.
pub open spec fn log_text(name: Seq<char>, content: Option<Seq<char>>) -> Seq<char> {
    match content {
        None => "(no logs found for flow '"@ + name + "')"@,
        Some(c) => if c.len() == 0 {
            "(logs are empty)"@
        } else {
            c
        },
    }
}

/// What `progflow logs` prints for the flow `name`.
pub fn log_output(name: &str, content: Option<String>) -> (r: String)
    ensures
        r@ == log_text(
            name@,
            match content {
                Some(c) => Some(c@),
                None => None,
            },
        ),
{
    match content {
        None => {
            let mut r = "(no logs found for flow '".to_owned();
            r.append(name);
            r.append("')");
            r
        },
        Some(c) => {
            if c.as_str().unicode_len() == 0 {
                "(logs are empty)".to_owned()
            } else {
                c
            }
        },
    }
}

/// The first lines of `progflow status` for the active flow `name`, given how
/// many of its processes run when its lock file could be read.
pub open spec fn status_head_text(name: Seq<char>, running: Option<nat>, quiet: bool) -> Seq<
    Seq<char>,
> {
    (if quiet {
        Seq::<Seq<char>>::empty()
    } else {
        seq!["Active flow: "@ + name]
    }) + match running {
        None => Seq::<Seq<char>>::empty(),
        Some(n) => if quiet {
            seq![decimal(n)]
        } else {
            seq!["Running processes: "@ + decimal(n)]
        },
    }
}

/// The first lines of `progflow status` for the active flow `name`.
pub fn status_head_lines(name: &str, running: Option<u64>, quiet: bool) -> (r: Vec<String>)
    ensures
        views(r@) == status_head_text(
            name@,
            match running {
                Some(n) => Some(n as nat),
                None => None,
            },
            quiet,
        ),
{
    let mut r: Vec<String> = Vec::new();
    if !quiet {
        let mut l = "Active flow: ".to_owned();
        l.append(name);
        r.push(l);
    }
    if let Some(n) = running {
        if quiet {
            r.push(decimal_string(n));
        } else {
            let mut l = "Running processes: ".to_owned();
            l.append(decimal_string(n).as_str());
            r.push(l);
        }
    }
    assert(views(r@) =~= status_head_text(
        name@,
        match running {
            Some(n) => Some(n as nat),
            None => None,
        },
        quiet,
    ));
    r
}

/// The note lines of `progflow status` for a flow with note `note`.
pub open spec fn status_note_text(note: Seq<char>, verbose: bool, quiet: bool) -> Seq<Seq<char>> {
    if quiet {
        Seq::<Seq<char>>::empty()
    } else if note.len() == 0 {
        seq!["(no note saved)"@]
    } else if verbose {
        seq!["Note saved: "@ + note]
    } else {
        seq![note]
    }
}

/// Without a note, `progflow status` says so, verbose or not; with one, it
/// shows the note, after `Note saved: ` when verbose; quiet, it shows nothing.
pub proof fn lemma_status_note_lines(note: Seq<char>, verbose: bool, quiet: bool)
    ensures
        quiet ==> status_note_text(note, verbose, quiet).len() == 0,
        !quiet && note.len() == 0 ==> status_note_text(note, verbose, quiet) == seq![
            "(no note saved)"@,
        ],
        !quiet && note.len() == 0 ==> status_note_text(note, true, quiet) == status_note_text(
            note,
            false,
            quiet,
        ),
        !quiet && note.len() > 0 ==> status_note_text(note, verbose, quiet) == seq![
            (if verbose {
                "Note saved: "@
            } else {
                ""@
            }) + note,
        ],
{
    assert(""@ + note =~= note) by {
        reveal_strlit("");
    }
}

/// The note lines of `progflow status` for a flow with note `note`.
pub fn status_note_lines(note: &str, verbose: bool, quiet: bool) -> (r: Vec<String>)
    ensures
        views(r@) == status_note_text(note@, verbose, quiet),
{
    let mut r: Vec<String> = Vec::new();
    if !quiet {
        if note.unicode_len() == 0 {
            r.push("(no note saved)".to_owned());
        } else if verbose {
            let mut l = "Note saved: ".to_owned();
            l.append(note);
            r.push(l);
        } else {
            r.push(note.to_owned());
        }
    }
    assert(views(r@) =~= status_note_text(note@, verbose, quiet));
    r
}

/// The fields of `progflow status --json`: only `active: false` when no flow
/// is active; else `active`, `name`, `runningProcesses`, `pids`, `note` and
/// `lastNote` (null when there is none).
pub open spec fn status_fields(
    active: Option<Seq<char>>,
    running: nat,
    pids: Seq<u32>,
    note: Seq<char>,
    last_note: Option<Seq<char>>,
) -> Seq<(Seq<char>, JsonValue)> {
    match active {
        None => seq![("active"@, JsonValue::Bool(false))],
        Some(n) => seq![
            ("active"@, JsonValue::Bool(true)),
            ("name"@, JsonValue::Text(n)),
            ("runningProcesses"@, JsonValue::Count(running)),
            ("pids"@, JsonValue::Numbers(pids.map_values(|p: u32| p as nat))),
            ("note"@, JsonValue::Text(note)),
            ("lastNote"@, match last_note {
                Some(l) => JsonValue::Text(l),
                None => JsonValue::Null,
            }),
        ],
    }
}

/// The report of `progflow status --json`.
pub fn status_json(
    active: Option<&str>,
    running: usize,
    pids: &Vec<u32>,
    note: &str,
    last_note: Option<&str>,
) -> (r: String)
    ensures
        r@ == pretty_json_text(
            status_fields(
                match active {
                    Some(a) => Some(a@),
                    None => None,
                },
                running as nat,
                pids@,
                note@,
                match last_note {
                    Some(l) => Some(l@),
                    None => None,
                },
            ),
        ),
{
    let mut fields: Vec<(String, JsonItem)> = Vec::new();
    match active {
        None => {
            fields.push(("active".to_owned(), JsonItem::One(JsonScalar::Bool(false))));
        },
        Some(a) => {
            let mut numbers: Vec<u64> = Vec::new();
            let mut i: usize = 0;
            while i < pids.len()
                invariant
                    i <= pids@.len(),
                    numbers@ =~= pids@.subrange(0, i as int).map_values(|p: u32| p as u64),
                decreases pids@.len() - i,
            {
                numbers.push(pids[i] as u64);
                i = i + 1;
                assert(numbers@ =~= pids@.subrange(0, i as int).map_values(|p: u32| p as u64));
            }
            let last = match last_note {
                Some(l) => JsonScalar::Text(l.to_owned()),
                None => JsonScalar::Null,
            };
            fields.push(("active".to_owned(), JsonItem::One(JsonScalar::Bool(true))));
            fields.push(("name".to_owned(), JsonItem::One(JsonScalar::Text(a.to_owned()))));
            fields.push(
                ("runningProcesses".to_owned(), JsonItem::One(JsonScalar::Count(running as u64))),
            );
            fields.push(("pids".to_owned(), JsonItem::Numbers(numbers)));
            fields.push(("note".to_owned(), JsonItem::One(JsonScalar::Text(note.to_owned()))));
            fields.push(("lastNote".to_owned(), JsonItem::One(last)));
            proof {
                assert(pids@.subrange(0, pids@.len() as int) =~= pids@);
                assert(numbers@.map_values(|n: u64| n as nat) =~= pids@.map_values(
                    |p: u32| p as nat,
                ));
                assert(item_view(fields@[3].1) == JsonValue::Numbers(
                    pids@.map_values(|p: u32| p as nat),
                ));
            }
        },
    }
    proof {
        assert(field_views(fields@) =~= status_fields(
            match active {
                Some(a) => Some(a@),
                None => None,
            },
            running as nat,
            pids@,
            note@,
            match last_note {
                Some(l) => Some(l@),
                None => None,
            },
        ));
    }
    pretty_json(&fields)
}

/// The fields of `progflow list --json`: `flows`, each with its `name` and
/// whether it is `active`, and their `count`.
pub open spec fn list_fields(flows: Seq<Seq<char>>, active: Seq<bool>) -> Seq<(Seq<char>, JsonValue)> {
    seq![
        ("flows"@, JsonValue::Records(
            Seq::new(
                flows.len(),
                |i: int| seq![("name"@, JsonValue::Text(flows[i])), ("active"@, JsonValue::Bool(active[i]))],
            ),
        )),
        ("count"@, JsonValue::Count(flows.len())),
    ]
}

/// The report of `progflow list --json`; `active` tells for each flow whether
/// it is active.
pub fn list_json(flows: &Vec<String>, active: &Vec<bool>) -> (r: String)
    requires
        flows.len() == active.len(),
    ensures
        r@ == pretty_json_text(list_fields(views(flows@), active@)),
{
    let mut records: Vec<Vec<(String, JsonScalar)>> = Vec::new();
    let mut i: usize = 0;
    while i < flows.len()
        invariant
            i <= flows@.len(),
            flows@.len() == active@.len(),
            records@.len() == i,
            forall|k: int|
                0 <= k < i ==> record_view(#[trigger] records@[k]@) == seq![
                    ("name"@, JsonValue::Text(flows@[k]@)),
                    ("active"@, JsonValue::Bool(active@[k])),
                ],
        decreases flows@.len() - i,
    {
        let mut r: Vec<(String, JsonScalar)> = Vec::new();
        r.push(("name".to_owned(), JsonScalar::Text(flows[i].clone())));
        r.push(("active".to_owned(), JsonScalar::Bool(active[i])));
        assert(record_view(r@) =~= seq![
            ("name"@, JsonValue::Text(flows@[i as int]@)),
            ("active"@, JsonValue::Bool(active@[i as int])),
        ]);
        records.push(r);
        i = i + 1;
    }
    let mut fields: Vec<(String, JsonItem)> = Vec::new();
    fields.push(("flows".to_owned(), JsonItem::Records(records)));
    fields.push(("count".to_owned(), JsonItem::One(JsonScalar::Count(flows.len() as u64))));
    proof {
        let rs = records@.map_values(|r: Vec<(String, JsonScalar)>| record_view(r@));
        let want = Seq::new(
            flows@.len(),
            |k: int|
                seq![
                    ("name"@, JsonValue::Text(views(flows@)[k])),
                    ("active"@, JsonValue::Bool(active@[k])),
                ],
        );
        assert(rs =~= want);
        assert(field_views(fields@) =~= list_fields(views(flows@), active@));
    }
    pretty_json(&fields)
}

} // verus!
