//! Updating a flow from the flags of `progflow edit`.

use vstd::prelude::*;

use crate::config::{env_from_text, note_text, opt_view, parse_env, stamp_note, FlowConfig};
use crate::commands::new::{parse_url_list, url_list_text};
use crate::text::{split_on, trim, views};

verus! {

/// `after` is `before` with the given flags applied: each flag given replaces
/// its field (the URLs and the environment parsed from their lists), a note is
/// stamped and saved as note and last note, and the rest stays.
pub open spec fn edited(
    before: FlowConfig,
    after: FlowConfig,
    dir: Option<Seq<char>>,
    editor: Option<Seq<char>>,
    urls: Option<Seq<char>>,
    env: Option<Seq<char>>,
    shell: Option<Seq<char>>,
    note: Option<Seq<char>>,
) -> bool {
    &&& after.name == before.name
    &&& opt_view(after.directory) == match dir {
        Some(d) => Some(d),
        None => opt_view(before.directory),
    }
    &&& opt_view(after.editor_cmd) == match editor {
        Some(e) => Some(e),
        None => opt_view(before.editor_cmd),
    }
    &&& match urls {
        Some(u) => after.url_list matches Some(l) && views(l@) == url_list_text(u),
        None => after.url_list == before.url_list,
    }
    &&& after.shell@ == match shell {
        Some(s) => s,
        None => before.shell@,
    }
    &&& match env {
        Some(e) => after.env@ == env_from_text(e),
        None => after.env == before.env,
    }
    &&& match note {
        Some(n) => exists|stamp: Seq<char>|
            after.note@ == note_text(stamp, n) && opt_view(after.last_note) == Some(
                note_text(stamp, n),
            ),
        None => after.note == before.note && after.last_note == before.last_note,
    }
    &&& after.start_commands == before.start_commands
    &&& after.total_seconds == before.total_seconds
    &&& after.session_count == before.session_count
    &&& after.last_activated == before.last_activated
}

/// Applies the flags of `progflow edit` to `config`.
pub fn apply_edits(
    config: &mut FlowConfig,
    dir: Option<String>,
    editor: Option<String>,
    urls: Option<String>,
    env: Option<String>,
    shell: Option<String>,
    set_note: Option<String>,
)
    ensures
        edited(
            *old(config),
            *final(config),
            opt_view(dir),
            opt_view(editor),
            opt_view(urls),
            opt_view(env),
            opt_view(shell),
            opt_view(set_note),
        ),
{
    if let Some(d) = dir {
        config.directory = Some(d);
    }
    if let Some(e) = editor {
        config.editor_cmd = Some(e);
    }
    if let Some(u) = &urls {
        config.url_list = Some(parse_url_list(u.as_str()));
    }
    if let Some(s) = shell {
        config.shell = s;
    }
    if let Some(e) = &env {
        config.env = parse_env(e.as_str());
    }
    let ghost mut stamp: Seq<char> = Seq::empty();
    if let Some(n) = &set_note {
        let text = stamp_note(n.as_str());
        proof {
            stamp = choose|stamp: Seq<char>| text@ == note_text(stamp, n@);
        }
        config.set_note(text);
    }
    assert(set_note is None ==> config.last_note == old(config).last_note);
    assert(set_note is Some ==> opt_view(set_note)->0 == set_note->0@);
    assert(match opt_view(set_note) {
        Some(n) => exists|stamp: Seq<char>|
            config.note@ == note_text(stamp, n) && opt_view(config.last_note) == Some(
                note_text(stamp, n),
            ),
        None => config.note == old(config).note && config.last_note == old(config).last_note,
    });
}

/// Editing with `--urls u` replaces the URL list: the list after the edit is
/// the same whatever the list was before, and each of its URLs is trimmed.
pub proof fn lemma_urls_edit_replaces(
    before1: FlowConfig,
    after1: FlowConfig,
    before2: FlowConfig,
    after2: FlowConfig,
    u: Seq<char>,
    dir: Option<Seq<char>>,
    editor: Option<Seq<char>>,
    env: Option<Seq<char>>,
    shell: Option<Seq<char>>,
    note: Option<Seq<char>>,
)
    requires
        edited(before1, after1, dir, editor, Some(u), env, shell, note),
        edited(before2, after2, dir, editor, Some(u), env, shell, note),
    ensures
        after1.url_list is Some && after2.url_list is Some,
        views(after1.url_list->0@) == views(after2.url_list->0@),
        forall|i: int|
            0 <= i < views(after1.url_list->0@).len() ==> #[trigger] trim(
                views(after1.url_list->0@)[i],
            ) == views(after1.url_list->0@)[i],
{
    let l = views(after1.url_list->0@);
    assert forall|i: int| 0 <= i < l.len() implies #[trigger] trim(l[i]) == l[i] by {
        crate::text::lemma_trim_idempotent(split_on(u, ',')[i]);
    }
}

} // verus!
