//! Creating a flow: the configuration built from command-line flags or from
//! answers to the interactive questions.

use vstd::prelude::*;

use crate::config::{
    default_shell, default_shell_path, env_from_text, opt_view, parse_env, EnvVars, FlowConfig,
    StartCommand,
};
use crate::text::{same_text, split_char, split_on, trim, trim_str, views};

verus! {

/// The URLs of a comma-separated list, each without surrounding white space.
pub open spec fn url_list_text(text: Seq<char>) -> Seq<Seq<char>> {
    split_on(text, ',').map_values(|p: Seq<char>| trim(p))
}

/// The URLs of the comma-separated list `text`, each trimmed (empty ones kept).
pub fn parse_url_list(text: &str) -> (r: Vec<String>)
    ensures
        views(r@) == url_list_text(text@),
{
    let pieces = split_char(text, ',');
    let mut r: Vec<String> = Vec::new();
    let mut i: usize = 0;
    while i < pieces.len()
        invariant
            i <= pieces@.len(),
            views(pieces@) == split_on(text@, ','),
            r@.len() == i,
            views(r@) == url_list_text(text@).subrange(0, i as int),
        decreases pieces@.len() - i,
    {
        assert(views(pieces@)[i as int] == pieces@[i as int]@);
        r.push(trim_str(pieces[i].as_str()).to_owned());
        assert(views(r@) =~= url_list_text(text@).subrange(0, i + 1));
        i = i + 1;
    }
    assert(url_list_text(text@).subrange(0, i as int) =~= url_list_text(text@));
    r
}

/// A text that is not empty.
pub open spec fn non_empty() -> spec_fn(Seq<char>) -> bool {
    |u: Seq<char>| u.len() > 0
}

/// The non-empty URLs of a comma-separated answer.
pub open spec fn url_answer_text(text: Seq<char>) -> Seq<Seq<char>> {
    url_list_text(trim(text)).filter(non_empty())
}

/// The URLs typed as an answer: `None` for an empty answer, otherwise the
/// comma-separated items, trimmed, without the empty ones.
pub fn parse_url_answer(text: &str) -> (r: Option<Vec<String>>)
    ensures
        match r {
            Some(v) => trim(text@).len() > 0 && views(v@) == url_answer_text(text@),
            None => trim(text@).len() == 0,
        },
{
    let t = trim_str(text);
    if t.unicode_len() == 0 {
        return None;
    }
    let all = parse_url_list(t);
    let mut r: Vec<String> = Vec::new();
    let mut i: usize = 0;
    let ghost keep = non_empty();
    assert(views(all@).subrange(0, 0) =~= Seq::<Seq<char>>::empty());
    assert(views(r@) =~= Seq::<Seq<char>>::empty());
    while i < all.len()
        invariant
            i <= all@.len(),
            keep == non_empty(),
            views(r@) == views(all@).subrange(0, i as int).filter(keep),
        decreases all@.len() - i,
    {
        let ghost pre = views(all@).subrange(0, i as int);
        assert(views(all@).subrange(0, i + 1) =~= pre.push(all@[i as int]@));
        proof {
            pre.lemma_filter_push(all@[i as int]@, keep);
        }
        let len_i = all[i].as_str().unicode_len();
        if len_i > 0 {
            r.push(all[i].clone());
            assert(views(r@) =~= views(all@).subrange(0, i + 1).filter(keep));
        } else {
            assert(!keep(all@[i as int]@));
        }
        i = i + 1;
    }
    assert(views(all@).subrange(0, i as int) =~= views(all@));
    Some(r)
}

/// An answer without surrounding white space, or `None` when that is empty.
pub open spec fn answer_text(text: Seq<char>) -> Option<Seq<char>> {
    if trim(text).len() > 0 {
        Some(trim(text))
    } else {
        None
    }
}

/// An answer without surrounding white space, or `None` when that is empty.
pub fn answer(text: &str) -> (r: Option<String>)
    ensures
        opt_view(r) == answer_text(text@),
{
    let t = trim_str(text);
    if t.unicode_len() > 0 {
        Some(t.to_owned())
    } else {
        None
    }
}

/// The environment typed as an answer (empty for an empty answer).
pub fn parse_env_answer(text: &str) -> (r: EnvVars)
    ensures
        r@ == env_from_text(trim(text@)),
{
    parse_env(trim_str(text))
}

/// A start command runs in the background unless the answer is `n`.
pub open spec fn background_answer_text(text: Seq<char>) -> bool {
    crate::text::lowercase_text(trim(text)) != "n"@
}

/// Whether the answer to "Run in background (y/n) [y]" keeps the command in
/// the background.
pub fn background_answer(text: &str) -> (b: bool)
    ensures
        b == background_answer_text(text@),
{
    let l = crate::text::lowercase(trim_str(text));
    background_answer_lowered(l.as_str())
}

/// Whether an answer, trimmed and in lower case as `lowered`, keeps a command
/// in the background: it is anything but `n`.
pub fn background_answer_lowered(lowered: &str) -> (b: bool)
    ensures
        b == (lowered@ != "n"@),
{
    !same_text(lowered, "n")
}

/// The configuration that `progflow new` builds from its flags before start
/// commands are added.
pub open spec fn new_config_spec(
    c: FlowConfig,
    name: Seq<char>,
    dir: Option<Seq<char>>,
    editor: Option<Seq<char>>,
    urls: Option<Seq<char>>,
    env: Option<Seq<char>>,
    shell: Option<Seq<char>>,
) -> bool {
    &&& c.name@ == name
    &&& opt_view(c.directory) == dir
    &&& opt_view(c.editor_cmd) == editor
    &&& match urls {
        Some(u) => c.url_list matches Some(l) && views(l@) == url_list_text(u),
        None => c.url_list is None,
    }
    &&& c.shell@ == match shell {
        Some(s) => s,
        None => default_shell_path(),
    }
    &&& c.env@ == match env {
        Some(e) => env_from_text(e),
        None => Map::empty(),
    }
    &&& c.note@.len() == 0
    &&& c.start_commands@.len() == 0
    &&& c.last_note is None
    &&& c.total_seconds == 0
    &&& c.session_count == 0
    &&& c.last_activated is None
}

/// The configuration of a new flow `name` built from the flags of `progflow new`.
pub fn new_flow_config(
    name: &str,
    dir: Option<String>,
    editor: Option<String>,
    urls: Option<String>,
    env: Option<String>,
    shell: Option<String>,
) -> (c: FlowConfig)
    ensures
        new_config_spec(
            c,
            name@,
            opt_view(dir),
            opt_view(editor),
            opt_view(urls),
            opt_view(env),
            opt_view(shell),
        ),
{
    let url_list = match &urls {
        Some(u) => Some(parse_url_list(u.as_str())),
        None => None,
    };
    let shell = match shell {
        Some(s) => s,
        None => default_shell(),
    };
    let env = match &env {
        Some(e) => parse_env(e.as_str()),
        None => EnvVars::new(),
    };
    let c = FlowConfig {
        name: name.to_owned(),
        directory: dir,
        editor_cmd: editor,
        url_list,
        shell,
        env,
        note: String::new(),
        start_commands: Vec::new(),
        last_note: None,
        total_seconds: 0,
        session_count: 0,
        last_activated: None,
    };
    c
}

/// The start command made from the `i`th of the `--cmd`, `--cmd-dir` and
/// `--cmd-bg` flags: the directory when one is given at that position, in the
/// background unless the flag at that position is other than `true`.
pub open spec fn flag_command_spec(
    s: StartCommand,
    cmd: Seq<char>,
    dirs: Seq<Seq<char>>,
    bgs: Seq<Seq<char>>,
    i: int,
) -> bool {
    &&& s.command@ == cmd
    &&& opt_view(s.working_directory) == (if i < dirs.len() {
        Some(dirs[i])
    } else {
        None
    })
    &&& s.env@ == Map::<Seq<char>, Seq<char>>::empty()
    &&& s.background == (if i < bgs.len() {
        bgs[i] == "true"@
    } else {
        true
    })
}

/// The start commands given by the `--cmd` flags, with the `--cmd-dir` and
/// `--cmd-bg` flags at the same positions.
pub fn start_commands_from_flags(
    cmds: &Vec<String>,
    cmd_dirs: &Vec<String>,
    cmd_bgs: &Vec<String>,
) -> (r: Vec<StartCommand>)
    ensures
        r@.len() == cmds@.len(),
        forall|i: int|
            0 <= i < cmds@.len() ==> flag_command_spec(
                #[trigger] r@[i],
                cmds@[i]@,
                views(cmd_dirs@),
                views(cmd_bgs@),
                i,
            ),
{
    let mut r: Vec<StartCommand> = Vec::new();
    let mut i: usize = 0;
    while i < cmds.len()
        invariant
            i <= cmds@.len(),
            r@.len() == i,
            forall|j: int|
                0 <= j < i ==> flag_command_spec(
                    #[trigger] r@[j],
                    cmds@[j]@,
                    views(cmd_dirs@),
                    views(cmd_bgs@),
                    j,
                ),
        decreases cmds@.len() - i,
    {
        let working_directory = if i < cmd_dirs.len() {
            Some(cmd_dirs[i].clone())
        } else {
            None
        };
        let background = if i < cmd_bgs.len() {
            same_text(cmd_bgs[i].as_str(), "true")
        } else {
            true
        };
        r.push(
            StartCommand {
                command: cmds[i].clone(),
                working_directory,
                env: EnvVars::new(),
                background,
            },
        );
        i = i + 1;
    }
    r
}


/// A flow that `progflow new` creates from its name alone passes the
/// configuration rules exactly when its name does: not empty, without `/` or
/// `\`, not starting with a dot.
pub proof fn lemma_new_flow_validates(c: FlowConfig, name: Seq<char>)
    requires
        new_config_spec(c, name, None, None, None, None, None),
    ensures
        crate::config::config_problem(c) is None <==> (name.len() > 0 && !name.contains('/')
            && !name.contains('\\') && name[0] != '.'),
{
}

} // verus!
