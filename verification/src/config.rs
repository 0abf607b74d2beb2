//! The flow configuration model, its validation, and the lock file record.

use vstd::prelude::*;

use crate::error::AppError;
pub use crate::paths::{get_config_dir, get_config_path, get_lock_path, get_log_dir, get_log_path};
use crate::text::{
    before_char, before_char_exec, chars_of, contains_char, find_char, find_char_exec, find_from,
    find_from_exec, has_prefix, is_prefix, lemma_find_from, split_char, split_on, sub_chars, trim,
    trim_str, views,
};

verus! {

/// The map built by assigning each pair of `ps` in turn to `m`: a later
/// assignment to a key replaces an earlier one.
pub open spec fn assign_all(
    m: Map<Seq<char>, Seq<char>>,
    ps: Seq<(Seq<char>, Seq<char>)>,
) -> Map<Seq<char>, Seq<char>>
    decreases ps.len(),
{
    if ps.len() == 0 {
        m
    } else {
        assign_all(m, ps.drop_last()).insert(ps.last().0, ps.last().1)
    }
}

/// The map whose keys are the first items of `ps` and whose value at a key is
/// the second item of the pair that holds it (keys of `ps` occur once).
pub open spec fn pairs_map(ps: Seq<(Seq<char>, Seq<char>)>) -> Map<Seq<char>, Seq<char>> {
    Map::new(
        |k: Seq<char>| exists|i: int| 0 <= i < ps.len() && ps[i].0 == k,
        |k: Seq<char>| ps[choose|i: int| 0 <= i < ps.len() && ps[i].0 == k].1,
    )
}

/// No key occurs twice in `ps`.
pub open spec fn keys_distinct(ps: Seq<(Seq<char>, Seq<char>)>) -> bool {
    forall|i: int, j: int| 0 <= i < ps.len() && 0 <= j < ps.len() && i != j ==> ps[i].0 != ps[j].0
}

/// The texts held by a sequence of string pairs.
pub open spec fn pair_views(v: Seq<(String, String)>) -> Seq<(Seq<char>, Seq<char>)> {
    v.map_values(|p: (String, String)| (p.0@, p.1@))
}

/// Environment variables: each name at most once, with its value.
pub struct EnvVars {
    entries: Vec<(String, String)>,
}

impl EnvVars {
    /// The variables in the order in which they were first assigned.
    pub closed spec fn pairs(self) -> Seq<(Seq<char>, Seq<char>)> {
        pair_views(self.entries@)
    }

    #[verifier::type_invariant]
    spec fn names_distinct(self) -> bool {
        keys_distinct(self.pairs())
    }
}

impl View for EnvVars {
    type V = Map<Seq<char>, Seq<char>>;

    closed spec fn view(&self) -> Map<Seq<char>, Seq<char>> {
        pairs_map(self.pairs())
    }
}

/// Assigning a key already in `ps` updates its pair; a new key is added at the end.
proof fn lemma_pairs_map_assign(
    ps: Seq<(Seq<char>, Seq<char>)>,
    k: Seq<char>,
    v: Seq<char>,
    found: Option<int>,
)
    requires
        keys_distinct(ps),
        match found {
            Some(i) => 0 <= i < ps.len() && ps[i].0 == k,
            None => forall|i: int| 0 <= i < ps.len() ==> ps[i].0 != k,
        },
    ensures
        ({
            let qs = match found {
                Some(i) => ps.update(i, (k, v)),
                None => ps.push((k, v)),
            };
            keys_distinct(qs) && pairs_map(qs) =~= pairs_map(ps).insert(k, v)
        }),
{
    let qs = match found {
        Some(i) => ps.update(i, (k, v)),
        None => ps.push((k, v)),
    };
    assert forall|key: Seq<char>| #[trigger] pairs_map(qs).dom().contains(key)
        == pairs_map(ps).insert(k, v).dom().contains(key) by {
        if key != k && pairs_map(ps).dom().contains(key) {
            let i = choose|i: int| 0 <= i < ps.len() && ps[i].0 == key;
            assert(qs[i].0 == key);
        }
        if key == k {
            match found {
                Some(i) => assert(qs[i].0 == key),
                None => assert(qs[ps.len() as int].0 == key),
            }
        }
        if pairs_map(qs).dom().contains(key) && key != k {
            let i = choose|i: int| 0 <= i < qs.len() && qs[i].0 == key;
            assert(ps[i].0 == key);
        }
    }
    assert forall|key: Seq<char>| pairs_map(qs).dom().contains(key) implies #[trigger] pairs_map(
        qs,
    )[key] == pairs_map(ps).insert(k, v)[key] by {
        let j = choose|i: int| 0 <= i < qs.len() && qs[i].0 == key;
        if key == k {
            match found {
                Some(i) => {
                    assert(qs[i].0 == key);
                },
                None => {
                    assert(qs[ps.len() as int].0 == key);
                },
            }
        } else {
            let i = choose|i: int| 0 <= i < ps.len() && ps[i].0 == key;
            assert(qs[i].0 == key);
        }
    }
}

impl EnvVars {
    /// No variables.
    pub fn new() -> (r: EnvVars)
        ensures
            r@ == Map::<Seq<char>, Seq<char>>::empty(),
            r.pairs() == Seq::<(Seq<char>, Seq<char>)>::empty(),
    {
        let r = EnvVars { entries: Vec::new() };
        assert(r.pairs() =~= Seq::<(Seq<char>, Seq<char>)>::empty());
        assert(r@ =~= Map::<Seq<char>, Seq<char>>::empty());
        r
    }

    /// Assigns `value` to the variable `name`, replacing an earlier value.
    pub fn insert(&mut self, name: String, value: String)
        ensures
            final(self)@ == old(self)@.insert(name@, value@),
    {
        proof {
            use_type_invariant(&*self);
        }
        let mut es: Vec<(String, String)> = Vec::new();
        std::mem::swap(&mut es, &mut self.entries);
        let ghost ps = pair_views(es@);
        let mut i: usize = 0;
        let mut found: Option<usize> = None;
        while i < es.len()
            invariant
                ps == pair_views(es@),
                i <= es@.len(),
                match found {
                    Some(j) => j < i && ps[j as int].0 == name@,
                    None => forall|j: int| 0 <= j < i ==> ps[j].0 != name@,
                },
            decreases es@.len() - i,
        {
            if found.is_none() && es[i].0 == name {
                found = Some(i);
            }
            i = i + 1;
        }
        let ghost g: Option<int> = match found {
            Some(j) => Some(j as int),
            None => None,
        };
        proof {
            lemma_pairs_map_assign(ps, name@, value@, g);
        }
        let ghost (k, v) = (name@, value@);
        match found {
            Some(j) => {
                es.set(j, (name, value));
                assert(pair_views(es@) =~= ps.update(j as int, (k, v)));
            },
            None => {
                es.push((name, value));
                assert(pair_views(es@) =~= ps.push((k, v)));
            },
        }
        self.entries = es;
    }
}


impl EnvVars {
    /// The variables as (name, value) pairs, in the order in which they were
    /// first assigned.
    pub fn to_pairs(&self) -> (r: Vec<(String, String)>)
        ensures
            pair_views(r@) == self.pairs(),
            keys_distinct(pair_views(r@)),
            pairs_map(pair_views(r@)) == self@,
    {
        proof {
            use_type_invariant(self);
        }
        let mut r: Vec<(String, String)> = Vec::new();
        let mut i: usize = 0;
        while i < self.entries.len()
            invariant
                i <= self.entries@.len(),
                r@.len() == i,
                pair_views(r@) == pair_views(self.entries@).subrange(0, i as int),
            decreases self.entries@.len() - i,
        {
            let k = self.entries[i].0.clone();
            let v = self.entries[i].1.clone();
            r.push((k, v));
            assert(r@[i as int].0@ == self.entries@[i as int].0@);
            assert(r@[i as int].1@ == self.entries@[i as int].1@);
            assert(pair_views(r@) =~= pair_views(self.entries@).subrange(0, i + 1));
            i = i + 1;
        }
        assert(pair_views(self.entries@).subrange(0, i as int) =~= pair_views(self.entries@));
        r
    }

    /// The variables assigned by the pairs of `v`, in order.
    pub fn from_pairs(v: Vec<(String, String)>) -> (r: EnvVars)
        ensures
            r@ == assign_all(Map::empty(), pair_views(v@)),
    {
        let mut r = EnvVars::new();
        let mut i: usize = 0;
        while i < v.len()
            invariant
                i <= v@.len(),
                r@ == assign_all(Map::empty(), pair_views(v@).subrange(0, i as int)),
            decreases v@.len() - i,
        {
            let k = v[i].0.clone();
            let val = v[i].1.clone();
            r.insert(k, val);
            assert(pair_views(v@).subrange(0, i + 1).drop_last() =~= pair_views(v@).subrange(
                0,
                i as int,
            ));
            i = i + 1;
        }
        assert(pair_views(v@).subrange(0, i as int) =~= pair_views(v@));
        r
    }
}

/// Variables handed out as pairs and read back are the same variables: for
/// pairs whose names occur once, assigning them in turn builds the map they
/// hold (so `from_pairs(to_pairs(e))` has the view of `e`).
pub proof fn lemma_pairs_round_trip(ps: Seq<(Seq<char>, Seq<char>)>)
    requires
        keys_distinct(ps),
    ensures
        assign_all(Map::empty(), ps) == pairs_map(ps),
    decreases ps.len(),
{
    if ps.len() == 0 {
        assert(pairs_map(ps) =~= Map::<Seq<char>, Seq<char>>::empty());
    } else {
        let init = ps.drop_last();
        assert(keys_distinct(init));
        lemma_pairs_round_trip(init);
        let last = ps.last();
        assert forall|i: int| 0 <= i < init.len() implies init[i].0 != last.0 by {
            assert(init[i] == ps[i]);
        }
        lemma_pairs_map_assign(init, last.0, last.1, None);
        assert(init.push((last.0, last.1)) =~= ps);
    }
}

/// The assignment written in `piece` as `NAME=VALUE`: what is before the first
/// `=` and what is after it, each without surrounding white space.
pub open spec fn assignment_in(piece: Seq<char>) -> Option<(Seq<char>, Seq<char>)> {
    match find_char(piece, '=') {
        Some(i) => Some((trim(piece.subrange(0, i)), trim(piece.subrange(i + 1, piece.len() as int)))),
        None => None,
    }
}

/// The assignments written in `pieces`, in order; a piece without `=` holds none.
pub open spec fn assignments_in(pieces: Seq<Seq<char>>) -> Seq<(Seq<char>, Seq<char>)>
    decreases pieces.len(),
{
    if pieces.len() == 0 {
        Seq::<(Seq<char>, Seq<char>)>::empty()
    } else {
        let rest = assignments_in(pieces.drop_last());
        match assignment_in(pieces.last()) {
            Some(a) => rest.push(a),
            None => rest,
        }
    }
}

/// The environment written as comma-separated `KEY=VALUE` assignments.
pub open spec fn env_from_text(text: Seq<char>) -> Map<Seq<char>, Seq<char>> {
    assign_all(Map::empty(), assignments_in(split_on(text, ',')))
}

/// The assignment in one piece of an environment text.
fn parse_assignment(piece: &str) -> (r: Option<(String, String)>)
    ensures
        match r {
            Some(p) => assignment_in(piece@) == Some((p.0@, p.1@)),
            None => assignment_in(piece@) is None,
        },
{
    let v = chars_of(piece);
    let n = v.len();
    match find_char_exec(&v, '=') {
        Some(i) => {
            proof {
                lemma_find_from(v@, seq!['='], 0);
                assert(crate::text::occurs_at(v@, seq!['='], i as int));
            }
            let k = trim_str(piece.substring_char(0, i));
            let val = trim_str(piece.substring_char(i + 1, n));
            Some((k.to_owned(), val.to_owned()))
        },
        None => None,
    }
}

/// Reads comma-separated `KEY=VALUE` assignments; keys and values are trimmed,
/// pieces without `=` are skipped, and a later assignment to a key wins.
pub fn parse_env(text: &str) -> (r: EnvVars)
    ensures
        r@ == env_from_text(text@),
{
    let pieces = split_char(text, ',');
    let mut r = EnvVars::new();
    let mut i: usize = 0;
    while i < pieces.len()
        invariant
            i <= pieces@.len(),
            views(pieces@) == split_on(text@, ','),
            r@ == assign_all(Map::empty(), assignments_in(views(pieces@).subrange(0, i as int))),
        decreases pieces@.len() - i,
    {
        let ghost pre = views(pieces@).subrange(0, i as int);
        assert(views(pieces@).subrange(0, i + 1).drop_last() =~= pre);
        assert(views(pieces@).subrange(0, i + 1).last() == pieces@[i as int]@);
        match parse_assignment(pieces[i].as_str()) {
            Some((k, v)) => {
                let ghost a = (k@, v@);
                r.insert(k, v);
                assert(assignments_in(pre).push(a).drop_last() =~= assignments_in(pre));
            },
            None => {},
        }
        i = i + 1;
    }
    assert(views(pieces@).subrange(0, i as int) =~= views(pieces@));
    r
}


/// A command run when a flow starts.
pub struct StartCommand {
    /// The shell command line.
    pub command: String,
    /// Where it runs: `home` for the home directory, a path, or (when absent
    /// or empty) the flow's directory.
    pub working_directory: Option<String>,
    /// Variables added to its environment.
    pub env: EnvVars,
    /// Whether it runs detached, with its output in the flow's log.
    pub background: bool,
}

/// A start command runs in the background unless its configuration says otherwise.
pub fn default_background() -> (b: bool)
    ensures
        b,
{
    true
}

/// A named workspace: the editor, services and pages opened together.
pub struct FlowConfig {
    /// The name the flow is started by; its files are named after it.
    pub name: String,
    /// The working directory of the editor and the start commands.
    pub directory: Option<String>,
    /// The shell command that opens the editor.
    pub editor_cmd: Option<String>,
    /// The pages opened when the flow starts.
    pub url_list: Option<Vec<String>>,
    /// The shell that runs the editor and start commands.
    pub shell: String,
    /// Variables added to the editor's environment.
    pub env: EnvVars,
    /// The context note of the flow.
    pub note: String,
    /// The commands run when the flow starts.
    pub start_commands: Vec<StartCommand>,
    /// The note shown when the flow starts again.
    pub last_note: Option<String>,
    /// The time spent in finished sessions, in seconds.
    pub total_seconds: u64,
    /// The number of finished sessions.
    pub session_count: u64,
    /// When the flow was last started, in RFC 3339 form.
    pub last_activated: Option<String>,
}

/// The shell used when a configuration names none.
pub open spec fn default_shell_path() -> Seq<char> {
    "/bin/sh"@
}

/// The shell used when a configuration names none: `/bin/sh`.
pub fn default_shell() -> (s: String)
    ensures
        s@ == default_shell_path(),
{
    "/bin/sh".to_owned()
}

/// The record of a running flow: the processes it started and when.
pub struct LockFile {
    /// The processes started with the flow.
    pub pids: Vec<u32>,
    /// When the flow started, in RFC 3339 form.
    pub start_time: Option<String>,
}

/// A lock file is stale when none of the processes it lists still runs:
/// `alive[i]` tells whether its `i`th process answers.
pub fn lock_is_stale(alive: &Vec<bool>) -> (b: bool)
    ensures
        b == (forall|i: int| 0 <= i < alive@.len() ==> !alive@[i]),
{
    let mut i: usize = 0;
    while i < alive.len()
        invariant
            i <= alive@.len(),
            forall|j: int| 0 <= j < i ==> !alive@[j],
        decreases alive@.len() - i,
    {
        if alive[i] {
            return false;
        }
        i = i + 1;
    }
    true
}

/// The text held by an optional string.
pub open spec fn opt_view(o: Option<String>) -> Option<Seq<char>> {
    match o {
        Some(s) => Some(s@),
        None => None,
    }
}

/// The text after the scheme separator `://` and before the next one (the
/// second item of `str::split("://")`, or nothing).
pub open spec fn url_rest(t: Seq<char>) -> Seq<char> {
    let sep = "://"@;
    match find_from(t, sep, 0) {
        None => Seq::<char>::empty(),
        Some(a) => match find_from(t, sep, a + sep.len()) {
            Some(b) => t.subrange(a + sep.len(), b),
            None => t.subrange(a + sep.len(), t.len() as int),
        },
    }
}

/// The host of a URL: its rest up to the first `/`, then up to the first `:`.
pub open spec fn url_host(t: Seq<char>) -> Seq<char> {
    before_char(before_char(url_rest(t), '/'), ':')
}

/// `t` starts with a local address.
pub open spec fn starts_local(t: Seq<char>) -> bool {
    is_prefix("localhost"@, t) || is_prefix("127.0.0.1"@, t) || is_prefix("0.0.0.0"@, t)
}

/// `t` starts with one of the schemes a flow may open.
pub open spec fn starts_with_scheme(t: Seq<char>) -> bool {
    is_prefix("http://"@, t) || is_prefix("https://"@, t) || is_prefix("file://"@, t) || is_prefix(
        "ftp://"@,
        t,
    )
}

/// A URL that a flow accepts: once trimmed, it is not empty and either starts
/// with a local address, or starts with a known scheme and names a host.
pub open spec fn valid_url(url: Seq<char>) -> bool {
    let t = trim(url);
    t.len() > 0 && (starts_local(t) || (starts_with_scheme(t) && url_rest(t).len() > 0
        && url_host(t).len() > 0))
}

/// Whether a flow accepts `url`.
pub fn is_valid_url(url: &str) -> (b: bool)
    ensures
        b == valid_url(url@),
{
    let t = trim_str(url);
    let tv = chars_of(t);
    if tv.len() == 0 {
        return false;
    }
    if has_prefix(&tv, "localhost") || has_prefix(&tv, "127.0.0.1") || has_prefix(&tv, "0.0.0.0") {
        return true;
    }
    if !(has_prefix(&tv, "http://") || has_prefix(&tv, "https://") || has_prefix(&tv, "file://")
        || has_prefix(&tv, "ftp://")) {
        return false;
    }
    let sep_text = "://";
    let sep = chars_of(sep_text);
    proof {
        reveal_strlit("://");
        lemma_find_from(tv@, sep@, 0);
    }
    let rest = match find_from_exec(&tv, &sep, 0) {
        None => Vec::new(),
        Some(a) => {
            let from = a + sep.len();
            proof {
                lemma_find_from(tv@, sep@, from as int);
            }
            match find_from_exec(&tv, &sep, from) {
                Some(b) => sub_chars(&tv, from, b),
                None => sub_chars(&tv, from, tv.len()),
            }
        },
    };
    assert(rest@ =~= url_rest(tv@));
    if rest.len() == 0 {
        return false;
    }
    let host = before_char_exec(&before_char_exec(&rest, '/'), ':');
    host.len() > 0
}

/// A URL is judged by its trimmed text: white space around it changes nothing.
pub proof fn lemma_url_judged_trimmed(url: Seq<char>)
    ensures
        valid_url(url) == valid_url(trim(url)),
{
    crate::text::lemma_trim_idempotent(url);
}

/// White space added before or after a URL never changes whether it is
/// accepted.
pub proof fn lemma_url_padding_ignored(before: Seq<char>, url: Seq<char>, after: Seq<char>)
    requires
        crate::text::all_white(before),
        crate::text::all_white(after),
    ensures
        valid_url(before + url + after) == valid_url(url),
{
    crate::text::lemma_trim_ignores_padding(before, url, after);
}

/// The first URL of `us` that is not empty and not accepted.
pub open spec fn first_bad_url(us: Seq<Seq<char>>) -> Option<Seq<char>>
    decreases us.len(),
{
    if us.len() == 0 {
        None
    } else if us[0].len() > 0 && !valid_url(us[0]) {
        Some(us[0])
    } else {
        first_bad_url(us.drop_first())
    }
}

/// The first rule that `c` breaks, as the message reporting it.
pub open spec fn config_problem(c: FlowConfig) -> Option<Seq<char>> {
    if c.name@.len() == 0 {
        Some("Flow name cannot be empty"@)
    } else if c.name@.contains('/') || c.name@.contains('\\') {
        Some("Flow name cannot contain / or \\"@)
    } else if c.name@[0] == '.' {
        Some("Flow name cannot start with a dot"@)
    } else if c.directory is Some && c.directory->0@.len() == 0 {
        Some("Directory cannot be empty"@)
    } else if c.editor_cmd is Some && c.editor_cmd->0@.len() == 0 {
        Some("Editor command cannot be empty"@)
    } else if c.url_list is Some && first_bad_url(views(c.url_list->0@)) is Some {
        Some("Invalid URL: "@ + first_bad_url(views(c.url_list->0@))->0)
    } else {
        None
    }
}

/// The first URL of `urls` that is not empty and not accepted.
fn find_bad_url(urls: &Vec<String>) -> (r: Option<usize>)
    ensures
        match r {
            Some(i) => i < urls@.len() && first_bad_url(views(urls@)) == Some(urls@[i as int]@),
            None => first_bad_url(views(urls@)) is None,
        },
{
    let mut i: usize = 0;
    assert(views(urls@).subrange(0, urls@.len() as int) =~= views(urls@));
    while i < urls.len()
        invariant
            i <= urls@.len(),
            first_bad_url(views(urls@)) == first_bad_url(
                views(urls@).subrange(i as int, urls@.len() as int),
            ),
        decreases urls@.len() - i,
    {
        let ghost rest = views(urls@).subrange(i as int, urls@.len() as int);
        assert(rest[0] == urls@[i as int]@);
        assert(rest.drop_first() =~= views(urls@).subrange(i + 1, urls@.len() as int));
        let u = urls[i].as_str();
        if u.unicode_len() > 0 && !is_valid_url(u) {
            return Some(i);
        }
        i = i + 1;
    }
    None
}

impl FlowConfig {
    /// Checks the rules of a flow configuration, in order: a name that is not
    /// empty, holds no `/` or `\` and does not start with a dot (so neither a
    /// hidden file nor `..`); a directory and an editor command that,
    /// when given, are not empty; and URLs that are each empty or accepted.
    /// The error names the first rule broken.
    pub fn validate(&self) -> (r: Result<(), AppError>)
        ensures
            r is Ok <==> config_problem(*self) is None,
            r matches Err(e) ==> e matches AppError::Config(m) && config_problem(*self) == Some(
                m@,
            ),
    {
        let name = chars_of(self.name.as_str());
        if name.len() == 0 {
            return Err(AppError::Config("Flow name cannot be empty".to_owned()));
        }
        if contains_char(&name, '/') || contains_char(&name, '\\') {
            return Err(AppError::Config("Flow name cannot contain / or \\".to_owned()));
        }
        if name[0] == '.' {
            return Err(AppError::Config("Flow name cannot start with a dot".to_owned()));
        }
        if let Some(dir) = &self.directory {
            if dir.as_str().unicode_len() == 0 {
                return Err(AppError::Config("Directory cannot be empty".to_owned()));
            }
        }
        if let Some(cmd) = &self.editor_cmd {
            if cmd.as_str().unicode_len() == 0 {
                return Err(AppError::Config("Editor command cannot be empty".to_owned()));
            }
        }
        if let Some(urls) = &self.url_list {
            if let Some(i) = find_bad_url(urls) {
                let mut m = "Invalid URL: ".to_owned();
                m.append(urls[i].as_str());
                return Err(AppError::Config(m));
            }
        }
        Ok(())
    }
}


/// A note as it is saved: `[stamp] ` before the note without surrounding white space.
pub open spec fn note_text(stamp: Seq<char>, note: Seq<char>) -> Seq<char> {
    "["@ + stamp + "] "@ + trim(note)
}

/// The note `note` stamped with `stamp`.
pub fn stamped_note(stamp: &str, note: &str) -> (r: String)
    ensures
        r@ == note_text(stamp@, note@),
{
    let mut r = "[".to_owned();
    r.append(stamp);
    r.append("] ");
    r.append(trim_str(note));
    r
}

/// The note `note` stamped with the current minute.
pub fn stamp_note(note: &str) -> (r: String)
    ensures
        exists|stamp: Seq<char>| r@ == note_text(stamp, note@),
{
    let stamp = crate::clock::now_minutes();
    stamped_note(stamp.as_str(), note)
}

/// The line shown when a flow starts with a saved note.
pub open spec fn previous_note_line(c: FlowConfig) -> Option<Seq<char>> {
    match c.last_note {
        Some(n) => Some("Previous note: "@ + n@),
        None => None,
    }
}

/// `c` and `d` agree on everything but the notes.
pub open spec fn same_but_notes(c: FlowConfig, d: FlowConfig) -> bool {
    &&& c.name == d.name
    &&& c.directory == d.directory
    &&& c.editor_cmd == d.editor_cmd
    &&& c.url_list == d.url_list
    &&& c.shell == d.shell
    &&& c.env == d.env
    &&& c.start_commands == d.start_commands
    &&& c.total_seconds == d.total_seconds
    &&& c.session_count == d.session_count
    &&& c.last_activated == d.last_activated
}

impl FlowConfig {
    /// Saves `text` as the flow's note and as its last note.
    pub fn set_note(&mut self, text: String)
        ensures
            final(self).note@ == text@,
            final(self).last_note matches Some(n) && n@ == text@,
            same_but_notes(*old(self), *final(self)),
    {
        self.last_note = Some(text.clone());
        self.note = text;
    }

    /// Saves the text written in the editor, without surrounding white space,
    /// as the flow's note and last note.
    pub fn adopt_edited_note(&mut self, edited: &str)
        ensures
            final(self).note@ == trim(edited@),
            final(self).last_note matches Some(n) && n@ == trim(edited@),
            same_but_notes(*old(self), *final(self)),
    {
        let t = trim_str(edited).to_owned();
        self.set_note(t);
    }

    /// Records the start of a session at the time `at`.
    pub fn mark_activated(&mut self, at: String)
        ensures
            final(self).last_activated matches Some(a) && a@ == at@,
            final(self).name == old(self).name,
            final(self).directory == old(self).directory,
            final(self).editor_cmd == old(self).editor_cmd,
            final(self).url_list == old(self).url_list,
            final(self).shell == old(self).shell,
            final(self).env == old(self).env,
            final(self).note == old(self).note,
            final(self).start_commands == old(self).start_commands,
            final(self).last_note == old(self).last_note,
            final(self).total_seconds == old(self).total_seconds,
            final(self).session_count == old(self).session_count,
    {
        self.last_activated = Some(at);
    }

    /// Records the start of a session now, and returns the time recorded (in
    /// RFC 3339 form, as the lock file keeps it).
    pub fn begin_session(&mut self) -> (at: String)
        ensures
            final(self).last_activated matches Some(a) && a@ == at@,
            final(self).name == old(self).name,
            final(self).directory == old(self).directory,
            final(self).editor_cmd == old(self).editor_cmd,
            final(self).url_list == old(self).url_list,
            final(self).shell == old(self).shell,
            final(self).env == old(self).env,
            final(self).note == old(self).note,
            final(self).start_commands == old(self).start_commands,
            final(self).last_note == old(self).last_note,
            final(self).total_seconds == old(self).total_seconds,
            final(self).session_count == old(self).session_count,
    {
        let at = crate::clock::now_rfc3339();
        self.mark_activated(at.clone());
        at
    }

    /// Adds a finished session of `seconds` seconds to the flow's analytics.
    pub fn record_session(&mut self, seconds: u64)
        requires
            old(self).total_seconds + seconds <= u64::MAX,
            old(self).session_count < u64::MAX,
        ensures
            final(self).total_seconds == old(self).total_seconds + seconds,
            final(self).session_count == old(self).session_count + 1,
            final(self).name == old(self).name,
            final(self).directory == old(self).directory,
            final(self).editor_cmd == old(self).editor_cmd,
            final(self).url_list == old(self).url_list,
            final(self).shell == old(self).shell,
            final(self).env == old(self).env,
            final(self).note == old(self).note,
            final(self).start_commands == old(self).start_commands,
            final(self).last_note == old(self).last_note,
            final(self).last_activated == old(self).last_activated,
    {
        self.total_seconds = self.total_seconds + seconds;
        self.session_count = self.session_count + 1;
    }

    /// The line shown when the flow starts with a saved note.
    pub fn previous_note(&self) -> (r: Option<String>)
        ensures
            match r {
                Some(l) => previous_note_line(*self) == Some(l@),
                None => previous_note_line(*self) is None,
            },
    {
        match &self.last_note {
            Some(n) => {
                let mut l = "Previous note: ".to_owned();
                l.append(n.as_str());
                Some(l)
            },
            None => None,
        }
    }
}

/// A note saved when a flow stops is shown when it starts again: after
/// `set_note(text)`, the flow's note is `text` and the start line shows it.
pub proof fn lemma_saved_note_is_shown(after: FlowConfig, text: Seq<char>)
    requires
        after.note@ == text,
        after.last_note matches Some(n) && n@ == text,
    ensures
        previous_note_line(after) == Some("Previous note: "@ + text),
        after.note@ == after.last_note->0@,
{
}

} // verus!
