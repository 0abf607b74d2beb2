//! Reading the version of the latest release from its package file (`Cargo.toml`).

use vstd::prelude::*;

use crate::commands::matrix::{all_digits, digits_value, lemma_digits_value_grows};
use crate::text::{chars_of, is_prefix, split_char, split_on, views};

verus! {

/// `l` without one trailing carriage return.
pub open spec fn strip_cr(l: Seq<char>) -> Seq<char> {
    if l.len() > 0 && l.last() == '\r' {
        l.drop_last()
    } else {
        l
    }
}

/// The lines of `text` as `str::lines` gives them, with the last piece kept
/// even when it is empty: a line ended by `\n` loses a `\r` before it, the
/// last piece (not ended by `\n`) is kept as it is.
pub open spec fn text_lines(text: Seq<char>) -> Seq<Seq<char>> {
    let pieces = split_on(text, '\n');
    Seq::new(
        pieces.len(),
        |i: int|
            if i < pieces.len() - 1 {
                strip_cr(pieces[i])
            } else {
                pieces[i]
            },
    )
}

/// The index of the first line that starts with `version = "`, from `i` on.
pub open spec fn version_line_from(lines: Seq<Seq<char>>, i: int) -> Option<int>
    decreases lines.len() - i,
{
    if i < 0 || i >= lines.len() {
        None
    } else if is_prefix("version = \""@, lines[i]) {
        Some(i)
    } else {
        version_line_from(lines, i + 1)
    }
}

/// The version declared in a package file: in the first line that starts with
/// `version = "`, the text between its first and second `"` (or to the end).
pub open spec fn declared_version(text: Seq<char>) -> Option<Seq<char>> {
    match version_line_from(text_lines(text), 0) {
        Some(i) => Some(split_on(text_lines(text)[i], '"')[1]),
        None => None,
    }
}

/// `l` without one trailing carriage return.
fn strip_cr_str(l: &str) -> (r: &str)
    ensures
        r@ == strip_cr(l@),
{
    let n = l.unicode_len();
    if n > 0 && l.get_char(n - 1) == '\r' {
        let r = l.substring_char(0, n - 1);
        assert(r@ =~= l@.drop_last());
        r
    } else {
        l
    }
}

/// The version that the package file `text` declares, if a line declares one.
pub fn parse_remote_version(text: &str) -> (r: Option<String>)
    ensures
        match r {
            Some(v) => declared_version(text@) == Some(v@),
            None => declared_version(text@) is None,
        },
{
    let pieces = split_char(text, '\n');
    let ghost lines = text_lines(text@);
    proof {
        crate::text::lemma_split_on_nonempty(text@, '\n');
    }
    let n = pieces.len();
    let mut i: usize = 0;
    while i < n
        invariant
            n == pieces@.len(),
            views(pieces@) == split_on(text@, '\n'),
            lines == text_lines(text@),
            i <= n,
            version_line_from(lines, 0) == version_line_from(lines, i as int),
        decreases n - i,
    {
        assert(views(pieces@)[i as int] == pieces@[i as int]@);
        let line = if i + 1 < n {
            strip_cr_str(pieces[i].as_str())
        } else {
            pieces[i].as_str()
        };
        assert(line@ == lines[i as int]);
        let lv = crate::text::chars_of(line);
        if crate::text::has_prefix(&lv, "version = \"") {
            let parts = split_char(line, '"');
            proof {
                reveal_strlit("version = \"");
                assert("version = \""@[10] == '"');
                assert(lv@.subrange(0, 11)[10] == lv@[10]);
                assert(lv@[10] == '"');
                lemma_split_has_second(lv@, '"', 10);
            }
            return Some(parts[1].clone());
        }
        i = i + 1;
    }
    None
}

/// A text in which `c` occurs is split into at least two pieces.
proof fn lemma_split_has_second(s: Seq<char>, c: char, k: int)
    requires
        0 <= k < s.len(),
        s[k] == c,
    ensures
        split_on(s, c).len() >= 2,
    decreases s.len(),
{
    crate::text::lemma_split_on_nonempty(s.drop_first(), c);
    if s[0] != c {
        lemma_split_has_second(s.drop_first(), c, k - 1);
    }
}


/// A version component: one or more ASCII digits whose value fits in `u64`.
pub open spec fn is_number_part(p: Seq<char>) -> bool {
    p.len() > 0 && all_digits(p) && digits_value(p) <= u64::MAX
}

/// The numbers of a dotted version such as `0.1.4`, when every component is one.
pub open spec fn version_numbers(v: Seq<char>) -> Option<Seq<nat>> {
    let parts = split_on(v, '.');
    if forall|i: int| 0 <= i < parts.len() ==> is_number_part(#[trigger] parts[i]) {
        Some(parts.map_values(|p: Seq<char>| digits_value(p)))
    } else {
        None
    }
}

/// `a` comes before `b`, comparing component by component (a version that is
/// a prefix of another comes first).
pub open spec fn numbers_lt(a: Seq<nat>, b: Seq<nat>) -> bool
    decreases a.len(),
{
    if b.len() == 0 {
        false
    } else if a.len() == 0 {
        true
    } else if a[0] < b[0] {
        true
    } else if a[0] == b[0] {
        numbers_lt(a.drop_first(), b.drop_first())
    } else {
        false
    }
}

/// An update is installed only when the released version `remote` is newer
/// than the running `current` one; versions that are not dotted numbers are
/// compared as text, and then any difference counts as newer.
pub open spec fn update_needed_spec(remote: Seq<char>, current: Seq<char>) -> bool {
    match (version_numbers(remote), version_numbers(current)) {
        (Some(r), Some(c)) => numbers_lt(c, r),
        _ => remote != current,
    }
}

/// The value of a version component, when it is one.
fn parse_number_part(p: &Vec<char>) -> (r: Option<u64>)
    ensures
        match r {
            Some(n) => is_number_part(p@) && digits_value(p@) == n as nat,
            None => !is_number_part(p@),
        },
{
    let n = p.len();
    if n == 0 {
        return None;
    }
    let mut value: u64 = 0;
    let mut i: usize = 0;
    while i < n
        invariant
            n == p@.len(),
            i <= n,
            all_digits(p@.subrange(0, i as int)),
            value as nat == digits_value(p@.subrange(0, i as int)),
        decreases n - i,
    {
        let c = p[i];
        assert(p@.subrange(0, i + 1).drop_last() =~= p@.subrange(0, i as int));
        if !('0' <= c && c <= '9') {
            assert(!all_digits(p@)) by {
                assert(p@[i as int] == c);
            }
            return None;
        }
        let digit = (c as u32 - 48) as u64;
        match value.checked_mul(10) {
            None => {
                proof {
                    lemma_digits_value_grows(p@, i + 1);
                }
                return None;
            },
            Some(m) => match m.checked_add(digit) {
                None => {
                    proof {
                        lemma_digits_value_grows(p@, i + 1);
                    }
                    return None;
                },
                Some(v) => {
                    value = v;
                },
            },
        }
        i = i + 1;
    }
    assert(p@.subrange(0, i as int) =~= p@);
    Some(value)
}

/// The numbers of a dotted version, when every component is one.
pub fn parse_version(v: &str) -> (r: Option<Vec<u64>>)
    ensures
        match r {
            Some(ns) => version_numbers(v@) == Some(ns@.map_values(|x: u64| x as nat)),
            None => version_numbers(v@) is None,
        },
{
    let parts = split_char(v, '.');
    let ghost ps = split_on(v@, '.');
    let mut ns: Vec<u64> = Vec::new();
    let mut i: usize = 0;
    while i < parts.len()
        invariant
            i <= parts@.len(),
            views(parts@) == ps,
            ps == split_on(v@, '.'),
            ns@.len() == i,
            forall|j: int| 0 <= j < i ==> is_number_part(#[trigger] ps[j]) && digits_value(ps[j])
                == ns@[j] as nat,
        decreases parts@.len() - i,
    {
        assert(ps[i as int] == parts@[i as int]@);
        let cs = chars_of(parts[i].as_str());
        match parse_number_part(&cs) {
            Some(x) => {
                ns.push(x);
            },
            None => {
                return None;
            },
        }
        i = i + 1;
    }
    assert(ps.map_values(|p: Seq<char>| digits_value(p)) =~= ns@.map_values(|x: u64| x as nat));
    Some(ns)
}

/// Whether `a` comes before `b` component by component.
fn numbers_before(a: &Vec<u64>, b: &Vec<u64>) -> (r: bool)
    ensures
        r == numbers_lt(a@.map_values(|x: u64| x as nat), b@.map_values(|x: u64| x as nat)),
{
    let ghost am = a@.map_values(|x: u64| x as nat);
    let ghost bm = b@.map_values(|x: u64| x as nat);
    let mut i: usize = 0;
    assert(am.subrange(0, am.len() as int) =~= am);
    assert(bm.subrange(0, bm.len() as int) =~= bm);
    while i < a.len() && i < b.len() && a[i] == b[i]
        invariant
            i <= a@.len(),
            i <= b@.len(),
            am == a@.map_values(|x: u64| x as nat),
            bm == b@.map_values(|x: u64| x as nat),
            numbers_lt(am, bm) == numbers_lt(
                am.subrange(i as int, am.len() as int),
                bm.subrange(i as int, bm.len() as int),
            ),
        decreases a@.len() - i,
    {
        assert(am.subrange(i as int, am.len() as int).drop_first() =~= am.subrange(
            i + 1,
            am.len() as int,
        ));
        assert(bm.subrange(i as int, bm.len() as int).drop_first() =~= bm.subrange(
            i + 1,
            bm.len() as int,
        ));
        i = i + 1;
    }
    if i == b.len() {
        false
    } else if i == a.len() {
        true
    } else {
        a[i] < b[i]
    }
}

/// Whether the released version `remote` is to be installed over the running
/// version `current`: only when it is newer.
pub fn update_needed(remote: &str, current: &str) -> (b: bool)
    ensures
        b == update_needed_spec(remote@, current@),
{
    match (parse_version(remote), parse_version(current)) {
        (Some(r), Some(c)) => numbers_before(&c, &r),
        _ => !crate::text::same_text(remote, current),
    }
}

} // verus!
