//! Which flows exist, and which one is active, read from the names (and
//! modification times) of the files in the flow directory.

use vstd::prelude::*;
use vstd::utf8::{
    char_is_scalar, char_u32_cast, encode_scalar, encode_utf8, has_width_1_encoding, has_width_2_encoding, has_width_3_encoding,
    is_ascii_chars, is_ascii_chars_encode_utf8, leading_byte_width_1, leading_byte_width_2,
    leading_byte_width_3, leading_byte_width_4,
};
use vstd::relations::{sorted_by, total_ordering};

use crate::text::{chars_of, views};

verus! {

/// The index of the last `c` in `s`.
pub open spec fn rfind_char(s: Seq<char>, c: char) -> Option<int>
    decreases s.len(),
{
    if s.len() == 0 {
        None
    } else if s.last() == c {
        Some(s.len() - 1)
    } else {
        rfind_char(s.drop_last(), c)
    }
}

/// A file name split at its last dot, as `Path::file_stem` and
/// `Path::extension` see it: `..`, a name without a dot and a name whose only
/// leading dot is its last one have no extension.
pub open spec fn split_at_dot(f: Seq<char>) -> (Option<Seq<char>>, Option<Seq<char>>) {
    if f == seq!['.', '.'] {
        (Some(f), None)
    } else {
        match rfind_char(f, '.') {
            None => (None, Some(f)),
            Some(i) => if i == 0 {
                (Some(f), None)
            } else {
                (Some(f.subrange(0, i)), Some(f.subrange(i + 1, f.len() as int)))
            },
        }
    }
}

/// The extension of the file name `f`.
pub open spec fn file_extension(f: Seq<char>) -> Option<Seq<char>> {
    let (before, after) = split_at_dot(f);
    if before is Some {
        after
    } else {
        None
    }
}

/// The stem of the file name `f`.
pub open spec fn file_stem(f: Seq<char>) -> Seq<char> {
    let (before, after) = split_at_dot(f);
    match before {
        Some(b) => b,
        None => after->0,
    }
}

/// The flow named by the file name `f` with extension `ext`, if it has it.
pub open spec fn named_by(f: Seq<char>, ext: Seq<char>) -> Option<Seq<char>> {
    if file_extension(f) == Some(ext) {
        Some(file_stem(f))
    } else {
        None
    }
}

/// The stems of the names in `names` that have extension `json`, in order.
pub open spec fn json_stems(names: Seq<Seq<char>>) -> Seq<Seq<char>>
    decreases names.len(),
{
    if names.len() == 0 {
        Seq::<Seq<char>>::empty()
    } else {
        let rest = json_stems(names.drop_last());
        match named_by(names.last(), "json"@) {
            Some(n) => rest.push(n),
            None => rest,
        }
    }
}

/// `a` comes before `b` or equals it, comparing character by character (the
/// order of `String`, since UTF-8 keeps the order of code points).
pub open spec fn text_le(a: Seq<char>, b: Seq<char>) -> bool
    decreases a.len(),
{
    if a.len() == 0 {
        true
    } else if b.len() == 0 {
        false
    } else if (a[0] as int) < (b[0] as int) {
        true
    } else if a[0] == b[0] {
        text_le(a.drop_first(), b.drop_first())
    } else {
        false
    }
}

/// `text_le` as a relation.
pub open spec fn text_order() -> spec_fn(Seq<char>, Seq<char>) -> bool {
    |a: Seq<char>, b: Seq<char>| text_le(a, b)
}

proof fn lemma_text_le_reflexive(a: Seq<char>)
    ensures
        text_le(a, a),
    decreases a.len(),
{
    if a.len() > 0 {
        lemma_text_le_reflexive(a.drop_first());
    }
}

proof fn lemma_text_le_antisymmetric(a: Seq<char>, b: Seq<char>)
    requires
        text_le(a, b),
        text_le(b, a),
    ensures
        a == b,
    decreases a.len(),
{
    if a.len() == 0 {
        assert(b.len() == 0);
        assert(a =~= b);
    } else {
        assert(b.len() > 0);
        assert(a[0] == b[0]);
        lemma_text_le_antisymmetric(a.drop_first(), b.drop_first());
        assert(a =~= seq![a[0]] + a.drop_first());
        assert(b =~= seq![b[0]] + b.drop_first());
    }
}

proof fn lemma_text_le_transitive(a: Seq<char>, b: Seq<char>, c: Seq<char>)
    requires
        text_le(a, b),
        text_le(b, c),
    ensures
        text_le(a, c),
    decreases a.len(),
{
    if a.len() > 0 && b.len() > 0 && c.len() > 0 && a[0] == b[0] && b[0] == c[0] {
        lemma_text_le_transitive(a.drop_first(), b.drop_first(), c.drop_first());
    }
}

proof fn lemma_text_le_connected(a: Seq<char>, b: Seq<char>)
    ensures
        text_le(a, b) || text_le(b, a),
    decreases a.len(),
{
    if a.len() > 0 && b.len() > 0 && a[0] == b[0] {
        lemma_text_le_connected(a.drop_first(), b.drop_first());
    }
}

/// The character order on texts is a total order.
pub proof fn lemma_text_order_total()
    ensures
        total_ordering(text_order()),
{
    let r = text_order();
    assert forall|x: Seq<char>| #[trigger] r(x, x) by {
        lemma_text_le_reflexive(x);
    }
    assert forall|x: Seq<char>, y: Seq<char>| #[trigger] r(x, y) && #[trigger] r(y, x) implies x
        == y by {
        lemma_text_le_antisymmetric(x, y);
    }
    assert forall|x: Seq<char>, y: Seq<char>, z: Seq<char>| #[trigger] r(x, y) && #[trigger] r(
        y,
        z,
    ) implies r(x, z) by {
        lemma_text_le_transitive(x, y, z);
    }
    assert forall|x: Seq<char>, y: Seq<char>| #[trigger] r(x, y) || #[trigger] r(y, x) by {
        lemma_text_le_connected(x, y);
    }
}

/// Whether `a` comes before `b` or equals it.
pub fn text_le_exec(a: &Vec<char>, b: &Vec<char>) -> (r: bool)
    ensures
        r == text_le(a@, b@),
{
    let mut i: usize = 0;
    assert(a@.subrange(0, a@.len() as int) =~= a@);
    assert(b@.subrange(0, b@.len() as int) =~= b@);
    while i < a.len() && i < b.len() && a[i] == b[i]
        invariant
            i <= a@.len(),
            i <= b@.len(),
            text_le(a@, b@) == text_le(
                a@.subrange(i as int, a@.len() as int),
                b@.subrange(i as int, b@.len() as int),
            ),
        decreases a@.len() - i,
    {
        assert(a@.subrange(i as int, a@.len() as int).drop_first() =~= a@.subrange(
            i + 1,
            a@.len() as int,
        ));
        assert(b@.subrange(i as int, b@.len() as int).drop_first() =~= b@.subrange(
            i + 1,
            b@.len() as int,
        ));
        i = i + 1;
    }
    assert(a@.subrange(0, a@.len() as int) =~= a@);
    assert(b@.subrange(0, b@.len() as int) =~= b@);
    if i == a.len() {
        true
    } else if i == b.len() {
        false
    } else {
        a[i] < b[i]
    }
}


/// The index of the last `c` in `v`.
fn rfind_char_exec(v: &Vec<char>, c: char) -> (r: Option<usize>)
    ensures
        match r {
            Some(i) => rfind_char(v@, c) == Some(i as int),
            None => rfind_char(v@, c) is None,
        },
{
    let mut j: usize = v.len();
    assert(v@.subrange(0, j as int) =~= v@);
    while j > 0
        invariant
            j <= v@.len(),
            rfind_char(v@, c) == rfind_char(v@.subrange(0, j as int), c),
        decreases j,
    {
        if v[j - 1] == c {
            return Some(j - 1);
        }
        assert(v@.subrange(0, j as int).drop_last() =~= v@.subrange(0, j - 1));
        j = j - 1;
    }
    None
}

/// The flow that the file name `name` stands for when its extension is `ext`
/// (`json` for configurations, `lock` for running flows).
pub fn flow_of_file(name: &str, ext: &str) -> (r: Option<String>)
    ensures
        match r {
            Some(n) => named_by(name@, ext@) == Some(n@),
            None => named_by(name@, ext@) is None,
        },
{
    let v = chars_of(name);
    let n = v.len();
    if n == 2 && v[0] == '.' && v[1] == '.' {
        assert(v@ =~= seq!['.', '.']);
        return None;
    }
    assert(v@ != seq!['.', '.']);
    match rfind_char_exec(&v, '.') {
        None => None,
        Some(i) => {
            if i == 0 {
                return None;
            }
            proof {
                lemma_rfind_char(v@, '.');
            }
            let after = name.substring_char(i + 1, n);
            if crate::text::same_text(after, ext) {
                Some(name.substring_char(0, i).to_owned())
            } else {
                None
            }
        },
    }
}

/// What `rfind_char` returns is an index of `s`.
proof fn lemma_rfind_char(s: Seq<char>, c: char)
    ensures
        rfind_char(s, c) matches Some(i) ==> 0 <= i < s.len(),
    decreases s.len(),
{
    if s.len() > 0 && s.last() != c {
        lemma_rfind_char(s.drop_last(), c);
    }
}

/// Two items of a sorted sequence are in order.
proof fn lemma_sorted_at(s: Seq<Seq<char>>, i: int, j: int)
    requires
        sorted_by(s, text_order()),
        0 <= i < j < s.len(),
    ensures
        text_le(s[i], s[j]),
{
    assert(text_order()(s[i], s[j]));
}

/// `x` placed into the sorted `out` after the texts that come before it or equal it.
fn insert_sorted(out: &mut Vec<String>, x: String)
    requires
        sorted_by(views(old(out)@), text_order()),
    ensures
        sorted_by(views(final(out)@), text_order()),
        views(final(out)@).to_multiset() == views(old(out)@).to_multiset().insert(x@),
{
    let xv = chars_of(x.as_str());
    let n = out.len();
    let mut pos: usize = 0;
    let mut done = false;
    while !done && pos < n
        invariant
            n == out@.len(),
            xv@ == x@,
            out@ == old(out)@,
            pos <= n,
            done ==> pos < n && !text_le(out@[pos as int]@, x@),
            forall|j: int| 0 <= j < pos ==> text_le(#[trigger] out@[j]@, x@),
        decreases n - pos + if done { 0int } else { 1int },
    {
        let ov = chars_of(out[pos].as_str());
        if text_le_exec(&ov, &xv) {
            pos = pos + 1;
        } else {
            done = true;
        }
    }
    let ghost before = views(out@);
    proof {
        if pos < n {
            lemma_text_le_connected(out@[pos as int]@, x@);
            assert forall|j: int| pos <= j < n implies text_le(x@, #[trigger] before[j]) by {
                if j > pos {
                    lemma_sorted_at(before, pos as int, j);
                    lemma_text_le_transitive(x@, before[pos as int], before[j]);
                }
            }
        }
    }
    out.insert(pos, x);
    let ghost after = views(out@);
    assert(after =~= before.insert(pos as int, xv@));
    proof {
        before.insert_ensures(pos as int, xv@);
        assert forall|i: int, j: int| 0 <= i < j < after.len() implies #[trigger] text_order()(
            after[i],
            after[j],
        ) by {
            if j < pos {
                lemma_sorted_at(before, i, j);
            } else if i < pos && j == pos {
                assert(before[i] == out@[i]@);
            } else if i < pos {
                assert(after[j] == before[j - 1]);
                lemma_text_le_transitive(before[i], xv@, before[j - 1]);
            } else if i == pos {
                assert(after[j] == before[j - 1]);
            } else {
                assert(after[i] == before[i - 1]);
                assert(after[j] == before[j - 1]);
                lemma_sorted_at(before, i - 1, j - 1);
            }
        }
        assert(sorted_by(after, text_order()));
        assert(after.remove(pos as int) =~= before);
        broadcast use vstd::seq_lib::group_to_multiset_ensures;
        broadcast use vstd::multiset::group_multiset_axioms;

        assert(after.contains(xv@)) by {
            assert(after[pos as int] == xv@);
        }
        assert(after.to_multiset() =~= before.to_multiset().insert(xv@)) by {
            assert(after.remove(pos as int).to_multiset() =~= after.to_multiset().remove(
                after[pos as int],
            ));
        }
    }
}

/// The flows whose configuration files are among the file names `names`,
/// sorted: the stems of the names with extension `json`.
pub fn flow_names(names: &Vec<String>) -> (r: Vec<String>)
    ensures
        views(r@) == json_stems(views(names@)).sort_by(text_order()),
{
    let mut r: Vec<String> = Vec::new();
    let mut i: usize = 0;
    assert(views(names@).subrange(0, 0) =~= Seq::<Seq<char>>::empty());
    assert(views(r@) =~= Seq::<Seq<char>>::empty());
    while i < names.len()
        invariant
            i <= names@.len(),
            sorted_by(views(r@), text_order()),
            views(r@).to_multiset() == json_stems(views(names@).subrange(0, i as int)).to_multiset(),
        decreases names@.len() - i,
    {
        let ghost pre = views(names@).subrange(0, i as int);
        assert(views(names@).subrange(0, i + 1).drop_last() =~= pre);
        assert(views(names@).subrange(0, i + 1).last() == names@[i as int]@);
        match flow_of_file(names[i].as_str(), "json") {
            Some(n) => {
                proof {
                    broadcast use vstd::seq_lib::group_to_multiset_ensures;
                }
                let ghost nv = n@;
                insert_sorted(&mut r, n);
                assert(json_stems(pre).push(nv).to_multiset() =~= json_stems(pre).to_multiset().insert(nv)) by {
                    broadcast use vstd::seq_lib::group_to_multiset_ensures;
                }
            },
            None => {},
        }
        i = i + 1;
    }
    assert(views(names@).subrange(0, i as int) =~= views(names@));
    proof {
        let listed = json_stems(views(names@));
        lemma_text_order_total();
        listed.lemma_sort_by_ensures(text_order());
        vstd::seq_lib::lemma_sorted_unique(views(r@), listed.sort_by(text_order()), text_order());
    }
    r
}


/// The time and text of each directory entry.
pub open spec fn entry_views(v: Seq<(i128, String)>) -> Seq<(int, Seq<char>)> {
    v.map_values(|e: (i128, String)| (e.0 as int, e.1@))
}

/// Among the entries `(modification time, file name)` whose names have
/// extension `lock`, the first one with the latest time, as (time, flow name).
pub open spec fn latest_lock(es: Seq<(int, Seq<char>)>) -> Option<(int, Seq<char>)>
    decreases es.len(),
{
    if es.len() == 0 {
        None
    } else {
        let best = latest_lock(es.drop_last());
        match named_by(es.last().1, "lock"@) {
            None => best,
            Some(n) => match best {
                None => Some((es.last().0, n)),
                Some(b) => if es.last().0 > b.0 {
                    Some((es.last().0, n))
                } else {
                    best
                },
            },
        }
    }
}

/// The entry `es[i]` is a lock file.
pub open spec fn is_lock_entry(es: Seq<(int, Seq<char>)>, i: int) -> bool {
    named_by(es[i].1, "lock"@) is Some
}

/// The active flow is the one whose lock file changed last: there is none
/// exactly when no entry is a lock file, and otherwise it is named by a lock
/// entry whose time no lock entry exceeds and that no earlier lock entry matches.
pub proof fn lemma_latest_lock(es: Seq<(int, Seq<char>)>)
    ensures
        latest_lock(es) is None <==> forall|j: int| 0 <= j < es.len() ==> !is_lock_entry(es, j),
        latest_lock(es) matches Some(b) ==> exists|i: int|
            #![trigger es[i]]
            0 <= i < es.len() && is_lock_entry(es, i) && es[i].0 == b.0 && named_by(es[i].1, "lock"@)
                == Some(b.1) && (forall|j: int|
                0 <= j < es.len() && is_lock_entry(es, j) ==> #[trigger] es[j].0 <= b.0) && (forall|
                j: int,
            |
                0 <= j < i && is_lock_entry(es, j) ==> #[trigger] es[j].0 < b.0),
    decreases es.len(),
{
    if es.len() > 0 {
        let init = es.drop_last();
        lemma_latest_lock(init);
        assert forall|j: int| 0 <= j < init.len() implies #[trigger] init[j] == es[j] by {}
        let last = es.len() - 1;
        match named_by(es.last().1, "lock"@) {
            None => {
                if let Some(b) = latest_lock(init) {
                    let i = choose|i: int|
                        #![trigger init[i]]
                        0 <= i < init.len() && is_lock_entry(init, i) && init[i].0 == b.0
                            && named_by(init[i].1, "lock"@) == Some(b.1) && (forall|j: int|
                            0 <= j < init.len() && is_lock_entry(init, j) ==> #[trigger] init[j].0
                                <= b.0) && (forall|j: int|
                            0 <= j < i && is_lock_entry(init, j) ==> #[trigger] init[j].0 < b.0);
                    assert(es[i] == init[i]);
                    assert(is_lock_entry(es, i));
                    assert forall|j: int| 0 <= j < es.len() && is_lock_entry(es, j) implies #[trigger] es[j].0 <= b.0 by {
                        if j < last {
                            assert(init[j] == es[j]);
                        }
                    }
                    assert forall|j: int| 0 <= j < i && is_lock_entry(es, j) implies #[trigger] es[j].0 < b.0 by {
                        assert(init[j] == es[j]);
                    }
                } else {
                    assert forall|j: int| 0 <= j < es.len() implies !is_lock_entry(es, j) by {
                        if j < last {
                            assert(init[j] == es[j]);
                            assert(!is_lock_entry(init, j));
                        }
                    }
                }
            },
            Some(n) => {
                assert(is_lock_entry(es, last));
                match latest_lock(init) {
                    None => {
                        assert forall|j: int| 0 <= j < es.len() && is_lock_entry(es, j) implies #[trigger] es[j].0 <= es[last].0 by {
                            if j < last {
                                assert(init[j] == es[j]);
                                assert(!is_lock_entry(init, j));
                            }
                        }
                        assert forall|j: int| 0 <= j < last && is_lock_entry(es, j) implies #[trigger] es[j].0 < es[last].0 by {
                            assert(init[j] == es[j]);
                            assert(!is_lock_entry(init, j));
                        }
                    },
                    Some(b) => {
                        let i = choose|i: int|
                            #![trigger init[i]]
                            0 <= i < init.len() && is_lock_entry(init, i) && init[i].0 == b.0
                                && named_by(init[i].1, "lock"@) == Some(b.1) && (forall|j: int|
                                0 <= j < init.len() && is_lock_entry(init, j) ==> #[trigger] init[j].0
                                    <= b.0) && (forall|j: int|
                                0 <= j < i && is_lock_entry(init, j) ==> #[trigger] init[j].0 < b.0);
                        assert(es[i] == init[i]);
                        if es.last().0 > b.0 {
                            assert forall|j: int| 0 <= j < es.len() && is_lock_entry(es, j) implies #[trigger] es[j].0 <= es[last].0 by {
                                if j < last {
                                    assert(init[j] == es[j]);
                                }
                            }
                            assert forall|j: int| 0 <= j < last && is_lock_entry(es, j) implies #[trigger] es[j].0 < es[last].0 by {
                                assert(init[j] == es[j]);
                            }
                        } else {
                            assert forall|j: int| 0 <= j < es.len() && is_lock_entry(es, j) implies #[trigger] es[j].0 <= b.0 by {
                                if j < last {
                                    assert(init[j] == es[j]);
                                }
                            }
                            assert forall|j: int| 0 <= j < i && is_lock_entry(es, j) implies #[trigger] es[j].0 < b.0 by {
                                assert(init[j] == es[j]);
                            }
                        }
                    },
                }
            },
        }
    }
}

/// The flow whose lock file changed last, among directory entries given as
/// (modification time, file name); times are nanoseconds from the Unix epoch.
pub fn latest_lock_flow(entries: &Vec<(i128, String)>) -> (r: Option<String>)
    ensures
        match r {
            Some(n) => latest_lock(entry_views(entries@)) matches Some(b) && b.1 == n@,
            None => latest_lock(entry_views(entries@)) is None,
        },
{
    let mut best: Option<(i128, String)> = None;
    let mut i: usize = 0;
    while i < entries.len()
        invariant
            i <= entries@.len(),
            latest_lock(entry_views(entries@).subrange(0, i as int)) == match best {
                Some(b) => Some((b.0 as int, b.1@)),
                None => None::<(int, Seq<char>)>,
            },
        decreases entries@.len() - i,
    {
        let ghost pre = entry_views(entries@).subrange(0, i as int);
        assert(entry_views(entries@).subrange(0, i + 1).drop_last() =~= pre);
        assert(entry_views(entries@).subrange(0, i + 1).last() == (
            entries@[i as int].0 as int,
            entries@[i as int].1@,
        ));
        let t = entries[i].0;
        match flow_of_file(entries[i].1.as_str(), "lock") {
            Some(n) => {
                let newer = match &best {
                    None => true,
                    Some(b) => t > b.0,
                };
                if newer {
                    best = Some((t, n));
                }
            },
            None => {},
        }
        i = i + 1;
    }
    assert(entry_views(entries@).subrange(0, i as int) =~= entry_views(entries@));
    match best {
        Some(b) => Some(b.1),
        None => None,
    }
}


/// `name.ext` for a non-empty name and an extension without a dot names the
/// flow `name`.
pub proof fn lemma_named_by_suffix(name: Seq<char>, ext: Seq<char>)
    requires
        name.len() > 0,
        ext.len() > 0,
        !ext.contains('.'),
    ensures
        named_by(name + seq!['.'] + ext, ext) == Some(name),
{
    let f = name + seq!['.'] + ext;
    let d = name.len() as int;
    assert forall|k: int| d < k <= f.len() implies rfind_char(f.subrange(0, k), '.') == Some(d) by {
        lemma_rfind_prefix(f, d, k);
    }
    assert(f.subrange(0, f.len() as int) =~= f);
    assert(f.len() >= 3);
    assert(f != seq!['.', '.']) by {
        if f == seq!['.', '.'] {
            assert(f.len() == 2);
        }
    }
    assert(f.subrange(0, d) =~= name);
    assert(f.subrange(d + 1, f.len() as int) =~= ext);
}

proof fn lemma_rfind_prefix(f: Seq<char>, d: int, k: int)
    requires
        0 <= d < k <= f.len(),
        f[d] == '.',
        forall|j: int| d < j < f.len() ==> f[j] != '.',
    ensures
        rfind_char(f.subrange(0, k), '.') == Some(d),
    decreases k - d,
{
    let p = f.subrange(0, k);
    if k == d + 1 {
        assert(p.last() == '.');
    } else {
        assert(p.last() == f[k - 1]);
        assert(p.drop_last() =~= f.subrange(0, k - 1));
        lemma_rfind_prefix(f, d, k - 1);
    }
}

/// The first byte of the UTF-8 encoding of a character other than `/` is not
/// the byte `/`.
proof fn lemma_first_byte_not_slash(chars: Seq<char>)
    requires
        chars.len() > 0,
        chars[0] != '/',
    ensures
        encode_utf8(chars).len() > 0,
        encode_utf8(chars)[0] != 47u8,
{
    let c = chars[0] as u32;
    char_is_scalar(chars[0]);
    assert(c != 47u32) by {
        if c == 47u32 {
            char_u32_cast(chars[0], c);
            char_u32_cast('/', '/' as u32);
        }
    }
    let e = encode_scalar(c);
    assert(encode_utf8(chars) == e + encode_utf8(chars.drop_first()));
    if has_width_1_encoding(c) {
        assert(leading_byte_width_1(c) != 47u8) by (bit_vector)
            requires
                c <= 0x7F,
                c != 47u32,
        ;
    } else if has_width_2_encoding(c) {
        assert(leading_byte_width_2(c) != 47u8) by (bit_vector);
    } else if has_width_3_encoding(c) {
        assert(leading_byte_width_3(c) != 47u8) by (bit_vector);
    } else {
        assert(leading_byte_width_4(c) != 47u8) by (bit_vector);
    }
    assert(encode_utf8(chars)[0] == e[0]);
}

/// The flow directory under any configuration directory is not empty and
/// ends in `w`, the last letter of `flow`.
proof fn lemma_flow_dir_ends_in_w(base: Seq<u8>)
    ensures
        crate::paths::flow_dir(base).len() > 0,
        crate::paths::flow_dir(base).last() == 119u8,
{
    reveal_strlit("flow");
    let f = "flow"@;
    assert(is_ascii_chars(f));
    is_ascii_chars_encode_utf8(f);
    let ef = encode_utf8(f);
    assert(ef.len() == 4);
    assert(ef[0] == f[0] as u8);
    assert(ef[3] == f[3] as u8);
    assert(ef[0] == 102u8);
    assert(ef[3] == 119u8);
    let fd = crate::paths::flow_dir(base);
    if base.len() > 0 && base.last() != 47u8 {
        assert(fd == base + seq![47u8] + ef);
    } else {
        assert(fd == base + ef);
    }
    assert(fd.last() == ef[3]);
}

/// A flow whose name the configuration rules accept (not empty, no `/`) is
/// saved directly in the flow directory, and the listing of that directory
/// gives its name back, as the lock file gives it back to the search for the
/// active flow.
pub proof fn lemma_saved_flow_is_listed(base: Seq<u8>, name: Seq<char>)
    requires
        name.len() > 0,
        !name.contains('/'),
    ensures
        crate::paths::config_file(base, name) == crate::paths::flow_dir(base) + seq![47u8]
            + encode_utf8(name + ".json"@),
        crate::paths::lock_file(base, name) == crate::paths::flow_dir(base) + seq![47u8]
            + encode_utf8(name + ".lock"@),
        named_by(name + ".json"@, "json"@) == Some(name),
        named_by(name + ".lock"@, "lock"@) == Some(name),
{
    reveal_strlit(".json");
    reveal_strlit("json");
    reveal_strlit(".lock");
    reveal_strlit("lock");
    assert(".json"@ =~= seq!['.'] + "json"@);
    assert(".lock"@ =~= seq!['.'] + "lock"@);
    assert(name + ".json"@ =~= name + seq!['.'] + "json"@);
    assert(name + ".lock"@ =~= name + seq!['.'] + "lock"@);
    lemma_named_by_suffix(name, "json"@);
    lemma_named_by_suffix(name, "lock"@);
    assert((name + ".json"@)[0] == name[0]);
    assert((name + ".lock"@)[0] == name[0]);
    assert(name[0] != '/') by {
        assert(name.contains(name[0]));
    }
    lemma_first_byte_not_slash(name + ".json"@);
    lemma_first_byte_not_slash(name + ".lock"@);
    lemma_flow_dir_ends_in_w(base);
}

/// A name in `files` with extension `json` gives its stem to `json_stems`.
proof fn lemma_json_stem_kept(files: Seq<Seq<char>>, f: Seq<char>, stem: Seq<char>)
    requires
        files.contains(f),
        named_by(f, "json"@) == Some(stem),
    ensures
        json_stems(files).contains(stem),
    decreases files.len(),
{
    if files.last() == f {
        let rest = json_stems(files.drop_last());
        assert(json_stems(files) == rest.push(stem));
        assert(json_stems(files)[rest.len() as int] == stem);
    } else {
        let i = choose|i: int| 0 <= i < files.len() && files[i] == f;
        assert(i < files.len() - 1);
        assert(files.drop_last()[i] == f);
        lemma_json_stem_kept(files.drop_last(), f, stem);
        let rest = json_stems(files.drop_last());
        let k = choose|k: int| 0 <= k < rest.len() && rest[k] == stem;
        match named_by(files.last(), "json"@) {
            Some(n) => assert(json_stems(files)[k] == stem),
            None => {},
        }
    }
}

/// A flow saved under a name the configuration rules accept (not empty, no
/// `/`) is among the listed flows whenever its file, `name.json`, is among the
/// files of the flow directory.
pub proof fn lemma_saved_flow_name_listed(base: Seq<u8>, files: Seq<Seq<char>>, name: Seq<char>)
    requires
        name.len() > 0,
        !name.contains('/'),
        files.contains(name + ".json"@),
    ensures
        crate::paths::config_file(base, name) == crate::paths::flow_dir(base) + seq![47u8]
            + encode_utf8(name + ".json"@),
        json_stems(files).sort_by(text_order()).contains(name),
{
    lemma_saved_flow_is_listed(base, name);
    lemma_json_stem_kept(files, name + ".json"@, name);
    lemma_text_order_total();
    let stems = json_stems(files);
    stems.lemma_sort_by_ensures(text_order());
    let sorted = stems.sort_by(text_order());
    stems.to_multiset_ensures();
    sorted.to_multiset_ensures();
    assert(stems.to_multiset().count(name) > 0);
    assert(sorted.to_multiset().count(name) > 0);
}

} // verus!
