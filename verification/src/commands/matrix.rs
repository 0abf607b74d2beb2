//! The digital-rain animation: pseudo-random numbers, the state of each
//! column, and the text of each row.

use vstd::prelude::*;

use crate::text::{chars_of, is_white, is_white_char, trim_start};

verus! {

/// One step of the linear congruential generator from the clock reading
/// `now` and the seed `seed` (multiplier 1103515245, increment 12345 + seed,
/// both modulo 2^32), reduced modulo 2147483647.
pub open spec fn lcg(now: u32, seed: u32) -> int {
    ((((now as int) * 1103515245) % 0x1_0000_0000 + 12345 + seed) % 0x1_0000_0000) % 2147483647
}

/// One step of the generator from the clock reading `now` and the seed `seed`.
pub fn lcg_step(now: u32, seed: u32) -> (r: u32)
    requires
        seed <= u32::MAX - 12345,
    ensures
        r as int == lcg(now, seed),
{
    let m = now.wrapping_mul(1103515245);
    let a = m.wrapping_add(12345 + seed);
    assert(m as int == ((now as int) * 1103515245) % 0x1_0000_0000);
    assert(a as int == (m as int + 12345 + seed) % 0x1_0000_0000);
    a % 2147483647
}

/// `SystemTime::now()` in microseconds since the Unix epoch, truncated to
/// 32 bits as the generator uses it.
fn clock_u32() -> u32 {
    let micros = crate::clock::micros_since_epoch();
    #[verifier::truncate]
    (micros as u32)
}

/// A pseudo-random number from the clock and `seed`: some step of the
/// generator, below 2147483647.
pub fn rand_simple(seed: u32) -> (r: u32)
    requires
        seed <= u32::MAX - 12345,
    ensures
        exists|now: u32| r as int == lcg(now, seed),
        r < 2147483647,
{
    let now = clock_u32();
    lcg_step(now, seed)
}

/// How a cell of the animation is drawn.
pub enum Cell {
    /// The head of a column: bright white.
    Head,
    /// The first part of the trail: bold green.
    Bright,
    /// The middle of the trail: green.
    Normal,
    /// The end of the trail: dim green.
    Dim,
    /// Empty.
    Blank,
}

/// How the cell in row `y` of a column whose head is in row `col` is drawn: the
/// head, a trail of nine rows above it fading out, or empty.
pub open spec fn cell_kind_spec(y: int, col: int) -> Cell {
    if y == col {
        Cell::Head
    } else if y < col && col - y < 10 {
        let intensity = 10 - (col - y);
        if intensity > 7 {
            Cell::Bright
        } else if intensity > 4 {
            Cell::Normal
        } else {
            Cell::Dim
        }
    } else {
        Cell::Blank
    }
}

/// How the cell in row `y` of a column whose head is in row `col` is drawn.
pub fn cell_kind(y: usize, col: usize) -> (c: Cell)
    ensures
        c == cell_kind_spec(y as int, col as int),
{
    if y == col {
        Cell::Head
    } else if y < col && (col - y) < 10 {
        let intensity = 10 - (col - y);
        if intensity > 7 {
            Cell::Bright
        } else if intensity > 4 {
            Cell::Normal
        } else {
            Cell::Dim
        }
    } else {
        Cell::Blank
    }
}

/// The text of a cell drawn as `kind` with the glyph `g`.
pub open spec fn cell_text(kind: Cell, g: Seq<char>) -> Seq<char> {
    match kind {
        Cell::Head => "\x1b[1;37m"@ + g,
        Cell::Bright => "\x1b[1;32m"@ + g,
        Cell::Normal => "\x1b[0;32m"@ + g,
        Cell::Dim => "\x1b[2;32m"@ + g,
        Cell::Blank => " "@,
    }
}

/// The text of row `y` for the columns `cols`, the `x`th cell with glyph `gs[x]`.
pub open spec fn row_text(y: int, cols: Seq<usize>, gs: Seq<Seq<char>>) -> Seq<char>
    decreases cols.len(),
{
    if cols.len() == 0 {
        Seq::<char>::empty()
    } else {
        row_text(y, cols.drop_last(), gs) + cell_text(
            cell_kind_spec(y, cols.last() as int),
            gs[cols.len() - 1],
        )
    }
}

/// The glyphs that rain: Latin capitals, digits, punctuation and kana.
pub fn rain_glyphs() -> (r: &'static str)
    ensures
        0 < r@.len() <= u32::MAX,
{
    let g = "ABCDEFGHIJKLMNOPQRSTUVWXYZ0123456789$+-*/=%\"'#&_(),.;:?!\\|{}<>[]^~あいうえおかきくけこ";
    proof {
        reveal_strlit(
            "ABCDEFGHIJKLMNOPQRSTUVWXYZ0123456789$+-*/=%\"'#&_(),.;:?!\\|{}<>[]^~あいうえおかきくけこ",
        );
    }
    g
}

/// Each of `gs` is one character of `glyphs`.
pub open spec fn glyphs_from(gs: Seq<Seq<char>>, glyphs: Seq<char>, n: int) -> bool {
    gs.len() == n && forall|x: int| 0 <= x < n ==> exists|k: int|
        0 <= k < glyphs.len() && #[trigger] gs[x] == seq![glyphs[k]]
}

/// The text of row `y` of frame `frame`: each cell drawn by its kind, with a
/// glyph of `glyphs` picked by the generator.
pub fn render_row(y: usize, columns: &Vec<usize>, frame: u32, glyphs: &str) -> (r: String)
    requires
        0 < glyphs@.len() <= u32::MAX,
        frame as int + columns@.len() + y <= u32::MAX - 12345,
    ensures
        exists|gs: Seq<Seq<char>>|
            glyphs_from(gs, glyphs@, columns@.len() as int) && r@ == row_text(
                y as int,
                columns@,
                gs,
            ),
{
    let n_glyphs = glyphs.unicode_len();
    let mut line = String::new();
    let mut x: usize = 0;
    let ghost mut gs: Seq<Seq<char>> = Seq::empty();
    while x < columns.len()
        invariant
            n_glyphs == glyphs@.len(),
            0 < n_glyphs <= u32::MAX,
            frame as int + columns@.len() + y <= u32::MAX - 12345,
            x <= columns@.len(),
            glyphs_from(gs, glyphs@, x as int),
            line@ == row_text(y as int, columns@.subrange(0, x as int), gs),
        decreases columns@.len() - x,
    {
        let kind = cell_kind(y, columns[x]);
        let seed = frame + x as u32 + y as u32;
        let idx = usize_rem(rand_simple(seed), n_glyphs);
        let g = glyphs.substring_char(idx, idx + 1);
        let ghost gv = g@;
        assert(gv =~= seq![glyphs@[idx as int]]);
        match kind {
            Cell::Head => {
                line.append("\x1b[1;37m");
                line.append(g);
            },
            Cell::Bright => {
                line.append("\x1b[1;32m");
                line.append(g);
            },
            Cell::Normal => {
                line.append("\x1b[0;32m");
                line.append(g);
            },
            Cell::Dim => {
                line.append("\x1b[2;32m");
                line.append(g);
            },
            Cell::Blank => {
                line.append(" ");
            },
        }
        proof {
            let old_gs = gs;
            gs = gs.push(gv);
            assert forall|k: int| 0 <= k < x + 1 implies exists|j: int|
                0 <= j < glyphs@.len() && #[trigger] gs[k] == seq![glyphs@[j]] by {
                if k < x {
                    assert(gs[k] == old_gs[k]);
                } else {
                    assert(gs[k] == seq![glyphs@[idx as int]]);
                }
            }
            assert(columns@.subrange(0, x + 1).drop_last() =~= columns@.subrange(0, x as int));
            lemma_row_text_prefix(y as int, columns@.subrange(0, x as int), old_gs, gs);
        }
        x = x + 1;
    }
    assert(columns@.subrange(0, x as int) =~= columns@);
    line
}

/// A row's text reads only as many glyphs as it has cells.
proof fn lemma_row_text_prefix(y: int, cols: Seq<usize>, gs: Seq<Seq<char>>, hs: Seq<Seq<char>>)
    requires
        gs.len() >= cols.len(),
        hs.len() >= cols.len(),
        forall|k: int| 0 <= k < cols.len() ==> gs[k] == hs[k],
    ensures
        row_text(y, cols, gs) == row_text(y, cols, hs),
    decreases cols.len(),
{
    if cols.len() > 0 {
        lemma_row_text_prefix(y, cols.drop_last(), gs, hs);
    }
}

/// The next head row of a column at `col` with speed `speed` in a screen of
/// `height` rows, from two draws of the generator: it moves down (wrapping)
/// when the first draw is below 10 modulo 100, and goes back to the top when
/// the second is a multiple of 500.
pub open spec fn step_column_spec(col: int, speed: int, height: int, r1: int, r2: int) -> int {
    let moved = if r1 % 100 < 10 {
        (col + speed) % height
    } else {
        col
    };
    if r2 % 500 == 0 {
        0
    } else {
        moved
    }
}

/// The next head row of a column.
pub fn step_column(col: usize, speed: usize, height: usize, r1: u32, r2: u32) -> (r: usize)
    requires
        0 < height <= u32::MAX,
        col < height,
        speed <= 3,
    ensures
        r as int == step_column_spec(col as int, speed as int, height as int, r1 as int, r2 as int),
{
    let mut c = col;
    if r1 % 100 < 10 {
        c = ((c as u64 + speed as u64) % (height as u64)) as usize;
    }
    if r2 % 500 == 0 {
        c = 0;
    }
    c
}

/// `new` is where a column at `old` with speed `speed` may be after a step.
pub open spec fn stepped(new: usize, old: usize, speed: usize, height: usize) -> bool {
    exists|r1: int, r2: int|
        new as int == step_column_spec(old as int, speed as int, height as int, r1, r2)
}

/// The columns after frame `frame`: each moved by `step_column` with two
/// draws of the generator.
pub fn advance_columns(columns: &mut Vec<usize>, speeds: &Vec<usize>, height: usize, frame: u32)
    requires
        0 < height <= u32::MAX,
        speeds@.len() == old(columns)@.len(),
        forall|i: int| 0 <= i < old(columns)@.len() ==> old(columns)@[i] < height,
        forall|i: int| 0 <= i < speeds@.len() ==> speeds@[i] <= 3,
        frame as int + old(columns)@.len() + 500 <= u32::MAX - 12345,
    ensures
        final(columns)@.len() == old(columns)@.len(),
        forall|i: int|
            0 <= i < final(columns)@.len() ==> #[trigger] final(columns)@[i] < height && stepped(
                final(columns)@[i],
                old(columns)@[i],
                speeds@[i],
                height,
            ),
{
    let n = columns.len();
    let ghost start = columns@;
    let mut i: usize = 0;
    while i < n
        invariant
            n == columns@.len(),
            start == old(columns)@,
            n == start.len(),
            speeds@.len() == n,
            0 < height <= u32::MAX,
            frame as int + n + 500 <= u32::MAX - 12345,
            forall|j: int| 0 <= j < speeds@.len() ==> speeds@[j] <= 3,
            forall|j: int| i <= j < n ==> columns@[j] == start[j],
            forall|j: int| 0 <= j < n ==> start[j] < height,
            i <= n,
            forall|j: int|
                0 <= j < i ==> #[trigger] columns@[j] < height && stepped(
                    columns@[j],
                    start[j],
                    speeds@[j],
                    height,
                ),
        decreases n - i,
    {
        let r1 = rand_simple(frame + i as u32);
        let r2 = rand_simple(frame + i as u32 + 500);
        assert(columns@[i as int] == start[i as int]);
        assert(start[i as int] < height);
        let c = step_column(columns[i], speeds[i], height, r1, r2);
        proof {
            let v = step_column_spec(start[i as int] as int, speeds@[i as int] as int, height as int, r1 as int, r2 as int);
            assert(c as int == v);
            assert(stepped(c, start[i as int], speeds@[i as int], height));
        }
        columns.set(i, c);
        i = i + 1;
    }
}

/// The starting head rows and speeds of `width` columns in a screen of
/// `height` rows: each row below `height`, each speed from 1 to 3.
pub fn initial_columns(width: usize, height: usize) -> (r: (Vec<usize>, Vec<usize>))
    requires
        0 < height <= u32::MAX,
        width + 100 <= u32::MAX - 12345,
    ensures
        r.0@.len() == width,
        r.1@.len() == width,
        forall|i: int| 0 <= i < width ==> #[trigger] r.0@[i] < height,
        forall|i: int| 0 <= i < width ==> 1 <= #[trigger] r.1@[i] <= 3,
{
    let mut columns: Vec<usize> = Vec::new();
    let mut speeds: Vec<usize> = Vec::new();
    let mut i: usize = 0;
    while i < width
        invariant
            i <= width,
            0 < height <= u32::MAX,
            width + 100 <= u32::MAX - 12345,
            columns@.len() == i,
            speeds@.len() == i,
            forall|j: int| 0 <= j < i ==> #[trigger] columns@[j] < height,
            forall|j: int| 0 <= j < i ==> 1 <= #[trigger] speeds@[j] <= 3,
        decreases width - i,
    {
        let a = rand_simple(i as u32);
        let b = rand_simple(i as u32 + 100);
        columns.push(usize_rem(a, height));
        assert(columns@[i as int] < height);
        speeds.push((b % 3 + 1) as usize);
        i = i + 1;
    }
    (columns, speeds)
}

/// `a` modulo `m`, as the animation reduces a draw to a row or a glyph.
pub fn usize_rem(a: u32, m: usize) -> (r: usize)
    requires
        0 < m <= u32::MAX,
    ensures
        r == a % (m as u32),
        r < m,
{
    (a % (m as u32)) as usize
}


/// The first word of `t` (up to its first white space).
pub open spec fn take_word(t: Seq<char>) -> Seq<char>
    decreases t.len(),
{
    if t.len() == 0 || is_white(t[0]) {
        Seq::<char>::empty()
    } else {
        seq![t[0]] + take_word(t.drop_first())
    }
}

/// The first two words of `s` (what the first two items of
/// `str::split_whitespace` are), when it has two.
pub open spec fn two_words(s: Seq<char>) -> Option<(Seq<char>, Seq<char>)> {
    let t = trim_start(s);
    let w1 = take_word(t);
    let u = trim_start(t.subrange(w1.len() as int, t.len() as int));
    let w2 = take_word(u);
    if w1.len() == 0 || w2.len() == 0 {
        None
    } else {
        Some((w1, w2))
    }
}

/// The value of a string of ASCII digits.
pub open spec fn digits_value(d: Seq<char>) -> nat
    decreases d.len(),
{
    if d.len() == 0 {
        0
    } else {
        digits_value(d.drop_last()) * 10 + ((d.last() as nat) - 48) as nat
    }
}

/// All of `d` are ASCII digits.
pub open spec fn all_digits(d: Seq<char>) -> bool {
    forall|i: int| 0 <= i < d.len() ==> '0' <= #[trigger] d[i] <= '9'
}

/// The number that `str::parse::<usize>` reads from `w`: an optional `+`, then
/// one or more ASCII digits, with a value that fits in `usize`.
pub open spec fn parse_usize_text(w: Seq<char>) -> Option<nat> {
    let d = if w.len() > 0 && w[0] == '+' {
        w.drop_first()
    } else {
        w
    };
    if d.len() == 0 || !all_digits(d) || digits_value(d) > usize::MAX {
        None
    } else {
        Some(digits_value(d))
    }
}

/// The number in the word `w`, as `str::parse::<usize>` reads it.
pub fn parse_usize(w: &Vec<char>) -> (r: Option<usize>)
    ensures
        match r {
            Some(n) => parse_usize_text(w@) == Some(n as nat),
            None => parse_usize_text(w@) is None,
        },
{
    let n = w.len();
    let start: usize = if n > 0 && w[0] == '+' {
        1
    } else {
        0
    };
    let ghost d = if w@.len() > 0 && w@[0] == '+' {
        w@.drop_first()
    } else {
        w@
    };
    assert(d =~= w@.subrange(start as int, n as int));
    if start == n {
        return None;
    }
    let mut value: usize = 0;
    let mut i = start;
    while i < n
        invariant
            n == w@.len(),
            start <= i <= n,
            d == w@.subrange(start as int, n as int),
            d == (if w@.len() > 0 && w@[0] == '+' {
                w@.drop_first()
            } else {
                w@
            }),
            all_digits(w@.subrange(start as int, i as int)),
            value as nat == digits_value(w@.subrange(start as int, i as int)),
        decreases n - i,
    {
        let c = w[i];
        assert(w@.subrange(start as int, i + 1).drop_last() =~= w@.subrange(start as int, i as int));
        if !('0' <= c && c <= '9') {
            assert(!all_digits(d)) by {
                assert(d[i - start] == c);
            }
            return None;
        }
        let digit = (c as u32 - 48) as usize;
        match value.checked_mul(10) {
            None => {
                proof {
                    lemma_digits_value_grows(d, i - start + 1);
                    assert(d.subrange(0, i - start + 1) =~= w@.subrange(start as int, i + 1));
                }
                return None;
            },
            Some(m) => match m.checked_add(digit) {
                None => {
                    proof {
                        lemma_digits_value_grows(d, i - start + 1);
                        assert(d.subrange(0, i - start + 1) =~= w@.subrange(start as int, i + 1));
                    }
                    return None;
                },
                Some(v) => {
                    value = v;
                },
            },
        }
        i = i + 1;
    }
    assert(w@.subrange(start as int, i as int) =~= d);
    Some(value)
}

/// The value of a prefix of a digit string is at most the value of the whole.
pub proof fn lemma_digits_value_grows(d: Seq<char>, k: int)
    requires
        0 <= k <= d.len(),
    ensures
        all_digits(d) ==> digits_value(d.subrange(0, k)) <= digits_value(d),
    decreases d.len() - k,
{
    if k < d.len() {
        lemma_digits_value_grows(d, k + 1);
        assert(d.subrange(0, k + 1).drop_last() =~= d.subrange(0, k));
        if all_digits(d) {
            assert('0' <= d[k] <= '9');
        }
    } else {
        assert(d.subrange(0, k) =~= d);
    }
}

/// The index just past the white space of `v` from `i` on.
fn skip_white(v: &Vec<char>, i: usize) -> (j: usize)
    requires
        i <= v@.len(),
    ensures
        i <= j <= v@.len(),
        trim_start(v@.subrange(i as int, v@.len() as int)) == v@.subrange(j as int, v@.len() as int),
{
    let n = v.len();
    let mut j = i;
    while j < n && is_white_char(v[j])
        invariant
            n == v@.len(),
            i <= j <= n,
            trim_start(v@.subrange(i as int, n as int)) == trim_start(v@.subrange(j as int, n as int)),
        decreases n - j,
    {
        assert(v@.subrange(j as int, n as int).drop_first() =~= v@.subrange(j + 1, n as int));
        j = j + 1;
    }
    j
}

/// The index just past the word of `v` that starts at `i`.
fn skip_word(v: &Vec<char>, i: usize) -> (j: usize)
    requires
        i <= v@.len(),
    ensures
        i <= j <= v@.len(),
        take_word(v@.subrange(i as int, v@.len() as int)) == v@.subrange(i as int, j as int),
{
    let n = v.len();
    let mut j = i;
    while j < n && !is_white_char(v[j])
        invariant
            n == v@.len(),
            i <= j <= n,
            take_word(v@.subrange(i as int, n as int)) == v@.subrange(i as int, j as int)
                + take_word(v@.subrange(j as int, n as int)),
        decreases n - j,
    {
        assert(v@.subrange(j as int, n as int).drop_first() =~= v@.subrange(j + 1, n as int));
        assert(v@.subrange(i as int, j as int) + seq![v@[j as int]] =~= v@.subrange(i as int, j + 1));
        j = j + 1;
    }
    assert(v@.subrange(i as int, j as int) + Seq::<char>::empty() =~= v@.subrange(i as int, j as int));
    j
}

/// The rows and columns read from the output of `stty size`.
pub open spec fn terminal_size_text(s: Seq<char>) -> Option<(nat, nat)> {
    match two_words(s) {
        None => None,
        Some(ws) => match (parse_usize_text(ws.0), parse_usize_text(ws.1)) {
            (Some(h), Some(w)) => Some((h, w)),
            _ => None,
        },
    }
}

/// The terminal size printed by `stty size` as `ROWS COLUMNS`: the first two
/// words read as numbers, when both are.
pub fn parse_terminal_size(s: &str) -> (r: Option<(usize, usize)>)
    ensures
        match r {
            Some((h, w)) => terminal_size_text(s@) == Some((h as nat, w as nat)),
            None => terminal_size_text(s@) is None,
        },
{
    let v = chars_of(s);
    let n = v.len();
    assert(v@.subrange(0, n as int) =~= v@);
    let a = skip_white(&v, 0);
    let b = skip_word(&v, a);
    let c = skip_white(&v, b);
    let d = skip_word(&v, c);
    let ghost t = v@.subrange(a as int, n as int);
    assert(t.subrange((b - a) as int, t.len() as int) =~= v@.subrange(b as int, n as int));
    assert(v@.subrange(a as int, b as int).len() == b - a);
    if a == b || c == d {
        return None;
    }
    let h = parse_usize(&word_at(&v, a, b))?;
    let w = parse_usize(&word_at(&v, c, d))?;
    Some((h, w))
}

/// The characters of `v` from `a` to `b`.
fn word_at(v: &Vec<char>, a: usize, b: usize) -> (r: Vec<char>)
    requires
        a <= b <= v@.len(),
    ensures
        r@ == v@.subrange(a as int, b as int),
{
    crate::text::sub_chars(v, a, b)
}

} // verus!
