//! Shell aliases for the configured flows.

use vstd::prelude::*;

use crate::text::{chars_of, views};

verus! {

/// Whether `char::is_alphanumeric` holds of `c` (Unicode `Alphabetic` or `Numeric`).
pub uninterp spec fn alphanumeric(c: char) -> bool;

/// `char::is_alphanumeric`: whether `c` is alphabetic or numeric in Unicode.
/// The result depends on the character alone.
#[verifier::external_body]
fn is_alphanumeric(c: char) -> (b: bool)
    ensures
        b == alphanumeric(c),
{
    c.is_alphanumeric()
}

/// The alias name of a flow: its alphanumeric characters kept, every other
/// character replaced by `-`.
pub open spec fn alias_name_text(flow: Seq<char>) -> Seq<char> {
    flow.map_values(
        |c: char|
            if alphanumeric(c) {
                c
            } else {
                '-'
            },
    )
}

/// The alias name has one character for each character of the flow's name:
/// the same one where that is alphanumeric, `-` everywhere else (so `_`,
/// `.`, spaces and every other symbol become `-`).
pub proof fn lemma_alias_name_chars(flow: Seq<char>)
    ensures
        alias_name_text(flow).len() == flow.len(),
        forall|i: int|
            0 <= i < flow.len() && !alphanumeric(flow[i]) ==> #[trigger] alias_name_text(flow)[i]
                == '-',
        forall|i: int|
            0 <= i < flow.len() && alphanumeric(flow[i]) ==> #[trigger] alias_name_text(flow)[i]
                == flow[i],
{
}

/// The alias that starts the flow `flow`.
pub open spec fn alias_text(flow: Seq<char>) -> Seq<char> {
    "alias flow-"@ + alias_name_text(flow) + "='progflow on \""@ + flow + "\"'"@
}

/// The aliases of each flow of `flows`.
pub open spec fn alias_texts(flows: Seq<Seq<char>>) -> Seq<Seq<char>> {
    flows.map_values(|f: Seq<char>| alias_text(f))
}

/// What `progflow aliases` prints: nothing without flows, otherwise a header,
/// an empty line and one alias per flow.
pub open spec fn alias_script(flows: Seq<Seq<char>>) -> Seq<Seq<char>> {
    if flows.len() == 0 {
        Seq::<Seq<char>>::empty()
    } else {
        seq![
            "# Progflow Aliases"@,
            "# Add this to your .bashrc or .zshrc: eval \"\\$(progflow aliases)\""@,
            ""@,
        ] + alias_texts(flows)
    }
}

/// The alias name of the flow `flow`.
pub fn alias_name(flow: &str) -> (r: String)
    ensures
        r@ == alias_name_text(flow@),
{
    let v = chars_of(flow);
    let mut r = String::new();
    let mut i: usize = 0;
    while i < v.len()
        invariant
            v@ == flow@,
            i <= v@.len(),
            r@ == alias_name_text(flow@).subrange(0, i as int),
        decreases v@.len() - i,
    {
        if is_alphanumeric(v[i]) {
            r.append(flow.substring_char(i, i + 1));
        } else {
            r.append("-");
            proof {
                reveal_strlit("-");
            }
        }
        assert(r@ =~= alias_name_text(flow@).subrange(0, i + 1));
        i = i + 1;
    }
    assert(alias_name_text(flow@).subrange(0, i as int) =~= alias_name_text(flow@));
    r
}

/// The alias that starts the flow `flow`.
pub fn alias_line(flow: &str) -> (r: String)
    ensures
        r@ == alias_text(flow@),
{
    let mut r = "alias flow-".to_owned();
    r.append(alias_name(flow).as_str());
    r.append("='progflow on \"");
    r.append(flow);
    r.append("\"'");
    r
}

/// What `progflow aliases` prints for the flows `flows`.
pub fn alias_lines(flows: &Vec<String>) -> (r: Vec<String>)
    ensures
        views(r@) == alias_script(views(flows@)),
{
    let mut r: Vec<String> = Vec::new();
    if flows.len() == 0 {
        assert(views(r@) =~= alias_script(views(flows@)));
        return r;
    }
    r.push("# Progflow Aliases".to_owned());
    r.push("# Add this to your .bashrc or .zshrc: eval \"\\$(progflow aliases)\"".to_owned());
    r.push("".to_owned());
    let ghost head = views(r@);
    let mut i: usize = 0;
    while i < flows.len()
        invariant
            i <= flows@.len(),
            r@.len() == 3 + i,
            head.len() == 3,
            views(r@) == head + alias_texts(views(flows@).subrange(0, i as int)),
        decreases flows@.len() - i,
    {
        assert(views(flows@)[i as int] == flows@[i as int]@);
        let ghost prev = views(r@);
        let line = alias_line(flows[i].as_str());
        let ghost lv = line@;
        r.push(line);
        assert(views(r@) =~= prev.push(lv));
        assert(alias_texts(views(flows@).subrange(0, i + 1)) =~= alias_texts(
            views(flows@).subrange(0, i as int),
        ).push(lv));
        assert(views(r@) =~= head + alias_texts(views(flows@).subrange(0, i + 1)));
        i = i + 1;
    }
    assert(views(flows@).subrange(0, i as int) =~= views(flows@));
    assert(views(r@) =~= alias_script(views(flows@)));
    r
}

} // verus!
