use unicode_segmentation::UnicodeSegmentation;
use vstd::prelude::*;

verus! {

/// Characters with the Unicode `White_Space` property, the set `str::trim` strips.
pub open spec fn is_white_space(c: char) -> bool {
    let n = c as u32;
    (0x9 <= n && n <= 0xd) || n == 0x20 || n == 0x85 || n == 0xa0 || n == 0x1680 || (0x2000 <= n
        && n <= 0x200a) || n == 0x2028 || n == 0x2029 || n == 0x202f || n == 0x205f || n == 0x3000
}

/// `s` without its leading and trailing white space.
pub open spec fn trim_seq(s: Seq<char>) -> Seq<char>
    decreases s.len(),
{
    if s.len() == 0 {
        s
    } else if is_white_space(s[0]) {
        trim_seq(s.drop_first())
    } else if is_white_space(s.last()) {
        trim_seq(s.drop_last())
    } else {
        s
    }
}

/// Whether a text holds nothing but white space.
pub open spec fn is_blank(s: Seq<char>) -> bool {
    trim_seq(s).len() == 0
}

/// The extended grapheme clusters of a text, in order.
pub uninterp spec fn grapheme_clusters(s: Seq<char>) -> Seq<Seq<char>>;

/// The character sequences held by a list of units.
pub open spec fn unit_views(v: Seq<String>) -> Seq<Seq<char>> {
    v.map_values(|g: String| g@)
}

/// The units written one after the other.
pub open spec fn concat_units(u: Seq<Seq<char>>) -> Seq<char>
    decreases u.len(),
{
    if u.len() == 0 {
        Seq::empty()
    } else {
        concat_units(u.drop_last()) + u.last()
    }
}

/// A unit made of one plain space.
pub open spec fn is_space_unit(g: Seq<char>) -> bool {
    g == seq![' ']
}

/// The truncation marker: one horizontal ellipsis.
pub open spec fn ellipsis() -> Seq<char> {
    seq!['\u{2026}']
}

/// Index of the last space unit of `u`, or -1 when there is none.
pub open spec fn last_space(u: Seq<Seq<char>>) -> int
    decreases u.len(),
{
    if u.len() == 0 {
        -1
    } else if is_space_unit(u.last()) {
        u.len() - 1
    } else {
        last_space(u.drop_last())
    }
}

/// `u` without its trailing space units.
pub open spec fn strip_trailing_spaces(u: Seq<Seq<char>>) -> Seq<Seq<char>>
    decreases u.len(),
{
    if u.len() > 0 && is_space_unit(u.last()) {
        strip_trailing_spaces(u.drop_last())
    } else {
        u
    }
}

/// Shortening of `u`, which is longer than `max` units, to at most `max` units:
/// cut at the last interior space of the first `max` units, drop the trailing
/// spaces, and end with the marker (replacing the last unit when no room is left).
pub open spec fn cut_units(u: Seq<Seq<char>>, max: nat) -> Seq<Seq<char>> {
    let head = u.take(max as int);
    let k = last_space(head);
    let cut = if k > 0 {
        head.take(k)
    } else {
        head
    };
    let kept = strip_trailing_spaces(cut);
    if kept.len() < max {
        kept.push(ellipsis())
    } else {
        kept.drop_last().push(ellipsis())
    }
}

/// Truncation on units: unchanged when the budget is zero or already met.
pub open spec fn truncate_units_spec(u: Seq<Seq<char>>, max: nat) -> Seq<Seq<char>> {
    if max == 0 || u.len() <= max {
        u
    } else {
        cut_units(u, max)
    }
}

/// Truncation of a text to `max` grapheme clusters.
pub open spec fn truncated_text(s: Seq<char>, max: nat) -> Seq<char> {
    let t = trim_seq(s);
    let u = grapheme_clusters(t);
    if max == 0 || u.len() <= max {
        t
    } else {
        concat_units(cut_units(u, max))
    }
}

/// Relies on `str::trim`: leading and trailing characters with the
/// `White_Space` property are removed, the rest is kept as it is.
#[verifier::external_body]
pub(crate) fn trim_text(s: &str) -> (r: &str)
    ensures
        r@ == trim_seq(s@),
{
    s.trim()
}

/// Relies on `UnicodeSegmentation::graphemes` with extended clusters: the
/// clusters of the text, in order, each copied into a `String`.
#[verifier::external_body]
fn split_graphemes(s: &str) -> (r: Vec<String>)
    ensures
        unit_views(r@) == grapheme_clusters(s@),
{
    s.graphemes(true).map(String::from).collect()
}

fn is_space(g: &String) -> (r: bool)
    ensures
        r == is_space_unit(g@),
{
    let sp = String::from_str(" ");
    proof {
        reveal_strlit(" ");
        assert(" "@ =~= seq![' ']);
    }
    *g == sp
}

proof fn lemma_take_drop_last<A>(s: Seq<A>, i: int)
    requires
        0 < i <= s.len(),
    ensures
        s.take(i).drop_last() == s.take(i - 1),
        s.take(i).last() == s[i - 1],
{
    assert(s.take(i).drop_last() =~= s.take(i - 1));
}

proof fn lemma_strip_len(u: Seq<Seq<char>>)
    ensures
        strip_trailing_spaces(u).len() <= u.len(),
    decreases u.len(),
{
    if u.len() > 0 && is_space_unit(u.last()) {
        lemma_strip_len(u.drop_last());
    }
}

proof fn lemma_last_space_bounds(u: Seq<Seq<char>>)
    ensures
        -1 <= last_space(u) < u.len(),
        last_space(u) >= 0 ==> is_space_unit(u[last_space(u)]),
    decreases u.len(),
{
    if u.len() > 0 && !is_space_unit(u.last()) {
        lemma_last_space_bounds(u.drop_last());
    }
}

proof fn lemma_strip_prefix(s: Seq<Seq<char>>, n: int) -> (m: int)
    requires
        0 <= n <= s.len(),
    ensures
        0 <= m <= n,
        strip_trailing_spaces(s.take(n)) == s.take(m),
        m < n ==> is_space_unit(s[m]),
    decreases n,
{
    if n > 0 && is_space_unit(s.take(n).last()) {
        lemma_take_drop_last(s, n);
        lemma_strip_prefix(s, n - 1)
    } else {
        n
    }
}

/// A text whose trimmed form fits the budget comes back trimmed and otherwise unchanged.
pub proof fn lemma_fitting_text_unchanged(text: Seq<char>, max_units: nat)
    requires
        grapheme_clusters(trim_seq(text)).len() <= max_units,
    ensures
        truncated_text(text, max_units) == trim_seq(text),
{
}

/// With a zero budget the text only gets trimmed.
pub proof fn lemma_zero_budget(text: Seq<char>)
    ensures
        truncated_text(text, 0) == trim_seq(text),
{
}

/// With a positive budget, truncation never yields more units than the budget.
pub proof fn lemma_units_within_budget(u: Seq<Seq<char>>, max_units: nat)
    requires
        max_units > 0,
    ensures
        truncate_units_spec(u, max_units).len() <= max_units,
{
    if u.len() > max_units {
        let head = u.take(max_units as int);
        let k = last_space(head);
        let cut = if k > 0 {
            head.take(k)
        } else {
            head
        };
        lemma_last_space_bounds(head);
        lemma_strip_len(cut);
    }
}

/// With a positive budget, a truncated text is either the trimmed text, which
/// fits the budget, or the concatenation of at most `max_units` units.
pub proof fn lemma_text_within_budget(text: Seq<char>, max_units: nat)
    requires
        max_units > 0,
    ensures
        ({
            let t = trim_seq(text);
            let r = truncated_text(text, max_units);
            (r == t && grapheme_clusters(t).len() <= max_units) || exists|v: Seq<Seq<char>>|
                v.len() <= max_units && concat_units(v) == r
        }),
{
    let u = grapheme_clusters(trim_seq(text));
    if u.len() > max_units {
        lemma_units_within_budget(u, max_units);
        let v = cut_units(u, max_units);
        assert(v.len() <= max_units && concat_units(v) == truncated_text(text, max_units));
    }
}

/// When the text is cut and the first `max_units` units hold a space after the
/// first unit, the result is a run of whole words (the units before some space
/// among the first `max_units`) followed by the marker.
pub proof fn lemma_cut_at_word_boundary(u: Seq<Seq<char>>, max_units: nat)
    requires
        max_units > 0,
        u.len() > max_units,
        last_space(u.take(max_units as int)) > 0,
    ensures
        exists|j: int|
            0 <= j < max_units && is_space_unit(#[trigger] u[j]) && truncate_units_spec(u, max_units)
                == u.take(j).push(ellipsis()),
{
    let head = u.take(max_units as int);
    let k = last_space(head);
    lemma_last_space_bounds(head);
    assert(head.take(k) =~= u.take(k));
    let m = lemma_strip_prefix(u, k);
    assert(is_space_unit(u[m]));
    assert(truncate_units_spec(u, max_units) == u.take(m).push(ellipsis()));
}

/// Writes the units one after the other.
pub fn join_units(units: &Vec<String>) -> (r: String)
    ensures
        r@ == concat_units(unit_views(units@)),
{
    let mut r = String::new();
    let mut i: usize = 0;
    while i < units.len()
        invariant
            i <= units@.len(),
            r@ == concat_units(unit_views(units@).take(i as int)),
        decreases units@.len() - i,
    {
        proof {
            lemma_take_drop_last(unit_views(units@), i + 1);
        }
        r.append(units[i].as_str());
        i = i + 1;
    }
    assert(unit_views(units@).take(i as int) =~= unit_views(units@));
    r
}

/// Truncates a text split in grapheme clusters to at most `max_units` units.
///
/// Unchanged when `max_units` is zero or the text already fits. Otherwise the
/// first `max_units` units are kept, cut back to the last interior space when
/// there is one, stripped of trailing spaces, and ended with an ellipsis, which
/// takes the place of the last unit when the result would otherwise be too long.
pub fn truncate_graphemes(units: Vec<String>, max_units: usize) -> (r: Vec<String>)
    ensures
        unit_views(r@) == truncate_units_spec(unit_views(units@), max_units as nat),
{
    if max_units == 0 || units.len() <= max_units {
        return units;
    }
    let ghost u = unit_views(units@);
    let ghost head = u.take(max_units as int);
    let mut g = units;
    g.truncate(max_units);
    assert(unit_views(g@) =~= head);

    // Last space unit of the kept head: at `i - 1`, or none when `i` is 0.
    let mut i: usize = g.len();
    assert(head.take(i as int) =~= head);
    loop
        invariant
            i <= g@.len(),
            g@.len() == max_units,
            unit_views(g@) == head,
            last_space(head) == last_space(head.take(i as int)),
        ensures
            i <= g@.len(),
            g@.len() == max_units,
            unit_views(g@) == head,
            last_space(head) == i - 1,
        decreases i,
    {
        if i == 0 {
            assert(head.take(0) =~= Seq::<Seq<char>>::empty());
            break;
        }
        proof {
            lemma_take_drop_last(head, i as int);
            assert(unit_views(g@)[i - 1] == g@[i - 1]@);
        }
        if is_space(&g[i - 1]) {
            break;
        }
        i = i - 1;
    }
    if i > 1 {
        let ghost before = g@;
        g.truncate(i - 1);
        assert(unit_views(g@) =~= head.take(i - 1)) by {
            assert(g@ =~= before.subrange(0, i - 1));
        }
    }
    let ghost cut = unit_views(g@);
    assert(g@.len() <= max_units);
    assert(cut == (if last_space(head) > 0 {
        head.take(last_space(head))
    } else {
        head
    }));

    // Trailing spaces.
    loop
        invariant
            strip_trailing_spaces(unit_views(g@)) == strip_trailing_spaces(cut),
            g@.len() <= max_units,
        ensures
            strip_trailing_spaces(unit_views(g@)) == unit_views(g@),
            strip_trailing_spaces(unit_views(g@)) == strip_trailing_spaces(cut),
            g@.len() <= max_units,
        decreases g@.len(),
    {
        if g.len() == 0 {
            break;
        }
        assert(unit_views(g@).last() == g@[g@.len() - 1]@);
        if !is_space(&g[g.len() - 1]) {
            break;
        }
        let ghost before = unit_views(g@);
        g.pop();
        assert(unit_views(g@) =~= before.drop_last());
    }
    let ghost kept = unit_views(g@);
    assert(kept == strip_trailing_spaces(cut));

    let marker = String::from_str("\u{2026}");
    proof {
        reveal_strlit("\u{2026}");
        assert("\u{2026}"@ =~= ellipsis());
    }
    assert(marker@ == ellipsis());
    if g.len() < max_units {
        g.push(marker);
        assert(unit_views(g@) =~= kept.push(ellipsis()));
    } else {
        let ghost before = g@;
        g.pop();
        assert(g@ =~= before.drop_last());
        g.push(marker);
        assert(unit_views(g@) =~= kept.drop_last().push(ellipsis()));
    }
    g
}

/// Shortens `summary` to at most `max_graphemes` user-perceived characters
/// without splitting words.
///
/// The text is trimmed first. A zero budget, or a trimmed text that fits,
/// gives the trimmed text back; otherwise see `truncate_graphemes`.
pub fn truncate_to_word(summary: &str, max_graphemes: usize) -> (r: String)
    ensures
        r@ == truncated_text(summary@, max_graphemes as nat),
{
    let t = trim_text(summary);
    if max_graphemes == 0 {
        return String::from_str(t);
    }
    let units = split_graphemes(t);
    if units.len() <= max_graphemes {
        return String::from_str(t);
    }
    let cut = truncate_graphemes(units, max_graphemes);
    join_units(&cut)
}

} // verus!
