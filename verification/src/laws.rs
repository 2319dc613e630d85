//! Properties tying the checklist renderer to the checklist readers: a
//! rendered document reads back to the choices it was rendered from, two
//! renderings of the same inputs differ only in their timestamp line, and
//! a name without a recorded choice renders as enabled.

use vstd::prelude::*;

use crate::config::apply_entries;
use crate::config::apply_entry;
use crate::config::checklist_body_lines;
use crate::config::checklist_header_lines;
use crate::config::entry_lines;
use crate::config::map_get;
use crate::config::rp_fold;
use crate::config::rp_step;
use crate::config::spec_read_previous;
use crate::config::spec_enabled;
use crate::config::spec_entry_line;
use crate::config::spec_generate_checklist;
use crate::config::spec_parse_entry;
use crate::config::spec_read_settings;
use crate::text::is_space;
use crate::text::lemma_line_split_terminated;
use crate::text::lemma_terminate_all_concat;
use crate::text::lemma_trim_id;
use crate::text::lemma_trim_id_ends;
use crate::text::line_split;
use crate::text::name_le;
use crate::text::no_newline;
use crate::text::starts_with_spec;
use crate::text::terminate_all;
use crate::text::trim_end_spec;
use crate::text::trim_spec;
use crate::text::trim_start_spec;

verus! {

/// A package name the checklist format can carry faithfully: nonempty,
/// free of line breaks, and unchanged by trimming.
pub open spec fn valid_name(n: Seq<char>) -> bool {
    n.len() > 0 && trim_spec(n) == n && !n.contains('\n')
}

/// A rendered entry line parses back to exactly its name and state.
pub proof fn lemma_parse_entry_line(name: Seq<char>, on: bool)
    requires
        valid_name(name),
    ensures
        spec_parse_entry(spec_entry_line(name, on)) == Some((name, on)),
{
    reveal_strlit("- [x] ");
    reveal_strlit("- [ ] ");
    let px = "- [x] "@;
    let po = "- [ ] "@;
    let line = spec_entry_line(name, on);
    lemma_trim_id_ends(name);
    assert(line[0] == (if on {
        px[0]
    } else {
        po[0]
    }));
    assert(line.last() == name.last());
    lemma_trim_id(line);
    if on {
        assert(line.subrange(0, 6) =~= px);
        assert(starts_with_spec(line, px));
        assert(line.skip(6) =~= name);
    } else {
        assert(line.subrange(0, 6) =~= po);
        assert(!starts_with_spec(line, px)) by {
            if starts_with_spec(line, px) {
                assert(line.subrange(0, 6)[3] == line[3]);
            }
        }
        assert(starts_with_spec(line, po));
        assert(line.skip(6) =~= name);
    }
}

/// Trimming from the end keeps the first character of what remains.
proof fn lemma_trim_end_first(s: Seq<char>)
    ensures
        trim_end_spec(s).len() > 0 ==> trim_end_spec(s)[0] == s[0],
    decreases s.len(),
{
    if s.len() > 0 && is_space(s.last()) {
        lemma_trim_end_first(s.drop_last());
    }
}

/// A nonempty line that starts with anything but whitespace or a dash is
/// no entry line.
pub proof fn lemma_parse_entry_none(l: Seq<char>)
    requires
        l.len() > 0,
        !is_space(l[0]),
        l[0] != '-',
    ensures
        spec_parse_entry(l) is None,
{
    reveal_strlit("- [x] ");
    reveal_strlit("- [ ] ");
    assert(trim_start_spec(l) == l);
    lemma_trim_end_first(l);
    let t = trim_spec(l);
    if starts_with_spec(t, "- [x] "@) {
        assert(t.subrange(0, 6)[0] == t[0]);
    }
    if starts_with_spec(t, "- [ ] "@) {
        assert(t.subrange(0, 6)[0] == t[0]);
    }
}

/// A blank line is no entry line.
pub proof fn lemma_parse_entry_blank()
    ensures
        spec_parse_entry(Seq::<char>::empty()) is None,
{
    reveal_strlit("- [x] ");
    reveal_strlit("- [ ] ");
    let e = Seq::<char>::empty();
    assert(trim_start_spec(e) == e);
    assert(trim_end_spec(e) == e);
    assert(!starts_with_spec(e, "- [x] "@));
    assert(!starts_with_spec(e, "- [ ] "@));
}

/// Reading a document section by section: the lines fold left.
pub proof fn lemma_apply_entries_concat(
    m: Map<Seq<char>, bool>,
    a: Seq<Seq<char>>,
    b: Seq<Seq<char>>,
)
    ensures
        apply_entries(m, a + b) == apply_entries(apply_entries(m, a), b),
    decreases a.len(),
{
    if a.len() == 0 {
        assert(a + b =~= b);
    } else {
        assert((a + b)[0] == a[0]);
        assert((a + b).drop_first() =~= a.drop_first() + b);
        lemma_apply_entries_concat(apply_entry(m, a[0]), a.drop_first(), b);
    }
}

/// Lines that are no entries leave the map alone.
pub proof fn lemma_apply_entries_none(m: Map<Seq<char>, bool>, ls: Seq<Seq<char>>)
    requires
        forall|i: int| 0 <= i < ls.len() ==> spec_parse_entry(#[trigger] ls[i]) is None,
    ensures
        apply_entries(m, ls) == m,
    decreases ls.len(),
{
    if ls.len() > 0 {
        lemma_apply_entries_none(m, ls.drop_first());
    }
}

/// The map after inserting each name with its policy-chosen state, in
/// order.
pub open spec fn add_names(
    m0: Map<Seq<char>, bool>,
    names: Seq<Seq<char>>,
    m: Map<Seq<char>, bool>,
) -> Map<Seq<char>, bool>
    decreases names.len(),
{
    if names.len() == 0 {
        m0
    } else {
        add_names(m0.insert(names[0], spec_enabled(m, names[0])), names.drop_first(), m)
    }
}

/// Folding the rendered entry lines of a section performs exactly those
/// insertions.
pub proof fn lemma_apply_entry_lines(
    m0: Map<Seq<char>, bool>,
    names: Seq<Seq<char>>,
    m: Map<Seq<char>, bool>,
)
    requires
        forall|i: int| 0 <= i < names.len() ==> valid_name(#[trigger] names[i]),
    ensures
        apply_entries(m0, entry_lines(names, m)) == add_names(m0, names, m),
    decreases names.len(),
{
    if names.len() > 0 {
        let el = entry_lines(names, m);
        assert(el[0] == spec_entry_line(names[0], spec_enabled(m, names[0])));
        lemma_parse_entry_line(names[0], spec_enabled(m, names[0]));
        assert(el.drop_first() =~= entry_lines(names.drop_first(), m));
        lemma_apply_entry_lines(
            m0.insert(names[0], spec_enabled(m, names[0])),
            names.drop_first(),
            m,
        );
    }
}

/// What the insertions leave at each key: a listed name carries its
/// policy-chosen state, every other key is untouched.
pub proof fn lemma_add_names_get(
    m0: Map<Seq<char>, bool>,
    names: Seq<Seq<char>>,
    m: Map<Seq<char>, bool>,
    k: Seq<char>,
)
    ensures
        names.contains(k) ==> add_names(m0, names, m).contains_key(k) && add_names(
            m0,
            names,
            m,
        )[k] == spec_enabled(m, k),
        !names.contains(k) ==> map_get(add_names(m0, names, m), k) == map_get(m0, k),
    decreases names.len(),
{
    if names.len() > 0 {
        let m1 = m0.insert(names[0], spec_enabled(m, names[0]));
        lemma_add_names_get(m1, names.drop_first(), m, k);
        if names.contains(k) {
            if names[0] == k {
                if !names.drop_first().contains(k) {
                    assert(map_get(m1, k) == Some(spec_enabled(m, k)));
                }
            } else {
                let i = choose|i: int| 0 <= i < names.len() && names[i] == k;
                assert(names.drop_first()[i - 1] == k);
                assert(names.drop_first().contains(k));
            }
        } else {
            assert(names[0] != k);
            assert forall|i: int| 0 <= i < names.drop_first().len() implies names.drop_first()[i]
                != k by {
                assert(names.drop_first()[i] == names[i + 1]);
            }
            assert(!names.drop_first().contains(k));
        }
    }
}

/// Membership survives sorting, in both directions.
proof fn lemma_sort_contains(names: Seq<Seq<char>>, k: Seq<char>)
    ensures
        names.sort_by(name_le()).contains(k) <==> names.contains(k),
{
    broadcast use vstd::seq_lib::group_to_multiset_ensures;

    crate::text::lemma_name_le_total_ordering();
    names.lemma_sort_by_ensures(name_le());
    let sorted = names.sort_by(name_le());
    assert(names.to_multiset() =~= sorted.to_multiset());
    assert(names.contains(k) <==> names.to_multiset().count(k) > 0);
    assert(sorted.contains(k) <==> sorted.to_multiset().count(k) > 0);
}

/// No line of the rendered document (before the final line break) holds a
/// line break itself.
proof fn lemma_generated_lines_no_newline(
    f: Seq<Seq<char>>,
    c: Seq<Seq<char>>,
    m: Map<Seq<char>, bool>,
    ts: Seq<char>,
)
    requires
        forall|i: int| 0 <= i < f.len() ==> !(#[trigger] f[i]).contains('\n'),
        forall|i: int| 0 <= i < c.len() ==> !(#[trigger] c[i]).contains('\n'),
        !ts.contains('\n'),
    ensures
        forall|i: int|
            0 <= i < checklist_header_lines(ts).len() ==> no_newline(
                #[trigger] checklist_header_lines(ts)[i],
            ),
        forall|i: int|
            0 <= i < checklist_body_lines(f, c, m).len() ==> no_newline(
                #[trigger] checklist_body_lines(f, c, m)[i],
            ),
{
    reveal_strlit("# Brew Auto-Update Settings");
    reveal_strlit("Generated on: ");
    reveal_strlit("## Formulae");
    reveal_strlit("## Casks");
    reveal_strlit("- [x] ");
    reveal_strlit("- [ ] ");
    let hd = checklist_header_lines(ts);
    assert forall|i: int| 0 <= i < hd.len() implies no_newline(#[trigger] hd[i]) by {
        assert forall|j: int| 0 <= j < hd[i].len() implies hd[i][j] != '\n' by {
            if i == 2 && j >= "Generated on: "@.len() {
                assert(hd[2][j] == ts[j - "Generated on: "@.len()]);
                assert(!ts.contains('\n'));
                assert(ts[j - "Generated on: "@.len()] != '\n');
            }
        }
    }
    let bd = checklist_body_lines(f, c, m);
    let ef = entry_lines(f, m);
    let ec = entry_lines(c, m);
    assert forall|i: int| 0 <= i < ef.len() implies no_newline(#[trigger] ef[i]) by {
        assert(ef[i] == spec_entry_line(f[i], spec_enabled(m, f[i])));
        assert forall|j: int| 0 <= j < ef[i].len() implies ef[i][j] != '\n' by {
            if j >= 6 {
                assert(ef[i][j] == f[i][j - 6]);
                assert(f[i][j - 6] != '\n');
            }
        }
    }
    assert forall|i: int| 0 <= i < ec.len() implies no_newline(#[trigger] ec[i]) by {
        assert(ec[i] == spec_entry_line(c[i], spec_enabled(m, c[i])));
        assert forall|j: int| 0 <= j < ec[i].len() implies ec[i][j] != '\n' by {
            if j >= 6 {
                assert(ec[i][j] == c[i][j - 6]);
                assert(c[i][j - 6] != '\n');
            }
        }
    }
    assert forall|i: int| 0 <= i < bd.len() implies no_newline(#[trigger] bd[i]) by {
        if i < 2 {
        } else if i < 2 + ef.len() {
            assert(bd[i] == ef[i - 2]);
        } else if i < 5 + ef.len() {
        } else {
            assert(bd[i] == ec[i - 5 - ef.len()]);
        }
    }
}

/// The lines of a rendered checklist document (without statistics): the
/// header lines, the body lines, and one final empty line.
proof fn lemma_generated_line_split(
    f: Seq<Seq<char>>,
    c: Seq<Seq<char>>,
    m: Map<Seq<char>, bool>,
    ts: Seq<char>,
)
    requires
        forall|i: int| 0 <= i < f.len() ==> !(#[trigger] f[i]).contains('\n'),
        forall|i: int| 0 <= i < c.len() ==> !(#[trigger] c[i]).contains('\n'),
        !ts.contains('\n'),
    ensures
        line_split(spec_generate_checklist(f, c, m, None, ts)) == checklist_header_lines(ts)
            + checklist_body_lines(f.sort_by(name_le()), c.sort_by(name_le()), m) + seq![
            Seq::<char>::empty(),
        ],
{
    broadcast use vstd::seq_lib::group_to_multiset_ensures;

    crate::text::lemma_name_le_total_ordering();
    f.lemma_sort_by_ensures(name_le());
    c.lemma_sort_by_ensures(name_le());
    let fs = f.sort_by(name_le());
    let cs = c.sort_by(name_le());
    assert forall|i: int| 0 <= i < fs.len() implies !(#[trigger] fs[i]).contains('\n') by {
        assert(f.to_multiset().count(fs[i]) == fs.to_multiset().count(fs[i]));
        assert(fs.contains(fs[i]));
        assert(f.contains(fs[i]));
        let j = choose|j: int| 0 <= j < f.len() && f[j] == fs[i];
        assert(!f[j].contains('\n'));
    }
    assert forall|i: int| 0 <= i < cs.len() implies !(#[trigger] cs[i]).contains('\n') by {
        assert(c.to_multiset().count(cs[i]) == cs.to_multiset().count(cs[i]));
        assert(cs.contains(cs[i]));
        assert(c.contains(cs[i]));
        let j = choose|j: int| 0 <= j < c.len() && c[j] == cs[i];
        assert(!c[j].contains('\n'));
    }
    lemma_generated_lines_no_newline(fs, cs, m, ts);
    let hd = checklist_header_lines(ts);
    let bd = checklist_body_lines(fs, cs, m);
    let doc = spec_generate_checklist(f, c, m, None, ts);
    lemma_terminate_all_concat(hd, bd);
    assert(doc =~= terminate_all(hd + bd));
    assert forall|i: int| 0 <= i < (hd + bd).len() implies no_newline(#[trigger] (hd + bd)[i]) by {
        if i < hd.len() {
            assert((hd + bd)[i] == hd[i]);
        } else {
            assert((hd + bd)[i] == bd[i - hd.len()]);
        }
    }
    lemma_line_split_terminated(hd + bd, Seq::<char>::empty());
    assert(terminate_all(hd + bd) + Seq::<char>::empty() =~= terminate_all(hd + bd));
    assert(line_split(Seq::<char>::empty()) == seq![Seq::<char>::empty()]) by {
        crate::text::lemma_line_split_no_newline(Seq::<char>::empty());
    }
    assert(line_split(doc) =~= hd + bd + seq![Seq::<char>::empty()]);
}

/// Reading back a rendered checklist (without statistics) recovers the
/// choices it was rendered from, restricted to the rendered names: every
/// rendered name maps to its policy-chosen state, and nothing else is in
/// the map.
pub proof fn lemma_checklist_round_trip(
    f: Seq<Seq<char>>,
    c: Seq<Seq<char>>,
    m: Map<Seq<char>, bool>,
    ts: Seq<char>,
)
    requires
        forall|i: int| 0 <= i < f.len() ==> valid_name(#[trigger] f[i]),
        forall|i: int| 0 <= i < c.len() ==> valid_name(#[trigger] c[i]),
        !ts.contains('\n'),
    ensures
        ({
            let parsed = spec_read_settings(spec_generate_checklist(f, c, m, None, ts));
            &&& forall|n: Seq<char>|
                #[trigger] parsed.contains_key(n) <==> (f.contains(n) || c.contains(n))
            &&& forall|n: Seq<char>|
                f.contains(n) || c.contains(n) ==> #[trigger] parsed[n] == spec_enabled(m, n)
        }),
{
    broadcast use vstd::seq_lib::group_to_multiset_ensures;

    crate::text::lemma_name_le_total_ordering();
    f.lemma_sort_by_ensures(name_le());
    c.lemma_sort_by_ensures(name_le());
    let fs = f.sort_by(name_le());
    let cs = c.sort_by(name_le());
    assert forall|i: int| 0 <= i < fs.len() implies valid_name(#[trigger] fs[i]) by {
        assert(fs.contains(fs[i]));
        assert(f.contains(fs[i]));
        let j = choose|j: int| 0 <= j < f.len() && f[j] == fs[i];
        assert(valid_name(f[j]));
    }
    assert forall|i: int| 0 <= i < cs.len() implies valid_name(#[trigger] cs[i]) by {
        assert(cs.contains(cs[i]));
        assert(c.contains(cs[i]));
        let j = choose|j: int| 0 <= j < c.len() && c[j] == cs[i];
        assert(valid_name(c[j]));
    }
    lemma_generated_line_split(f, c, m, ts);
    let hd = checklist_header_lines(ts);
    let bd = checklist_body_lines(fs, cs, m);
    let tail = seq![Seq::<char>::empty()];
    let doc = spec_generate_checklist(f, c, m, None, ts);
    let e0 = Map::<Seq<char>, bool>::empty();
    lemma_apply_entries_concat(e0, hd + bd, tail);
    lemma_apply_entries_concat(e0, hd, bd);
    assert(hd + bd + tail == (hd + bd) + tail);
    // the header lines are no entries
    reveal_strlit("# Brew Auto-Update Settings");
    reveal_strlit("Generated on: ");
    reveal_strlit("## Formulae");
    reveal_strlit("## Casks");
    assert forall|i: int| 0 <= i < hd.len() implies spec_parse_entry(#[trigger] hd[i]) is None by {
        if i == 0 {
            lemma_parse_entry_none(hd[0]);
        } else if i == 2 {
            assert(hd[2][0] == "Generated on: "@[0]);
            lemma_parse_entry_none(hd[2]);
        } else {
            assert(hd[i] =~= Seq::<char>::empty());
            lemma_parse_entry_blank();
        }
    }
    lemma_apply_entries_none(e0, hd);
    // split the body into its five segments
    let sa = seq!["## Formulae"@, Seq::<char>::empty()];
    let ef = entry_lines(fs, m);
    let sb = seq![Seq::<char>::empty(), "## Casks"@, Seq::<char>::empty()];
    let ec = entry_lines(cs, m);
    assert(bd == sa + ef + sb + ec);
    lemma_apply_entries_concat(e0, sa + ef + sb, ec);
    lemma_apply_entries_concat(e0, sa + ef, sb);
    lemma_apply_entries_concat(e0, sa, ef);
    assert forall|i: int| 0 <= i < sa.len() implies spec_parse_entry(#[trigger] sa[i]) is None by {
        if i == 0 {
            lemma_parse_entry_none(sa[0]);
        } else {
            assert(sa[i] =~= Seq::<char>::empty());
            lemma_parse_entry_blank();
        }
    }
    lemma_apply_entries_none(e0, sa);
    assert forall|i: int| 0 <= i < sb.len() implies spec_parse_entry(#[trigger] sb[i]) is None by {
        if i == 1 {
            lemma_parse_entry_none(sb[1]);
        } else {
            assert(sb[i] =~= Seq::<char>::empty());
            lemma_parse_entry_blank();
        }
    }
    let mf = add_names(e0, fs, m);
    lemma_apply_entry_lines(e0, fs, m);
    lemma_apply_entries_none(mf, sb);
    let mc = add_names(mf, cs, m);
    lemma_apply_entry_lines(mf, cs, m);
    assert forall|i: int| 0 <= i < tail.len() implies spec_parse_entry(#[trigger] tail[i]) is None
        by {
        assert(tail[i] =~= Seq::<char>::empty());
        lemma_parse_entry_blank();
    }
    lemma_apply_entries_none(mc, tail);
    assert(spec_read_settings(doc) == mc);
    let parsed = spec_read_settings(doc);
    assert forall|n: Seq<char>|
        #[trigger] parsed.contains_key(n) <==> (f.contains(n) || c.contains(n)) by {
        lemma_sort_contains(f, n);
        lemma_sort_contains(c, n);
        lemma_add_names_get(e0, fs, m, n);
        lemma_add_names_get(mf, cs, m, n);
        if !cs.contains(n) && !fs.contains(n) {
            assert(map_get(mc, n) == map_get(mf, n));
            assert(map_get(mf, n) == map_get(e0, n));
            assert(!parsed.contains_key(n));
        }
    }
    assert forall|n: Seq<char>| f.contains(n) || c.contains(n) implies #[trigger] parsed[n]
        == spec_enabled(m, n) by {
        lemma_sort_contains(f, n);
        lemma_sort_contains(c, n);
        lemma_add_names_get(e0, fs, m, n);
        lemma_add_names_get(mf, cs, m, n);
        if !cs.contains(n) {
            assert(map_get(mc, n) == map_get(mf, n));
        }
    }
}

/// A line that is neither a section header nor an entry: the section
/// reader passes over it.
spec fn rp_neutral(l: Seq<char>) -> bool {
    &&& trim_spec(l) != "## Formulae"@
    &&& trim_spec(l) != "## Casks"@
    &&& !starts_with_spec(trim_spec(l), "## "@)
    &&& spec_parse_entry(l) is None
}

proof fn lemma_rp_fold_concat(
    st: (Seq<Seq<char>>, Seq<Seq<char>>, Option<crate::brew::PackageType>),
    a: Seq<Seq<char>>,
    b: Seq<Seq<char>>,
)
    ensures
        rp_fold(st, a + b) == rp_fold(rp_fold(st, a), b),
    decreases a.len(),
{
    if a.len() == 0 {
        assert(a + b =~= b);
    } else {
        assert((a + b)[0] == a[0]);
        assert((a + b).drop_first() =~= a.drop_first() + b);
        lemma_rp_fold_concat(rp_step(st, a[0]), a.drop_first(), b);
    }
}

proof fn lemma_rp_fold_single(
    st: (Seq<Seq<char>>, Seq<Seq<char>>, Option<crate::brew::PackageType>),
    l: Seq<char>,
)
    ensures
        rp_fold(st, seq![l]) == rp_step(st, l),
{
    assert(seq![l].drop_first() =~= Seq::<Seq<char>>::empty());
    assert(seq![l][0] == l);
    assert(rp_fold(rp_step(st, l), Seq::<Seq<char>>::empty()) == rp_step(st, l));
}

proof fn lemma_rp_fold_neutral(
    st: (Seq<Seq<char>>, Seq<Seq<char>>, Option<crate::brew::PackageType>),
    ls: Seq<Seq<char>>,
)
    requires
        forall|i: int| 0 <= i < ls.len() ==> rp_neutral(#[trigger] ls[i]),
    ensures
        rp_fold(st, ls) == st,
    decreases ls.len(),
{
    if ls.len() > 0 {
        assert(rp_step(st, ls[0]) == st);
        lemma_rp_fold_neutral(st, ls.drop_first());
    }
}

/// The header lines of the rendered document leave the section reader's
/// state alone.
proof fn lemma_header_lines_neutral(ts: Seq<char>)
    ensures
        forall|i: int|
            0 <= i < checklist_header_lines(ts).len() ==> rp_neutral(
                #[trigger] checklist_header_lines(ts)[i],
            ),
{
    reveal_strlit("# Brew Auto-Update Settings");
    reveal_strlit("Generated on: ");
    reveal_strlit("## Formulae");
    reveal_strlit("## Casks");
    reveal_strlit("## ");
    let hd = checklist_header_lines(ts);
    lemma_parse_entry_blank();
    assert(trim_start_spec(Seq::<char>::empty()) == Seq::<char>::empty());
    assert(trim_end_spec(Seq::<char>::empty()) == Seq::<char>::empty());
    assert forall|i: int| 0 <= i < hd.len() implies rp_neutral(#[trigger] hd[i]) by {
        if i == 0 {
            lemma_trim_id(hd[0]);
            lemma_parse_entry_none(hd[0]);
            assert(hd[0].len() != "## Formulae"@.len());
            assert(hd[0].len() != "## Casks"@.len());
            if starts_with_spec(hd[0], "## "@) {
                assert(hd[0].subrange(0, 3)[1] == hd[0][1]);
            }
        } else if i == 2 {
            let l = hd[2];
            assert(l[0] == 'G');
            assert(trim_start_spec(l) == l);
            lemma_trim_end_first(l);
            let t = trim_spec(l);
            if t.len() == 0 {
                assert(t != "## Formulae"@);
                assert(t != "## Casks"@);
            } else {
                assert(t[0] == 'G');
                assert(t != "## Formulae"@);
                assert(t != "## Casks"@);
                if starts_with_spec(t, "## "@) {
                    assert(t.subrange(0, 3)[0] == t[0]);
                }
            }
            lemma_parse_entry_none(l);
        } else {
            assert(hd[i] =~= Seq::<char>::empty());
            assert(trim_spec(hd[i]) != "## Formulae"@);
            assert(trim_spec(hd[i]) != "## Casks"@);
        }
    }
}

/// One recognized header line selects its section.
proof fn lemma_rp_step_header(
    st: (Seq<Seq<char>>, Seq<Seq<char>>, Option<crate::brew::PackageType>),
)
    ensures
        rp_step(st, "## Formulae"@) == (st.0, st.1, Some(crate::brew::PackageType::Formula)),
        rp_step(st, "## Casks"@) == (st.0, st.1, Some(crate::brew::PackageType::Cask)),
{
    reveal_strlit("## Formulae");
    reveal_strlit("## Casks");
    lemma_trim_id("## Formulae"@);
    lemma_trim_id("## Casks"@);
    assert("## Casks"@.len() != "## Formulae"@.len());
}

/// An entry line appends its name to the selected section's list.
proof fn lemma_rp_step_entry(
    st: (Seq<Seq<char>>, Seq<Seq<char>>, Option<crate::brew::PackageType>),
    name: Seq<char>,
    on: bool,
)
    requires
        valid_name(name),
        st.2 is Some,
    ensures
        st.2 == Some(crate::brew::PackageType::Formula) ==> rp_step(
            st,
            spec_entry_line(name, on),
        ) == (st.0.push(name), st.1, st.2),
        st.2 == Some(crate::brew::PackageType::Cask) ==> rp_step(st, spec_entry_line(name, on))
            == (st.0, st.1.push(name), st.2),
{
    reveal_strlit("- [x] ");
    reveal_strlit("- [ ] ");
    reveal_strlit("## Formulae");
    reveal_strlit("## Casks");
    reveal_strlit("## ");
    let line = spec_entry_line(name, on);
    lemma_parse_entry_line(name, on);
    lemma_trim_id_ends(name);
    assert(line.last() == name.last());
    lemma_trim_id(line);
    assert(line[0] == '-');
    assert(line != "## Formulae"@);
    assert(line != "## Casks"@);
    if starts_with_spec(line, "## "@) {
        assert(line.subrange(0, 3)[0] == line[0]);
    }
}

/// Folding a section's rendered entry lines appends exactly its names, in
/// order, to the selected list.
proof fn lemma_rp_fold_entries(
    st: (Seq<Seq<char>>, Seq<Seq<char>>, Option<crate::brew::PackageType>),
    names: Seq<Seq<char>>,
    m: Map<Seq<char>, bool>,
)
    requires
        forall|i: int| 0 <= i < names.len() ==> valid_name(#[trigger] names[i]),
        st.2 is Some,
    ensures
        st.2 == Some(crate::brew::PackageType::Formula) ==> rp_fold(st, entry_lines(names, m))
            == (st.0 + names, st.1, st.2),
        st.2 == Some(crate::brew::PackageType::Cask) ==> rp_fold(st, entry_lines(names, m)) == (
            st.0,
            st.1 + names,
            st.2,
        ),
    decreases names.len(),
{
    let el = entry_lines(names, m);
    if names.len() == 0 {
        assert(st.0 + names =~= st.0);
        assert(st.1 + names =~= st.1);
        assert(el.len() == 0);
    } else {
        assert(el[0] == spec_entry_line(names[0], spec_enabled(m, names[0])));
        lemma_rp_step_entry(st, names[0], spec_enabled(m, names[0]));
        assert(el.drop_first() =~= entry_lines(names.drop_first(), m));
        let st1 = rp_step(st, el[0]);
        lemma_rp_fold_entries(st1, names.drop_first(), m);
        assert(seq![names[0]] + names.drop_first() =~= names);
        if st.2 == Some(crate::brew::PackageType::Formula) {
            assert(st.0.push(names[0]) + names.drop_first() =~= st.0 + names);
        } else {
            assert(st.1.push(names[0]) + names.drop_first() =~= st.1 + names);
        }
    }
}

/// Reading the sections of a rendered checklist (without statistics)
/// recovers the rendered inventory: each section lists exactly its names,
/// sorted into the rendering order.
pub proof fn lemma_previous_inventory_round_trip(
    f: Seq<Seq<char>>,
    c: Seq<Seq<char>>,
    m: Map<Seq<char>, bool>,
    ts: Seq<char>,
)
    requires
        forall|i: int| 0 <= i < f.len() ==> valid_name(#[trigger] f[i]),
        forall|i: int| 0 <= i < c.len() ==> valid_name(#[trigger] c[i]),
        !ts.contains('\n'),
    ensures
        spec_read_previous(spec_generate_checklist(f, c, m, None, ts)) == (
            f.sort_by(name_le()),
            c.sort_by(name_le()),
        ),
{
    broadcast use vstd::seq_lib::group_to_multiset_ensures;

    crate::text::lemma_name_le_total_ordering();
    f.lemma_sort_by_ensures(name_le());
    c.lemma_sort_by_ensures(name_le());
    let fs = f.sort_by(name_le());
    let cs = c.sort_by(name_le());
    assert forall|i: int| 0 <= i < fs.len() implies valid_name(#[trigger] fs[i]) by {
        assert(fs.contains(fs[i]));
        assert(f.contains(fs[i]));
        let j = choose|j: int| 0 <= j < f.len() && f[j] == fs[i];
        assert(valid_name(f[j]));
    }
    assert forall|i: int| 0 <= i < cs.len() implies valid_name(#[trigger] cs[i]) by {
        assert(cs.contains(cs[i]));
        assert(c.contains(cs[i]));
        let j = choose|j: int| 0 <= j < c.len() && c[j] == cs[i];
        assert(valid_name(c[j]));
    }
    lemma_generated_line_split(f, c, m, ts);
    let hd = checklist_header_lines(ts);
    let bd = checklist_body_lines(fs, cs, m);
    let tail = seq![Seq::<char>::empty()];
    let st0 = (Seq::<Seq<char>>::empty(), Seq::<Seq<char>>::empty(), None::<
        crate::brew::PackageType,
    >);
    lemma_rp_fold_concat(st0, hd + bd, tail);
    lemma_rp_fold_concat(st0, hd, bd);
    assert(hd + bd + tail == (hd + bd) + tail);
    lemma_header_lines_neutral(ts);
    lemma_rp_fold_neutral(st0, hd);
    // the body, section by section
    let sa = seq!["## Formulae"@, Seq::<char>::empty()];
    let ef = entry_lines(fs, m);
    let sb = seq![Seq::<char>::empty(), "## Casks"@, Seq::<char>::empty()];
    let ec = entry_lines(cs, m);
    assert(bd == sa + ef + sb + ec);
    lemma_rp_fold_concat(st0, sa + ef + sb, ec);
    lemma_rp_fold_concat(st0, sa + ef, sb);
    lemma_rp_fold_concat(st0, sa, ef);
    reveal_strlit("## Formulae");
    reveal_strlit("## Casks");
    lemma_parse_entry_blank();
    assert(trim_start_spec(Seq::<char>::empty()) == Seq::<char>::empty());
    assert(trim_end_spec(Seq::<char>::empty()) == Seq::<char>::empty());
    // the formulae header selects the first section
    assert(sa == seq!["## Formulae"@] + seq![Seq::<char>::empty()]);
    lemma_rp_fold_concat(st0, seq!["## Formulae"@], seq![Seq::<char>::empty()]);
    lemma_rp_fold_single(st0, "## Formulae"@);
    lemma_rp_step_header(st0);
    let stf = (st0.0, st0.1, Some(crate::brew::PackageType::Formula));
    assert(rp_neutral(Seq::<char>::empty())) by {
        assert(trim_spec(Seq::<char>::empty()) != "## Formulae"@);
        assert(trim_spec(Seq::<char>::empty()) != "## Casks"@);
    }
    lemma_rp_fold_neutral(stf, seq![Seq::<char>::empty()]);
    assert(rp_fold(st0, sa) == stf);
    // its entries land in the first list
    lemma_rp_fold_entries(stf, fs, m);
    let stf2 = (st0.0 + fs, st0.1, Some(crate::brew::PackageType::Formula));
    assert(rp_fold(stf, ef) == stf2);
    // the casks header selects the second section
    assert(sb == seq![Seq::<char>::empty()] + (seq!["## Casks"@] + seq![Seq::<char>::empty()]));
    lemma_rp_fold_concat(stf2, seq![Seq::<char>::empty()], seq!["## Casks"@] + seq![
        Seq::<char>::empty(),
    ]);
    lemma_rp_fold_neutral(stf2, seq![Seq::<char>::empty()]);
    lemma_rp_fold_concat(stf2, seq!["## Casks"@], seq![Seq::<char>::empty()]);
    lemma_rp_fold_single(stf2, "## Casks"@);
    lemma_rp_step_header(stf2);
    let stc = (stf2.0, stf2.1, Some(crate::brew::PackageType::Cask));
    lemma_rp_fold_neutral(stc, seq![Seq::<char>::empty()]);
    assert(rp_fold(stf2, sb) == stc);
    // its entries land in the second list
    lemma_rp_fold_entries(stc, cs, m);
    let stc2 = (stc.0, stc.1 + cs, Some(crate::brew::PackageType::Cask));
    assert(rp_fold(stc, ec) == stc2);
    // the final blank line changes nothing
    lemma_rp_fold_neutral(stc2, tail);
    assert(st0.0 + fs =~= fs);
    assert(st0.1 + cs =~= cs);
}

/// Two renderings of the same inventory, choices and (absent) statistics
/// have the same lines, except that the one timestamp line carries each
/// run's timestamp.
pub proof fn lemma_generate_timestamp_only(
    f: Seq<Seq<char>>,
    c: Seq<Seq<char>>,
    m: Map<Seq<char>, bool>,
    ts1: Seq<char>,
    ts2: Seq<char>,
)
    requires
        forall|i: int| 0 <= i < f.len() ==> !(#[trigger] f[i]).contains('\n'),
        forall|i: int| 0 <= i < c.len() ==> !(#[trigger] c[i]).contains('\n'),
        !ts1.contains('\n'),
        !ts2.contains('\n'),
    ensures
        ({
            let l1 = line_split(spec_generate_checklist(f, c, m, None, ts1));
            let l2 = line_split(spec_generate_checklist(f, c, m, None, ts2));
            &&& l1.len() == l2.len()
            &&& l1[2] == "Generated on: "@ + ts1
            &&& l2[2] == "Generated on: "@ + ts2
            &&& forall|i: int| 0 <= i < l1.len() && i != 2 ==> l1[i] == l2[i]
        }),
{
    lemma_generated_line_split(f, c, m, ts1);
    lemma_generated_line_split(f, c, m, ts2);
}

/// A formula of the inventory without a recorded choice renders as an
/// enabled entry line.
pub proof fn lemma_default_enabled_rendered_formula(
    f: Seq<Seq<char>>,
    c: Seq<Seq<char>>,
    m: Map<Seq<char>, bool>,
    ts: Seq<char>,
    n: Seq<char>,
)
    requires
        forall|i: int| 0 <= i < f.len() ==> !(#[trigger] f[i]).contains('\n'),
        forall|i: int| 0 <= i < c.len() ==> !(#[trigger] c[i]).contains('\n'),
        !ts.contains('\n'),
        f.contains(n),
        !m.contains_key(n),
    ensures
        line_split(spec_generate_checklist(f, c, m, None, ts)).contains("- [x] "@ + n),
{
    lemma_generated_line_split(f, c, m, ts);
    let fs = f.sort_by(name_le());
    let cs = c.sort_by(name_le());
    lemma_sort_contains(f, n);
    let i = choose|i: int| 0 <= i < fs.len() && fs[i] == n;
    let hd = checklist_header_lines(ts);
    let bd = checklist_body_lines(fs, cs, m);
    let lines = line_split(spec_generate_checklist(f, c, m, None, ts));
    assert(entry_lines(fs, m)[i] == spec_entry_line(n, spec_enabled(m, n)));
    assert(spec_entry_line(n, true) == "- [x] "@ + n);
    assert(bd[2 + i] == entry_lines(fs, m)[i]);
    assert(lines[hd.len() + 2 + i] == bd[2 + i]);
}

/// A cask of the inventory without a recorded choice renders as an
/// enabled entry line.
pub proof fn lemma_default_enabled_rendered_cask(
    f: Seq<Seq<char>>,
    c: Seq<Seq<char>>,
    m: Map<Seq<char>, bool>,
    ts: Seq<char>,
    n: Seq<char>,
)
    requires
        forall|i: int| 0 <= i < f.len() ==> !(#[trigger] f[i]).contains('\n'),
        forall|i: int| 0 <= i < c.len() ==> !(#[trigger] c[i]).contains('\n'),
        !ts.contains('\n'),
        c.contains(n),
        !m.contains_key(n),
    ensures
        line_split(spec_generate_checklist(f, c, m, None, ts)).contains("- [x] "@ + n),
{
    lemma_generated_line_split(f, c, m, ts);
    let fs = f.sort_by(name_le());
    let cs = c.sort_by(name_le());
    lemma_sort_contains(c, n);
    let i = choose|i: int| 0 <= i < cs.len() && cs[i] == n;
    let hd = checklist_header_lines(ts);
    let bd = checklist_body_lines(fs, cs, m);
    let lines = line_split(spec_generate_checklist(f, c, m, None, ts));
    assert(entry_lines(cs, m)[i] == spec_entry_line(n, spec_enabled(m, n)));
    assert(spec_entry_line(n, true) == "- [x] "@ + n);
    assert(entry_lines(fs, m).len() == fs.len());
    assert(bd[5 + fs.len() + i] == entry_lines(cs, m)[i]);
    assert(lines[hd.len() + 5 + fs.len() + i] == bd[5 + fs.len() + i]);
}

} // verus!
