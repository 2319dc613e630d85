//! The checklist model: the enablement map read from a checklist document,
//! the line-level entry parser, and the section reader that recovers the
//! previous inventory.

use vstd::prelude::*;
use vstd::string::StrSliceExecFns;
use vstd::string::StringExecFns;

use crate::brew::PackageType;
use crate::stats::PackageStats;
use crate::stats::spec_stats_markdown;
use crate::text::line_split;
use crate::text::name_le;
use crate::text::sort_strings;
use crate::text::split_lines;
use crate::text::starts_with_spec;
use crate::text::str_eq;
use crate::text::str_starts_with;
use crate::text::terminate_all;
use crate::text::lemma_terminate_all_concat;
use crate::text::lemma_terminate_all_single;
use crate::text::trim;
use crate::text::trim_spec;
use crate::text::views;

verus! {

/// Which packages are enabled for bulk upgrades, keyed by package name.
/// A name that is absent means "enabled" wherever the map is consulted
/// with the default-enabled policy.
pub struct Settings {
    entries: Vec<(String, bool)>,
}

/// The map described by a sequence of insertions, later entries winning.
pub open spec fn entries_map(s: Seq<(String, bool)>) -> Map<Seq<char>, bool>
    decreases s.len(),
{
    if s.len() == 0 {
        Map::empty()
    } else {
        entries_map(s.drop_last()).insert(s.last().0@, s.last().1)
    }
}

/// Every key of the map is the name of some entry.
pub proof fn lemma_entries_map_key(s: Seq<(String, bool)>, k: Seq<char>)
    requires
        entries_map(s).contains_key(k),
    ensures
        exists|i: int| 0 <= i < s.len() && s[i].0@ == k,
    decreases s.len(),
{
    if s.len() > 0 {
        if s.last().0@ == k {
            assert(s[s.len() - 1].0@ == k);
        } else {
            lemma_entries_map_key(s.drop_last(), k);
            let i = choose|i: int| 0 <= i < s.drop_last().len() && s.drop_last()[i].0@ == k;
            assert(s[i].0@ == k);
        }
    }
}

/// The lookup of `k` in `m`, as an `Option`.
pub open spec fn map_get(m: Map<Seq<char>, bool>, k: Seq<char>) -> Option<bool> {
    if m.contains_key(k) {
        Some(m[k])
    } else {
        None
    }
}

/// The default-enabled policy: an absent name counts as enabled.
pub open spec fn spec_enabled(m: Map<Seq<char>, bool>, name: Seq<char>) -> bool {
    if m.contains_key(name) {
        m[name]
    } else {
        true
    }
}

impl View for Settings {
    type V = Map<Seq<char>, bool>;

    closed spec fn view(&self) -> Map<Seq<char>, bool> {
        entries_map(self.entries@)
    }
}

impl Settings {
    /// An empty map: no package has a recorded choice.
    pub fn new() -> (r: Self)
        ensures
            r@ == Map::<Seq<char>, bool>::empty(),
    {
        let r = Settings { entries: Vec::new() };
        proof {
            assert(r@ =~= Map::<Seq<char>, bool>::empty());
        }
        r
    }

    /// Records a choice for `name`, overriding any earlier one.
    pub fn insert(&mut self, name: String, enabled: bool)
        ensures
            final(self)@ == old(self)@.insert(name@, enabled),
    {
        let ghost oe = self.entries@;
        let ghost nv = name@;
        self.entries.push((name, enabled));
        proof {
            assert(self.entries@.drop_last() =~= oe);
            assert(self.entries@.last().0@ == nv);
        }
    }

    /// The recorded choice for `name`, if any.
    pub fn get(&self, name: &str) -> (r: Option<bool>)
        ensures
            r == map_get(self@, name@),
    {
        let n = self.entries.len();
        let mut i: usize = n;
        proof {
            assert(self.entries@.take(n as int) =~= self.entries@);
        }
        while i > 0
            invariant
                i <= n,
                n == self.entries@.len(),
                map_get(self@, name@) == map_get(
                    entries_map(self.entries@.take(i as int)),
                    name@,
                ),
            decreases i,
        {
            proof {
                assert(self.entries@.take(i as int).drop_last() =~= self.entries@.take(
                    i as int - 1,
                ));
                assert(self.entries@.take(i as int).last() == self.entries@[i as int - 1]);
            }
            if str_eq(self.entries[i - 1].0.as_str(), name) {
                return Some(self.entries[i - 1].1);
            }
            i = i - 1;
        }
        proof {
            assert(self.entries@.take(0) =~= Seq::<(String, bool)>::empty());
        }
        None
    }

    /// True when no package has a recorded choice.
    pub fn is_empty(&self) -> (r: bool)
        ensures
            r == (self@ == Map::<Seq<char>, bool>::empty()),
    {
        if self.entries.len() == 0 {
            proof {
                assert(self.entries@ =~= Seq::<(String, bool)>::empty());
                assert(self@ =~= Map::<Seq<char>, bool>::empty());
            }
            true
        } else {
            proof {
                assert(self@.contains_key(self.entries@.last().0@));
            }
            false
        }
    }

    /// True when some package is recorded as enabled.
    pub fn any_enabled(&self) -> (r: bool)
        ensures
            r == exists|k: Seq<char>| self@.contains_key(k) && self@[k],
    {
        let n = self.entries.len();
        let mut i: usize = 0;
        while i < n
            invariant
                i <= n,
                n == self.entries@.len(),
                forall|j: int|
                    0 <= j < i ==> map_get(self@, #[trigger] self.entries@[j].0@) != Some(true),
            decreases n - i,
        {
            match self.get(self.entries[i].0.as_str()) {
                Some(true) => {
                    proof {
                        let k = self.entries@[i as int].0@;
                        assert(self@.contains_key(k) && self@[k]);
                    }
                    return true;
                },
                _ => {},
            }
            i = i + 1;
        }
        proof {
            assert forall|k: Seq<char>| !(self@.contains_key(k) && self@[k]) by {
                if self@.contains_key(k) && self@[k] {
                    lemma_entries_map_key(self.entries@, k);
                    let j = choose|j: int| 0 <= j < self.entries@.len() && self.entries@[j].0@
                        == k;
                    assert(map_get(self@, self.entries@[j].0@) == Some(true));
                }
            }
        }
        false
    }
}

/// What one checklist line contributes: the trimmed name and the checkbox
/// state for a line of the form `- [x] <name>` or `- [ ] <name>` (after
/// trimming the line), nothing for any other line or for a blank name.
pub open spec fn spec_parse_entry(line: Seq<char>) -> Option<(Seq<char>, bool)> {
    let t = trim_spec(line);
    if starts_with_spec(t, "- [x] "@) {
        let name = trim_spec(t.skip(6));
        if name.len() == 0 {
            None
        } else {
            Some((name, true))
        }
    } else if starts_with_spec(t, "- [ ] "@) {
        let name = trim_spec(t.skip(6));
        if name.len() == 0 {
            None
        } else {
            Some((name, false))
        }
    } else {
        None
    }
}

/// Parses one checklist line into its name and checkbox state.
pub fn parse_checklist_entry(line: &str) -> (r: Option<(String, bool)>)
    ensures
        match r {
            Some(p) => spec_parse_entry(line@) == Some((p.0@, p.1)),
            None => spec_parse_entry(line@) is None,
        },
{
    proof {
        reveal_strlit("- [x] ");
        reveal_strlit("- [ ] ");
    }
    let t = trim(line);
    let tn = t.unicode_len();
    if str_starts_with(t, "- [x] ") {
        proof {
            assert(t@.subrange(6, tn as int) =~= t@.skip(6));
        }
        let name = trim(t.substring_char(6, tn));
        if name.unicode_len() == 0 {
            None
        } else {
            Some((String::from_str(name), true))
        }
    } else if str_starts_with(t, "- [ ] ") {
        proof {
            assert(t@.subrange(6, tn as int) =~= t@.skip(6));
        }
        let name = trim(t.substring_char(6, tn));
        if name.unicode_len() == 0 {
            None
        } else {
            Some((String::from_str(name), false))
        }
    } else {
        None
    }
}

/// The name a checklist line records, regardless of its checkbox state.
pub open spec fn spec_extract_name(line: Seq<char>) -> Option<Seq<char>> {
    match spec_parse_entry(line) {
        Some(p) => Some(p.0),
        None => None,
    }
}

/// The trimmed package name of a checklist entry line, if the line is one.
pub fn extract_package_name(line: &str) -> (r: Option<String>)
    ensures
        match r {
            Some(s) => spec_extract_name(line@) == Some(s@),
            None => spec_extract_name(line@) is None,
        },
{
    match parse_checklist_entry(line) {
        Some(p) => Some(p.0),
        None => None,
    }
}

/// How one line changes the enablement map while a document is read.
pub open spec fn apply_entry(m: Map<Seq<char>, bool>, line: Seq<char>) -> Map<Seq<char>, bool> {
    match spec_parse_entry(line) {
        Some(p) => m.insert(p.0, p.1),
        None => m,
    }
}

pub open spec fn apply_entries(m: Map<Seq<char>, bool>, lines: Seq<Seq<char>>) -> Map<
    Seq<char>,
    bool,
>
    decreases lines.len(),
{
    if lines.len() == 0 {
        m
    } else {
        apply_entries(apply_entry(m, lines[0]), lines.drop_first())
    }
}

/// The enablement map a checklist document describes: every entry line
/// inserts its choice, later lines winning; all other lines are ignored.
pub open spec fn spec_read_settings(content: Seq<char>) -> Map<Seq<char>, bool> {
    apply_entries(Map::empty(), line_split(content))
}

/// Reads a checklist document into the enablement map it records.
/// Unrecognized lines are ignored, and a repeated name keeps its last
/// occurrence.
pub fn read_existing_settings(content: &str) -> (r: Settings)
    ensures
        r@ == spec_read_settings(content@),
{
    let lines = split_lines(content);
    let mut settings = Settings::new();
    let ghost all = line_split(content@);
    let mut i: usize = 0;
    proof {
        assert(all.skip(0) =~= all);
    }
    while i < lines.len()
        invariant
            i <= lines@.len(),
            views(lines@) == all,
            all == line_split(content@),
            spec_read_settings(content@) == apply_entries(settings@, all.skip(i as int)),
        decreases lines@.len() - i,
    {
        let ghost pre = settings@;
        match parse_checklist_entry(lines[i].as_str()) {
            Some(p) => {
                let (name, enabled) = p;
                settings.insert(name, enabled);
            },
            None => {},
        }
        proof {
            assert(all.skip(i as int)[0] == all[i as int]);
            assert(all.skip(i as int).drop_first() =~= all.skip(i as int + 1));
            assert(lines@[i as int]@ == all[i as int]);
            assert(settings@ == apply_entry(pre, all[i as int]));
        }
        i = i + 1;
    }
    proof {
        assert(all.skip(lines@.len() as int) =~= Seq::<Seq<char>>::empty());
    }
    settings
}

/// How one line moves the section cursor and the two name lists while the
/// previous inventory is read: the two recognized headers select their
/// section, any other header deselects, and an entry line appends its name
/// to the selected section's list.
pub open spec fn rp_step(
    st: (Seq<Seq<char>>, Seq<Seq<char>>, Option<PackageType>),
    line: Seq<char>,
) -> (Seq<Seq<char>>, Seq<Seq<char>>, Option<PackageType>) {
    let t = trim_spec(line);
    if t == "## Formulae"@ {
        (st.0, st.1, Some(PackageType::Formula))
    } else if t == "## Casks"@ {
        (st.0, st.1, Some(PackageType::Cask))
    } else if starts_with_spec(t, "## "@) {
        (st.0, st.1, None)
    } else {
        match spec_extract_name(line) {
            Some(name) => match st.2 {
                Some(PackageType::Formula) => (st.0.push(name), st.1, st.2),
                Some(PackageType::Cask) => (st.0, st.1.push(name), st.2),
                None => st,
            },
            None => st,
        }
    }
}

pub open spec fn rp_fold(
    st: (Seq<Seq<char>>, Seq<Seq<char>>, Option<PackageType>),
    lines: Seq<Seq<char>>,
) -> (Seq<Seq<char>>, Seq<Seq<char>>, Option<PackageType>)
    decreases lines.len(),
{
    if lines.len() == 0 {
        st
    } else {
        rp_fold(rp_step(st, lines[0]), lines.drop_first())
    }
}

/// The formula and cask names a checklist document lists, in document
/// order, by section.
pub open spec fn spec_read_previous(content: Seq<char>) -> (Seq<Seq<char>>, Seq<Seq<char>>) {
    let st = rp_fold(
        (Seq::<Seq<char>>::empty(), Seq::<Seq<char>>::empty(), None),
        line_split(content),
    );
    (st.0, st.1)
}

/// Reads the names listed in a checklist document, in document order, one
/// list per section. Entry lines outside a recognized section are dropped.
pub fn read_previous_packages(content: &str) -> (r: (Vec<String>, Vec<String>))
    ensures
        views(r.0@) == spec_read_previous(content@).0,
        views(r.1@) == spec_read_previous(content@).1,
{
    proof {
        reveal_strlit("## ");
    }
    let lines = split_lines(content);
    let mut formulae: Vec<String> = Vec::new();
    let mut casks: Vec<String> = Vec::new();
    let mut cursor: Option<PackageType> = None;
    let ghost all = line_split(content@);
    let ghost init = (
        Seq::<Seq<char>>::empty(),
        Seq::<Seq<char>>::empty(),
        None::<PackageType>,
    );
    let mut i: usize = 0;
    proof {
        assert(all.skip(0) =~= all);
        assert(views(formulae@) =~= Seq::<Seq<char>>::empty());
        assert(views(casks@) =~= Seq::<Seq<char>>::empty());
    }
    while i < lines.len()
        invariant
            i <= lines@.len(),
            views(lines@) == all,
            all == line_split(content@),
            rp_fold(init, all) == rp_fold((views(formulae@), views(casks@), cursor), all.skip(
                i as int,
            )),
        decreases lines@.len() - i,
    {
        let ghost pre = (views(formulae@), views(casks@), cursor);
        let line = trim(lines[i].as_str());
        if str_eq(line, "## Formulae") {
            cursor = Some(PackageType::Formula);
        } else if str_eq(line, "## Casks") {
            cursor = Some(PackageType::Cask);
        } else if str_starts_with(line, "## ") {
            cursor = None;
        } else {
            match extract_package_name(lines[i].as_str()) {
                Some(name) => {
                    match cursor {
                        Some(PackageType::Formula) => {
                            let ghost of = formulae@;
                            formulae.push(name);
                            proof {
                                crate::text::lemma_views_push(of, formulae@.last());
                            }
                        },
                        Some(PackageType::Cask) => {
                            let ghost oc = casks@;
                            casks.push(name);
                            proof {
                                crate::text::lemma_views_push(oc, casks@.last());
                            }
                        },
                        None => {},
                    }
                },
                None => {},
            }
        }
        proof {
            assert(all.skip(i as int)[0] == all[i as int]);
            assert(all.skip(i as int).drop_first() =~= all.skip(i as int + 1));
            assert(lines@[i as int]@ == all[i as int]);
            assert((views(formulae@), views(casks@), cursor) == rp_step(pre, all[i as int]));
        }
        i = i + 1;
    }
    proof {
        assert(all.skip(lines@.len() as int) =~= Seq::<Seq<char>>::empty());
    }
    (formulae, casks)
}

/// One rendered checklist entry line, without its line break.
pub open spec fn spec_entry_line(name: Seq<char>, on: bool) -> Seq<char> {
    (if on {
        "- [x] "@
    } else {
        "- [ ] "@
    }) + name
}

/// The rendered entry lines for the given names, each with the checkbox
/// the default-enabled policy picks under `m`.
pub open spec fn entry_lines(names: Seq<Seq<char>>, m: Map<Seq<char>, bool>) -> Seq<Seq<char>> {
    names.map_values(|n: Seq<char>| spec_entry_line(n, spec_enabled(m, n)))
}

/// The title line, a blank, the generation line, and a blank.
pub open spec fn checklist_header_lines(ts: Seq<char>) -> Seq<Seq<char>> {
    seq![
        "# Brew Auto-Update Settings"@,
        Seq::<char>::empty(),
        "Generated on: "@ + ts,
        Seq::<char>::empty(),
    ]
}

/// The two sections: each header, a blank, and the sorted entry lines,
/// with a blank line before the casks header.
pub open spec fn checklist_body_lines(
    fs: Seq<Seq<char>>,
    cs: Seq<Seq<char>>,
    m: Map<Seq<char>, bool>,
) -> Seq<Seq<char>> {
    seq!["## Formulae"@, Seq::<char>::empty()] + entry_lines(fs, m) + seq![
        Seq::<char>::empty(),
        "## Casks"@,
        Seq::<char>::empty(),
    ] + entry_lines(cs, m)
}

/// The whole rendered checklist document: the header, the optional
/// statistics block verbatim, and the body with each section's names
/// sorted into the rendering order.
pub open spec fn spec_generate_checklist(
    f: Seq<Seq<char>>,
    c: Seq<Seq<char>>,
    m: Map<Seq<char>, bool>,
    stats: Option<Seq<char>>,
    ts: Seq<char>,
) -> Seq<char> {
    terminate_all(checklist_header_lines(ts)) + (match stats {
        Some(b) => b,
        None => Seq::<char>::empty(),
    }) + terminate_all(checklist_body_lines(f.sort_by(name_le()), c.sort_by(name_le()), m))
}

/// Appends the sorted entry lines of one section.
fn append_entry_lines(content: &mut String, sorted: &Vec<String>, settings: &Settings)
    ensures
        final(content)@ == old(content)@ + terminate_all(entry_lines(views(sorted@), settings@)),
{
    let n = sorted.len();
    let mut i: usize = 0;
    proof {
        assert(views(sorted@).take(0) =~= Seq::<Seq<char>>::empty());
        assert(old(content)@ + terminate_all(Seq::<Seq<char>>::empty()) =~= old(content)@);
    }
    while i < n
        invariant
            i <= n,
            n == sorted@.len(),
            content@ == old(content)@ + terminate_all(
                entry_lines(views(sorted@).take(i as int), settings@),
            ),
        decreases n - i,
    {
        let ghost pre = content@;
        let on = match settings.get(sorted[i].as_str()) {
            Some(b) => b,
            None => true,
        };
        if on {
            content.append("- [x] ");
        } else {
            content.append("- [ ] ");
        }
        content.append(sorted[i].as_str());
        content.append("\n");
        proof {
            reveal_strlit("\n");
            let nm = sorted@[i as int]@;
            let el = spec_entry_line(nm, spec_enabled(settings@, nm));
            assert("\n"@ =~= seq!['\n']);
            assert(content@ =~= pre + (el + seq!['\n']));
            let lines_pre = entry_lines(views(sorted@).take(i as int), settings@);
            let lines_post = entry_lines(views(sorted@).take(i as int + 1), settings@);
            assert(lines_post =~= lines_pre + seq![el]);
            lemma_terminate_all_concat(lines_pre, seq![el]);
            lemma_terminate_all_single(el);
            vstd::seq_lib::lemma_concat_associative(
                old(content)@,
                terminate_all(lines_pre),
                el + seq!['\n'],
            );
        }
        i = i + 1;
    }
    proof {
        assert(views(sorted@).take(n as int) =~= views(sorted@));
    }
}

/// Renders the checklist document for the given inventory and choices at
/// the given timestamp. Every name from the inventory appears exactly
/// once in its section, sorted, with `[x]` unless the settings disable
/// it; prior choices survive and names no longer present are left out.
#[verifier::rlimit(100)]
pub fn generate_settings_content_at(
    timestamp: &str,
    formulae: &Vec<String>,
    casks: &Vec<String>,
    existing_settings: &Settings,
    stats: Option<&PackageStats>,
) -> (r: String)
    ensures
        r@ == spec_generate_checklist(
            views(formulae@),
            views(casks@),
            existing_settings@,
            match stats {
                Some(st) => Some(spec_stats_markdown(*st)),
                None => None,
            },
            timestamp@,
        ),
{
    let mut content = String::from_str("# Brew Auto-Update Settings");
    content.append("\n");
    content.append("\n");
    content.append("Generated on: ");
    content.append(timestamp);
    content.append("\n");
    content.append("\n");
    proof {
        reveal_strlit("\n");
        assert("\n"@ =~= seq!['\n']);
        reveal_with_fuel(terminate_all, 6);
        assert(content@ =~= terminate_all(checklist_header_lines(timestamp@)));
    }
    let ghost m0 = content@;
    match stats {
        Some(st) => {
            content.append(st.format_as_markdown().as_str());
        },
        None => {
            proof {
                assert(m0 + Seq::<char>::empty() =~= m0);
            }
        },
    }
    proof {
        assert(content@ == m0 + (match stats {
            Some(st) => spec_stats_markdown(*st),
            None => Seq::<char>::empty(),
        }));
    }
    let ghost m1 = content@;
    content.append("## Formulae");
    content.append("\n");
    content.append("\n");
    proof {
        reveal_strlit("\n");
        assert("\n"@ =~= seq!['\n']);
        reveal_with_fuel(terminate_all, 4);
        assert(content@ =~= m1 + terminate_all(seq!["## Formulae"@, Seq::<char>::empty()]));
    }
    let ghost m2 = content@;
    let sorted_formulae = sort_strings(formulae);
    append_entry_lines(&mut content, &sorted_formulae, existing_settings);
    let ghost m3 = content@;
    content.append("\n");
    content.append("## Casks");
    content.append("\n");
    content.append("\n");
    proof {
        reveal_strlit("\n");
        assert("\n"@ =~= seq!['\n']);
        reveal_with_fuel(terminate_all, 5);
        assert(content@ =~= m3 + terminate_all(
            seq![Seq::<char>::empty(), "## Casks"@, Seq::<char>::empty()],
        ));
    }
    let ghost m4 = content@;
    let sorted_casks = sort_strings(casks);
    append_entry_lines(&mut content, &sorted_casks, existing_settings);
    proof {
        crate::text::lemma_name_le_total_ordering();
        let m = existing_settings@;
        let fs = views(formulae@).sort_by(name_le());
        let cs = views(casks@).sort_by(name_le());
        let a = seq!["## Formulae"@, Seq::<char>::empty()];
        let ef = entry_lines(fs, m);
        let b = seq![Seq::<char>::empty(), "## Casks"@, Seq::<char>::empty()];
        let ec = entry_lines(cs, m);
        assert(views(sorted_formulae@) == fs);
        assert(views(sorted_casks@) == cs);
        lemma_terminate_all_concat(b, ec);
        lemma_terminate_all_concat(ef, b + ec);
        lemma_terminate_all_concat(a, ef + (b + ec));
        assert(checklist_body_lines(fs, cs, m) =~= a + (ef + (b + ec)));
        let ta = terminate_all(a);
        let te = terminate_all(ef);
        let tb = terminate_all(b);
        let tc = terminate_all(ec);
        assert(terminate_all(checklist_body_lines(fs, cs, m)) == ta + (te + (tb + tc)));
        vstd::seq_lib::lemma_concat_associative(m1, ta, te + (tb + tc));
        vstd::seq_lib::lemma_concat_associative(m1 + ta, te, tb + tc);
        vstd::seq_lib::lemma_concat_associative(m1 + ta + te, tb, tc);
        assert(content@ == m1 + terminate_all(checklist_body_lines(fs, cs, m)));
    }
    content
}

/// Relies on chrono's `Utc::now` and `DateTime::format` with the fixed
/// pattern `%Y-%m-%d %H:%M:%S UTC`: the rendering consists of digits,
/// spaces, hyphens, colons and the literal `UTC`, so it never holds a
/// line break.
#[verifier::external_body]
fn current_timestamp() -> (r: String)
    ensures
        !r@.contains('\n'),
{
    chrono::Utc::now().format("%Y-%m-%d %H:%M:%S UTC").to_string()
}

/// Renders the checklist document at the present moment: the output is
/// `generate_settings_content_at` for some break-free timestamp, the only
/// part of the document that varies between two runs on the same inputs.
pub fn generate_settings_content(
    formulae: &Vec<String>,
    casks: &Vec<String>,
    existing_settings: &Settings,
    stats: Option<&PackageStats>,
) -> (r: String)
    ensures
        exists|ts: Seq<char>|
            !ts.contains('\n') && r@ == spec_generate_checklist(
                views(formulae@),
                views(casks@),
                existing_settings@,
                match stats {
                    Some(st) => Some(spec_stats_markdown(*st)),
                    None => None,
                },
                ts,
            ),
{
    let ts = current_timestamp();
    let r = generate_settings_content_at(ts.as_str(), formulae, casks, existing_settings, stats);
    proof {
        let tsv = ts@;
        assert(!tsv.contains('\n') && r@ == spec_generate_checklist(
            views(formulae@),
            views(casks@),
            existing_settings@,
            match stats {
                Some(st) => Some(spec_stats_markdown(*st)),
                None => None,
            },
            tsv,
        ));
    }
    r
}

} // verus!
