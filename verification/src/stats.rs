//! Summary statistics over the package inventory: totals, enablement
//! counts, outdated counts, and the changes since the previous dump.

use vstd::prelude::*;
use vstd::string::StringExecFns;

use crate::brew::BrewError;
use crate::brew::BrewExecutor;
use crate::brew::OutdatedPackage;
use crate::config::Settings;
use crate::config::spec_enabled;
use crate::text::contains_string;
use crate::text::contains_string_upto;
use crate::text::dec_str;
use crate::text::dec_string;
use crate::text::views;

verus! {

/// Collected counts and system details rendered into the checklist's
/// statistics block.
#[derive(Debug)]
pub struct PackageStats {
    pub total_formulae: usize,
    pub total_casks: usize,
    pub total_packages: usize,
    pub enabled_formulae: usize,
    pub enabled_casks: usize,
    pub disabled_formulae: usize,
    pub disabled_casks: usize,
    pub outdated_formulae: usize,
    pub outdated_casks: usize,
    pub total_outdated: usize,
    pub homebrew_version: String,
    pub system_info: SystemInfo,
    pub changes: PackageChanges,
}

/// Details of the machine the package manager runs on.
#[derive(Debug)]
pub struct SystemInfo {
    pub os_version: String,
    pub architecture: String,
    pub homebrew_prefix: String,
}

impl Clone for SystemInfo {
    fn clone(&self) -> (r: Self)
        ensures
            r == *self,
    {
        SystemInfo {
            os_version: self.os_version.clone(),
            architecture: self.architecture.clone(),
            homebrew_prefix: self.homebrew_prefix.clone(),
        }
    }
}

/// How many names were added to and removed from each section since the
/// previous dump.
#[derive(Debug, Clone, Copy)]
pub struct PackageChanges {
    pub added_formulae: usize,
    pub removed_formulae: usize,
    pub added_casks: usize,
    pub removed_casks: usize,
}

impl PackageChanges {
    /// True when any count is nonzero, which decides whether the changes
    /// line is rendered at all.
    pub fn has_changes(&self) -> (r: bool)
        ensures
            r == (self.added_formulae > 0 || self.removed_formulae > 0 || self.added_casks > 0
                || self.removed_casks > 0),
    {
        self.added_formulae > 0 || self.removed_formulae > 0 || self.added_casks > 0
            || self.removed_casks > 0
    }
}

/// How many of the given names the default-enabled policy counts as
/// enabled under `m`.
pub open spec fn count_enabled(names: Seq<Seq<char>>, m: Map<Seq<char>, bool>) -> nat
    decreases names.len(),
{
    if names.len() == 0 {
        0
    } else {
        count_enabled(names.drop_last(), m) + if spec_enabled(m, names.last()) {
            1nat
        } else {
            0nat
        }
    }
}

/// Counts how many of the packages are enabled and how many disabled,
/// with absent names counting as enabled.
pub fn count_enabled_disabled(packages: &Vec<String>, settings: &Settings) -> (r: (usize, usize))
    ensures
        r.0 == count_enabled(views(packages@), settings@),
        r.0 + r.1 == packages@.len(),
{
    let n = packages.len();
    let mut enabled: usize = 0;
    let mut i: usize = 0;
    proof {
        assert(views(packages@).take(0) =~= Seq::<Seq<char>>::empty());
    }
    while i < n
        invariant
            i <= n,
            n == packages@.len(),
            enabled <= i,
            enabled == count_enabled(views(packages@).take(i as int), settings@),
        decreases n - i,
    {
        let on = match settings.get(packages[i].as_str()) {
            Some(b) => b,
            None => true,
        };
        proof {
            assert(views(packages@).take(i as int + 1).drop_last() =~= views(packages@).take(
                i as int,
            ));
            assert(views(packages@).take(i as int + 1).last() == packages@[i as int]@);
        }
        if on {
            enabled = enabled + 1;
        }
        i = i + 1;
    }
    proof {
        assert(views(packages@).take(n as int) =~= views(packages@));
    }
    (enabled, n - enabled)
}

/// How many distinct names of `xs` are absent from `ys`: each missing
/// name counts once, at its first occurrence.
pub open spec fn count_missing(xs: Seq<Seq<char>>, ys: Seq<Seq<char>>) -> nat
    decreases xs.len(),
{
    if xs.len() == 0 {
        0
    } else {
        count_missing(xs.drop_last(), ys) + if ys.contains(xs.last()) || xs.drop_last().contains(
            xs.last(),
        ) {
            0nat
        } else {
            1nat
        }
    }
}

/// The count above is the size of the name-set difference.
pub proof fn lemma_count_missing_is_set_difference(xs: Seq<Seq<char>>, ys: Seq<Seq<char>>)
    ensures
        count_missing(xs, ys) == xs.to_set().difference(ys.to_set()).len(),
    decreases xs.len(),
{
    broadcast use vstd::set::group_set_axioms;
    broadcast use vstd::seq_lib::seq_to_set_is_finite;

    if xs.len() == 0 {
        assert(xs.to_set().difference(ys.to_set()) =~= Set::<Seq<char>>::empty());
    } else {
        let dl = xs.drop_last();
        let x = xs.last();
        lemma_count_missing_is_set_difference(dl, ys);
        assert forall|a: Seq<char>| #[trigger] xs.contains(a) implies dl.contains(a) || a == x by {
            let i = choose|i: int| 0 <= i < xs.len() && xs[i] == a;
            if i < xs.len() - 1 {
                assert(dl[i] == a);
            }
        }
        assert forall|a: Seq<char>| dl.contains(a) implies #[trigger] xs.contains(a) by {
            let i = choose|i: int| 0 <= i < dl.len() && dl[i] == a;
            assert(xs[i] == a);
        }
        assert(xs.contains(x));
        assert(xs.to_set() =~= dl.to_set().insert(x));
        let d = xs.to_set().difference(ys.to_set());
        let d0 = dl.to_set().difference(ys.to_set());
        if ys.contains(x) || dl.contains(x) {
            assert(d =~= d0);
        } else {
            assert(d =~= d0.insert(x));
            assert(!d0.contains(x));
            assert(d0.finite());
            assert(d.len() == d0.len() + 1);
        }
    }
}

fn count_not_in(xs: &Vec<String>, ys: &Vec<String>) -> (r: usize)
    ensures
        r == views(xs@).to_set().difference(views(ys@).to_set()).len(),
        r <= xs@.len(),
{
    let n = xs.len();
    let mut count: usize = 0;
    let mut i: usize = 0;
    proof {
        assert(views(xs@).take(0) =~= Seq::<Seq<char>>::empty());
    }
    while i < n
        invariant
            i <= n,
            n == xs@.len(),
            count <= i,
            count == count_missing(views(xs@).take(i as int), views(ys@)),
        decreases n - i,
    {
        let present = contains_string(ys, &xs[i]);
        let seen = contains_string_upto(xs, i, &xs[i]);
        proof {
            assert(views(xs@).take(i as int + 1).drop_last() =~= views(xs@).take(i as int));
            assert(views(xs@).take(i as int + 1).last() == xs@[i as int]@);
        }
        if !present && !seen {
            count = count + 1;
        }
        i = i + 1;
    }
    proof {
        assert(views(xs@).take(n as int) =~= views(xs@));
        lemma_count_missing_is_set_difference(views(xs@), views(ys@));
    }
    count
}

/// Computes the added and removed counts per section by name-set
/// difference against the previous inventory (each name counts once,
/// however often it is listed); a section without a previous list
/// reports zero for both.
pub fn calculate_package_changes(
    current_formulae: &Vec<String>,
    current_casks: &Vec<String>,
    previous_formulae: Option<&Vec<String>>,
    previous_casks: Option<&Vec<String>>,
) -> (r: PackageChanges)
    ensures
        r.added_formulae == match previous_formulae {
            Some(p) => views(current_formulae@).to_set().difference(views(p@).to_set()).len(),
            None => 0nat,
        },
        r.removed_formulae == match previous_formulae {
            Some(p) => views(p@).to_set().difference(views(current_formulae@).to_set()).len(),
            None => 0nat,
        },
        r.added_casks == match previous_casks {
            Some(p) => views(current_casks@).to_set().difference(views(p@).to_set()).len(),
            None => 0nat,
        },
        r.removed_casks == match previous_casks {
            Some(p) => views(p@).to_set().difference(views(current_casks@).to_set()).len(),
            None => 0nat,
        },
{
    let mut changes = PackageChanges {
        added_formulae: 0,
        removed_formulae: 0,
        added_casks: 0,
        removed_casks: 0,
    };
    match previous_formulae {
        Some(prev) => {
            changes.added_formulae = count_not_in(current_formulae, prev);
            changes.removed_formulae = count_not_in(prev, current_formulae);
        },
        None => {},
    }
    match previous_casks {
        Some(prev) => {
            changes.added_casks = count_not_in(current_casks, prev);
            changes.removed_casks = count_not_in(prev, current_casks);
        },
        None => {},
    }
    changes
}

/// How many of the listed outdated packages are formulae.
pub open spec fn count_formulae(pkgs: Seq<OutdatedPackage>) -> nat
    decreases pkgs.len(),
{
    if pkgs.len() == 0 {
        0
    } else {
        count_formulae(pkgs.drop_last()) + if pkgs.last()@.package_type is Formula {
            1nat
        } else {
            0nat
        }
    }
}

/// How many of the listed outdated packages are casks.
pub open spec fn count_casks(pkgs: Seq<OutdatedPackage>) -> nat
    decreases pkgs.len(),
{
    if pkgs.len() == 0 {
        0
    } else {
        count_casks(pkgs.drop_last()) + if pkgs.last()@.package_type is Cask {
            1nat
        } else {
            0nat
        }
    }
}

/// Counts the outdated packages of each kind; every package is one or the
/// other, so the two counts partition the listing.
pub fn count_outdated_by_kind(pkgs: &Vec<OutdatedPackage>) -> (r: (usize, usize))
    ensures
        r.0 == count_formulae(pkgs@),
        r.1 == count_casks(pkgs@),
        r.0 + r.1 == pkgs@.len(),
{
    let n = pkgs.len();
    let mut formulae: usize = 0;
    let mut casks: usize = 0;
    let mut i: usize = 0;
    proof {
        assert(pkgs@.take(0) =~= Seq::<OutdatedPackage>::empty());
    }
    while i < n
        invariant
            i <= n,
            n == pkgs@.len(),
            formulae + casks == i,
            formulae == count_formulae(pkgs@.take(i as int)),
            casks == count_casks(pkgs@.take(i as int)),
        decreases n - i,
    {
        proof {
            assert(pkgs@.take(i as int + 1).drop_last() =~= pkgs@.take(i as int));
            assert(pkgs@.take(i as int + 1).last() == pkgs@[i as int]);
        }
        match pkgs[i].package_type {
            crate::brew::PackageType::Formula => {
                formulae = formulae + 1;
            },
            crate::brew::PackageType::Cask => {
                casks = casks + 1;
            },
        }
        i = i + 1;
    }
    proof {
        assert(pkgs@.take(n as int) =~= pkgs@);
    }
    (formulae, casks)
}

/// Appends one counts line of the statistics block.
fn append_counts_line(s: &mut String, label: &str, total: u128, f: u128, c: u128)
    ensures
        final(s)@ == old(s)@ + stats_counts_line(label@, total as nat, f as nat, c as nat),
{
    s.append(label);
    s.append(dec_string(total).as_str());
    s.append(" (");
    s.append(dec_string(f).as_str());
    s.append(" formulae, ");
    s.append(dec_string(c).as_str());
    s.append(" casks)\n");
    proof {
        assert(s@ =~= old(s)@ + stats_counts_line(label@, total as nat, f as nat, c as nat));
    }
}

/// Appends the four system-detail lines of the statistics block.
fn append_system_lines(s: &mut String, st: &PackageStats)
    ensures
        final(s)@ == old(s)@ + stats_system_lines(*st),
{
    s.append("- **Homebrew Version**: ");
    s.append(st.homebrew_version.as_str());
    s.append("\n");
    s.append("- **System**: ");
    s.append(st.system_info.os_version.as_str());
    s.append("\n");
    s.append("- **Architecture**: ");
    s.append(st.system_info.architecture.as_str());
    s.append("\n");
    s.append("- **Homebrew Prefix**: ");
    s.append(st.system_info.homebrew_prefix.as_str());
    s.append("\n");
    proof {
        assert(s@ =~= old(s)@ + stats_system_lines(*st));
    }
}

/// Appends the change-counts line, or nothing when nothing changed.
#[verifier::rlimit(60)]
fn append_changes_line(s: &mut String, c: &PackageChanges)
    ensures
        final(s)@ == old(s)@ + spec_changes_line(*c),
{
    if c.has_changes() {
        s.append("- **Changes Since Last Dump**:");
        let ghost c0 = s@;
        if c.added_formulae > 0 {
            s.append(" +");
            s.append(dec_string(c.added_formulae as u128).as_str());
            s.append(" formulae");
            proof {
                assert(s@ =~= c0 + change_item(c.added_formulae as nat, " +"@, " formulae"@));
            }
        } else {
            proof {
                assert(c0 + change_item(c.added_formulae as nat, " +"@, " formulae"@) =~= c0);
            }
        }
        let ghost c1 = s@;
        if c.removed_formulae > 0 {
            s.append(" -");
            s.append(dec_string(c.removed_formulae as u128).as_str());
            s.append(" formulae");
            proof {
                assert(s@ =~= c1 + change_item(c.removed_formulae as nat, " -"@, " formulae"@));
            }
        } else {
            proof {
                assert(c1 + change_item(c.removed_formulae as nat, " -"@, " formulae"@) =~= c1);
            }
        }
        let ghost c2 = s@;
        if c.added_casks > 0 {
            s.append(" +");
            s.append(dec_string(c.added_casks as u128).as_str());
            s.append(" casks");
            proof {
                assert(s@ =~= c2 + change_item(c.added_casks as nat, " +"@, " casks"@));
            }
        } else {
            proof {
                assert(c2 + change_item(c.added_casks as nat, " +"@, " casks"@) =~= c2);
            }
        }
        let ghost c3 = s@;
        if c.removed_casks > 0 {
            s.append(" -");
            s.append(dec_string(c.removed_casks as u128).as_str());
            s.append(" casks");
            proof {
                assert(s@ =~= c3 + change_item(c.removed_casks as nat, " -"@, " casks"@));
            }
        } else {
            proof {
                assert(c3 + change_item(c.removed_casks as nat, " -"@, " casks"@) =~= c3);
            }
        }
        s.append("\n");
        proof {
            let o = old(s)@;
            let hdr = "- **Changes Since Last Dump**:"@;
            let i1 = change_item(c.added_formulae as nat, " +"@, " formulae"@);
            let i2 = change_item(c.removed_formulae as nat, " -"@, " formulae"@);
            let i3 = change_item(c.added_casks as nat, " +"@, " casks"@);
            let i4 = change_item(c.removed_casks as nat, " -"@, " casks"@);
            let nl = "\n"@;
            vstd::seq_lib::lemma_concat_associative(o, hdr, i1);
            vstd::seq_lib::lemma_concat_associative(o, hdr + i1, i2);
            vstd::seq_lib::lemma_concat_associative(o, hdr + i1 + i2, i3);
            vstd::seq_lib::lemma_concat_associative(o, hdr + i1 + i2 + i3, i4);
            vstd::seq_lib::lemma_concat_associative(o, hdr + i1 + i2 + i3 + i4, nl);
            assert(s@ == o + spec_changes_line(*c));
        }
    } else {
        proof {
            assert(old(s)@ + spec_changes_line(*c) =~= old(s)@);
        }
    }
}

impl PackageStats {
    /// Gathers the statistics for the given inventory: the totals and
    /// enablement counts over the current names, the outdated counts
    /// reported by the executor (an executor failure counts as none
    /// outdated), the manager's version and system details, and the
    /// changes against the previous inventory. Fails only when the
    /// executor cannot report its version or system details.
    pub fn collect<E: BrewExecutor>(
        executor: &E,
        current_formulae: &Vec<String>,
        current_casks: &Vec<String>,
        existing_settings: &Settings,
        previous_formulae: Option<&Vec<String>>,
        previous_casks: Option<&Vec<String>>,
    ) -> (r: Result<PackageStats, BrewError>)
        requires
            current_formulae@.len() + current_casks@.len() <= usize::MAX,
        ensures
            match r {
                Ok(stats) => {
                    &&& stats.total_formulae == current_formulae@.len()
                    &&& stats.total_casks == current_casks@.len()
                    &&& stats.total_packages == current_formulae@.len() + current_casks@.len()
                    &&& stats.enabled_formulae == count_enabled(
                        views(current_formulae@),
                        existing_settings@,
                    )
                    &&& stats.enabled_formulae + stats.disabled_formulae
                        == current_formulae@.len()
                    &&& stats.enabled_casks == count_enabled(
                        views(current_casks@),
                        existing_settings@,
                    )
                    &&& stats.enabled_casks + stats.disabled_casks == current_casks@.len()
                    &&& stats.total_outdated == stats.outdated_formulae + stats.outdated_casks
                    &&& stats.changes.added_formulae == match previous_formulae {
                        Some(p) => views(current_formulae@).to_set().difference(views(p@).to_set()).len(),
                        None => 0nat,
                    }
                    &&& stats.changes.removed_formulae == match previous_formulae {
                        Some(p) => views(p@).to_set().difference(views(current_formulae@).to_set()).len(),
                        None => 0nat,
                    }
                    &&& stats.changes.added_casks == match previous_casks {
                        Some(p) => views(current_casks@).to_set().difference(views(p@).to_set()).len(),
                        None => 0nat,
                    }
                    &&& stats.changes.removed_casks == match previous_casks {
                        Some(p) => views(p@).to_set().difference(views(current_casks@).to_set()).len(),
                        None => 0nat,
                    }
                },
                Err(_) => true,
            },
    {
        let total_formulae = current_formulae.len();
        let total_casks = current_casks.len();
        let total_packages = total_formulae + total_casks;

        let (enabled_formulae, disabled_formulae) = count_enabled_disabled(
            current_formulae,
            existing_settings,
        );
        let (enabled_casks, disabled_casks) = count_enabled_disabled(
            current_casks,
            existing_settings,
        );

        let outdated_packages = match executor.get_outdated_packages() {
            Ok(pkgs) => pkgs,
            Err(_) => Vec::new(),
        };
        let (outdated_formulae, outdated_casks) = count_outdated_by_kind(&outdated_packages);
        let total_outdated = outdated_formulae + outdated_casks;

        let homebrew_version = match executor.get_version() {
            Ok(v) => v,
            Err(e) => {
                return Err(e);
            },
        };
        let system_info = match executor.get_system_info() {
            Ok(info) => info,
            Err(e) => {
                return Err(e);
            },
        };

        let changes = calculate_package_changes(
            current_formulae,
            current_casks,
            previous_formulae,
            previous_casks,
        );

        Ok(
            PackageStats {
                total_formulae,
                total_casks,
                total_packages,
                enabled_formulae,
                enabled_casks,
                disabled_formulae,
                disabled_casks,
                outdated_formulae,
                outdated_casks,
                total_outdated,
                homebrew_version,
                system_info,
                changes,
            },
        )
    }

    /// The statistics block of the checklist document, exactly as
    /// rendered: the counts, the system details, and, when anything
    /// changed since the last dump, one line of change counts. Ends with
    /// a blank line so the next section stands apart.
    #[verifier::rlimit(100)]
    pub fn format_as_markdown(&self) -> (r: String)
        ensures
            r@ == spec_stats_markdown(*self),
    {
        let mut s = String::from_str("## Statistics\n\n");
        append_counts_line(
            &mut s,
            "- **Total Packages**: ",
            self.total_packages as u128,
            self.total_formulae as u128,
            self.total_casks as u128,
        );
        proof {
            assert(s@ == stats_head(*self));
        }
        let ghost m1 = s@;
        if self.enabled_formulae > 0 || self.enabled_casks > 0 {
            append_counts_line(
                &mut s,
                "- **Enabled for Auto-Update**: ",
                (self.enabled_formulae as u128) + (self.enabled_casks as u128),
                self.enabled_formulae as u128,
                self.enabled_casks as u128,
            );
        } else {
            proof {
                assert(m1 + stats_enabled_line(*self) =~= m1);
            }
        }
        proof {
            assert(s@ == m1 + stats_enabled_line(*self));
        }
        let ghost m2 = s@;
        if self.disabled_formulae > 0 || self.disabled_casks > 0 {
            append_counts_line(
                &mut s,
                "- **Disabled for Auto-Update**: ",
                (self.disabled_formulae as u128) + (self.disabled_casks as u128),
                self.disabled_formulae as u128,
                self.disabled_casks as u128,
            );
        } else {
            proof {
                assert(m2 + stats_disabled_line(*self) =~= m2);
            }
        }
        proof {
            assert(s@ == m2 + stats_disabled_line(*self));
        }
        let ghost m3 = s@;
        if self.total_outdated > 0 {
            append_counts_line(
                &mut s,
                "- **Outdated Packages**: ",
                self.total_outdated as u128,
                self.outdated_formulae as u128,
                self.outdated_casks as u128,
            );
        } else {
            s.append("- **Outdated Packages**: All packages up to date! \u{1f389}\n");
        }
        proof {
            assert(s@ == m3 + stats_outdated_line(*self));
        }
        append_system_lines(&mut s, self);
        append_changes_line(&mut s, &self.changes);
        s.append("\n");
        proof {
            assert(s@ == spec_stats_markdown(*self));
        }
        s
    }
}

/// One counts line of the statistics block: a label, a total, and the
/// per-kind breakdown.
pub open spec fn stats_counts_line(label: Seq<char>, total: nat, f: nat, c: nat) -> Seq<char> {
    label + dec_str(total) + " ("@ + dec_str(f) + " formulae, "@ + dec_str(c) + " casks)\n"@
}

/// The opening of the block: its header and the total-packages line.
pub open spec fn stats_head(st: PackageStats) -> Seq<char> {
    "## Statistics\n\n"@ + stats_counts_line(
        "- **Total Packages**: "@,
        st.total_packages as nat,
        st.total_formulae as nat,
        st.total_casks as nat,
    )
}

/// The enabled-counts line, present only when something is enabled.
pub open spec fn stats_enabled_line(st: PackageStats) -> Seq<char> {
    if st.enabled_formulae > 0 || st.enabled_casks > 0 {
        stats_counts_line(
            "- **Enabled for Auto-Update**: "@,
            (st.enabled_formulae + st.enabled_casks) as nat,
            st.enabled_formulae as nat,
            st.enabled_casks as nat,
        )
    } else {
        Seq::<char>::empty()
    }
}

/// The disabled-counts line, present only when something is disabled.
pub open spec fn stats_disabled_line(st: PackageStats) -> Seq<char> {
    if st.disabled_formulae > 0 || st.disabled_casks > 0 {
        stats_counts_line(
            "- **Disabled for Auto-Update**: "@,
            (st.disabled_formulae + st.disabled_casks) as nat,
            st.disabled_formulae as nat,
            st.disabled_casks as nat,
        )
    } else {
        Seq::<char>::empty()
    }
}

/// The outdated-counts line, or the all-up-to-date line.
pub open spec fn stats_outdated_line(st: PackageStats) -> Seq<char> {
    if st.total_outdated > 0 {
        stats_counts_line(
            "- **Outdated Packages**: "@,
            st.total_outdated as nat,
            st.outdated_formulae as nat,
            st.outdated_casks as nat,
        )
    } else {
        "- **Outdated Packages**: All packages up to date! \u{1f389}\n"@
    }
}

/// The four lines naming the manager version and the system details.
pub open spec fn stats_system_lines(st: PackageStats) -> Seq<char> {
    "- **Homebrew Version**: "@ + st.homebrew_version@ + "\n"@ + "- **System**: "@
        + st.system_info.os_version@ + "\n"@ + "- **Architecture**: "@
        + st.system_info.architecture@ + "\n"@ + "- **Homebrew Prefix**: "@
        + st.system_info.homebrew_prefix@ + "\n"@
}

/// One item of the change-counts line, empty when its count is zero.
pub open spec fn change_item(count: nat, sign: Seq<char>, noun: Seq<char>) -> Seq<char> {
    if count > 0 {
        sign + dec_str(count) + noun
    } else {
        Seq::<char>::empty()
    }
}

/// The change-counts line of the statistics block, empty when nothing
/// changed.
pub open spec fn spec_changes_line(c: PackageChanges) -> Seq<char> {
    if c.added_formulae > 0 || c.removed_formulae > 0 || c.added_casks > 0 || c.removed_casks
        > 0 {
        "- **Changes Since Last Dump**:"@ + change_item(c.added_formulae as nat, " +"@, " formulae"@)
            + change_item(c.removed_formulae as nat, " -"@, " formulae"@) + change_item(
            c.added_casks as nat,
            " +"@,
            " casks"@,
        ) + change_item(c.removed_casks as nat, " -"@, " casks"@) + "\n"@
    } else {
        Seq::<char>::empty()
    }
}

/// The statistics block exactly as rendered into the checklist document.
pub open spec fn spec_stats_markdown(st: PackageStats) -> Seq<char> {
    stats_head(st) + stats_enabled_line(st) + stats_disabled_line(st) + stats_outdated_line(st)
        + stats_system_lines(st) + spec_changes_line(st.changes) + "\n"@
}

} // verus!
