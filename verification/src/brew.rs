//! The package-manager side of the library: the record describing one
//! outdated package, the parser for the manager's verbose outdated listing,
//! the capability trait through which the manager is reached, and a
//! fixed-data stand-in used by tests.

use vstd::prelude::*;
use vstd::string::StrSliceExecFns;
use vstd::string::StringExecFns;

use crate::stats::SystemInfo;
use crate::text::find_sub;
use crate::text::find_substr;
use crate::text::line_split;
use crate::text::match_at;
use crate::text::split_lines;
use crate::text::trim;
use crate::text::trim_spec;
use crate::text::views;

verus! {

/// Whether a package is a command-line formula or a GUI cask.
#[derive(Debug, Clone, Copy)]
pub enum PackageType {
    Formula,
    Cask,
}

/// One parsed line of the manager's outdated listing.
#[derive(Debug)]
pub struct OutdatedPackage {
    pub name: String,
    pub current_version: String,
    pub available_version: String,
    pub package_type: PackageType,
}

/// The mathematical content of an [`OutdatedPackage`].
pub struct PackageView {
    pub name: Seq<char>,
    pub current_version: Seq<char>,
    pub available_version: Seq<char>,
    pub package_type: PackageType,
}

impl View for OutdatedPackage {
    type V = PackageView;

    open spec fn view(&self) -> PackageView {
        PackageView {
            name: self.name@,
            current_version: self.current_version@,
            available_version: self.available_version@,
            package_type: self.package_type,
        }
    }
}

impl Clone for OutdatedPackage {
    fn clone(&self) -> (r: Self)
        ensures
            r == *self,
    {
        OutdatedPackage {
            name: self.name.clone(),
            current_version: self.current_version.clone(),
            available_version: self.available_version.clone(),
            package_type: self.package_type,
        }
    }
}

/// An error reported by the package manager or by a command around it.
#[derive(Debug)]
pub struct BrewError {
    pub message: String,
}

/// The capability set through which commands reach the package manager.
/// The real executor lives outside the library; tests use
/// [`MockBrewExecutor`].
pub trait BrewExecutor {
    fn verify_installation(&self) -> Result<(), BrewError>;

    fn get_manually_installed_formulae(&self) -> Result<Vec<String>, BrewError>;

    fn get_manually_installed_casks(&self) -> Result<Vec<String>, BrewError>;

    fn get_outdated_packages(&self) -> Result<Vec<OutdatedPackage>, BrewError>;

    fn upgrade_package(&self, package: &OutdatedPackage) -> Result<(), BrewError>;

    fn get_version(&self) -> Result<String, BrewError>;

    fn get_system_info(&self) -> Result<SystemInfo, BrewError>;
}

/// What `parse_outdated_line` yields on a given line: the name is the
/// trimmed text before the first `" ("`, the current version the text from
/// there to the first `") "`, and the available version the trimmed text
/// after the first space of the trimmed remainder, whose leading token (the
/// comparison operator) is discarded. A line without these delimiters
/// yields nothing.
pub open spec fn spec_parse_outdated_line(line: Seq<char>, package_type: PackageType) -> Option<
    PackageView,
> {
    match find_sub(line, " ("@) {
        None => None,
        Some(p) => {
            let name = trim_spec(line.take(p));
            let rest = line.skip(p + 2);
            match find_sub(rest, ") "@) {
                None => None,
                Some(q) => {
                    let current = rest.take(q);
                    let rem = trim_spec(rest.skip(q + 2));
                    match find_sub(rem, " "@) {
                        None => None,
                        Some(sp) => Some(
                            PackageView {
                                name,
                                current_version: current,
                                available_version: trim_spec(rem.skip(sp + 1)),
                                package_type,
                            },
                        ),
                    }
                },
            }
        },
    }
}

/// A successful search yields a real match at or after the start position.
pub proof fn lemma_find_from_some(s: Seq<char>, p: Seq<char>, i: int, k: int)
    requires
        0 <= i,
        crate::text::find_from(s, p, i) == Some(k),
    ensures
        i <= k,
        match_at(s, p, k),
    decreases s.len() - i + 1,
{
    if !(i + p.len() > s.len()) && !match_at(s, p, i) {
        lemma_find_from_some(s, p, i + 1, k);
    }
}

/// Parses one line of the manager's verbose outdated listing, such as
/// `git (2.40.0) < 2.41.0`, into a record of the given kind.
pub fn parse_outdated_line(line: &str, package_type: PackageType) -> (r: Option<OutdatedPackage>)
    ensures
        match r {
            Some(pkg) => spec_parse_outdated_line(line@, package_type) == Some(pkg@),
            None => spec_parse_outdated_line(line@, package_type) is None,
        },
{
    proof {
        reveal_strlit(" (");
        reveal_strlit(") ");
        reveal_strlit(" ");
    }
    let n = line.unicode_len();
    match find_substr(line, " (") {
        None => None,
        Some(p) => {
            proof {
                lemma_find_from_some(line@, " ("@, 0, p as int);
            }
            let name = String::from_str(trim(line.substring_char(0, p)));
            let rest_str = line.substring_char(p + 2, n);
            proof {
                assert(line@.subrange(0, p as int) =~= line@.take(p as int));
                assert(line@.subrange(p as int + 2, n as int) =~= line@.skip(p as int + 2));
            }
            let rn = rest_str.unicode_len();
            match find_substr(rest_str, ") ") {
                None => None,
                Some(q) => {
                    proof {
                        lemma_find_from_some(rest_str@, ") "@, 0, q as int);
                    }
                    let current = String::from_str(rest_str.substring_char(0, q));
                    let rem = trim(rest_str.substring_char(q + 2, rn));
                    proof {
                        assert(rest_str@.subrange(0, q as int) =~= rest_str@.take(q as int));
                        assert(rest_str@.subrange(q as int + 2, rn as int) =~= rest_str@.skip(
                            q as int + 2,
                        ));
                    }
                    let remn = rem.unicode_len();
                    match find_substr(rem, " ") {
                        None => None,
                        Some(sp) => {
                            proof {
                                lemma_find_from_some(rem@, " "@, 0, sp as int);
                            }
                            let avail = String::from_str(trim(rem.substring_char(sp + 1, remn)));
                            proof {
                                assert(rem@.subrange(sp as int + 1, remn as int) =~= rem@.skip(
                                    sp as int + 1,
                                ));
                            }
                            Some(
                                OutdatedPackage {
                                    name,
                                    current_version: current,
                                    available_version: avail,
                                    package_type,
                                },
                            )
                        },
                    }
                },
            }
        },
    }
}

/// The mathematical content of a list of records.
pub open spec fn package_views(s: Seq<OutdatedPackage>) -> Seq<PackageView> {
    s.map_values(|p: OutdatedPackage| p@)
}

pub proof fn lemma_package_views_push(s: Seq<OutdatedPackage>, p: OutdatedPackage)
    ensures
        package_views(s.push(p)) == package_views(s).push(p@),
{
    assert(package_views(s.push(p)) =~= package_views(s).push(p@));
}

/// The records the given listing lines yield: one per line that parses,
/// in listing order.
pub open spec fn listing_records(lines: Seq<Seq<char>>, package_type: PackageType) -> Seq<
    PackageView,
>
    decreases lines.len(),
{
    if lines.len() == 0 {
        Seq::empty()
    } else {
        let rest = listing_records(lines.drop_last(), package_type);
        match spec_parse_outdated_line(lines.last(), package_type) {
            Some(pv) => rest.push(pv),
            None => rest,
        }
    }
}

/// The records a whole verbose listing yields, line by line.
pub open spec fn spec_parse_outdated_listing(text: Seq<char>, package_type: PackageType) -> Seq<
    PackageView,
> {
    listing_records(line_split(text), package_type)
}

/// Parses every line of a verbose outdated listing into a record of the
/// given kind; lines that do not parse are skipped.
pub fn parse_outdated_listing(text: &str, package_type: PackageType) -> (r: Vec<OutdatedPackage>)
    ensures
        package_views(r@) == spec_parse_outdated_listing(text@, package_type),
{
    let lines = split_lines(text);
    let mut r: Vec<OutdatedPackage> = Vec::new();
    let ghost all = line_split(text@);
    let mut i: usize = 0;
    proof {
        assert(all.take(0) =~= Seq::<Seq<char>>::empty());
        assert(package_views(r@) =~= Seq::<PackageView>::empty());
    }
    while i < lines.len()
        invariant
            i <= lines@.len(),
            views(lines@) == all,
            all == line_split(text@),
            package_views(r@) == listing_records(all.take(i as int), package_type),
        decreases lines@.len() - i,
    {
        let ghost pre = r@;
        match parse_outdated_line(lines[i].as_str(), package_type) {
            Some(pkg) => {
                r.push(pkg);
                proof {
                    lemma_package_views_push(pre, r@.last());
                }
            },
            None => {},
        }
        proof {
            assert(all.take(i as int + 1).drop_last() =~= all.take(i as int));
            assert(all.take(i as int + 1).last() == all[i as int]);
            assert(lines@[i as int]@ == all[i as int]);
        }
        i = i + 1;
    }
    proof {
        assert(all.take(lines@.len() as int) =~= all);
    }
    r
}

/// For every well-formed listing line assembled as
/// `<name> (<cur>) <op> <avail>`, the parser recovers the name and the two
/// versions exactly, as long as none of the pieces collides with the
/// delimiters: the name holds no `" ("` and is trim-invariant, the current
/// version holds no `") "`, the operator is a nonempty token without
/// whitespace, and the available version is nonempty and trim-invariant.
pub proof fn lemma_parse_well_formed_line(
    name: Seq<char>,
    cur: Seq<char>,
    op: Seq<char>,
    avail: Seq<char>,
    package_type: PackageType,
)
    requires
        trim_spec(name) == name,
        !crate::text::contains_sub(name, " ("@),
        !crate::text::contains_sub(cur, ") "@),
        op.len() > 0,
        forall|i: int| 0 <= i < op.len() ==> !crate::text::is_space(#[trigger] op[i]),
        avail.len() > 0,
        trim_spec(avail) == avail,
    ensures
        spec_parse_outdated_line(name + " ("@ + cur + ") "@ + op + " "@ + avail, package_type)
            == Some(
            PackageView { name, current_version: cur, available_version: avail, package_type },
        ),
{
    reveal_strlit(" (");
    reveal_strlit(") ");
    reveal_strlit(" ");
    let d1 = " ("@;
    let d2 = ") "@;
    let d3 = " "@;
    let line = name + d1 + cur + d2 + op + d3 + avail;
    let nl = name.len() as int;
    assert(match_at(line, d1, nl)) by {
        assert(line.subrange(nl, nl + 2) =~= d1);
    }
    assert forall|j: int| 0 <= j < nl implies !match_at(line, d1, j) by {
        if match_at(line, d1, j) {
            if j + 2 <= nl {
                assert(name.subrange(j, j + 2) =~= line.subrange(j, j + 2));
                assert(match_at(name, d1, j));
                assert(crate::text::contains_sub(name, d1));
            } else {
                assert(line.subrange(j, j + 2)[1] == line[j + 1]);
                assert(line[j + 1] == d1[0]);
            }
        }
    }
    crate::text::lemma_find_from_first(line, d1, 0, nl);
    assert(line.take(nl) =~= name);
    let rest = line.skip(nl + 2);
    assert(rest =~= cur + d2 + op + d3 + avail);
    let cl = cur.len() as int;
    assert(match_at(rest, d2, cl)) by {
        assert(rest.subrange(cl, cl + 2) =~= d2);
    }
    assert forall|j: int| 0 <= j < cl implies !match_at(rest, d2, j) by {
        if match_at(rest, d2, j) {
            if j + 2 <= cl {
                assert(cur.subrange(j, j + 2) =~= rest.subrange(j, j + 2));
                assert(match_at(cur, d2, j));
                assert(crate::text::contains_sub(cur, d2));
            } else {
                assert(rest.subrange(j, j + 2)[1] == rest[j + 1]);
                assert(rest[j + 1] == d2[0]);
            }
        }
    }
    crate::text::lemma_find_from_first(rest, d2, 0, cl);
    assert(rest.take(cl) =~= cur);
    let tail = rest.skip(cl + 2);
    assert(tail =~= op + d3 + avail);
    assert(tail[0] == op[0]);
    assert(tail.last() == avail.last());
    crate::text::lemma_trim_id_ends(avail);
    crate::text::lemma_trim_id(tail);
    let ol = op.len() as int;
    assert(match_at(tail, d3, ol)) by {
        assert(tail.subrange(ol, ol + 1) =~= d3);
    }
    assert forall|j: int| 0 <= j < ol implies !match_at(tail, d3, j) by {
        if match_at(tail, d3, j) {
            assert(tail.subrange(j, j + 1)[0] == tail[j]);
            assert(tail[j] == op[j]);
        }
    }
    crate::text::lemma_find_from_first(tail, d3, 0, ol);
    assert(tail.skip(ol + 1) =~= avail);
}

/// A stand-in executor with fixed data, for exercising the commands
/// without a package manager.
pub struct MockBrewExecutor {
    formulae: Vec<String>,
    casks: Vec<String>,
    outdated_packages: Vec<OutdatedPackage>,
    should_fail_verification: bool,
}

impl MockBrewExecutor {
    pub closed spec fn spec_formulae(&self) -> Seq<Seq<char>> {
        views(self.formulae@)
    }

    pub closed spec fn spec_casks(&self) -> Seq<Seq<char>> {
        views(self.casks@)
    }

    pub closed spec fn spec_outdated(&self) -> Seq<OutdatedPackage> {
        self.outdated_packages@
    }

    pub closed spec fn spec_fails(&self) -> bool {
        self.should_fail_verification
    }

    /// The default stand-in: three formulae, three casks, one outdated
    /// package of each kind, and verification that succeeds.
    pub fn new() -> (r: Self)
        ensures
            r.spec_formulae() == seq!["git"@, "node"@, "python"@],
            r.spec_casks() == seq!["visual-studio-code"@, "docker"@, "firefox"@],
            r.spec_outdated().len() == 2,
            r.spec_outdated()[0]@.name == "git"@,
            r.spec_outdated()[0]@.current_version == "2.40.0"@,
            r.spec_outdated()[0]@.available_version == "2.41.0"@,
            r.spec_outdated()[0]@.package_type is Formula,
            r.spec_outdated()[1]@.name == "docker"@,
            r.spec_outdated()[1]@.current_version == "4.18.0"@,
            r.spec_outdated()[1]@.available_version == "4.19.0"@,
            r.spec_outdated()[1]@.package_type is Cask,
            !r.spec_fails(),
    {
        let mut formulae: Vec<String> = Vec::new();
        formulae.push(String::from_str("git"));
        formulae.push(String::from_str("node"));
        formulae.push(String::from_str("python"));
        let mut casks: Vec<String> = Vec::new();
        casks.push(String::from_str("visual-studio-code"));
        casks.push(String::from_str("docker"));
        casks.push(String::from_str("firefox"));
        let mut outdated_packages: Vec<OutdatedPackage> = Vec::new();
        outdated_packages.push(
            OutdatedPackage {
                name: String::from_str("git"),
                current_version: String::from_str("2.40.0"),
                available_version: String::from_str("2.41.0"),
                package_type: PackageType::Formula,
            },
        );
        outdated_packages.push(
            OutdatedPackage {
                name: String::from_str("docker"),
                current_version: String::from_str("4.18.0"),
                available_version: String::from_str("4.19.0"),
                package_type: PackageType::Cask,
            },
        );
        let r = MockBrewExecutor { formulae, casks, outdated_packages, should_fail_verification: false };
        proof {
            assert(r.spec_formulae() =~= seq!["git"@, "node"@, "python"@]);
            assert(r.spec_casks() =~= seq!["visual-studio-code"@, "docker"@, "firefox"@]);
        }
        r
    }

    /// The same stand-in, but whose installation check fails.
    pub fn with_failed_verification(self) -> (r: Self)
        ensures
            r.spec_formulae() == self.spec_formulae(),
            r.spec_casks() == self.spec_casks(),
            r.spec_outdated() == self.spec_outdated(),
            r.spec_fails(),
    {
        MockBrewExecutor { should_fail_verification: true, ..self }
    }

    /// Replaces the installed formulae the stand-in reports.
    pub fn with_formulae(self, formulae: Vec<String>) -> (r: Self)
        ensures
            r.spec_formulae() == views(formulae@),
            r.spec_casks() == self.spec_casks(),
            r.spec_outdated() == self.spec_outdated(),
            r.spec_fails() == self.spec_fails(),
    {
        MockBrewExecutor { formulae, ..self }
    }

    /// Replaces the installed casks the stand-in reports.
    pub fn with_casks(self, casks: Vec<String>) -> (r: Self)
        ensures
            r.spec_formulae() == self.spec_formulae(),
            r.spec_casks() == views(casks@),
            r.spec_outdated() == self.spec_outdated(),
            r.spec_fails() == self.spec_fails(),
    {
        MockBrewExecutor { casks, ..self }
    }

    /// Replaces the outdated packages the stand-in reports.
    pub fn with_outdated_packages(self, packages: Vec<OutdatedPackage>) -> (r: Self)
        ensures
            r.spec_formulae() == self.spec_formulae(),
            r.spec_casks() == self.spec_casks(),
            r.spec_outdated() == packages@,
            r.spec_fails() == self.spec_fails(),
    {
        MockBrewExecutor { outdated_packages: packages, ..self }
    }
}

impl Default for MockBrewExecutor {
    fn default() -> (r: Self)
        ensures
            r.spec_formulae() == seq!["git"@, "node"@, "python"@],
            r.spec_casks() == seq!["visual-studio-code"@, "docker"@, "firefox"@],
            r.spec_outdated().len() == 2,
            !r.spec_fails(),
    {
        MockBrewExecutor::new()
    }
}

impl BrewExecutor for MockBrewExecutor {
    fn verify_installation(&self) -> Result<(), BrewError> {
        if self.should_fail_verification {
            Err(
                BrewError {
                    message: String::from_str(
                        "Homebrew is not installed or not in PATH. Please install Homebrew first: https://brew.sh/",
                    ),
                },
            )
        } else {
            Ok(())
        }
    }

    fn get_manually_installed_formulae(&self) -> Result<Vec<String>, BrewError> {
        Ok(self.formulae.clone())
    }

    fn get_manually_installed_casks(&self) -> Result<Vec<String>, BrewError> {
        Ok(self.casks.clone())
    }

    fn get_outdated_packages(&self) -> Result<Vec<OutdatedPackage>, BrewError> {
        Ok(self.outdated_packages.clone())
    }

    fn upgrade_package(&self, _package: &OutdatedPackage) -> Result<(), BrewError> {
        Ok(())
    }

    fn get_version(&self) -> Result<String, BrewError> {
        Ok(String::from_str("Homebrew 4.1.5"))
    }

    fn get_system_info(&self) -> Result<SystemInfo, BrewError> {
        Ok(
            SystemInfo {
                os_version: String::from_str("macOS 14.5"),
                architecture: String::from_str("Apple Silicon"),
                homebrew_prefix: String::from_str("/usr/local"),
            },
        )
    }
}

} // verus!
