//! Pacman: the output of `pacman -Ss`, `pacman -Qu`, `checkupdates` and
//! `pacman -Qi`.
use vstd::prelude::*;

use crate::models::{
    all_plain, push_plain, summaries, summary, AppError, OutdatedPackage, Package,
    PackageSource, Summary,
};
use crate::text::{
    chars_of, contains, contains_seq, is_prefix, lines, lines_of, lowercase, split_char,
    split_on, split_whitespace, starts_with, str_eq, to_lowercase, trim, trim_str, ws_tokens,
};

verus! {

/// Pacman package provider implementation
pub struct PacmanProvider;

/// A `pacman -Ss` entry: the header `repo/name version (groups)
/// [installed]` and the description line.
pub open spec fn pacman_entry(header: Seq<char>, desc: Seq<char>) -> Option<Summary> {
    let parts = ws_tokens(header);
    if parts.len() < 2 {
        None
    } else {
        let full = parts[0];
        let pieces = split_on(full, '/');
        let name = if pieces.len() > 1 {
            pieces[1]
        } else {
            full
        };
        Some(
            (
                name,
                parts[1],
                trim(desc),
                PackageSource::Pacman,
                contains_seq(header, "[installed]"@) || contains_seq(header, "[Installed]"@),
            ),
        )
    }
}

/// The entries of `pacman -Ss` output: lines taken in pairs.
pub open spec fn pacman_entries(ls: Seq<Seq<char>>) -> Seq<Summary>
    decreases ls.len(),
{
    if ls.len() < 2 {
        Seq::empty()
    } else {
        let rest = pacman_entries(ls.skip(2));
        match pacman_entry(ls[0], ls[1]) {
            Some(e) => seq![e] + rest,
            None => rest,
        }
    }
}

/// The number of non-empty lines.
pub open spec fn count_nonempty(ls: Seq<Seq<char>>) -> nat
    decreases ls.len(),
{
    if ls.len() == 0 {
        0
    } else {
        count_nonempty(ls.drop_last()) + if ls.last().len() > 0 {
            1nat
        } else {
            0nat
        }
    }
}

/// A `pacman -Qu` line `name old-version -> new-version`: its first two
/// space-separated fields.
pub open spec fn outdated_line(line: Seq<char>) -> Option<(Seq<char>, Seq<char>)> {
    let pieces = split_on(line, ' ');
    if pieces.len() >= 2 {
        Some((pieces[0], pieces[1]))
    } else {
        None
    }
}

/// The fields of the non-empty `pacman -Qu` lines.
pub open spec fn outdated_lines(ls: Seq<Seq<char>>) -> Seq<(Seq<char>, Seq<char>)>
    decreases ls.len(),
{
    if ls.len() == 0 {
        Seq::empty()
    } else {
        let rest = outdated_lines(ls.drop_last());
        if ls.last().len() > 0 {
            match outdated_line(ls.last()) {
                Some(e) => rest.push(e),
                None => rest,
            }
        } else {
            rest
        }
    }
}

/// What `pacman -Qi` says of an outdated package.
pub ghost struct InfoState {
    pub repository: Seq<char>,
    pub is_aur: bool,
    pub dependencies: Seq<Seq<char>>,
    pub size: Option<Seq<char>>,
}

/// One `pacman -Qi` line read into the state: `Repository`, `Installed
/// Size` and `Depends On` take the text after the first colon (up to the
/// next one).
pub open spec fn info_step(st: InfoState, line: Seq<char>) -> InfoState {
    let pieces = split_on(line, ':');
    if is_prefix("Repository"@, line) {
        if pieces.len() >= 2 {
            let repo = trim(pieces[1]);
            InfoState { repository: repo, is_aur: lowercase(repo) == "aur"@, ..st }
        } else {
            st
        }
    } else if is_prefix("Installed Size"@, line) {
        if pieces.len() >= 2 {
            InfoState { size: Some(trim(pieces[1])), ..st }
        } else {
            st
        }
    } else if is_prefix("Depends On"@, line) {
        let deps = if pieces.len() >= 2 {
            pieces[1]
        } else {
            Seq::empty()
        };
        InfoState { dependencies: ws_tokens(deps), ..st }
    } else {
        st
    }
}

pub open spec fn info_state(st: InfoState, ls: Seq<Seq<char>>) -> InfoState
    decreases ls.len(),
{
    if ls.len() == 0 {
        st
    } else {
        info_step(info_state(st, ls.drop_last()), ls.last())
    }
}

pub open spec fn info_of(p: OutdatedPackage, size: Option<Seq<char>>) -> InfoState {
    InfoState {
        repository: p.repository@,
        is_aur: p.is_aur,
        dependencies: p.new_dependencies.deep_view(),
        size,
    }
}

impl Default for PacmanProvider {
    fn default() -> (r: PacmanProvider)
        ensures
            r == PacmanProvider,
    {
        PacmanProvider::new()
    }
}

/// An outdated package as `pacman -Qu` alone describes it: name and new
/// version from the line, placeholders for the rest.
pub open spec fn placeholder_entry(p: OutdatedPackage, line: (Seq<char>, Seq<char>)) -> bool {
    &&& p.name@ == line.0
    &&& p.new_version@ == line.1
    &&& p.current_version@ == "?"@
    &&& p.repository@ == "unknown"@
    &&& !p.is_aur
    &&& p.download_size == 0
    &&& p.new_dependencies@.len() == 0
}

impl PacmanProvider {
    pub fn new() -> (r: PacmanProvider)
        ensures
            r == PacmanProvider,
    {
        PacmanProvider
    }

    /// Parse a pacman package entry from command output
    pub fn parse_entry(header: &str, desc: &str) -> (r: Option<Package>)
        ensures
            match r {
                Some(p) => pacman_entry(header@, desc@) == Some(summary(p))
                    && p.has_default_extras(),
                None => pacman_entry(header@, desc@) is None,
            },
    {
        let parts = split_whitespace(header);
        if parts.len() < 2 {
            return None;
        }
        let full = parts[0].as_str();
        let version = parts[1].clone();
        let is_installed = contains(header, "[installed]") || contains(header, "[Installed]");
        let pieces = split_char(full, '/');
        let name = if pieces.len() > 1 {
            pieces[1].clone()
        } else {
            full.to_owned()
        };
        let description = trim_str(desc);
        Some(Package::basic(name, version, description, PackageSource::Pacman, is_installed))
    }

    /// `parse_entry`, for tests.
    pub fn parse_entry_for_test(header: &str, desc: &str) -> (r: Option<Package>)
        ensures
            match r {
                Some(p) => pacman_entry(header@, desc@) == Some(summary(p))
                    && p.has_default_extras(),
                None => pacman_entry(header@, desc@) is None,
            },
    {
        Self::parse_entry(header, desc)
    }

    /// The packages of `pacman -Ss` output (the part of `search_blocking`
    /// that follows running the command successfully).
    pub fn parse_search_output(stdout: &str) -> (r: Vec<Package>)
        ensures
            summaries(r@) == pacman_entries(lines_of(stdout@)),
            all_plain(r@),
    {
        let ls = lines(stdout);
        let ghost lv = ls.deep_view();
        let mut out: Vec<Package> = Vec::new();
        let mut i: usize = 0;
        proof {
            assert(lv.skip(0) =~= lv);
        }
        while i < ls.len() && ls.len() - i > 1
            invariant
                i <= ls.len(),
                lv == ls.deep_view(),
                all_plain(out@),
                summaries(out@) + pacman_entries(lv.skip(i as int)) == pacman_entries(lv),
            decreases ls.len() - i,
        {
            let ghost rest = lv.skip(i as int);
            proof {
                assert(rest[0] == lv[i as int]);
                assert(rest[1] == lv[i + 1]);
                assert(rest.skip(2) =~= lv.skip(i + 2));
            }
            let e = Self::parse_entry(ls[i].as_str(), ls[i + 1].as_str());
            match e {
                Some(p) => {
                    let ghost before = summaries(out@);
                    let ghost sp = summary(p);
                    push_plain(&mut out, p);
                    assert(before.push(sp) + pacman_entries(lv.skip(i + 2)) =~= before + (seq![sp]
                        + pacman_entries(lv.skip(i + 2))));
                },
                None => {},
            }
            i += 2;
        }
        assert(summaries(out@) + pacman_entries(lv.skip(i as int)) =~= summaries(out@));
        out
    }

    /// The outcome of a `pacman -Ss` that failed: no results when pacman
    /// says so or exits with status 1, else an error with its message.
    pub fn search_failure(exit_code: Option<i32>, stderr: &str) -> (r: Result<Vec<Package>, AppError>)
        ensures
            (contains_seq(stderr@, "no results"@) || exit_code == Some(1i32)) ==> (r matches Ok(v)
                && v@.len() == 0),
            !(contains_seq(stderr@, "no results"@) || exit_code == Some(1i32)) ==> (r matches Err(
                AppError::Pacman(m),
            ) && m@ == "pacman search failed: "@ + stderr@),
    {
        if contains(stderr, "no results") || exit_code == Some(1i32) {
            return Ok(Vec::new());
        }
        let mut m = "pacman search failed: ".to_owned();
        m.append(stderr);
        Err(AppError::Pacman(m))
    }

    /// The outcome of `pacman -Ss`: on failure what [`Self::search_failure`]
    /// says; on success the packages of its output, or an error where the
    /// output is not UTF-8 (`stdout` then holds the decoding error).
    pub fn search_outcome(
        success: bool,
        exit_code: Option<i32>,
        stdout: Result<String, String>,
        stderr: &str,
    ) -> (r: Result<Vec<Package>, AppError>)
        ensures
            !success && (contains_seq(stderr@, "no results"@) || exit_code == Some(1i32)) ==> (r matches Ok(
                v,
            ) && v@.len() == 0),
            !success && !(contains_seq(stderr@, "no results"@) || exit_code == Some(1i32)) ==> (r matches Err(
                AppError::Pacman(m),
            ) && m@ == "pacman search failed: "@ + stderr@),
            success ==> match stdout {
                Ok(out) => r matches Ok(v) && summaries(v@) == pacman_entries(lines_of(out@))
                    && all_plain(v@),
                Err(e) => r matches Err(AppError::Pacman(m)) && m@ == "Invalid UTF-8 in pacman output: "@
                    + e@,
            },
    {
        if !success {
            return Self::search_failure(exit_code, stderr);
        }
        match stdout {
            Ok(out) => Ok(Self::parse_search_output(out.as_str())),
            Err(e) => {
                let mut m = "Invalid UTF-8 in pacman output: ".to_owned();
                m.append(e.as_str());
                Err(AppError::Pacman(m))
            },
        }
    }

    /// The number of pending updates in `checkupdates` or `pacman -Qu`
    /// output: its non-empty lines.
    pub fn count_updates(stdout: &str) -> (r: usize)
        ensures
            r == count_nonempty(lines_of(stdout@)),
    {
        let ls = lines(stdout);
        let ghost lv = ls.deep_view();
        let mut n: usize = 0;
        let mut i: usize = 0;
        while i < ls.len()
            invariant
                i <= ls.len(),
                lv == ls.deep_view(),
                n == count_nonempty(lv.take(i as int)),
                n <= i,
            decreases ls.len() - i,
        {
            proof {
                crate::text::lemma_take_step(lv, i as int);
            }
            if !ls[i].as_str().is_empty() {
                n += 1;
            }
            i += 1;
        }
        assert(lv.take(ls.len() as int) =~= lv);
        n
    }

    /// The outdated packages of `pacman -Qu` output, one per non-empty line
    /// with two fields, in order: named by the first field, with the second
    /// as the new version, the current version `?` and the repository
    /// `unknown` until `pacman -Qi` says more.
    pub fn outdated_entries(stdout: &str) -> (r: Vec<OutdatedPackage>)
        ensures
            r@.len() == outdated_lines(lines_of(stdout@)).len(),
            forall|i: int|
                0 <= i < r@.len() ==> #[trigger] placeholder_entry(
                    r@[i],
                    outdated_lines(lines_of(stdout@))[i],
                ),
    {
        let pairs = Self::parse_outdated_list(stdout);
        let ghost pv = pairs@.map_values(|p: (String, String)| (p.0@, p.1@));
        let mut out: Vec<OutdatedPackage> = Vec::new();
        let mut i: usize = 0;
        while i < pairs.len()
            invariant
                i <= pairs.len(),
                pv == pairs@.map_values(|p: (String, String)| (p.0@, p.1@)),
                out@.len() == i,
                forall|k: int| 0 <= k < i ==> #[trigger] placeholder_entry(out@[k], pv[k]),
            decreases pairs.len() - i,
        {
            let name = pairs[i].0.clone();
            let version = pairs[i].1.clone();
            let e = OutdatedPackage::new(name, "?".to_owned(), version, "unknown".to_owned());
            out.push(e);
            assert(placeholder_entry(out@[i as int], pv[i as int]));
            i += 1;
        }
        out
    }

    /// The name and new version of each package in `pacman -Qu` output.
    pub fn parse_outdated_list(stdout: &str) -> (r: Vec<(String, String)>)
        ensures
            r@.map_values(|p: (String, String)| (p.0@, p.1@)) == outdated_lines(lines_of(stdout@)),
    {
        let ls = lines(stdout);
        let ghost lv = ls.deep_view();
        let mut out: Vec<(String, String)> = Vec::new();
        let mut i: usize = 0;
        while i < ls.len()
            invariant
                i <= ls.len(),
                lv == ls.deep_view(),
                out@.map_values(|p: (String, String)| (p.0@, p.1@)) == outdated_lines(
                    lv.take(i as int),
                ),
            decreases ls.len() - i,
        {
            proof {
                crate::text::lemma_take_step(lv, i as int);
            }
            let line = ls[i].as_str();
            if !line.is_empty() {
                let pieces = split_char(line, ' ');
                if pieces.len() >= 2 {
                    let ghost before = out@;
                    let a = pieces[0].clone();
                    let b = pieces[1].clone();
                    let ghost v = (a@, b@);
                    out.push((a, b));
                    assert(out@.map_values(|p: (String, String)| (p.0@, p.1@)) =~= before.map_values(
                        |p: (String, String)| (p.0@, p.1@),
                    ).push(v));
                }
            }
            i += 1;
        }
        assert(lv.take(ls.len() as int) =~= lv);
        out
    }

    /// Reads `pacman -Qi` output into an outdated package: its repository
    /// (and whether that is the AUR) and its dependencies. Returns the text
    /// of the last `Installed Size` line, whose number the caller converts.
    pub fn apply_package_info(pkg: &mut OutdatedPackage, info: &str) -> (r: Option<String>)
        ensures
            info_of(*final(pkg), crate::models::opt_view(r)) == info_state(
                info_of(*old(pkg), None),
                lines_of(info@),
            ),
            final(pkg).name@ == old(pkg).name@,
            final(pkg).current_version@ == old(pkg).current_version@,
            final(pkg).new_version@ == old(pkg).new_version@,
            final(pkg).download_size == old(pkg).download_size,
    {
        let ls = lines(info);
        let ghost lv = ls.deep_view();
        let ghost start = info_of(*pkg, None);
        let mut size: Option<String> = None;
        let mut i: usize = 0;
        while i < ls.len()
            invariant
                i <= ls.len(),
                lv == ls.deep_view(),
                info_of(*pkg, crate::models::opt_view(size)) == info_state(start, lv.take(i as int)),
                pkg.name@ == old(pkg).name@,
                pkg.current_version@ == old(pkg).current_version@,
                pkg.new_version@ == old(pkg).new_version@,
                pkg.download_size == old(pkg).download_size,
            decreases ls.len() - i,
        {
            proof {
                crate::text::lemma_take_step(lv, i as int);
            }
            let line = ls[i].as_str();
            let pieces = split_char(line, ':');
            if starts_with(line, "Repository") {
                if pieces.len() >= 2 {
                    let repo = trim_str(pieces[1].as_str());
                    let lower = to_lowercase(repo.as_str());
                    pkg.is_aur = str_eq(lower.as_str(), "aur");
                    pkg.repository = repo;
                }
            } else if starts_with(line, "Installed Size") {
                if pieces.len() >= 2 {
                    size = Some(trim_str(pieces[1].as_str()));
                }
            } else if starts_with(line, "Depends On") {
                let deps = if pieces.len() >= 2 {
                    split_whitespace(pieces[1].as_str())
                } else {
                    let empty = "";
                    proof {
                        reveal_strlit("");
                        assert(empty@ =~= Seq::<char>::empty());
                    }
                    split_whitespace(empty)
                };
                pkg.new_dependencies = deps;
            }
            i += 1;
        }
        assert(lv.take(ls.len() as int) =~= lv);
        size
    }
}

} // verus!
