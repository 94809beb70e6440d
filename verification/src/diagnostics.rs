//! System diagnostics: the items reported about the package managers found,
//! and the reading of pacman's reports on installed packages.
use vstd::prelude::*;

use crate::sorting::{stable_sort, stable_sorted, SortKey};
use crate::text::{
    decimal, is_prefix, lines, lines_of, split_char, split_on, split_whitespace, starts_with,
    trim, trim_str, u64_to_string, ws_tokens,
};

verus! {

#[derive(Debug, Clone)]
pub struct DiagnosticItem {
    pub label: String,
    pub status: String,
}

#[derive(Debug, Clone)]
pub struct OrphanPackage {
    pub name: String,
}

#[derive(Debug, Clone)]
pub struct PackageSize {
    pub name: String,
    pub size_kb: u64,
    pub size_formatted: String,
}

#[derive(Debug, Clone)]
pub struct CacheInfo {
    pub path: String,
    pub size_bytes: u64,
    pub size_formatted: String,
    pub file_count: usize,
}

#[derive(Debug, Clone)]
pub struct ForeignPackage {
    pub name: String,
    pub version: String,
    pub source: String,
}

#[derive(Debug, Clone)]
pub struct PackageGroup {
    pub name: String,
    pub member_count: usize,
}

/// The views of a list of diagnostic items.
pub open spec fn items_view(v: Seq<DiagnosticItem>) -> Seq<(Seq<char>, Seq<char>)> {
    v.map_values(|d: DiagnosticItem| (d.label@, d.status@))
}

/// An uptime as `Dd Hh Mm`, or `Hh Mm` under a day.
pub open spec fn uptime_spec(seconds: u64) -> Seq<char> {
    let days = seconds / 86400;
    let hours = (seconds % 86400) / 3600;
    let minutes = (seconds % 3600) / 60;
    if days > 0 {
        decimal(days as nat) + "d "@ + decimal(hours as nat) + "h "@ + decimal(minutes as nat)
            + "m"@
    } else {
        decimal(hours as nat) + "h "@ + decimal(minutes as nat) + "m"@
    }
}

/// Formats an uptime given in seconds.
pub fn format_uptime(seconds: u64) -> (r: String)
    ensures
        r@ == uptime_spec(seconds),
{
    let days = seconds / 86400;
    let hours = (seconds % 86400) / 3600;
    let minutes = (seconds % 3600) / 60;
    let mut r = String::new();
    if days > 0 {
        r.append(u64_to_string(days).as_str());
        r.append("d ");
    }
    r.append(u64_to_string(hours).as_str());
    r.append("h ");
    r.append(u64_to_string(minutes).as_str());
    r.append("m");
    r
}

/// The package-manager items of the diagnostics: for pacman the binary, the
/// AUR helper (paru, else yay, else none) and the database lock; else the
/// first of brew, scoop and apt found.
pub open spec fn manager_items_spec(
    pacman: bool,
    paru: bool,
    yay: bool,
    brew: bool,
    scoop: bool,
    apt: bool,
    db_locked: bool,
) -> Seq<(Seq<char>, Seq<char>)> {
    if pacman {
        seq![
            ("pacman binary"@, "OK"@),
            ("AUR helper"@, if paru { "paru"@ } else if yay { "yay"@ } else { "none"@ }),
            ("pacman db lock"@, if db_locked { "LOCKED"@ } else { "clear"@ }),
        ]
    } else if brew {
        seq![("brew binary"@, "OK"@)]
    } else if scoop {
        seq![("scoop binary"@, "OK"@)]
    } else if apt {
        seq![("apt binary"@, "OK"@)]
    } else {
        Seq::empty()
    }
}

fn item(label: &str, status: &str) -> (r: DiagnosticItem)
    ensures
        r.label@ == label@,
        r.status@ == status@,
{
    DiagnosticItem { label: label.to_owned(), status: status.to_owned() }
}

/// The package-manager part of `run_diagnostics`, from what was found on
/// the system.
pub fn package_manager_items(
    pacman: bool,
    paru: bool,
    yay: bool,
    brew: bool,
    scoop: bool,
    apt: bool,
    db_locked: bool,
) -> (r: Vec<DiagnosticItem>)
    ensures
        items_view(r@) == manager_items_spec(pacman, paru, yay, brew, scoop, apt, db_locked),
{
    let mut items: Vec<DiagnosticItem> = Vec::new();
    if pacman {
        let helper = if paru {
            "paru"
        } else if yay {
            "yay"
        } else {
            "none"
        };
        items.push(item("pacman binary", "OK"));
        items.push(item("AUR helper", helper));
        items.push(item("pacman db lock", if db_locked { "LOCKED" } else { "clear" }));
    } else if brew {
        items.push(item("brew binary", "OK"));
    } else if scoop {
        items.push(item("scoop binary", "OK"));
    } else if apt {
        items.push(item("apt binary", "OK"));
    }
    assert(items_view(items@) =~= manager_items_spec(pacman, paru, yay, brew, scoop, apt, db_locked));
    items
}

/// A value that may be missing, shown as `unknown` when it is.
pub open spec fn or_unknown(o: Option<String>) -> Seq<char> {
    match o {
        Some(s) => s@,
        None => "unknown"@,
    }
}

/// The items of `get_system_info`: operating system, kernel, host, uptime,
/// processor, memory, then the number of installed packages where pacman
/// (`true`) or else Homebrew (`false`) reported one.
pub open spec fn system_info_spec(
    name: Option<String>,
    os_version: Option<String>,
    kernel: Option<String>,
    host: Option<String>,
    uptime_secs: u64,
    cpu_brand: Option<String>,
    cpu_count: usize,
    memory: Seq<char>,
    packages: Option<(bool, usize)>,
) -> Seq<(Seq<char>, Seq<char>)> {
    seq![
        ("OS"@, or_unknown(name)),
        ("OS Version"@, or_unknown(os_version)),
        ("Kernel"@, or_unknown(kernel)),
        ("Hostname"@, or_unknown(host)),
        ("Uptime"@, uptime_spec(uptime_secs)),
        ("CPU"@, or_unknown(cpu_brand)),
        ("CPU Cores"@, decimal(cpu_count as nat)),
        ("Memory"@, memory),
    ] + match packages {
        Some((true, n)) => seq![("Installed packages"@, decimal(n as nat))],
        Some((false, n)) => seq![("Brew packages"@, decimal(n as nat))],
        None => Seq::empty(),
    }
}

fn item_or_unknown(label: &str, value: Option<String>) -> (r: DiagnosticItem)
    ensures
        r.label@ == label@,
        r.status@ == or_unknown(value),
{
    let status = match value {
        Some(v) => v,
        None => "unknown".to_owned(),
    };
    DiagnosticItem { label: label.to_owned(), status }
}

fn item_owned(label: &str, status: String) -> (r: DiagnosticItem)
    ensures
        r.label@ == label@,
        r.status@ == status@,
{
    DiagnosticItem { label: label.to_owned(), status }
}

/// The system information items from what the system reported (the
/// memory text is formatted by the caller).
pub fn system_info_items(
    name: Option<String>,
    os_version: Option<String>,
    kernel: Option<String>,
    host: Option<String>,
    uptime_secs: u64,
    cpu_brand: Option<String>,
    cpu_count: usize,
    memory: String,
    packages: Option<(bool, usize)>,
) -> (r: Vec<DiagnosticItem>)
    ensures
        items_view(r@) == system_info_spec(
            name,
            os_version,
            kernel,
            host,
            uptime_secs,
            cpu_brand,
            cpu_count,
            memory@,
            packages,
        ),
{
    let ghost (n0, n1, n2, n3, n5, mv) = (name, os_version, kernel, host, cpu_brand, memory@);
    let mut items: Vec<DiagnosticItem> = Vec::new();
    items.push(item_or_unknown("OS", name));
    items.push(item_or_unknown("OS Version", os_version));
    items.push(item_or_unknown("Kernel", kernel));
    items.push(item_or_unknown("Hostname", host));
    items.push(item_owned("Uptime", format_uptime(uptime_secs)));
    items.push(item_or_unknown("CPU", cpu_brand));
    items.push(item_owned("CPU Cores", u64_to_string(cpu_count as u64)));
    items.push(item_owned("Memory", memory));
    match packages {
        Some((true, n)) => items.push(item_owned("Installed packages", u64_to_string(n as u64))),
        Some((false, n)) => items.push(item_owned("Brew packages", u64_to_string(n as u64))),
        None => {},
    }
    assert(items_view(items@) =~= system_info_spec(
        n0,
        n1,
        n2,
        n3,
        uptime_secs,
        n5,
        cpu_count,
        mv,
        packages,
    ));
    items
}

/// The first word of each line that has one (`pacman -Qet`).
pub open spec fn first_words(ls: Seq<Seq<char>>) -> Seq<Seq<char>>
    decreases ls.len(),
{
    if ls.len() == 0 {
        Seq::empty()
    } else {
        let rest = first_words(ls.drop_last());
        let w = ws_tokens(ls.last());
        if w.len() > 0 {
            rest.push(w[0])
        } else {
            rest
        }
    }
}

/// The package names of `pacman -Qet` output (the part of
/// `find_orphan_packages` that follows running the command).
pub fn parse_orphan_packages(stdout: &str) -> (r: Vec<OrphanPackage>)
    ensures
        r@.map_values(|o: OrphanPackage| o.name@) == first_words(lines_of(stdout@)),
{
    let ls = lines(stdout);
    let ghost lv = ls.deep_view();
    let mut out: Vec<OrphanPackage> = Vec::new();
    let mut i: usize = 0;
    while i < ls.len()
        invariant
            i <= ls.len(),
            lv == ls.deep_view(),
            out@.map_values(|o: OrphanPackage| o.name@) == first_words(lv.take(i as int)),
        decreases ls.len() - i,
    {
        proof {
            crate::text::lemma_take_step(lv, i as int);
        }
        let w = split_whitespace(ls[i].as_str());
        if w.len() > 0 {
            let ghost before = out@.map_values(|o: OrphanPackage| o.name@);
            let n = w[0].clone();
            let ghost nv = n@;
            out.push(OrphanPackage { name: n });
            assert(out@.map_values(|o: OrphanPackage| o.name@) =~= before.push(nv));
        }
        i += 1;
    }
    assert(lv.take(ls.len() as int) =~= lv);
    out
}

/// The text after the first colon of a line, up to the next one.
pub open spec fn field_value(line: Seq<char>) -> Option<Seq<char>> {
    let pieces = split_on(line, ':');
    if pieces.len() >= 2 {
        Some(pieces[1])
    } else {
        None
    }
}

/// Reading `pacman -Qi` for sizes: the current package name and the
/// `(name, size text)` pairs found so far.
pub open spec fn size_step(st: (Seq<char>, Seq<(Seq<char>, Seq<char>)>), line: Seq<char>) -> (Seq<char>, Seq<(Seq<char>, Seq<char>)>) {
    if is_prefix("Name            :"@, line) {
        match field_value(line) {
            Some(v) => (trim(v), st.1),
            None => st,
        }
    } else if is_prefix("Installed Size  :"@, line) {
        match field_value(line) {
            Some(v) => if st.0.len() > 0 {
                (st.0, st.1.push((st.0, trim(v))))
            } else {
                st
            },
            None => st,
        }
    } else {
        st
    }
}

pub open spec fn size_state(ls: Seq<Seq<char>>) -> (Seq<char>, Seq<(Seq<char>, Seq<char>)>)
    decreases ls.len(),
{
    if ls.len() == 0 {
        (Seq::empty(), Seq::empty())
    } else {
        size_step(size_state(ls.drop_last()), ls.last())
    }
}

/// The `(name, installed size text)` pairs of `pacman -Qi` output, in order
/// (the part of `get_package_sizes` before the sizes are converted).
pub fn parse_package_size_entries(content: &str) -> (r: Vec<(String, String)>)
    ensures
        r@.map_values(|p: (String, String)| (p.0@, p.1@)) == size_state(lines_of(content@)).1,
{
    let ls = lines(content);
    let ghost lv = ls.deep_view();
    let mut current = String::new();
    let mut out: Vec<(String, String)> = Vec::new();
    let mut i: usize = 0;
    while i < ls.len()
        invariant
            i <= ls.len(),
            lv == ls.deep_view(),
            (current@, out@.map_values(|p: (String, String)| (p.0@, p.1@))) == size_state(
                lv.take(i as int),
            ),
        decreases ls.len() - i,
    {
        proof {
            crate::text::lemma_take_step(lv, i as int);
        }
        let line = ls[i].as_str();
        let pieces = split_char(line, ':');
        if starts_with(line, "Name            :") {
            if pieces.len() >= 2 {
                current = trim_str(pieces[1].as_str());
            }
        } else if starts_with(line, "Installed Size  :") {
            if pieces.len() >= 2 && !current.as_str().is_empty() {
                let ghost before = out@.map_values(|p: (String, String)| (p.0@, p.1@));
                let size = trim_str(pieces[1].as_str());
                let name = current.clone();
                let ghost v = (name@, size@);
                out.push((name, size));
                assert(out@.map_values(|p: (String, String)| (p.0@, p.1@)) =~= before.push(v));
            }
        }
        i += 1;
    }
    assert(lv.take(ls.len() as int) =~= lv);
    out
}

impl SortKey for PackageSize {
    open spec fn goes_before(&self, other: &Self) -> bool {
        self.size_kb > other.size_kb
    }

    fn exec_goes_before(&self, other: &Self) -> (r: bool) {
        self.size_kb > other.size_kb
    }
}

/// Package sizes are listed largest first.
pub proof fn law_sizes_largest_first(found: Seq<PackageSize>)
    ensures
        forall|i: int, j: int|
            0 <= i < j < stable_sorted(found).len() ==> #[trigger] stable_sorted(found)[i].size_kb
                >= #[trigger] stable_sorted(found)[j].size_kb,
{
    crate::sorting::lemma_stable_sorted_in_order(found);
    let r = stable_sorted(found);
    assert forall|i: int, j: int| 0 <= i < j < r.len() implies #[trigger] r[i].size_kb
        >= #[trigger] r[j].size_kb by {
        assert(!r[j].goes_before(&r[i]));
    }
}

/// Largest first; equal sizes keep their order.
pub fn sort_package_sizes(v: Vec<PackageSize>) -> (r: Vec<PackageSize>)
    ensures
        r@ == stable_sorted(v@),
{
    stable_sort(v)
}

/// Reading `pacman -Qi` for one package: its version and repository (AUR
/// when none is listed).
pub open spec fn info_fields(ls: Seq<Seq<char>>) -> (Seq<char>, Seq<char>)
    decreases ls.len(),
{
    if ls.len() == 0 {
        (Seq::empty(), "AUR"@)
    } else {
        let st = info_fields(ls.drop_last());
        let line = ls.last();
        let v = match field_value(line) {
            Some(v) => trim(v),
            None => Seq::empty(),
        };
        if is_prefix("Version        :"@, line) {
            (v, st.1)
        } else if is_prefix("Repository    :"@, line) {
            (st.0, v)
        } else {
            st
        }
    }
}

/// The version and repository that `pacman -Qi` reports.
pub fn parse_package_info(content: &str) -> (r: (String, String))
    ensures
        (r.0@, r.1@) == info_fields(lines_of(content@)),
{
    let ls = lines(content);
    let ghost lv = ls.deep_view();
    let mut version = String::new();
    let mut source = "AUR".to_owned();
    let mut i: usize = 0;
    while i < ls.len()
        invariant
            i <= ls.len(),
            lv == ls.deep_view(),
            (version@, source@) == info_fields(lv.take(i as int)),
        decreases ls.len() - i,
    {
        proof {
            crate::text::lemma_take_step(lv, i as int);
        }
        let line = ls[i].as_str();
        let pieces = split_char(line, ':');
        let v = if pieces.len() >= 2 {
            trim_str(pieces[1].as_str())
        } else {
            String::new()
        };
        if starts_with(line, "Version        :") {
            version = v;
        } else if starts_with(line, "Repository    :") {
            source = v;
        }
        i += 1;
    }
    assert(lv.take(ls.len() as int) =~= lv);
    (version, source)
}

/// The non-empty trimmed lines.
pub open spec fn nonempty_trimmed(ls: Seq<Seq<char>>) -> Seq<Seq<char>>
    decreases ls.len(),
{
    if ls.len() == 0 {
        Seq::empty()
    } else {
        let rest = nonempty_trimmed(ls.drop_last());
        if trim(ls.last()).len() > 0 {
            rest.push(trim(ls.last()))
        } else {
            rest
        }
    }
}

/// The package names of `pacman -Qmq` output.
pub fn parse_foreign_names(stdout: &str) -> (r: Vec<String>)
    ensures
        r.deep_view() == nonempty_trimmed(lines_of(stdout@)),
{
    let ls = lines(stdout);
    let ghost lv = ls.deep_view();
    let mut out: Vec<String> = Vec::new();
    let mut i: usize = 0;
    while i < ls.len()
        invariant
            i <= ls.len(),
            lv == ls.deep_view(),
            out.deep_view() == nonempty_trimmed(lv.take(i as int)),
        decreases ls.len() - i,
    {
        proof {
            crate::text::lemma_take_step(lv, i as int);
        }
        let t = trim_str(ls[i].as_str());
        if !t.as_str().is_empty() {
            let ghost before = out.deep_view();
            let ghost tv = t@;
            out.push(t);
            assert(out.deep_view() =~= before.push(tv));
        }
        i += 1;
    }
    assert(lv.take(ls.len() as int) =~= lv);
    out
}

/// The number of lines of a command's output.
pub fn count_lines(stdout: &str) -> (r: usize)
    ensures
        r == lines_of(stdout@).len(),
{
    let ls = lines(stdout);
    ls.len()
}

/// The packages from the repositories: all installed ones but the foreign
/// ones, never below zero.
pub fn repository_count(total: usize, foreign: usize) -> (r: usize)
    ensures
        r == if total >= foreign {
            (total - foreign) as usize
        } else {
            0
        },
{
    total.saturating_sub(foreign)
}

/// A `pacman -Sg` line with a group and at least one member.
pub open spec fn group_lines(ls: Seq<Seq<char>>) -> Seq<(Seq<char>, nat)>
    decreases ls.len(),
{
    if ls.len() == 0 {
        Seq::empty()
    } else {
        let rest = group_lines(ls.drop_last());
        let parts = ws_tokens(ls.last());
        if parts.len() >= 2 {
            rest.push((parts[0], (parts.len() - 1) as nat))
        } else {
            rest
        }
    }
}

impl SortKey for PackageGroup {
    open spec fn goes_before(&self, other: &Self) -> bool {
        self.member_count > other.member_count
    }

    fn exec_goes_before(&self, other: &Self) -> (r: bool) {
        self.member_count > other.member_count
    }
}

/// Package groups are listed largest first.
pub proof fn law_groups_largest_first(found: Seq<PackageGroup>)
    ensures
        forall|i: int, j: int|
            0 <= i < j < stable_sorted(found).len() ==> #[trigger] stable_sorted(found)[i].member_count
                >= #[trigger] stable_sorted(found)[j].member_count,
{
    crate::sorting::lemma_stable_sorted_in_order(found);
    let r = stable_sorted(found);
    assert forall|i: int, j: int| 0 <= i < j < r.len() implies #[trigger] r[i].member_count
        >= #[trigger] r[j].member_count by {
        assert(!r[j].goes_before(&r[i]));
    }
}

pub open spec fn groups_view(v: Seq<PackageGroup>) -> Seq<(Seq<char>, nat)> {
    v.map_values(|g: PackageGroup| (g.name@, g.member_count as nat))
}

/// The groups of `pacman -Sg` output with their member counts, largest
/// first (the part of `get_package_groups` that follows running the
/// command).
pub fn parse_package_groups(stdout: &str) -> (r: Vec<PackageGroup>)
    ensures
        exists|found: Seq<PackageGroup>|
            groups_view(found) == group_lines(lines_of(stdout@)) && r@ == stable_sorted(found),
{
    let ls = lines(stdout);
    let ghost lv = ls.deep_view();
    let mut out: Vec<PackageGroup> = Vec::new();
    let mut i: usize = 0;
    while i < ls.len()
        invariant
            i <= ls.len(),
            lv == ls.deep_view(),
            groups_view(out@) == group_lines(lv.take(i as int)),
        decreases ls.len() - i,
    {
        proof {
            crate::text::lemma_take_step(lv, i as int);
        }
        let parts = split_whitespace(ls[i].as_str());
        if parts.len() >= 2 {
            let ghost before = groups_view(out@);
            let g = PackageGroup { name: parts[0].clone(), member_count: parts.len() - 1 };
            let ghost gv = (g.name@, g.member_count as nat);
            out.push(g);
            assert(groups_view(out@) =~= before.push(gv));
        }
        i += 1;
    }
    assert(lv.take(ls.len() as int) =~= lv);
    stable_sort(out)
}

} // verus!
