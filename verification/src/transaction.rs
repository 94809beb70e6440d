//! Planning of package transactions: the commands that install and remove
//! a selection of packages, grouped by where the packages come from, and
//! the commands that undo such a transaction.
use vstd::prelude::*;

use crate::commands::{
    commands_view, install_spec, remove_spec, strs_view, AurHelperCommand, CommandSpec, HelperKind,
};
use crate::commands::sanitized_names;
use crate::models::{AppConfig, Package, PackageSource};
use crate::text::copy_string;

verus! {

/// Package names grouped by source, the groups in order of the first
/// package of each source.
pub type Groups = Seq<(PackageSource, Seq<Seq<char>>)>;

/// The index of the group for `src`, searching from `k`; -1 when none.
pub open spec fn group_index_from(g: Groups, src: PackageSource, k: int) -> int
    decreases g.len() - k,
{
    if k < 0 || k >= g.len() {
        -1
    } else if g[k].0 == src {
        k
    } else {
        group_index_from(g, src, k + 1)
    }
}

pub open spec fn group_index(g: Groups, src: PackageSource) -> int {
    group_index_from(g, src, 0)
}

proof fn lemma_group_index_found(g: Groups, src: PackageSource, k: int)
    requires
        group_index_from(g, src, k) >= 0,
    ensures
        0 <= group_index_from(g, src, k) < g.len(),
        g[group_index_from(g, src, k)].0 == src,
    decreases g.len() - k,
{
    if k < 0 || k >= g.len() {
    } else if g[k].0 == src {
    } else {
        lemma_group_index_found(g, src, k + 1);
    }
}

/// Adds `name` to the group of `src`, opening the group if there is none.
pub open spec fn group_add(g: Groups, src: PackageSource, name: Seq<char>) -> Groups {
    let k = group_index(g, src);
    if k >= 0 {
        g.update(k, (src, g[k].1.push(name)))
    } else {
        g.push((src, seq![name]))
    }
}

/// The names of the packages whose installed flag is `installed`, grouped
/// by source.
pub open spec fn groups_of(pkgs: Seq<Package>, installed: bool) -> Groups
    decreases pkgs.len(),
{
    if pkgs.len() == 0 {
        Seq::empty()
    } else {
        let g = groups_of(pkgs.drop_last(), installed);
        let p = pkgs.last();
        if p.is_installed == installed {
            group_add(g, p.source, p.name@)
        } else {
            g
        }
    }
}

/// The command that removes `names` from `src`, for the sources that have
/// one.
pub open spec fn removal_for(src: PackageSource, names: Seq<Seq<char>>) -> Option<(Seq<char>, Seq<Seq<char>>)> {
    match src {
        PackageSource::Pacman | PackageSource::Aur => Some(remove_spec(names)),
        PackageSource::Npm => Some(("npm"@, seq!["uninstall"@, "-g"@] + names)),
        PackageSource::Cargo => Some(("cargo"@, seq!["uninstall"@] + names)),
        PackageSource::Pip => Some(("pip"@, seq!["uninstall"@, "-y"@] + names)),
        _ => None,
    }
}

/// The command that installs `names` from `src`, for the sources that have
/// one.
pub open spec fn install_for(src: PackageSource, names: Seq<Seq<char>>, kind: HelperKind) -> Option<(Seq<char>, Seq<Seq<char>>)> {
    match src {
        PackageSource::Pacman => Some(("sudo"@, seq!["pacman"@, "-S"@, "--noconfirm"@] + names)),
        PackageSource::Aur => Some(install_spec(kind, names)),
        PackageSource::Npm => Some(("npm"@, seq!["install"@, "-g"@] + names)),
        PackageSource::Cargo => Some(("cargo"@, seq!["install"@] + names)),
        PackageSource::Pip => Some(("pip"@, seq!["install"@, "--user"@] + names)),
        PackageSource::Apt => Some(("sudo"@, seq!["apt-get"@, "install"@, "-y"@] + names)),
        PackageSource::Brew => Some(("brew"@, seq!["install"@] + names)),
        PackageSource::Scoop => Some(("scoop"@, seq!["install"@] + names)),
        _ => None,
    }
}

/// The commands for a list of groups, removing or installing.
pub open spec fn group_commands(g: Groups, installing: bool, kind: HelperKind) -> Seq<(Seq<char>, Seq<Seq<char>>)>
    decreases g.len(),
{
    if g.len() == 0 {
        Seq::empty()
    } else {
        let done = group_commands(g.drop_last(), installing, kind);
        let c = if installing {
            install_for(g.last().0, g.last().1, kind)
        } else {
            removal_for(g.last().0, g.last().1)
        };
        match c {
            Some(c) => done.push(c),
            None => done,
        }
    }
}

/// The plan for a selection: first the removals of the installed packages,
/// then the installs of the others, one command per source.
pub open spec fn plan_spec(pkgs: Seq<Package>, kind: HelperKind) -> Seq<(Seq<char>, Seq<Seq<char>>)> {
    group_commands(groups_of(pkgs, true), false, kind) + group_commands(
        groups_of(pkgs, false),
        true,
        kind,
    )
}

/// The plan that undoes a transaction: remove what it installed, then
/// install again what it removed.
pub open spec fn rollback_spec(installed: Seq<Seq<char>>, removed: Seq<Seq<char>>, kind: HelperKind) -> Seq<(Seq<char>, Seq<Seq<char>>)> {
    let a: Seq<(Seq<char>, Seq<Seq<char>>)> = if installed.len() > 0 {
        seq![remove_spec(installed)]
    } else {
        Seq::empty()
    };
    let b: Seq<(Seq<char>, Seq<Seq<char>>)> = if removed.len() > 0 {
        seq![install_spec(kind, removed)]
    } else {
        Seq::empty()
    };
    a + b
}

/// The number of names in all groups.
pub open spec fn total_names(g: Groups) -> nat
    decreases g.len(),
{
    if g.len() == 0 {
        0
    } else {
        total_names(g.drop_last()) + g.last().1.len()
    }
}

/// The number of packages whose installed flag is `installed`.
pub open spec fn count_with_flag(pkgs: Seq<Package>, installed: bool) -> nat
    decreases pkgs.len(),
{
    if pkgs.len() == 0 {
        0
    } else {
        count_with_flag(pkgs.drop_last(), installed) + if pkgs.last().is_installed == installed {
            1nat
        } else {
            0nat
        }
    }
}

/// No source has two groups.
pub open spec fn distinct_sources(g: Groups) -> bool {
    forall|i: int, j: int| 0 <= i < j < g.len() ==> #[trigger] g[i].0 != #[trigger] g[j].0
}

proof fn lemma_total_update(g: Groups, k: int, e: (PackageSource, Seq<Seq<char>>))
    requires
        0 <= k < g.len(),
    ensures
        total_names(g.update(k, e)) + g[k].1.len() == total_names(g) + e.1.len(),
    decreases g.len(),
{
    let u = g.update(k, e);
    if k < g.len() - 1 {
        assert(u.drop_last() =~= g.drop_last().update(k, e));
        lemma_total_update(g.drop_last(), k, e);
    } else {
        assert(u.drop_last() =~= g.drop_last());
    }
}

proof fn lemma_group_index_missing(g: Groups, src: PackageSource, k: int)
    requires
        0 <= k,
        group_index_from(g, src, k) < 0,
    ensures
        forall|j: int| k <= j < g.len() ==> g[j].0 != src,
    decreases g.len() - k,
{
    if k < g.len() {
        lemma_group_index_missing(g, src, k + 1);
    }
}

proof fn lemma_group_add(g: Groups, src: PackageSource, name: Seq<char>)
    requires
        distinct_sources(g),
    ensures
        distinct_sources(group_add(g, src, name)),
        total_names(group_add(g, src, name)) == total_names(g) + 1,
{
    let k = group_index(g, src);
    if k >= 0 {
        lemma_group_index_found(g, src, 0);
        lemma_total_update(g, k, (src, g[k].1.push(name)));
        let u = group_add(g, src, name);
        assert forall|i: int, j: int| 0 <= i < j < u.len() implies #[trigger] u[i].0
            != #[trigger] u[j].0 by {
            assert(u[i].0 == g[i].0);
            assert(u[j].0 == g[j].0);
        }
    } else {
        lemma_group_index_missing(g, src, 0);
        let u = group_add(g, src, name);
        assert(u.drop_last() =~= g);
        assert forall|i: int, j: int| 0 <= i < j < u.len() implies #[trigger] u[i].0
            != #[trigger] u[j].0 by {
            if j < g.len() {
                assert(u[i].0 == g[i].0);
                assert(u[j].0 == g[j].0);
            }
        }
    }
}

/// Grouping loses and repeats no package: the groups hold as many names as
/// there are packages with the flag, and each source has one group, so a
/// plan has at most one removal and one install command per source.
pub proof fn law_grouping_partitions(pkgs: Seq<Package>, installed: bool)
    ensures
        total_names(groups_of(pkgs, installed)) == count_with_flag(pkgs, installed),
        distinct_sources(groups_of(pkgs, installed)),
    decreases pkgs.len(),
{
    if pkgs.len() > 0 {
        law_grouping_partitions(pkgs.drop_last(), installed);
        let g = groups_of(pkgs.drop_last(), installed);
        let p = pkgs.last();
        if p.is_installed == installed {
            lemma_group_add(g, p.source, p.name@);
        }
    }
}

/// The names of a list of packages, in order.
pub open spec fn package_names(pkgs: Seq<Package>) -> Seq<Seq<char>> {
    pkgs.map_values(|p: Package| p.name@)
}

proof fn lemma_groups_uniform(pkgs: Seq<Package>, src: PackageSource, installed: bool)
    requires
        forall|i: int| 0 <= i < pkgs.len() ==> #[trigger] pkgs[i].source == src && pkgs[i].is_installed
            == installed,
    ensures
        groups_of(pkgs, !installed) == Seq::<(PackageSource, Seq<Seq<char>>)>::empty(),
        pkgs.len() > 0 ==> groups_of(pkgs, installed) == seq![(src, package_names(pkgs))],
        pkgs.len() == 0 ==> groups_of(pkgs, installed) == Seq::<(PackageSource, Seq<Seq<char>>)>::empty(),
    decreases pkgs.len(),
{
    if pkgs.len() > 0 {
        let prev = pkgs.drop_last();
        assert forall|i: int| 0 <= i < prev.len() implies #[trigger] prev[i].source == src
            && prev[i].is_installed == installed by {
            assert(prev[i] == pkgs[i]);
        }
        lemma_groups_uniform(prev, src, installed);
        let p = pkgs.last();
        assert(p == pkgs[pkgs.len() - 1]);
        assert(package_names(pkgs) =~= package_names(prev).push(p.name@));
        let g = groups_of(prev, installed);
        if prev.len() == 0 {
            assert(group_index_from(g, src, 0) == -1);
            assert(package_names(pkgs) =~= seq![p.name@]);
        } else {
            assert(group_index_from(g, src, 0) == 0);
            assert(g.update(0, (src, g[0].1.push(p.name@))) =~= seq![(src, package_names(pkgs))]);
        }
    }
}

proof fn lemma_single_group_commands(src: PackageSource, names: Seq<Seq<char>>, installing: bool, kind: HelperKind)
    ensures
        group_commands(seq![(src, names)], installing, kind) == match (if installing {
            install_for(src, names, kind)
        } else {
            removal_for(src, names)
        }) {
            Some(c) => seq![c],
            None => Seq::<(Seq<char>, Seq<Seq<char>>)>::empty(),
        },
{
    let g = seq![(src, names)];
    assert(g.drop_last() =~= Seq::<(PackageSource, Seq<Seq<char>>)>::empty());
    assert(g.last() == (src, names));
    assert(group_commands(g.drop_last(), installing, kind) == Seq::<(Seq<char>, Seq<Seq<char>>)>::empty());
    let c = if installing {
        install_for(src, names, kind)
    } else {
        removal_for(src, names)
    };
    match c {
        Some(x) => assert(Seq::<(Seq<char>, Seq<Seq<char>>)>::empty().push(x) =~= seq![x]),
        None => {},
    }
}

/// Packages of one source that are not installed are installed with that
/// source's install command and their names, in order: `sudo pacman -S
/// --noconfirm`, the AUR helper's `-S --noconfirm` (sanitised names),
/// `sudo apt-get install -y`, `brew install`, `scoop install`, `npm install
/// -g`, `cargo install` or `pip install --user`; nothing is removed.
pub proof fn law_plan_installs_with_install_verb(pkgs: Seq<Package>, src: PackageSource, kind: HelperKind)
    requires
        pkgs.len() > 0,
        forall|i: int| 0 <= i < pkgs.len() ==> #[trigger] pkgs[i].source == src && !pkgs[i].is_installed,
    ensures
        ({
            let names = package_names(pkgs);
            let plan = plan_spec(pkgs, kind);
            &&& src == PackageSource::Pacman ==> plan == seq![
                ("sudo"@, seq!["pacman"@, "-S"@, "--noconfirm"@] + names),
            ]
            &&& src == PackageSource::Apt ==> plan == seq![
                ("sudo"@, seq!["apt-get"@, "install"@, "-y"@] + names),
            ]
            &&& src == PackageSource::Brew ==> plan == seq![("brew"@, seq!["install"@] + names)]
            &&& src == PackageSource::Scoop ==> plan == seq![("scoop"@, seq!["install"@] + names)]
            &&& src == PackageSource::Npm ==> plan == seq![("npm"@, seq!["install"@, "-g"@] + names)]
            &&& src == PackageSource::Cargo ==> plan == seq![("cargo"@, seq!["install"@] + names)]
            &&& src == PackageSource::Pip ==> plan == seq![
                ("pip"@, seq!["install"@, "--user"@] + names),
            ]
            &&& (src == PackageSource::Aur && kind == HelperKind::Paru) ==> plan == seq![
                ("paru"@, seq!["-S"@, "--noconfirm"@] + sanitized_names(names)),
            ]
            &&& (src == PackageSource::Aur && kind == HelperKind::Yay) ==> plan == seq![
                ("yay"@, seq!["-S"@, "--noconfirm"@] + sanitized_names(names)),
            ]
            &&& (src == PackageSource::Aur && kind == HelperKind::Pacman) ==> plan == seq![
                ("sudo"@, seq!["pacman"@, "-S"@, "--noconfirm"@] + sanitized_names(names)),
            ]
        }),
{
    lemma_groups_uniform(pkgs, src, false);
    let names = package_names(pkgs);
    lemma_single_group_commands(src, names, true, kind);
    assert(groups_of(pkgs, true) == Seq::<(PackageSource, Seq<Seq<char>>)>::empty());
    let e = Seq::<(Seq<char>, Seq<Seq<char>>)>::empty();
    assert(group_commands(Seq::<(PackageSource, Seq<Seq<char>>)>::empty(), false, kind) == e);
    let tail = group_commands(seq![(src, names)], true, kind);
    assert(e + tail =~= tail);
    assert(seq!["-S"@, "--noconfirm"@] + sanitized_names(names) =~= seq!["-S"@, "--noconfirm"@]
        + sanitized_names(names));
    assert(seq!["pacman"@] + (seq!["-S"@, "--noconfirm"@] + sanitized_names(names)) =~= seq![
        "pacman"@,
        "-S"@,
        "--noconfirm"@,
    ] + sanitized_names(names));
}

/// Installed packages of one source are removed with that source's removal
/// command and their names, in order: `sudo pacman -Rns --noconfirm`
/// (sanitised names) for pacman and AUR packages, `npm uninstall -g`,
/// `cargo uninstall` or `pip uninstall -y`; nothing is installed.
pub proof fn law_plan_removes_with_removal_verb(pkgs: Seq<Package>, src: PackageSource, kind: HelperKind)
    requires
        pkgs.len() > 0,
        forall|i: int| 0 <= i < pkgs.len() ==> #[trigger] pkgs[i].source == src && pkgs[i].is_installed,
    ensures
        ({
            let names = package_names(pkgs);
            let plan = plan_spec(pkgs, kind);
            &&& (src == PackageSource::Pacman || src == PackageSource::Aur) ==> plan == seq![
                ("sudo"@, seq!["pacman"@, "-Rns"@, "--noconfirm"@] + sanitized_names(names)),
            ]
            &&& src == PackageSource::Npm ==> plan == seq![("npm"@, seq!["uninstall"@, "-g"@] + names)]
            &&& src == PackageSource::Cargo ==> plan == seq![("cargo"@, seq!["uninstall"@] + names)]
            &&& src == PackageSource::Pip ==> plan == seq![("pip"@, seq!["uninstall"@, "-y"@] + names)]
        }),
{
    lemma_groups_uniform(pkgs, src, true);
    let names = package_names(pkgs);
    lemma_single_group_commands(src, names, false, kind);
    let e = Seq::<(Seq<char>, Seq<Seq<char>>)>::empty();
    assert(group_commands(Seq::<(PackageSource, Seq<Seq<char>>)>::empty(), true, kind) == e);
    let head = group_commands(seq![(src, names)], false, kind);
    assert(head + e =~= head);
}

/// A rollback removes, with `sudo pacman -Rns --noconfirm`, every name the
/// transaction installed whenever it installed any, and reinstalls with the
/// AUR helper's `-S --noconfirm` every name it removed whenever it removed
/// any; the removal comes first, and there is nothing else.
pub proof fn law_rollback_undoes_both_sides(installed: Seq<Seq<char>>, removed: Seq<Seq<char>>, kind: HelperKind)
    ensures
        ({
            let r = rollback_spec(installed, removed, kind);
            let reinstall = match kind {
                HelperKind::Paru => ("paru"@, seq!["-S"@, "--noconfirm"@] + sanitized_names(removed)),
                HelperKind::Yay => ("yay"@, seq!["-S"@, "--noconfirm"@] + sanitized_names(removed)),
                HelperKind::Pacman => (
                    "sudo"@,
                    seq!["pacman"@, "-S"@, "--noconfirm"@] + sanitized_names(removed),
                ),
            };
            let removal = ("sudo"@, seq!["pacman"@, "-Rns"@, "--noconfirm"@] + sanitized_names(installed));
            &&& r.len() == (if installed.len() > 0 { 1int } else { 0int }) + (if removed.len() > 0 {
                1int
            } else {
                0int
            })
            &&& installed.len() > 0 ==> r[0] == removal
            &&& removed.len() > 0 ==> r[r.len() - 1] == reinstall
        }),
{
    assert(seq!["pacman"@] + (seq!["-S"@, "--noconfirm"@] + sanitized_names(removed)) =~= seq![
        "pacman"@,
        "-S"@,
        "--noconfirm"@,
    ] + sanitized_names(removed));
}

/// The grouping held as two parallel vectors.
struct GroupTable {
    sources: Vec<PackageSource>,
    names: Vec<Vec<String>>,
}

impl GroupTable {
    spec fn view(&self) -> Groups {
        Seq::new(self.sources@.len(), |i: int| (self.sources@[i], self.names@[i].deep_view()))
    }

    spec fn wf(&self) -> bool {
        self.sources@.len() == self.names@.len()
    }

    fn find(&self, src: PackageSource) -> (r: Option<usize>)
        requires
            self.wf(),
        ensures
            match r {
                Some(k) => group_index(self.view(), src) == k as int && k < self.sources@.len(),
                None => group_index(self.view(), src) == -1,
            },
    {
        let mut i: usize = 0;
        while i < self.sources.len()
            invariant
                self.wf(),
                i <= self.sources@.len(),
                group_index(self.view(), src) == group_index_from(self.view(), src, i as int),
            decreases self.sources@.len() - i,
        {
            if self.sources[i] == src {
                return Some(i);
            }
            i += 1;
        }
        None
    }

    fn add(&mut self, src: PackageSource, name: String)
        requires
            old(self).wf(),
        ensures
            final(self).wf(),
            final(self).view() == group_add(old(self).view(), src, name@),
    {
        let ghost g = self.view();
        match self.find(src) {
            Some(k) => {
                proof {
                    lemma_group_index_found(g, src, 0);
                }
                let mut inner = crate::text::copy_strings(&self.names[k]);
                let ghost before = inner.deep_view();
                inner.push(name);
                assert(inner.deep_view() =~= before.push(name@));
                self.names.set(k, inner);
                assert(self.view() =~= g.update(k as int, (src, g[k as int].1.push(name@))));
            },
            None => {
                self.sources.push(src);
                let mut inner: Vec<String> = Vec::new();
                inner.push(name);
                let ghost nv = name@;
                assert(inner.deep_view() =~= seq![nv]);
                self.names.push(inner);
                assert(self.view() =~= g.push((src, seq![nv])));
            },
        }
    }
}

/// Groups the names of the packages with the given installed flag.
fn group_packages(packages: &[Package], installed: bool) -> (r: GroupTable)
    ensures
        r.wf(),
        r.view() == groups_of(packages@, installed),
{
    let mut t = GroupTable { sources: Vec::new(), names: Vec::new() };
    assert(t.view() =~= Seq::<(PackageSource, Seq<Seq<char>>)>::empty());
    let mut i: usize = 0;
    while i < packages.len()
        invariant
            i <= packages.len(),
            t.wf(),
            t.view() == groups_of(packages@.take(i as int), installed),
        decreases packages.len() - i,
    {
        proof {
            crate::text::lemma_take_step(packages@, i as int);
        }
        let p = &packages[i];
        if p.is_installed == installed {
            t.add(p.source, copy_string(&p.name));
        }
        i += 1;
    }
    assert(packages@.take(packages.len() as int) =~= packages@);
    t
}

/// `v` with `prefix` in front, as owned strings.
fn with_prefix(prefix: &[&str], names: &Vec<String>) -> (r: Vec<String>)
    ensures
        r.deep_view() == strs_view(prefix@) + names.deep_view(),
{
    let mut r: Vec<String> = Vec::new();
    let mut i: usize = 0;
    while i < prefix.len()
        invariant
            i <= prefix.len(),
            r.deep_view() == strs_view(prefix@).take(i as int),
        decreases prefix.len() - i,
    {
        let ghost before = r.deep_view();
        r.push(prefix[i].to_owned());
        assert(r.deep_view() =~= before.push(prefix@[i as int]@));
        assert(strs_view(prefix@).take(i + 1) =~= strs_view(prefix@).take(i as int).push(
            prefix@[i as int]@,
        ));
        i += 1;
    }
    let mut j: usize = 0;
    while j < names.len()
        invariant
            j <= names.len(),
            r.deep_view() == strs_view(prefix@) + names.deep_view().take(j as int),
        decreases names.len() - j,
    {
        let ghost before = r.deep_view();
        r.push(copy_string(&names[j]));
        assert(r.deep_view() =~= before.push(names@[j as int]@));
        assert(names.deep_view().take(j + 1) =~= names.deep_view().take(j as int).push(
            names@[j as int]@,
        ));
        j += 1;
    }
    assert(strs_view(prefix@).take(prefix.len() as int) =~= strs_view(prefix@));
    assert(names.deep_view().take(names.len() as int) =~= names.deep_view());
    r
}

/// Borrowed views of owned names.
fn name_refs(names: &Vec<String>) -> (r: Vec<&str>)
    ensures
        strs_view(r@) == names.deep_view(),
{
    let mut r: Vec<&str> = Vec::new();
    let mut i: usize = 0;
    while i < names.len()
        invariant
            i <= names.len(),
            r@.len() == i,
            forall|j: int| 0 <= j < i ==> r@[j]@ == names@[j]@,
        decreases names.len() - i,
    {
        r.push(names[i].as_str());
        i += 1;
    }
    assert(strs_view(r@) =~= names.deep_view());
    r
}

/// A command of `prog` with `prefix` before the names.
fn prefixed(prog: &str, prefix: &[&str], names: &Vec<String>) -> (r: CommandSpec)
    ensures
        r@ == (prog@, strs_view(prefix@) + names.deep_view()),
{
    CommandSpec::new(prog, with_prefix(prefix, names))
}

fn removal_exec(helper: &AurHelperCommand, src: PackageSource, names: &Vec<String>) -> (r: Option<CommandSpec>)
    ensures
        match r {
            Some(c) => removal_for(src, names.deep_view()) == Some(c@),
            None => removal_for(src, names.deep_view()) is None,
        },
{
    match src {
        PackageSource::Pacman | PackageSource::Aur => {
            let refs = name_refs(names);
            Some(helper.remove_command(refs.as_slice()))
        },
        PackageSource::Npm => {
            let c = prefixed("npm", &["uninstall", "-g"], names);
            Some(c)
        },
        PackageSource::Cargo => Some(prefixed("cargo", &["uninstall"], names)),
        PackageSource::Pip => Some(prefixed("pip", &["uninstall", "-y"], names)),
        _ => None,
    }
}

fn install_exec(helper: &AurHelperCommand, src: PackageSource, names: &Vec<String>) -> (r: Option<CommandSpec>)
    ensures
        match r {
            Some(c) => install_for(src, names.deep_view(), helper.kind()) == Some(c@),
            None => install_for(src, names.deep_view(), helper.kind()) is None,
        },
{
    match src {
        PackageSource::Pacman => Some(prefixed("sudo", &["pacman", "-S", "--noconfirm"], names)),
        PackageSource::Aur => {
            let refs = name_refs(names);
            Some(helper.install_command(refs.as_slice()))
        },
        PackageSource::Npm => Some(prefixed("npm", &["install", "-g"], names)),
        PackageSource::Cargo => Some(prefixed("cargo", &["install"], names)),
        PackageSource::Pip => Some(prefixed("pip", &["install", "--user"], names)),
        PackageSource::Apt => Some(prefixed("sudo", &["apt-get", "install", "-y"], names)),
        PackageSource::Brew => Some(prefixed("brew", &["install"], names)),
        PackageSource::Scoop => Some(prefixed("scoop", &["install"], names)),
        _ => None,
    }
}

/// Appends the commands for the groups of `t`.
fn push_group_commands(
    out: &mut Vec<CommandSpec>,
    t: &GroupTable,
    installing: bool,
    helper: &AurHelperCommand,
)
    requires
        t.wf(),
    ensures
        commands_view(final(out)@) == commands_view(old(out)@) + group_commands(
            t.view(),
            installing,
            helper.kind(),
        ),
{
    let ghost start = commands_view(out@);
    let mut i: usize = 0;
    while i < t.sources.len()
        invariant
            t.wf(),
            i <= t.sources@.len(),
            commands_view(out@) == start + group_commands(
                t.view().take(i as int),
                installing,
                helper.kind(),
            ),
        decreases t.sources@.len() - i,
    {
        proof {
            crate::text::lemma_take_step(t.view(), i as int);
        }
        let c = if installing {
            install_exec(helper, t.sources[i], &t.names[i])
        } else {
            removal_exec(helper, t.sources[i], &t.names[i])
        };
        match c {
            Some(c) => {
                let ghost before = out@;
                let ghost cv = c@;
                out.push(c);
                assert(commands_view(out@) =~= commands_view(before).push(cv));
            },
            None => {},
        }
        i += 1;
    }
    assert(t.view().take(t.sources@.len() as int) =~= t.view());
}

/// The commands that carry out a selection of packages: installed ones are
/// removed, the others installed, with one command per source. The AUR
/// helper is chosen as `AurHelperCommand::new` chooses it.
pub fn plan_package_transaction(
    packages: &[Package],
    config: &AppConfig,
    paru_found: bool,
    yay_found: bool,
) -> (r: Vec<CommandSpec>)
    ensures
        commands_view(r@) == plan_spec(
            packages@,
            crate::commands::detect_spec(config.aur_helper@, paru_found, yay_found),
        ),
{
    let helper = AurHelperCommand::new(config, paru_found, yay_found);
    let mut commands: Vec<CommandSpec> = Vec::new();
    let to_remove = group_packages(packages, true);
    let to_install = group_packages(packages, false);
    assert(commands_view(commands@) =~= Seq::<(Seq<char>, Seq<Seq<char>>)>::empty());
    push_group_commands(&mut commands, &to_remove, false, &helper);
    push_group_commands(&mut commands, &to_install, true, &helper);
    commands
}

/// The commands that undo a transaction: remove what it installed, then
/// install again what it removed.
pub fn plan_rollback_transaction(
    originally_installed: &[String],
    originally_removed: &[String],
    config: &AppConfig,
    paru_found: bool,
    yay_found: bool,
) -> (r: Vec<CommandSpec>)
    ensures
        commands_view(r@) == rollback_spec(
            originally_installed@.map_values(|s: String| s@),
            originally_removed@.map_values(|s: String| s@),
            crate::commands::detect_spec(config.aur_helper@, paru_found, yay_found),
        ),
{
    let helper = AurHelperCommand::new(config, paru_found, yay_found);
    let mut commands: Vec<CommandSpec> = Vec::new();
    let ghost iv = originally_installed@.map_values(|s: String| s@);
    let ghost rv = originally_removed@.map_values(|s: String| s@);
    if !originally_installed.is_empty() {
        let names = slice_refs(originally_installed);
        commands.push(helper.remove_command(names.as_slice()));
    }
    if !originally_removed.is_empty() {
        let names = slice_refs(originally_removed);
        commands.push(helper.install_command(names.as_slice()));
    }
    assert(commands_view(commands@) =~= rollback_spec(iv, rv, helper.kind()));
    commands
}

/// Borrowed views of a slice of owned names.
fn slice_refs(names: &[String]) -> (r: Vec<&str>)
    ensures
        strs_view(r@) == names@.map_values(|s: String| s@),
{
    let mut r: Vec<&str> = Vec::new();
    let mut i: usize = 0;
    while i < names.len()
        invariant
            i <= names.len(),
            r@.len() == i,
            forall|j: int| 0 <= j < i ==> r@[j]@ == names@[j]@,
        decreases names.len() - i,
    {
        r.push(names[i].as_str());
        i += 1;
    }
    assert(strs_view(r@) =~= names@.map_values(|s: String| s@));
    r
}

} // verus!
