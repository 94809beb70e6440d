//! The data that flows between providers, the service layer and the user
//! interface: packages, where they come from, the configuration, errors.
use vstd::prelude::*;

use crate::text::copy_strings;

verus! {

/// Where a package comes from.
#[derive(Debug, Clone, Copy, PartialEq, Eq, Hash, Structural)]
pub enum PackageSource {
    Pacman,
    Aur,
    Apt,
    Dnf,
    Zypper,
    Apk,
    Brew,
    Scoop,
    Npm,
    Cargo,
    Pip,
}

/// A package as the providers report it.
#[derive(Debug, Clone)]
pub struct Package {
    pub name: String,
    pub version: String,
    pub description: String,
    pub source: PackageSource,
    pub is_installed: bool,
    pub is_outdated: bool,
    pub installed_size: Option<u64>,
    pub download_size: Option<u64>,
    pub groups: Vec<String>,
    pub licenses: Vec<String>,
    pub maintainers: Vec<String>,
    pub keywords: Vec<String>,
    pub url: Option<String>,
    pub depends_on: Vec<String>,
    pub required_by: Vec<String>,
    pub opt_depends: Vec<String>,
    pub conflicts: Vec<String>,
    pub replaces: Vec<String>,
    pub provides: Vec<String>,
    pub votes: Option<i32>,
    pub first_submitted: Option<i64>,
    pub last_updated: Option<i64>,
    pub package_base_id: Option<String>,
    pub num_votes: Option<i32>,
}

/// The views of an optional string.
pub open spec fn opt_view(o: Option<String>) -> Option<Seq<char>> {
    match o {
        Some(s) => Some(s@),
        None => None,
    }
}

/// Copies an optional string with its contents.
pub fn copy_opt_string(o: &Option<String>) -> (r: Option<String>)
    ensures
        opt_view(*o) == opt_view(r),
{
    match o {
        Some(s) => Some(s.clone()),
        None => None,
    }
}

impl Package {
    /// All list fields are empty and all optional fields absent.
    pub open spec fn has_default_extras(&self) -> bool {
        &&& self.is_outdated == false
        &&& self.installed_size is None
        &&& self.download_size is None
        &&& self.groups@.len() == 0
        &&& self.licenses@.len() == 0
        &&& self.maintainers@.len() == 0
        &&& self.keywords@.len() == 0
        &&& self.url is None
        &&& self.depends_on@.len() == 0
        &&& self.required_by@.len() == 0
        &&& self.opt_depends@.len() == 0
        &&& self.conflicts@.len() == 0
        &&& self.replaces@.len() == 0
        &&& self.provides@.len() == 0
        &&& self.votes is None
        &&& self.first_submitted is None
        &&& self.last_updated is None
        &&& self.package_base_id is None
        &&& self.num_votes is None
    }

    /// A package from `source` with the given name, version and description
    /// and nothing else known about it.
    pub fn basic(name: String, version: String, description: String, source: PackageSource, is_installed: bool) -> (p: Package)
        ensures
            p.name@ == name@,
            p.version@ == version@,
            p.description@ == description@,
            p.source == source,
            p.is_installed == is_installed,
            p.has_default_extras(),
    {
        Package {
            name,
            version,
            description,
            source,
            is_installed,
            is_outdated: false,
            installed_size: None,
            download_size: None,
            groups: Vec::new(),
            licenses: Vec::new(),
            maintainers: Vec::new(),
            keywords: Vec::new(),
            url: None,
            depends_on: Vec::new(),
            required_by: Vec::new(),
            opt_depends: Vec::new(),
            conflicts: Vec::new(),
            replaces: Vec::new(),
            provides: Vec::new(),
            votes: None,
            first_submitted: None,
            last_updated: None,
            package_base_id: None,
            num_votes: None,
        }
    }

    /// A pacman package with the given name and version, not installed,
    /// with no description.
    pub fn new(name: &str, version: &str) -> (p: Package)
        ensures
            p.name@ == name@,
            p.version@ == version@,
            p.description@ == Seq::<char>::empty(),
            p.source == PackageSource::Pacman,
            !p.is_installed,
            p.has_default_extras(),
    {
        Package::basic(name.to_owned(), version.to_owned(), String::new(), PackageSource::Pacman, false)
    }

    /// Two packages agree on every field, strings compared by content.
    pub open spec fn same_as(&self, other: &Package) -> bool {
        &&& self.name@ == other.name@
        &&& self.version@ == other.version@
        &&& self.description@ == other.description@
        &&& self.source == other.source
        &&& self.is_installed == other.is_installed
        &&& self.is_outdated == other.is_outdated
        &&& self.installed_size == other.installed_size
        &&& self.download_size == other.download_size
        &&& self.groups.deep_view() == other.groups.deep_view()
        &&& self.licenses.deep_view() == other.licenses.deep_view()
        &&& self.maintainers.deep_view() == other.maintainers.deep_view()
        &&& self.keywords.deep_view() == other.keywords.deep_view()
        &&& opt_view(self.url) == opt_view(other.url)
        &&& self.depends_on.deep_view() == other.depends_on.deep_view()
        &&& self.required_by.deep_view() == other.required_by.deep_view()
        &&& self.opt_depends.deep_view() == other.opt_depends.deep_view()
        &&& self.conflicts.deep_view() == other.conflicts.deep_view()
        &&& self.replaces.deep_view() == other.replaces.deep_view()
        &&& self.provides.deep_view() == other.provides.deep_view()
        &&& self.votes == other.votes
        &&& self.first_submitted == other.first_submitted
        &&& self.last_updated == other.last_updated
        &&& opt_view(self.package_base_id) == opt_view(other.package_base_id)
        &&& self.num_votes == other.num_votes
    }

    /// A copy of this package with every field.
    pub fn duplicate(&self) -> (r: Package)
        ensures
            r.same_as(self),
    {
        Package {
            name: self.name.clone(),
            version: self.version.clone(),
            description: self.description.clone(),
            source: self.source,
            is_installed: self.is_installed,
            is_outdated: self.is_outdated,
            installed_size: self.installed_size,
            download_size: self.download_size,
            groups: copy_strings(&self.groups),
            licenses: copy_strings(&self.licenses),
            maintainers: copy_strings(&self.maintainers),
            keywords: copy_strings(&self.keywords),
            url: copy_opt_string(&self.url),
            depends_on: copy_strings(&self.depends_on),
            required_by: copy_strings(&self.required_by),
            opt_depends: copy_strings(&self.opt_depends),
            conflicts: copy_strings(&self.conflicts),
            replaces: copy_strings(&self.replaces),
            provides: copy_strings(&self.provides),
            votes: self.votes,
            first_submitted: self.first_submitted,
            last_updated: self.last_updated,
            package_base_id: copy_opt_string(&self.package_base_id),
            num_votes: self.num_votes,
        }
    }
}

impl Default for Package {
    fn default() -> (p: Package)
        ensures
            p.name@ == Seq::<char>::empty(),
            p.version@ == Seq::<char>::empty(),
            p.description@ == Seq::<char>::empty(),
            p.source == PackageSource::Pacman,
            !p.is_installed,
            p.has_default_extras(),
    {
        Package::basic(String::new(), String::new(), String::new(), PackageSource::Pacman, false)
    }
}

/// What a plain search result says: name, version, description, source and
/// whether it is installed.
pub type Summary = (Seq<char>, Seq<char>, Seq<char>, PackageSource, bool);

pub open spec fn summary(p: Package) -> Summary {
    (p.name@, p.version@, p.description@, p.source, p.is_installed)
}

pub open spec fn summaries(v: Seq<Package>) -> Seq<Summary> {
    v.map_values(|p: Package| summary(p))
}

/// Every package carries nothing beyond its summary.
pub open spec fn all_plain(v: Seq<Package>) -> bool {
    forall|i: int| 0 <= i < v.len() ==> #[trigger] v[i].has_default_extras()
}

/// Appends a plain package to a list, keeping the list's summaries in step.
pub fn push_plain(out: &mut Vec<Package>, p: Package)
    requires
        p.has_default_extras(),
        all_plain(old(out)@),
    ensures
        summaries(final(out)@) == summaries(old(out)@).push(summary(p)),
        all_plain(final(out)@),
{
    let ghost before = out@;
    let ghost sp = summary(p);
    out.push(p);
    assert(summaries(out@) =~= summaries(before).push(sp));
}

/// Copies a list of packages, each with every field.
pub fn duplicate_packages(v: &Vec<Package>) -> (r: Vec<Package>)
    ensures
        r@.len() == v@.len(),
        forall|i: int| 0 <= i < v@.len() ==> #[trigger] r@[i].same_as(&v@[i]),
{
    let mut r: Vec<Package> = Vec::new();
    let mut i: usize = 0;
    while i < v.len()
        invariant
            i <= v.len(),
            r@.len() == i,
            forall|j: int| 0 <= j < i ==> #[trigger] r@[j].same_as(&v@[j]),
        decreases v.len() - i,
    {
        r.push(v[i].duplicate());
        i += 1;
    }
    r
}

/// An installed package for which a newer version is available.
#[derive(Debug, Clone)]
pub struct OutdatedPackage {
    pub name: String,
    pub current_version: String,
    pub new_version: String,
    pub repository: String,
    pub is_aur: bool,
    pub download_size: u64,
    pub new_dependencies: Vec<String>,
}

impl OutdatedPackage {
    pub fn new(name: String, current_version: String, new_version: String, repository: String) -> (p: OutdatedPackage)
        ensures
            p.name@ == name@,
            p.current_version@ == current_version@,
            p.new_version@ == new_version@,
            p.repository@ == repository@,
            !p.is_aur,
            p.download_size == 0,
            p.new_dependencies@.len() == 0,
    {
        OutdatedPackage {
            name,
            current_version,
            new_version,
            repository,
            is_aur: false,
            download_size: 0,
            new_dependencies: Vec::new(),
        }
    }
}

/// Search settings.
#[derive(Debug)]
pub struct SearchConfig {
    pub cache_ttl_seconds: u64,
}

/// Application settings that the service layer reads.
#[derive(Debug)]
pub struct AppConfig {
    /// `paru`, `yay` or `pacman`; anything else asks for detection.
    pub aur_helper: String,
    pub search: SearchConfig,
}

impl Default for AppConfig {
    fn default() -> (c: AppConfig)
        ensures
            c.aur_helper@ == seq!['a', 'u', 't', 'o'],
            c.search.cache_ttl_seconds == 300,
    {
        let mut h = String::new();
        crate::text::string_push(&mut h, 'a');
        crate::text::string_push(&mut h, 'u');
        crate::text::string_push(&mut h, 't');
        crate::text::string_push(&mut h, 'o');
        AppConfig { aur_helper: h, search: SearchConfig { cache_ttl_seconds: 300 } }
    }
}

impl AppConfig {
    /// Settings that name the AUR helper to use.
    pub fn with_aur_helper(helper: &str) -> (c: AppConfig)
        ensures
            c.aur_helper@ == helper@,
            c.search.cache_ttl_seconds == 300,
    {
        AppConfig { aur_helper: helper.to_owned(), search: SearchConfig { cache_ttl_seconds: 300 } }
    }
}

/// Errors of the package operations.
#[derive(Debug)]
pub enum AppError {
    Pacman(String),
    Aur(String),
    Cargo(String),
    Other(String),
}

/// The package managers that can be found on a system.
#[derive(Debug, Clone, Copy, PartialEq, Eq, Structural)]
pub enum PackageManager {
    Pacman,
    Apt,
    Brew,
    Scoop,
    Dnf,
    Zypper,
    Apk,
    Unknown,
}

/// The search backends a service can consult.
#[derive(Debug, Clone, Copy, PartialEq, Eq, Structural)]
pub enum ProviderKind {
    Pacman,
    Aur,
    Apt,
    Brew,
    Scoop,
    Dnf,
    Zypper,
    Apk,
    Npm,
    Cargo,
    Pip,
}

} // verus!
