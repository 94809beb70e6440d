//! pip: the PyPI JSON API.
use vstd::prelude::*;

use super::http::{simple_client, simple_settings_spec, HttpClient, SettingsView};

use crate::models::{opt_view, Package, PackageSource};
use crate::pattern::{percent_encode, url_encode};
use vstd::utf8::encode_utf8;

verus! {

/// Pip package provider implementation
pub struct PipProvider {
    client: HttpClient,
}

/// PyPI's answer for one project.
#[derive(Debug)]
pub struct PypiResponse {
    pub info: PypiInfo,
}

#[derive(Debug)]
pub struct PypiInfo {
    pub name: String,
    pub version: String,
    pub summary: Option<String>,
    pub home_page: Option<String>,
    pub project_url: Option<String>,
    pub author: Option<String>,
    pub license: Option<String>,
}

/// The view of an optional string as a list of at most one element.
pub open spec fn opt_list(o: Option<String>) -> Seq<Seq<char>> {
    match o {
        Some(s) => seq![s@],
        None => Seq::empty(),
    }
}

/// The package made from a PyPI project description.
pub open spec fn pypi_package_ok(r: Package, i: PypiInfo) -> bool {
    &&& r.name@ == i.name@
    &&& r.version@ == i.version@
    &&& r.description@ == match i.summary {
        Some(d) => d@,
        None => Seq::empty(),
    }
    &&& r.source == PackageSource::Pip
    &&& !r.is_installed
    &&& opt_view(r.url) == match i.project_url {
        Some(u) => Some(u@),
        None => opt_view(i.home_page),
    }
    &&& r.maintainers.deep_view() == opt_list(i.author)
    &&& r.licenses.deep_view() == opt_list(i.license)
    &&& !r.is_outdated
    &&& r.installed_size is None
    &&& r.download_size is None
    &&& r.groups@.len() == 0
    &&& r.keywords@.len() == 0
    &&& r.depends_on@.len() == 0
    &&& r.required_by@.len() == 0
    &&& r.opt_depends@.len() == 0
    &&& r.conflicts@.len() == 0
    &&& r.replaces@.len() == 0
    &&& r.provides@.len() == 0
    &&& r.votes is None
    &&& r.first_submitted is None
    &&& r.last_updated is None
    &&& r.package_base_id is None
    &&& r.num_votes is None
}

/// The JSON API URL of a project.
pub open spec fn pypi_url_spec(query: Seq<char>) -> Seq<char> {
    "https://pypi.org/pypi/"@ + percent_encode(encode_utf8(query)) + "/json"@
}

fn opt_to_list(o: Option<String>) -> (r: Vec<String>)
    ensures
        r.deep_view() == opt_list(o),
{
    let mut v: Vec<String> = Vec::new();
    match o {
        Some(s) => {
            let ghost sv = s@;
            v.push(s);
            assert(v.deep_view() =~= seq![sv]);
        },
        None => {
            assert(v.deep_view() =~= Seq::<Seq<char>>::empty());
        },
    }
    v
}

impl PipProvider {
    /// A provider with an HTTP client that times out after 10 seconds and
    /// sends the crate's user agent; `None` where reqwest cannot build that
    /// client.
    pub fn new() -> (r: Option<PipProvider>)
        ensures
            r matches Some(p) ==> p.http_client().settings() == simple_settings_spec(10),
    {
        match simple_client(10) {
            Some(client) => Some(PipProvider { client }),
            None => None,
        }
    }

    /// A provider that sends its requests with `client`, a client built
    /// with reqwest's defaults.
    pub fn with_client(client: reqwest::Client) -> (r: PipProvider)
        ensures
            r.http_client().inner() == client,
            r.http_client().settings() == SettingsView::Default,
    {
        PipProvider { client: HttpClient::from_default(client) }
    }

    /// The HTTP client the provider was made with.
    pub closed spec fn http_client(&self) -> HttpClient {
        self.client
    }

    /// The HTTP client of the provider.
    pub fn client(&self) -> (r: &reqwest::Client)
        ensures
            *r == self.http_client().inner(),
    {
        self.client.client()
    }

    /// The URL of the project named `query`.
    pub fn search_url(query: &str) -> (r: String)
        ensures
            r@ == pypi_url_spec(query@),
    {
        let mut r = "https://pypi.org/pypi/".to_owned();
        let enc = url_encode(query);
        r.append(enc.as_str());
        r.append("/json");
        r
    }

    /// The package a PyPI project description gives.
    pub fn package_from(info: PypiInfo) -> (r: Package)
        ensures
            pypi_package_ok(r, info),
    {
        let PypiInfo { name, version, summary, home_page, project_url, author, license } = info;
        let description = match summary {
            Some(d) => d,
            None => String::new(),
        };
        let url = match project_url {
            Some(u) => Some(u),
            None => home_page,
        };
        let mut p = Package::basic(name, version, description, PackageSource::Pip, false);
        p.url = url;
        p.maintainers = opt_to_list(author);
        p.licenses = opt_to_list(license);
        p
    }
}

} // verus!
