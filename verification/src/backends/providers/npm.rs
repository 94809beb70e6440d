//! npm: the registry's search response and the request for it.
use vstd::prelude::*;

use super::http::{simple_client, simple_settings_spec, HttpClient, SettingsView};

use crate::models::{opt_view, Package, PackageSource};
use crate::pattern::{percent_encode, url_encode};
use crate::text::str_eq;
use vstd::utf8::encode_utf8;

verus! {

/// NPM package provider implementation
pub struct NpmProvider {
    client: HttpClient,
}

/// The registry's answer to a search.
#[derive(Debug)]
pub struct NpmResponse {
    pub objects: Vec<NpmResult>,
}

#[derive(Debug)]
pub struct NpmResult {
    pub package: NpmPackage,
}

#[derive(Debug)]
pub struct NpmPackage {
    pub name: String,
    pub version: String,
    pub description: Option<String>,
    pub keywords: Option<Vec<String>>,
    pub links: Option<NpmLinks>,
    pub publisher: Option<NpmUser>,
    pub maintainers: Option<Vec<NpmUser>>,
    pub license: Option<String>,
}

#[derive(Debug)]
pub struct NpmLinks {
    pub npm: Option<String>,
}

#[derive(Debug)]
pub struct NpmUser {
    pub username: Option<String>,
}

/// `list` with `x` appended unless it is already there.
pub open spec fn add_unique(list: Seq<Seq<char>>, x: Seq<char>) -> Seq<Seq<char>> {
    if list.contains(x) {
        list
    } else {
        list.push(x)
    }
}

/// The user names of a list of maintainers, added to `base` in order
/// without repeats.
pub open spec fn add_users(base: Seq<Seq<char>>, users: Seq<NpmUser>) -> Seq<Seq<char>>
    decreases users.len(),
{
    if users.len() == 0 {
        base
    } else {
        let acc = add_users(base, users.drop_last());
        match users.last().username {
            Some(n) => add_unique(acc, n@),
            None => acc,
        }
    }
}

/// The maintainers of an npm package: the publisher first, then the listed
/// maintainers that are not already there.
pub open spec fn npm_maintainers(p: NpmPackage) -> Seq<Seq<char>> {
    maintainers_spec(p.publisher, p.maintainers)
}

pub open spec fn maintainers_spec(publisher: Option<NpmUser>, maintainers: Option<Vec<NpmUser>>) -> Seq<Seq<char>> {
    let base: Seq<Seq<char>> = match publisher {
        Some(u) => match u.username {
            Some(n) => seq![n@],
            None => Seq::empty(),
        },
        None => Seq::empty(),
    };
    match maintainers {
        Some(ms) => add_users(base, ms@),
        None => base,
    }
}

/// The package made from an npm search result.
pub open spec fn npm_package_ok(r: Package, p: NpmPackage) -> bool {
    &&& r.name@ == p.name@
    &&& r.version@ == p.version@
    &&& r.description@ == match p.description {
        Some(d) => d@,
        None => Seq::empty(),
    }
    &&& r.source == PackageSource::Npm
    &&& !r.is_installed
    &&& !r.is_outdated
    &&& r.installed_size is None
    &&& r.download_size is None
    &&& r.groups@.len() == 0
    &&& r.licenses.deep_view() == match p.license {
        Some(l) => seq![l@],
        None => Seq::empty(),
    }
    &&& r.maintainers.deep_view() == npm_maintainers(p)
    &&& r.keywords.deep_view() == match p.keywords {
        Some(k) => k.deep_view(),
        None => Seq::empty(),
    }.push("npm"@)
    &&& opt_view(r.url) == match p.links {
        Some(l) => opt_view(l.npm),
        None => None,
    }
    &&& r.depends_on@.len() == 0
    &&& r.required_by@.len() == 0
    &&& r.opt_depends@.len() == 0
    &&& r.conflicts@.len() == 0
    &&& r.replaces@.len() == 0
    &&& r.provides@.len() == 0
    &&& r.votes is None
    &&& r.first_submitted is None
    &&& r.last_updated is None
    &&& r.package_base_id is None
    &&& r.num_votes is None
}

/// The search URL for a query.
pub open spec fn npm_search_url_spec(query: Seq<char>) -> Seq<char> {
    "https://registry.npmjs.org/-/v1/search?text="@ + percent_encode(encode_utf8(query))
        + "&size=40"@
}

fn contains_string(v: &Vec<String>, s: &str) -> (r: bool)
    ensures
        r == v.deep_view().contains(s@),
{
    let mut i: usize = 0;
    while i < v.len()
        invariant
            i <= v.len(),
            forall|j: int| 0 <= j < i ==> v@[j]@ != s@,
        decreases v.len() - i,
    {
        if str_eq(v[i].as_str(), s) {
            assert(v.deep_view()[i as int] == s@);
            return true;
        }
        i += 1;
    }
    assert forall|j: int| 0 <= j < v.deep_view().len() implies v.deep_view()[j] != s@ by {
        assert(v.deep_view()[j] == v@[j]@);
    }
    false
}

impl NpmProvider {
    /// A provider with an HTTP client that times out after 10 seconds and
    /// sends the crate's user agent; `None` where reqwest cannot build that
    /// client.
    pub fn new() -> (r: Option<NpmProvider>)
        ensures
            r matches Some(p) ==> p.http_client().settings() == simple_settings_spec(10),
    {
        match simple_client(10) {
            Some(client) => Some(NpmProvider { client }),
            None => None,
        }
    }

    /// A provider that sends its requests with `client`, a client built
    /// with reqwest's defaults.
    pub fn with_client(client: reqwest::Client) -> (r: NpmProvider)
        ensures
            r.http_client().inner() == client,
            r.http_client().settings() == SettingsView::Default,
    {
        NpmProvider { client: HttpClient::from_default(client) }
    }

    /// The HTTP client the provider was made with.
    pub closed spec fn http_client(&self) -> HttpClient {
        self.client
    }

    /// The HTTP client of the provider.
    pub fn client(&self) -> (r: &reqwest::Client)
        ensures
            *r == self.http_client().inner(),
    {
        self.client.client()
    }

    /// The registry URL that searches for `query`.
    pub fn search_url(query: &str) -> (r: String)
        ensures
            r@ == npm_search_url_spec(query@),
    {
        let mut r = "https://registry.npmjs.org/-/v1/search?text=".to_owned();
        let enc = url_encode(query);
        r.append(enc.as_str());
        r.append("&size=40");
        r
    }

    fn maintainers_of(publisher: Option<NpmUser>, maintainers: Option<Vec<NpmUser>>) -> (r: Vec<String>)
        ensures
            r.deep_view() == maintainers_spec(publisher, maintainers),
    {
        let mut out: Vec<String> = Vec::new();
        match publisher {
            Some(u) => match u.username {
                Some(n) => {
                    let ghost nv = n@;
                    out.push(n);
                    assert(out.deep_view() =~= seq![nv]);
                },
                None => {
                    assert(out.deep_view() =~= Seq::<Seq<char>>::empty());
                },
            },
            None => {
                assert(out.deep_view() =~= Seq::<Seq<char>>::empty());
            },
        }
        let ghost base = out.deep_view();
        match maintainers {
            Some(ms) => {
                let ghost users = ms@;
                assert(users.len() == ms.len());
                let mut rest = ms;
                let mut k: usize = 0;
                assert(users.take(0) =~= Seq::<NpmUser>::empty());
                while rest.len() > 0
                    invariant
                        k + rest@.len() == users.len(),
                        users.len() <= usize::MAX,
                        rest@ == users.skip(k as int),
                        out.deep_view() == add_users(base, users.take(k as int)),
                    decreases rest@.len(),
                {
                    let ghost before_rest = rest@;
                    let m = rest.remove(0);
                    proof {
                        assert(m == users[k as int]);
                        assert(rest@ =~= users.skip(k + 1));
                        crate::text::lemma_take_step(users, k as int);
                    }
                    match m.username {
                        Some(n) => {
                            if !contains_string(&out, n.as_str()) {
                                let ghost before = out.deep_view();
                                let ghost nv = n@;
                                out.push(n);
                                assert(out.deep_view() =~= before.push(nv));
                            }
                        },
                        None => {},
                    }
                    k += 1;
                }
                assert(users.take(k as int) =~= users);
            },
            None => {},
        }
        out
    }

    /// The package made from one search result.
    pub fn package_from(pkg: NpmPackage) -> (r: Package)
        ensures
            npm_package_ok(r, pkg),
    {
        let ghost orig = pkg;
        let NpmPackage { name, version, description, keywords, links, publisher, maintainers, license } = pkg;
        let mut kw = match keywords {
            Some(k) => k,
            None => Vec::new(),
        };
        let ghost kv = kw.deep_view();
        kw.push("npm".to_owned());
        assert(kw.deep_view() =~= kv.push("npm"@));
        let maint = Self::maintainers_of(publisher, maintainers);
        let mut licenses: Vec<String> = Vec::new();
        match license {
            Some(l) => {
                let ghost lv = l@;
                licenses.push(l);
                assert(licenses.deep_view() =~= seq![lv]);
            },
            None => {
                assert(licenses.deep_view() =~= Seq::<Seq<char>>::empty());
            },
        }
        let url = match links {
            Some(l) => l.npm,
            None => None,
        };
        let description = match description {
            Some(d) => d,
            None => String::new(),
        };
        let mut p = Package::basic(name, version, description, PackageSource::Npm, false);
        p.licenses = licenses;
        p.maintainers = maint;
        p.keywords = kw;
        p.url = url;
        p
    }

    /// The packages of a registry search response, in order.
    pub fn parse_npm_response(npm_response: NpmResponse) -> (r: Vec<Package>)
        ensures
            r@.len() == npm_response.objects@.len(),
            forall|i: int|
                0 <= i < r@.len() ==> #[trigger] npm_package_ok(
                    r@[i],
                    npm_response.objects@[i].package,
                ),
    {
        let ghost objs = npm_response.objects@;
        assert(objs.len() == npm_response.objects.len());
        let mut rest = npm_response.objects;
        let mut out: Vec<Package> = Vec::new();
        let mut k: usize = 0;
        while rest.len() > 0
            invariant
                k + rest@.len() == objs.len(),
                objs.len() <= usize::MAX,
                rest@ == objs.skip(k as int),
                out@.len() == k,
                forall|i: int| 0 <= i < k ==> #[trigger] npm_package_ok(out@[i], objs[i].package),
            decreases rest@.len(),
        {
            let obj = rest.remove(0);
            proof {
                assert(obj == objs[k as int]);
                assert(rest@ =~= objs.skip(k + 1));
            }
            out.push(Self::package_from(obj.package));
            k += 1;
        }
        out
    }
}

} // verus!
