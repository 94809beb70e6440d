//! The service layer: the search cache, the choice of providers, and the
//! pure parts of the maintenance tools (pacman log, `.pacnew`/`.pacsave`
//! files, archived versions, downgrades).
use vstd::prelude::*;

use crate::clock::{elapsed_nanos, instant_now};
use crate::commands::CommandSpec;
use crate::models::{duplicate_packages, AppConfig, Package, PackageManager, ProviderKind};
use crate::pattern::{regex_captures, regex_compiles, Pattern};
use crate::query::{query_filters, query_text, unconstrained, QuerySpec};
use crate::sorting::{stable_sort, stable_sorted, SortKey};
use crate::text::{
    chars_of, contains, contains_seq, lines, lines_of, seq_lt, split_char, split_on, str_eq,
    str_lt, string_from, string_push, trim, trim_str, ws_tokens, split_whitespace, lowercase,
    to_lowercase,
};

verus! {

// ---------------------------------------------------------------------------
// Search cache
// ---------------------------------------------------------------------------

/// One cached search.
pub struct CacheEntry {
    query: String,
    results: Vec<Package>,
    stored_at: std::time::Instant,
}

/// Search results by query, each with the time it was stored.
pub struct SearchCache {
    entries: Vec<CacheEntry>,
}

/// `v` copies `s` package by package.
pub open spec fn copies(v: Seq<Package>, s: Seq<Package>) -> bool {
    v.len() == s.len() && forall|i: int| 0 <= i < s.len() ==> #[trigger] v[i].same_as(&s[i])
}

/// Nanoseconds in a second.
pub open spec fn nanos_per_sec() -> int {
    1_000_000_000
}

/// Whether an entry `age_nanos` old is still younger than a time to live
/// of `ttl_secs` seconds.
pub open spec fn is_fresh(age_nanos: u128, ttl_secs: u64) -> bool {
    age_nanos < ttl_secs * nanos_per_sec()
}

/// The cache's answer for a query whose stored results are `found`, when a
/// stored entry is (`fresh`) or is not younger than the time to live.
pub open spec fn cache_answer(found: Option<Seq<Package>>, fresh: bool, r: Option<Vec<Package>>) -> bool {
    match found {
        None => r is None,
        Some(s) => if fresh {
            r matches Some(v) && copies(v@, s)
        } else {
            r is None
        },
    }
}

impl SearchCache {
    /// Each query occurs at most once.
    #[verifier::type_invariant]
    spec fn unique_queries(&self) -> bool {
        forall|i: int, j: int|
            0 <= i < j < self.entries@.len() ==> #[trigger] self.entries@[i].query@
                != #[trigger] self.entries@[j].query@
    }

    /// The results stored for `query`, if any.
    pub closed spec fn lookup(&self, query: Seq<char>) -> Option<Seq<Package>> {
        if exists|i: int| 0 <= i < self.entries@.len() && self.entries@[i].query@ == query {
            let i = choose|i: int| 0 <= i < self.entries@.len() && self.entries@[i].query@ == query;
            Some(self.entries@[i].results@)
        } else {
            None
        }
    }

    /// An empty cache.
    pub fn new() -> (r: SearchCache)
        ensures
            forall|q: Seq<char>| #[trigger] r.lookup(q) is None,
    {
        SearchCache { entries: Vec::new() }
    }

    fn find(&self, query: &str) -> (r: Option<usize>)
        ensures
            match r {
                Some(i) => i < self.entries@.len() && self.entries@[i as int].query@ == query@,
                None => forall|i: int|
                    0 <= i < self.entries@.len() ==> self.entries@[i].query@ != query@,
            },
    {
        let mut i: usize = 0;
        while i < self.entries.len()
            invariant
                i <= self.entries@.len(),
                forall|j: int| 0 <= j < i ==> self.entries@[j].query@ != query@,
            decreases self.entries@.len() - i,
        {
            if str_eq(self.entries[i].query.as_str(), query) {
                return Some(i);
            }
            i += 1;
        }
        None
    }

    proof fn lemma_lookup_at(&self, i: int)
        requires
            self.unique_queries(),
            0 <= i < self.entries@.len(),
        ensures
            self.lookup(self.entries@[i].query@) == Some(self.entries@[i].results@),
    {
        let q = self.entries@[i].query@;
        let k = choose|k: int| 0 <= k < self.entries@.len() && self.entries@[k].query@ == q;
        if k != i {
            if k < i {
                assert(self.entries@[k].query@ != self.entries@[i].query@);
            } else {
                assert(self.entries@[i].query@ != self.entries@[k].query@);
            }
        }
    }

    /// The results stored for `query` while they are younger than
    /// `ttl_secs` seconds. The age of the entry is a reading of the clock;
    /// for that reading the answer is the one [`Self::get_cached_aged`]
    /// gives: `None` when nothing is stored or the entry is not younger than
    /// the time to live (always, for a time to live of zero), else a copy of
    /// the stored results.
    pub fn get_cached(&self, query: &str, ttl_secs: u64) -> (r: Option<Vec<Package>>)
        ensures
            exists|age_nanos: u128|
                cache_answer(self.lookup(query@), #[trigger] is_fresh(age_nanos, ttl_secs), r),
            ttl_secs == 0 ==> r is None,
            r matches Some(v) ==> (self.lookup(query@) matches Some(s) && copies(v@, s)),
    {
        proof {
            use_type_invariant(self);
        }
        match self.find(query) {
            None => {
                let r = None;
                assert(cache_answer(self.lookup(query@), is_fresh(0, ttl_secs), r));
                r
            },
            Some(i) => {
                let age = elapsed_nanos(&self.entries[i].stored_at);
                let r = self.get_cached_aged(query, ttl_secs, age);
                assert(cache_answer(self.lookup(query@), is_fresh(age, ttl_secs), r));
                r
            },
        }
    }

    /// The answer of the cache for `query` when the entry stored for it is
    /// `age_nanos` nanoseconds old: a copy of the stored results if there is
    /// an entry and it is younger than `ttl_secs` seconds, else `None`.
    pub fn get_cached_aged(&self, query: &str, ttl_secs: u64, age_nanos: u128) -> (r: Option<
        Vec<Package>,
    >)
        ensures
            cache_answer(self.lookup(query@), is_fresh(age_nanos, ttl_secs), r),
    {
        proof {
            use_type_invariant(self);
        }
        let ttl_nanos: u128 = (ttl_secs as u128) * 1_000_000_000u128;
        let fresh = age_nanos < ttl_nanos;
        match self.find(query) {
            None => None,
            Some(i) => {
                proof {
                    self.lemma_lookup_at(i as int);
                }
                self.cached_at(i, fresh)
            },
        }
    }

    /// The copy of entry `i` when it is still fresh.
    fn cached_at(&self, i: usize, fresh: bool) -> (r: Option<Vec<Package>>)
        requires
            i < self.entries@.len(),
        ensures
            fresh ==> (r matches Some(v) && v@.len() == self.entries@[i as int].results@.len()
                && forall|j: int|
                0 <= j < v@.len() ==> #[trigger] v@[j].same_as(&self.entries@[i as int].results@[j])),
            !fresh ==> r is None,
    {
        if fresh {
            Some(duplicate_packages(&self.entries[i].results))
        } else {
            None
        }
    }

    /// Stores `results` for `query`, replacing what was stored for it.
    pub fn put_cached(&mut self, query: &str, results: Vec<Package>)
        ensures
            final(self).lookup(query@) == Some(results@),
            forall|q: Seq<char>| q != query@ ==> #[trigger] final(self).lookup(q) == old(self).lookup(q),
    {
        proof {
            use_type_invariant(&*self);
        }
        let ghost old_self = *self;
        assert(old_self.unique_queries());
        let now = instant_now();
        let entry = CacheEntry { query: query.to_owned(), results, stored_at: now };
        let found = self.find(query);
        let mut entries: Vec<CacheEntry> = Vec::new();
        std::mem::swap(&mut entries, &mut self.entries);
        match found {
            Some(i) => {
                entries.set(i, entry);
                assert forall|a: int, b: int|
                    0 <= a < b < entries@.len() implies #[trigger] entries@[a].query@
                    != #[trigger] entries@[b].query@ by {
                    assert(old_self.entries@[a].query@ != old_self.entries@[b].query@);
                }
                self.entries = entries;
                proof {
                    use_type_invariant(&*self);
                    self.lemma_lookup_at(i as int);
                    assert forall|q: Seq<char>| q != query@ implies #[trigger] self.lookup(q)
                        == old_self.lookup(q) by {
                        self.lemma_lookup_same(&old_self, q, i as int);
                    }
                }
            },
            None => {
                entries.push(entry);
                assert forall|a: int, b: int|
                    0 <= a < b < entries@.len() implies #[trigger] entries@[a].query@
                    != #[trigger] entries@[b].query@ by {
                    if b < old_self.entries@.len() {
                        assert(old_self.entries@[a].query@ != old_self.entries@[b].query@);
                    }
                }
                self.entries = entries;
                proof {
                    use_type_invariant(&*self);
                    let n = self.entries@.len() - 1;
                    self.lemma_lookup_at(n);
                    assert forall|q: Seq<char>| q != query@ implies #[trigger] self.lookup(q)
                        == old_self.lookup(q) by {
                        self.lemma_lookup_same(&old_self, q, n);
                    }
                }
            },
        }
    }

    proof fn lemma_lookup_same(&self, other: &SearchCache, q: Seq<char>, changed: int)
        requires
            self.unique_queries(),
            other.unique_queries(),
            self.entries@.len() >= other.entries@.len(),
            self.entries@.len() <= other.entries@.len() + 1,
            0 <= changed < self.entries@.len(),
            self.entries@[changed].query@ != q,
            changed < other.entries@.len() ==> other.entries@[changed].query@ != q,
            forall|i: int|
                0 <= i < other.entries@.len() && i != changed ==> #[trigger] self.entries@[i]
                    == other.entries@[i],
            self.entries@.len() == other.entries@.len() + 1 ==> changed == other.entries@.len(),
        ensures
            self.lookup(q) == other.lookup(q),
    {
        if exists|i: int| 0 <= i < other.entries@.len() && other.entries@[i].query@ == q {
            let i = choose|i: int| 0 <= i < other.entries@.len() && other.entries@[i].query@ == q;
            assert(self.entries@[i] == other.entries@[i]);
            self.lemma_lookup_at(i);
            other.lemma_lookup_at(i);
        } else {
            assert forall|i: int| 0 <= i < self.entries@.len() implies self.entries@[i].query@
                != q by {
                if i != changed {
                    assert(self.entries@[i] == other.entries@[i]);
                }
            }
        }
    }

    /// Forgets everything.
    pub fn clear(&mut self)
        ensures
            forall|q: Seq<char>| #[trigger] final(self).lookup(q) is None,
    {
        self.entries = Vec::new();
    }
}

impl Default for SearchCache {
    fn default() -> (r: SearchCache)
        ensures
            forall|q: Seq<char>| #[trigger] r.lookup(q) is None,
    {
        SearchCache::new()
    }
}

// ---------------------------------------------------------------------------
// Merging search results
// ---------------------------------------------------------------------------

/// The index of the result with the same source and name as `p`, searching
/// from `k`; -1 when none.
pub open spec fn same_index_from(acc: Seq<Package>, p: Package, k: int) -> int
    decreases acc.len() - k,
{
    if k < 0 || k >= acc.len() {
        -1
    } else if acc[k].source == p.source && acc[k].name@ == p.name@ {
        k
    } else {
        same_index_from(acc, p, k + 1)
    }
}

/// A result merged with a duplicate: installed if either says so, and the
/// duplicate's description where it had none.
pub open spec fn merge_spec(e: Package, p: Package) -> Package {
    Package {
        is_installed: e.is_installed || p.is_installed,
        description: if e.description@.len() == 0 && p.description@.len() > 0 {
            p.description
        } else {
            e.description
        },
        ..e
    }
}

pub open spec fn dedup_step(acc: Seq<Package>, p: Package) -> Seq<Package> {
    let k = same_index_from(acc, p, 0);
    if k >= 0 {
        acc.update(k, merge_spec(acc[k], p))
    } else {
        acc.push(p)
    }
}

/// The results with one entry per source and name, in order of first
/// appearance, each merged with its duplicates.
pub open spec fn dedup_spec(ps: Seq<Package>) -> Seq<Package>
    decreases ps.len(),
{
    if ps.len() == 0 {
        Seq::empty()
    } else {
        dedup_step(dedup_spec(ps.drop_last()), ps.last())
    }
}

proof fn lemma_same_index_found(acc: Seq<Package>, p: Package, k: int)
    requires
        same_index_from(acc, p, k) >= 0,
    ensures
        0 <= same_index_from(acc, p, k) < acc.len(),
        acc[same_index_from(acc, p, k)].source == p.source,
        acc[same_index_from(acc, p, k)].name@ == p.name@,
    decreases acc.len() - k,
{
    if k >= 0 && k < acc.len() && !(acc[k].source == p.source && acc[k].name@ == p.name@) {
        lemma_same_index_found(acc, p, k + 1);
    }
}

/// Two results for the same package: same source and same name.
pub open spec fn same_key(a: Package, b: Package) -> bool {
    a.source == b.source && a.name@ == b.name@
}

proof fn lemma_same_index_none(acc: Seq<Package>, p: Package, k: int)
    requires
        0 <= k,
        same_index_from(acc, p, k) < 0,
    ensures
        forall|j: int| k <= j < acc.len() ==> !same_key(#[trigger] acc[j], p),
    decreases acc.len() - k,
{
    if k < acc.len() {
        lemma_same_index_none(acc, p, k + 1);
    }
}

/// Merging keeps one entry per package, and every package of the input has
/// an entry, which is installed when that input was.
pub proof fn law_dedup_one_entry_per_package(ps: Seq<Package>)
    ensures
        forall|i: int, j: int|
            0 <= i < j < dedup_spec(ps).len() ==> !same_key(
                #[trigger] dedup_spec(ps)[i],
                #[trigger] dedup_spec(ps)[j],
            ),
        forall|m: int|
            #![trigger ps[m]]
            0 <= m < ps.len() ==> exists|i: int|
                0 <= i < dedup_spec(ps).len() && same_key(
                    #[trigger] dedup_spec(ps)[i],
                    ps[m],
                ) && (ps[m].is_installed ==> dedup_spec(ps)[i].is_installed),
    decreases ps.len(),
{
    if ps.len() > 0 {
        let prev = ps.drop_last();
        law_dedup_one_entry_per_package(prev);
        let acc = dedup_spec(prev);
        let p = ps.last();
        let r = dedup_spec(ps);
        let k = same_index_from(acc, p, 0);
        if k >= 0 {
            lemma_same_index_found(acc, p, 0);
            assert(r == acc.update(k, merge_spec(acc[k], p)));
            assert forall|i: int| 0 <= i < r.len() implies #[trigger] same_key(r[i], acc[i])
                && same_key(acc[i], r[i]) by {}
            assert forall|i: int, j: int| 0 <= i < j < r.len() implies !same_key(
                #[trigger] r[i],
                #[trigger] r[j],
            ) by {
                assert(same_key(r[i], acc[i]) && same_key(r[j], acc[j]));
                assert(!same_key(acc[i], acc[j]));
            }
            assert forall|m: int| #![trigger ps[m]] 0 <= m < ps.len() implies exists|i: int|
                0 <= i < r.len() && same_key(#[trigger] r[i], ps[m]) && (ps[m].is_installed
                    ==> r[i].is_installed) by {
                if m < ps.len() - 1 {
                    assert(ps[m] == prev[m]);
                    let i = choose|i: int|
                        0 <= i < acc.len() && same_key(#[trigger] acc[i], prev[m]) && (
                        prev[m].is_installed ==> acc[i].is_installed);
                    assert(same_key(r[i], acc[i]));
                } else {
                    assert(same_key(r[k], p));
                }
            }
        } else {
            lemma_same_index_none(acc, p, 0);
            assert(r == acc.push(p));
            assert forall|i: int, j: int| 0 <= i < j < r.len() implies !same_key(
                #[trigger] r[i],
                #[trigger] r[j],
            ) by {
                if j == r.len() - 1 {
                    assert(!same_key(acc[i], p));
                } else {
                    assert(r[i] == acc[i] && r[j] == acc[j]);
                }
            }
            assert forall|m: int| #![trigger ps[m]] 0 <= m < ps.len() implies exists|i: int|
                0 <= i < r.len() && same_key(#[trigger] r[i], ps[m]) && (ps[m].is_installed
                    ==> r[i].is_installed) by {
                if m < ps.len() - 1 {
                    assert(ps[m] == prev[m]);
                    let i = choose|i: int|
                        0 <= i < acc.len() && same_key(#[trigger] acc[i], prev[m]) && (
                        prev[m].is_installed ==> acc[i].is_installed);
                    assert(r[i] == acc[i]);
                } else {
                    assert(r[r.len() - 1] == p);
                }
            }
        }
    }
}

/// Some result in `ps` with the source and name of `x` is installed.
#[verifier::opaque]
pub open spec fn reported_installed(ps: Seq<Package>, x: Package) -> bool {
    exists|j: int| 0 <= j < ps.len() && same_key(#[trigger] ps[j], x) && ps[j].is_installed
}

proof fn lemma_reported_push(prev: Seq<Package>, p: Package, x: Package)
    ensures
        reported_installed(prev.push(p), x) <==> (reported_installed(prev, x) || (same_key(p, x)
            && p.is_installed)),
{
    reveal(reported_installed);
    let ps = prev.push(p);
    if reported_installed(ps, x) {
        let j = choose|j: int| 0 <= j < ps.len() && same_key(#[trigger] ps[j], x) && ps[j].is_installed;
        if j < prev.len() {
            assert(prev[j] == ps[j]);
        }
    }
    if reported_installed(prev, x) {
        let j = choose|j: int| 0 <= j < prev.len() && same_key(#[trigger] prev[j], x) && prev[j].is_installed;
        assert(prev[j] == ps[j]);
    }
    if same_key(p, x) && p.is_installed {
        assert(ps[prev.len() as int] == p);
    }
}

proof fn lemma_reported_same_key(ps: Seq<Package>, x: Package, y: Package)
    requires
        same_key(x, y),
    ensures
        reported_installed(ps, x) == reported_installed(ps, y),
{
    reveal(reported_installed);
    if reported_installed(ps, x) {
        let j = choose|j: int| 0 <= j < ps.len() && same_key(#[trigger] ps[j], x) && ps[j].is_installed;
        assert(same_key(ps[j], y));
    }
    if reported_installed(ps, y) {
        let j = choose|j: int| 0 <= j < ps.len() && same_key(#[trigger] ps[j], y) && ps[j].is_installed;
        assert(same_key(ps[j], x));
    }
}

proof fn lemma_reported_none(prev: Seq<Package>, p: Package)
    requires
        forall|m: int| 0 <= m < dedup_spec(prev).len() ==> !same_key(#[trigger] dedup_spec(prev)[m], p),
    ensures
        !reported_installed(prev, p),
{
    reveal(reported_installed);
    law_dedup_one_entry_per_package(prev);
    if reported_installed(prev, p) {
        let j = choose|j: int| 0 <= j < prev.len() && same_key(#[trigger] prev[j], p) && prev[j].is_installed;
        let acc = dedup_spec(prev);
        let m = choose|m: int| 0 <= m < acc.len() && same_key(#[trigger] acc[m], prev[j]);
        assert(same_key(acc[m], p));
    }
}

/// Every merged result is installed exactly when a result it merges is.
pub open spec fn installed_as_reported(ps: Seq<Package>) -> bool {
    forall|i: int|
        0 <= i < dedup_spec(ps).len() ==> (#[trigger] dedup_spec(ps)[i]).is_installed
            == reported_installed(ps, dedup_spec(ps)[i])
}

proof fn lemma_installed_step_at(prev: Seq<Package>, p: Package, i: int)
    requires
        installed_as_reported(prev),
        forall|a: int, b: int|
            0 <= a < b < dedup_spec(prev).len() ==> !same_key(
                #[trigger] dedup_spec(prev)[a],
                #[trigger] dedup_spec(prev)[b],
            ),
        0 <= i < dedup_step(dedup_spec(prev), p).len(),
    ensures
        dedup_step(dedup_spec(prev), p)[i].is_installed == reported_installed(
            prev.push(p),
            dedup_step(dedup_spec(prev), p)[i],
        ),
{
    let acc = dedup_spec(prev);
    let r = dedup_step(acc, p);
    let k = same_index_from(acc, p, 0);
    lemma_reported_push(prev, p, r[i]);
    if k >= 0 {
        lemma_same_index_found(acc, p, 0);
        assert(r == acc.update(k, merge_spec(acc[k], p)));
        assert(acc[i] == dedup_spec(prev)[i]);
        lemma_reported_same_key(prev, r[i], acc[i]);
        if i != k && same_key(p, acc[i]) {
            if i < k {
                assert(!same_key(acc[i], acc[k]));
            } else {
                assert(!same_key(acc[k], acc[i]));
            }
        }
    } else {
        lemma_same_index_none(acc, p, 0);
        assert(r == acc.push(p));
        if i == acc.len() {
            lemma_reported_none(prev, p);
        } else {
            assert(acc[i] == dedup_spec(prev)[i]);
            assert(!same_key(acc[i], p));
        }
    }
}

proof fn lemma_installed_as_reported(ps: Seq<Package>)
    ensures
        installed_as_reported(ps),
    decreases ps.len(),
{
    if ps.len() > 0 {
        let prev = ps.drop_last();
        let p = ps.last();
        lemma_installed_as_reported(prev);
        law_dedup_one_entry_per_package(prev);
        assert(prev.push(p) =~= ps);
        assert(dedup_spec(ps) == dedup_step(dedup_spec(prev), p));
        assert forall|i: int| 0 <= i < dedup_spec(ps).len() implies (#[trigger] dedup_spec(
            ps,
        )[i]).is_installed == reported_installed(ps, dedup_spec(ps)[i]) by {
            lemma_installed_step_at(prev, p, i);
        }
    }
}

/// A merged result is installed exactly when one of the results it merges
/// (same source and name) is installed: merging never marks a package
/// installed that no provider reported installed, and never loses a
/// provider's report that it is.
pub proof fn law_dedup_installed_iff_reported(ps: Seq<Package>)
    ensures
        forall|i: int|
            #![trigger dedup_spec(ps)[i]]
            0 <= i < dedup_spec(ps).len() ==> (dedup_spec(ps)[i].is_installed <==> exists|j: int|
                0 <= j < ps.len() && same_key(#[trigger] ps[j], dedup_spec(ps)[i]) && ps[j].is_installed),
{
    lemma_installed_as_reported(ps);
    reveal(reported_installed);
}

/// Merges the results of all providers: one entry per source and name, in
/// order of first appearance, installed if any duplicate is, and with the
/// first non-empty description.
pub fn dedup_packages(all: Vec<Package>) -> (r: Vec<Package>)
    ensures
        r@ == dedup_spec(all@),
{
    let ghost orig = all@;
    assert(orig.len() == all.len());
    let mut rest = all;
    let mut acc: Vec<Package> = Vec::new();
    let mut n: usize = 0;
    while rest.len() > 0
        invariant
            n + rest@.len() == orig.len(),
            orig.len() <= usize::MAX,
            rest@ == orig.skip(n as int),
            acc@ == dedup_spec(orig.take(n as int)),
        decreases rest@.len(),
    {
        let p = rest.remove(0);
        proof {
            assert(p == orig[n as int]);
            assert(rest@ =~= orig.skip(n + 1));
            crate::text::lemma_take_step(orig, n as int);
        }
        let ghost before = acc@;
        let mut k: usize = 0;
        while k < acc.len() && !(acc[k].source == p.source && str_eq(acc[k].name.as_str(), p.name.as_str()))
            invariant
                k <= acc@.len(),
                acc@ == before,
                same_index_from(before, p, 0) == same_index_from(before, p, k as int),
            decreases acc@.len() - k,
        {
            k += 1;
        }
        if k < acc.len() {
            let mut e = acc.remove(k);
            if !e.is_installed && p.is_installed {
                e.is_installed = true;
            }
            if e.description.as_str().is_empty() && !p.description.as_str().is_empty() {
                e.description = p.description.clone();
            }
            acc.insert(k, e);
            assert(acc@ =~= before.update(k as int, merge_spec(before[k as int], p)));
        } else {
            acc.push(p);
        }
        n += 1;
    }
    assert(orig.take(orig.len() as int) =~= orig);
    acc
}

/// Whether a result needs its installation state checked against pacman:
/// an AUR package not known to be installed.
pub fn needs_install_check(p: &Package) -> (r: bool)
    ensures
        r == (p.source == crate::models::PackageSource::Aur && !p.is_installed),
{
    p.source == crate::models::PackageSource::Aur && !p.is_installed
}

/// Results are shown by lower-cased name; of two with the same name the
/// pacman one comes before the AUR one.
impl SortKey for Package {
    open spec fn goes_before(&self, other: &Self) -> bool {
        ||| seq_lt(lowercase(self.name@), lowercase(other.name@))
        ||| (lowercase(self.name@) == lowercase(other.name@) && self.source
            == crate::models::PackageSource::Pacman && other.source
            == crate::models::PackageSource::Aur)
    }

    fn exec_goes_before(&self, other: &Self) -> (r: bool) {
        let a = to_lowercase(self.name.as_str());
        let b = to_lowercase(other.name.as_str());
        str_lt(a.as_str(), b.as_str()) || (str_eq(a.as_str(), b.as_str()) && self.source
            == crate::models::PackageSource::Pacman && other.source
            == crate::models::PackageSource::Aur)
    }
}

/// The results of a search in the order they are shown; equal ones keep
/// their order.
pub fn order_results(v: Vec<Package>) -> (r: Vec<Package>)
    ensures
        r@ == stable_sorted(v@),
{
    stable_sort(v)
}

// ---------------------------------------------------------------------------
// Searching across providers
// ---------------------------------------------------------------------------

/// How a search across all providers starts.
#[derive(Debug)]
pub enum SearchStart {
    /// The cache holds fresh results for the query: they are the answer,
    /// and no provider is asked.
    Cached(Vec<Package>),
    /// The query asks for nothing: the answer is no results.
    Nothing,
    /// Ask every provider for this text.
    Query(String),
}

/// The text a query hands to the providers: its free text, or the whole
/// query trimmed when it has none.
pub open spec fn base_query_spec(input: Seq<char>) -> Seq<char> {
    if query_text(input).len() == 0 {
        trim(input)
    } else {
        query_text(input)
    }
}

/// The start of a search for `query` when the cache holds `found` for it
/// and a stored entry is (`fresh`) or is not younger than the time to live.
pub open spec fn search_start_ok(found: Option<Seq<Package>>, fresh: bool, query: Seq<char>, r: SearchStart) -> bool {
    if found is Some && fresh {
        r matches SearchStart::Cached(v) && copies(v@, found->0)
    } else if unconstrained(query_text(query), query_filters(query)) {
        r is Nothing
    } else {
        r matches SearchStart::Query(t) && t@ == base_query_spec(query)
    }
}

/// The first step of a search: the cached results when they are still
/// fresh (the age of the entry is a reading of the clock), else nothing for
/// a query that asks for nothing, else the text to ask the providers for.
/// The cache is only read.
pub fn begin_search(cache: &SearchCache, query: &str, ttl_secs: u64) -> (r: SearchStart)
    ensures
        exists|age_nanos: u128|
            search_start_ok(cache.lookup(query@), #[trigger] is_fresh(age_nanos, ttl_secs), query@, r),
        ttl_secs == 0 ==> !(r is Cached),
{
    let cached = cache.get_cached(query, ttl_secs);
    let ghost age = choose|age_nanos: u128|
        cache_answer(cache.lookup(query@), #[trigger] is_fresh(age_nanos, ttl_secs), cached);
    match cached {
        Some(v) => {
            let r = SearchStart::Cached(v);
            assert(search_start_ok(cache.lookup(query@), is_fresh(age, ttl_secs), query@, r));
            r
        },
        None => {
            let spec = QuerySpec::parse(query);
            let r = if spec.is_unconstrained() {
                SearchStart::Nothing
            } else {
                SearchStart::Query(spec.base_query(query))
            };
            assert(search_start_ok(cache.lookup(query@), is_fresh(age, ttl_secs), query@, r));
            r
        },
    }
}

/// The most results a search returns.
pub const MAX_TOTAL_RESULTS: usize = 500;

/// The results a search shows for what the providers found: merged (one
/// per source and name), ordered by lower-cased name with pacman before the
/// AUR, and cut to [`MAX_TOTAL_RESULTS`]. No relevance filter or match
/// score is applied: this library has no scorer, so equally relevant
/// results are what the order assumes.
pub open spec fn search_results(found: Seq<Package>) -> Seq<Package> {
    first_n(stable_sorted(dedup_spec(found)), MAX_TOTAL_RESULTS as nat)
}

/// The last step of a search: the results shown for what the providers
/// found ([`search_results`]), stored in the cache for `query`; what the
/// cache holds for other queries stays.
pub fn finish_search(cache: &mut SearchCache, query: &str, found: Vec<Package>) -> (r: Vec<Package>)
    ensures
        r@ == search_results(found@),
        r@.len() <= MAX_TOTAL_RESULTS,
        final(cache).lookup(query@) matches Some(s) && copies(s, r@),
        forall|q: Seq<char>| q != query@ ==> #[trigger] final(cache).lookup(q) == old(cache).lookup(q),
{
    let mut r = order_results(dedup_packages(found));
    if r.len() > MAX_TOTAL_RESULTS {
        r.truncate(MAX_TOTAL_RESULTS);
    }
    let stored = duplicate_packages(&r);
    cache.put_cached(query, stored);
    r
}

proof fn lemma_dedup_members(ps: Seq<Package>)
    ensures
        forall|i: int|
            #![trigger dedup_spec(ps)[i]]
            0 <= i < dedup_spec(ps).len() ==> exists|j: int|
                0 <= j < ps.len() && same_key(dedup_spec(ps)[i], #[trigger] ps[j]),
    decreases ps.len(),
{
    if ps.len() > 0 {
        let prev = ps.drop_last();
        lemma_dedup_members(prev);
        let acc = dedup_spec(prev);
        let p = ps.last();
        let r = dedup_spec(ps);
        let k = same_index_from(acc, p, 0);
        if k >= 0 {
            lemma_same_index_found(acc, p, 0);
            assert(r == acc.update(k, merge_spec(acc[k], p)));
        } else {
            assert(r == acc.push(p));
        }
        assert forall|i: int| #![trigger r[i]] 0 <= i < r.len() implies exists|j: int|
            0 <= j < ps.len() && same_key(r[i], #[trigger] ps[j]) by {
            if k < 0 && i == r.len() - 1 {
                assert(same_key(r[i], ps[ps.len() - 1]));
            } else {
                assert(same_key(r[i], acc[i]));
                let j = choose|j: int| 0 <= j < prev.len() && same_key(acc[i], #[trigger] prev[j]);
                assert(prev[j] == ps[j]);
            }
        }
    }
}

/// A search shows only packages that some provider found: every result has
/// the source and name of a package the providers returned.
pub proof fn law_results_come_from_providers(found: Seq<Package>)
    ensures
        forall|i: int|
            #![trigger search_results(found)[i]]
            0 <= i < search_results(found).len() ==> exists|j: int|
                0 <= j < found.len() && same_key(search_results(found)[i], #[trigger] found[j]),
{
    let d = dedup_spec(found);
    let o = stable_sorted(d);
    let r = search_results(found);
    lemma_dedup_members(found);
    crate::sorting::lemma_stable_sorted_members(d, 0);
    assert forall|i: int| #![trigger r[i]] 0 <= i < r.len() implies exists|j: int|
        0 <= j < found.len() && same_key(r[i], #[trigger] found[j]) by {
        assert(r[i] == o[i]);
        crate::sorting::lemma_stable_sorted_members(d, i);
        let m = choose|m: int| 0 <= m < d.len() && o[i] == d[m];
        assert(d[m] == dedup_spec(found)[m]);
    }
}

/// A fresh cached entry is the answer of a search: its results are handed
/// back, copied, and no provider is asked.
pub proof fn law_fresh_entry_is_the_answer(stored: Seq<Package>, query: Seq<char>, r: SearchStart)
    requires
        search_start_ok(Some(stored), true, query, r),
    ensures
        r matches SearchStart::Cached(v) && copies(v@, stored),
{
}

/// Ordered results never show a package before one that sorts ahead of it:
/// names ascend (lower-cased), and a pacman result precedes the AUR result
/// of the same name.
pub proof fn law_results_ordered(found: Seq<Package>)
    ensures
        crate::sorting::in_order(stable_sorted(found)),
{
    assert forall|a: Package| !#[trigger] a.goes_before(&a) by {
        crate::text::lemma_seq_lt_irreflexive(lowercase(a.name@));
    }
    assert forall|a: Package, b: Package, c: Package|
        #![trigger a.goes_before(&b), b.goes_before(&c)]
        a.goes_before(&b) && b.goes_before(&c) implies a.goes_before(&c) by {
        let (la, lb, lc) = (lowercase(a.name@), lowercase(b.name@), lowercase(c.name@));
        if seq_lt(la, lb) && seq_lt(lb, lc) {
            crate::text::lemma_seq_lt_transitive(la, lb, lc);
        }
    }
    crate::sorting::lemma_stable_sorted_in_order(found);
}

// ---------------------------------------------------------------------------
// Provider selection
// ---------------------------------------------------------------------------

/// The providers that a detected package manager brings.
pub open spec fn providers_of(m: PackageManager) -> Seq<ProviderKind> {
    match m {
        PackageManager::Pacman => seq![ProviderKind::Pacman, ProviderKind::Aur],
        PackageManager::Apt => seq![ProviderKind::Apt],
        PackageManager::Brew => seq![ProviderKind::Brew],
        PackageManager::Scoop => seq![ProviderKind::Scoop],
        PackageManager::Dnf => seq![ProviderKind::Dnf],
        PackageManager::Zypper => seq![ProviderKind::Zypper],
        PackageManager::Apk => seq![ProviderKind::Apk],
        PackageManager::Unknown => Seq::empty(),
    }
}

/// The provider that checks for updates for a detected package manager.
pub open spec fn updater_of(m: PackageManager) -> Option<ProviderKind> {
    match m {
        PackageManager::Pacman => Some(ProviderKind::Pacman),
        PackageManager::Apt => Some(ProviderKind::Apt),
        PackageManager::Brew => Some(ProviderKind::Brew),
        PackageManager::Scoop => Some(ProviderKind::Scoop),
        PackageManager::Dnf => Some(ProviderKind::Dnf),
        PackageManager::Zypper => Some(ProviderKind::Zypper),
        PackageManager::Apk => Some(ProviderKind::Apk),
        PackageManager::Unknown => None,
    }
}

/// The system providers of the detected managers, in order.
pub open spec fn system_providers(ms: Seq<PackageManager>) -> Seq<ProviderKind>
    decreases ms.len(),
{
    if ms.len() == 0 {
        Seq::empty()
    } else {
        system_providers(ms.drop_last()) + providers_of(ms.last())
    }
}

/// The update provider of the first detected manager that has one.
pub open spec fn first_updater(ms: Seq<PackageManager>) -> Option<ProviderKind>
    decreases ms.len(),
{
    if ms.len() == 0 {
        None
    } else {
        match first_updater(ms.drop_last()) {
            Some(u) => Some(u),
            None => updater_of(ms.last()),
        }
    }
}

/// Update provider that delegates to the provider of the system's package
/// manager.
pub struct SystemUpdateProvider {
    inner: ProviderKind,
}

impl SystemUpdateProvider {
    /// Delegates update checks to `inner`.
    pub fn new(inner: ProviderKind) -> (r: SystemUpdateProvider)
        ensures
            r.delegate() == inner,
    {
        SystemUpdateProvider { inner }
    }

    pub closed spec fn delegate(&self) -> ProviderKind {
        self.inner
    }

    /// The provider that the checks are handed to.
    pub fn inner(&self) -> (r: ProviderKind)
        ensures
            r == self.delegate(),
    {
        self.inner
    }
}

/// Package service that orchestrates multiple providers
pub struct PackageService {
    providers: Vec<ProviderKind>,
    update_provider: ProviderKind,
    config: AppConfig,
}

impl PackageService {
    pub closed spec fn provider_kinds(&self) -> Seq<ProviderKind> {
        self.providers@
    }

    pub closed spec fn updater(&self) -> ProviderKind {
        self.update_provider
    }

    pub closed spec fn settings(&self) -> AppConfig {
        self.config
    }

    /// The service for the detected package managers: each manager's
    /// providers in order (pacman with the AUR), then npm, cargo and pip;
    /// updates from the first detected manager, pacman where none is.
    pub fn new(config: AppConfig, managers: &[PackageManager]) -> (r: PackageService)
        ensures
            r.provider_kinds() == system_providers(managers@) + seq![
                ProviderKind::Npm,
                ProviderKind::Cargo,
                ProviderKind::Pip,
            ],
            r.updater() == match first_updater(managers@) {
                Some(u) => u,
                None => ProviderKind::Pacman,
            },
            r.settings() == config,
    {
        let mut providers: Vec<ProviderKind> = Vec::new();
        let mut update_provider: Option<ProviderKind> = None;
        let mut i: usize = 0;
        while i < managers.len()
            invariant
                i <= managers.len(),
                providers@ == system_providers(managers@.take(i as int)),
                update_provider == first_updater(managers@.take(i as int)),
            decreases managers.len() - i,
        {
            proof {
                crate::text::lemma_take_step(managers@, i as int);
            }
            let ghost before = providers@;
            let m = managers[i];
            let kind = match m {
                PackageManager::Pacman => {
                    providers.push(ProviderKind::Pacman);
                    providers.push(ProviderKind::Aur);
                    Some(ProviderKind::Pacman)
                },
                PackageManager::Apt => {
                    providers.push(ProviderKind::Apt);
                    Some(ProviderKind::Apt)
                },
                PackageManager::Brew => {
                    providers.push(ProviderKind::Brew);
                    Some(ProviderKind::Brew)
                },
                PackageManager::Scoop => {
                    providers.push(ProviderKind::Scoop);
                    Some(ProviderKind::Scoop)
                },
                PackageManager::Dnf => {
                    providers.push(ProviderKind::Dnf);
                    Some(ProviderKind::Dnf)
                },
                PackageManager::Zypper => {
                    providers.push(ProviderKind::Zypper);
                    Some(ProviderKind::Zypper)
                },
                PackageManager::Apk => {
                    providers.push(ProviderKind::Apk);
                    Some(ProviderKind::Apk)
                },
                PackageManager::Unknown => None,
            };
            assert(providers@ =~= before + providers_of(m));
            if update_provider.is_none() {
                update_provider = kind;
            }
            i += 1;
        }
        assert(managers@.take(managers.len() as int) =~= managers@);
        let ghost sys = providers@;
        providers.push(ProviderKind::Npm);
        providers.push(ProviderKind::Cargo);
        providers.push(ProviderKind::Pip);
        assert(providers@ =~= sys + seq![ProviderKind::Npm, ProviderKind::Cargo, ProviderKind::Pip]);
        let update_provider = match update_provider {
            Some(u) => u,
            None => ProviderKind::Pacman,
        };
        PackageService { providers, update_provider, config }
    }

    /// The providers to search, in order.
    pub fn providers(&self) -> (r: &Vec<ProviderKind>)
        ensures
            r@ == self.provider_kinds(),
    {
        &self.providers
    }

    /// The provider that checks for updates.
    pub fn update_provider(&self) -> (r: ProviderKind)
        ensures
            r == self.updater(),
    {
        self.update_provider
    }

    /// The settings the service was made with.
    pub fn config(&self) -> (r: &AppConfig)
        ensures
            *r == self.settings(),
    {
        &self.config
    }

    /// The command that installs `version` of a package from the archive.
    pub fn build_downgrade_command(pkg_name: &str, version: &str) -> (r: CommandSpec)
        requires
            pkg_name@.len() > 0,
            (pkg_name@[0] as u32) < 128,
        ensures
            r@ == downgrade_spec(pkg_name@, version@),
    {
        let mut url = archive_index_url(pkg_name);
        url.append(pkg_name);
        url.append("-");
        url.append(version);
        url.append(".pkg.tar.zst");
        let mut args: Vec<String> = Vec::new();
        args.push("pacman".to_owned());
        args.push("-U".to_owned());
        args.push("--noconfirm".to_owned());
        let ghost uv = url@;
        args.push(url);
        assert(args.deep_view() =~= seq!["pacman"@, "-U"@, "--noconfirm"@, uv]);
        CommandSpec { prog: "sudo".to_owned(), args }
    }
}

// ---------------------------------------------------------------------------
// Pacman log
// ---------------------------------------------------------------------------

/// Kind of a pacman log entry.
#[derive(Debug, Clone, Copy, PartialEq, Eq, Structural)]
pub enum LogOperation {
    Installed,
    Removed,
    Upgraded,
    Downgraded,
}

/// One package operation recorded in the pacman log.
#[derive(Debug, Clone)]
pub struct LogEntry {
    pub timestamp: String,
    pub operation: LogOperation,
    pub package: String,
}

impl View for LogEntry {
    type V = (Seq<char>, LogOperation, Seq<char>);

    open spec fn view(&self) -> (Seq<char>, LogOperation, Seq<char>) {
        (self.timestamp@, self.operation, self.package@)
    }
}

/// `s` without its leading `c` characters (`str::trim_start_matches`).
pub open spec fn strip_leading(s: Seq<char>, c: char) -> Seq<char>
    decreases s.len(),
{
    if s.len() > 0 && s[0] == c {
        strip_leading(s.drop_first(), c)
    } else {
        s
    }
}

/// `s` without its trailing `c` characters (`str::trim_end_matches`).
pub open spec fn strip_trailing(s: Seq<char>, c: char) -> Seq<char>
    decreases s.len(),
{
    if s.len() > 0 && s.last() == c {
        strip_trailing(s.drop_last(), c)
    } else {
        s
    }
}

/// The operation that the second bracketed field announces, by the first
/// of the words installed, removed, upgraded, downgraded that it contains.
pub open spec fn log_operation(rest: Seq<char>) -> Option<LogOperation> {
    if contains_seq(rest, "installed"@) {
        Some(LogOperation::Installed)
    } else if contains_seq(rest, "removed"@) {
        Some(LogOperation::Removed)
    } else if contains_seq(rest, "upgraded"@) {
        Some(LogOperation::Upgraded)
    } else if contains_seq(rest, "downgraded"@) {
        Some(LogOperation::Downgraded)
    } else {
        None
    }
}

/// The word that announces an operation in a log message.
pub open spec fn operation_word(op: LogOperation) -> Seq<char> {
    match op {
        LogOperation::Installed => "installed"@,
        LogOperation::Removed => "removed"@,
        LogOperation::Upgraded => "upgraded"@,
        LogOperation::Downgraded => "downgraded"@,
    }
}

/// The index of the first word from `k` on that contains `kw`, or -1.
pub open spec fn word_index_from(words: Seq<Seq<char>>, kw: Seq<char>, k: int) -> int
    decreases words.len() - k,
{
    if k < 0 || k >= words.len() {
        -1
    } else if contains_seq(words[k], kw) {
        k
    } else {
        word_index_from(words, kw, k + 1)
    }
}

/// A log line `[timestamp] [source] message`, such as
/// `[2026-05-07T10:30:45+0000] [ALPM] installed foo (1.0-1)`: the
/// timestamp, the operation the message announces (the first of installed,
/// removed, upgraded, downgraded that it contains) and the package, the word
/// after the one that announces it.
pub open spec fn log_line_spec(line: Seq<char>) -> Option<(Seq<char>, LogOperation, Seq<char>)> {
    let t = trim(line);
    if !(t.len() > 0 && t[0] == '[') {
        None
    } else {
        let parts = split_on(t, ']');
        if parts.len() < 3 {
            None
        } else {
            let msg = trim(parts[2]);
            match log_operation(msg) {
                None => None,
                Some(op) => {
                    let words = ws_tokens(msg);
                    let k = word_index_from(words, operation_word(op), 0);
                    if 0 <= k && k + 1 < words.len() {
                        Some((strip_leading(parts[0], '['), op, words[k + 1]))
                    } else {
                        None
                    }
                },
            }
        }
    }
}

/// The entries of the last `limit` lines of a log, newest first.
pub open spec fn log_entries(ls: Seq<Seq<char>>, limit: nat) -> Seq<(Seq<char>, LogOperation, Seq<char>)>
    decreases ls.len(),
{
    if limit == 0 || ls.len() == 0 {
        Seq::empty()
    } else {
        let rest = log_entries(ls.drop_last(), (limit - 1) as nat);
        match log_line_spec(ls.last()) {
            Some(e) => seq![e] + rest,
            None => rest,
        }
    }
}

/// Reading the log yields at most `limit` entries, and at most one per line.
pub proof fn law_log_entries_bounded(ls: Seq<Seq<char>>, limit: nat)
    ensures
        log_entries(ls, limit).len() <= limit,
        log_entries(ls, limit).len() <= ls.len(),
    decreases ls.len(),
{
    if limit > 0 && ls.len() > 0 {
        law_log_entries_bounded(ls.drop_last(), (limit - 1) as nat);
    }
}

fn strip_leading_exec(s: &str, c: char) -> (r: String)
    ensures
        r@ == strip_leading(s@, c),
{
    let v = chars_of(s);
    let mut i: usize = 0;
    proof {
        assert(v@.skip(0) =~= v@);
    }
    while i < v.len() && v[i] == c
        invariant
            i <= v.len(),
            strip_leading(v@, c) == strip_leading(v@.skip(i as int), c),
        decreases v.len() - i,
    {
        assert(v@.skip(i as int).drop_first() =~= v@.skip(i + 1));
        i += 1;
    }
    let r = string_from(&v, i, v.len());
    assert(r@ =~= v@.skip(i as int));
    r
}

fn strip_trailing_exec(s: &str, c: char) -> (r: String)
    ensures
        r@ == strip_trailing(s@, c),
{
    let v = chars_of(s);
    let mut n: usize = v.len();
    proof {
        assert(v@.take(n as int) =~= v@);
    }
    while n > 0 && v[n - 1] == c
        invariant
            n <= v.len(),
            strip_trailing(v@, c) == strip_trailing(v@.take(n as int), c),
        decreases n,
    {
        assert(v@.take(n as int).drop_last() =~= v@.take(n - 1));
        n -= 1;
    }
    let r = string_from(&v, 0, n);
    assert(r@ =~= v@.take(n as int));
    r
}

/// Reads one pacman log line, like `[2026-05-07T10:30:45+0000] [ALPM]
/// installed foo (1.0-1)`.
pub fn parse_log_line(line: &str) -> (r: Option<LogEntry>)
    ensures
        match r {
            Some(e) => log_line_spec(line@) == Some(e@),
            None => log_line_spec(line@) is None,
        },
{
    let t = trim_str(line);
    let tv = chars_of(t.as_str());
    if !(tv.len() > 0 && tv[0] == '[') {
        return None;
    }
    let parts = split_char(t.as_str(), ']');
    if parts.len() < 3 {
        return None;
    }
    let msg = trim_str(parts[2].as_str());
    let m = msg.as_str();
    let (operation, kw) = if contains(m, "installed") {
        (LogOperation::Installed, "installed")
    } else if contains(m, "removed") {
        (LogOperation::Removed, "removed")
    } else if contains(m, "upgraded") {
        (LogOperation::Upgraded, "upgraded")
    } else if contains(m, "downgraded") {
        (LogOperation::Downgraded, "downgraded")
    } else {
        return None;
    };
    assert(kw@ == operation_word(operation));
    let words = split_whitespace(m);
    let ghost wv = words.deep_view();
    let mut k: usize = 0;
    while k < words.len() && !contains(words[k].as_str(), kw)
        invariant
            k <= words.len(),
            wv == words.deep_view(),
            word_index_from(wv, kw@, 0) == word_index_from(wv, kw@, k as int),
        decreases words.len() - k,
    {
        k += 1;
    }
    if k >= words.len() || k + 1 >= words.len() {
        return None;
    }
    let timestamp = strip_leading_exec(parts[0].as_str(), '[');
    let package = words[k + 1].clone();
    Some(LogEntry { timestamp, operation, package })
}

/// The views of a list of log entries.
pub open spec fn entries_view(v: Seq<LogEntry>) -> Seq<(Seq<char>, LogOperation, Seq<char>)> {
    v.map_values(|e: LogEntry| e@)
}

/// The entries among the last `limit` lines of a pacman log, newest first
/// (the part of `read_pacman_log` that follows reading the file).
pub fn parse_pacman_log(content: &str, limit: usize) -> (r: Vec<LogEntry>)
    ensures
        entries_view(r@) == log_entries(lines_of(content@), limit as nat),
{
    let ls = lines(content);
    let ghost lv = ls.deep_view();
    let mut n: usize = ls.len();
    let mut taken: usize = 0;
    let mut out: Vec<LogEntry> = Vec::new();
    proof {
        assert(lv.take(n as int) =~= lv);
    }
    while n > 0 && taken < limit
        invariant
            n <= ls.len(),
            lv == ls.deep_view(),
            lv == lines_of(content@),
            taken <= limit,
            entries_view(out@) + log_entries(lv.take(n as int), (limit - taken) as nat)
                == log_entries(lv, limit as nat),
        decreases n,
    {
        proof {
            assert(lv.take(n as int).drop_last() =~= lv.take(n - 1));
            assert(lv.take(n as int).last() == lv[n - 1]);
        }
        let e = parse_log_line(ls[n - 1].as_str());
        match e {
            Some(e) => {
                let ghost before = entries_view(out@);
                let ghost ev = e@;
                out.push(e);
                assert(entries_view(out@) =~= before.push(ev));
                assert(before.push(ev) + log_entries(lv.take(n - 1), (limit - taken - 1) as nat)
                    =~= before + (seq![ev] + log_entries(lv.take(n - 1), (limit - taken - 1) as nat)));
            },
            None => {},
        }
        n -= 1;
        taken += 1;
    }
    assert(entries_view(out@) + Seq::<(Seq<char>, LogOperation, Seq<char>)>::empty() =~= entries_view(out@));
    out
}

/// The outcome of reading the pacman log: an error where the file is
/// missing or cannot be read (`content` then holds the reading error), else
/// the entries of its last `limit` lines, newest first.
pub fn pacman_log_outcome(exists: bool, content: Result<String, String>, limit: usize) -> (r: Result<
    Vec<LogEntry>,
    crate::models::AppError,
>)
    ensures
        !exists ==> (r matches Err(crate::models::AppError::Other(m)) && m@ == "Pacman log not found"@),
        exists ==> match content {
            Ok(c) => r matches Ok(v) && entries_view(v@) == log_entries(lines_of(c@), limit as nat),
            Err(e) => r matches Err(crate::models::AppError::Other(m)) && m@
                == "Failed to read log: "@ + e@,
        },
{
    if !exists {
        return Err(crate::models::AppError::Other("Pacman log not found".to_owned()));
    }
    match content {
        Ok(c) => Ok(parse_pacman_log(c.as_str(), limit)),
        Err(e) => {
            let mut m = "Failed to read log: ".to_owned();
            m.append(e.as_str());
            Err(crate::models::AppError::Other(m))
        },
    }
}

// ---------------------------------------------------------------------------
// .pacnew / .pacsave files
// ---------------------------------------------------------------------------

/// Kind of a configuration file left by pacman.
#[derive(Debug, Clone, Copy, PartialEq, Eq, Structural)]
pub enum PacnewType {
    New,
    Save,
}

/// A `.pacnew` or `.pacsave` file and the file it belongs to.
#[derive(Debug, Clone)]
pub struct PacnewPacsaveFile {
    pub path: String,
    pub original_name: String,
    pub file_type: PacnewType,
    pub modified: Option<std::time::SystemTime>,
}

/// What is known of one directory entry.
#[derive(Debug)]
pub struct DirEntryInfo {
    pub path: String,
    /// The file name, empty where it is not valid UTF-8.
    pub file_name: String,
    pub extension: Option<String>,
    pub modified: Option<std::time::SystemTime>,
}

impl SortKey for PacnewPacsaveFile {
    open spec fn goes_before(&self, other: &Self) -> bool {
        seq_lt(self.original_name@, other.original_name@)
    }

    fn exec_goes_before(&self, other: &Self) -> (r: bool) {
        str_lt(self.original_name.as_str(), other.original_name.as_str())
    }
}

/// The `.pacnew`/`.pacsave` files are listed in order of the name of the
/// file they belong to.
pub proof fn law_pacnew_files_sorted(found: Seq<PacnewPacsaveFile>)
    ensures
        forall|i: int, j: int|
            0 <= i < j < stable_sorted(found).len() ==> !seq_lt(
                #[trigger] stable_sorted(found)[j].original_name@,
                #[trigger] stable_sorted(found)[i].original_name@,
            ),
{
    assert forall|a: PacnewPacsaveFile| !#[trigger] a.goes_before(&a) by {
        crate::text::lemma_seq_lt_irreflexive(a.original_name@);
    }
    assert forall|a: PacnewPacsaveFile, b: PacnewPacsaveFile, c: PacnewPacsaveFile|
        #![trigger a.goes_before(&b), b.goes_before(&c)]
        a.goes_before(&b) && b.goes_before(&c) implies a.goes_before(&c) by {
        crate::text::lemma_seq_lt_transitive(a.original_name@, b.original_name@, c.original_name@);
    }
    crate::sorting::lemma_stable_sorted_in_order(found);
    let r = stable_sorted(found);
    assert forall|i: int, j: int| 0 <= i < j < r.len() implies !seq_lt(
        #[trigger] r[j].original_name@,
        #[trigger] r[i].original_name@,
    ) by {
        assert(!r[j].goes_before(&r[i]));
    }
}

/// The kind that a file extension marks.
pub open spec fn pacnew_kind(ext: Option<Seq<char>>) -> Option<PacnewType> {
    match ext {
        Some(e) => if e == "pacnew"@ {
            Some(PacnewType::New)
        } else if e == "pacsave"@ {
            Some(PacnewType::Save)
        } else {
            None
        },
        None => None,
    }
}

/// The name of the file a `.pacnew`/`.pacsave` file belongs to.
pub open spec fn original_name_of(name: Seq<char>) -> Seq<char> {
    if crate::text::is_suffix(".pacnew"@, name) {
        name.take(name.len() - 7)
    } else if crate::text::is_suffix(".pacsave"@, name) {
        name.take(name.len() - 8)
    } else {
        name
    }
}

fn strip_suffix_exec(name: &str, suffix: &str) -> (r: Option<String>)
    ensures
        match r {
            Some(s) => crate::text::is_suffix(suffix@, name@) && s@ == name@.take(
                name@.len() - suffix@.len(),
            ),
            None => !crate::text::is_suffix(suffix@, name@),
        },
{
    if crate::text::ends_with(name, suffix) {
        let v = chars_of(name);
        let s = chars_of(suffix);
        Some(string_from(&v, 0, v.len() - s.len()))
    } else {
        None
    }
}

/// The record for a directory entry that is a `.pacnew` or `.pacsave` file.
pub fn classify_pacnew(entry: DirEntryInfo) -> (r: Option<PacnewPacsaveFile>)
    ensures
        match r {
            Some(f) => pacnew_kind(opt_view(entry.extension)) == Some(f.file_type)
                && f.path@ == entry.path@ && f.original_name@ == original_name_of(entry.file_name@)
                && f.modified == entry.modified,
            None => pacnew_kind(opt_view(entry.extension)) is None,
        },
{
    let ft = match &entry.extension {
        Some(e) => if str_eq(e.as_str(), "pacnew") {
            Some(PacnewType::New)
        } else if str_eq(e.as_str(), "pacsave") {
            Some(PacnewType::Save)
        } else {
            None
        },
        None => None,
    };
    match ft {
        None => None,
        Some(ft) => {
            proof {
                reveal_strlit(".pacnew");
                reveal_strlit(".pacsave");
            }
            let name = entry.file_name.as_str();
            let original_name = match strip_suffix_exec(name, ".pacnew") {
                Some(s) => s,
                None => match strip_suffix_exec(name, ".pacsave") {
                    Some(s) => s,
                    None => name.to_owned(),
                },
            };
            Some(PacnewPacsaveFile { path: entry.path, original_name, file_type: ft, modified: entry.modified })
        },
    }
}

pub open spec fn opt_view(o: Option<String>) -> Option<Seq<char>> {
    crate::models::opt_view(o)
}

/// What a directory entry contributes: its path, the name of the file it
/// belongs to and its kind, for `.pacnew`/`.pacsave` files.
pub open spec fn pacnew_of(e: DirEntryInfo) -> Option<(Seq<char>, Seq<char>, PacnewType)> {
    match pacnew_kind(opt_view(e.extension)) {
        Some(k) => Some((e.path@, original_name_of(e.file_name@), k)),
        None => None,
    }
}

pub open spec fn pacnew_views(entries: Seq<DirEntryInfo>) -> Seq<(Seq<char>, Seq<char>, PacnewType)>
    decreases entries.len(),
{
    if entries.len() == 0 {
        Seq::empty()
    } else {
        match pacnew_of(entries[0]) {
            Some(f) => seq![f] + pacnew_views(entries.drop_first()),
            None => pacnew_views(entries.drop_first()),
        }
    }
}

pub open spec fn files_view(v: Seq<PacnewPacsaveFile>) -> Seq<(Seq<char>, Seq<char>, PacnewType)> {
    v.map_values(|f: PacnewPacsaveFile| (f.path@, f.original_name@, f.file_type))
}

/// The `.pacnew`/`.pacsave` files among the entries of a directory, ordered
/// stably by the name of the file they belong to (the part of
/// `scan_pacnew_pacsave` that follows reading the directory).
pub fn collect_pacnew_files(entries: Vec<DirEntryInfo>) -> (r: Vec<PacnewPacsaveFile>)
    ensures
        exists|found: Seq<PacnewPacsaveFile>|
            files_view(found) == pacnew_views(entries@) && r@ == stable_sorted(found),
{
    let ghost all = entries@;
    assert(all.len() == entries.len());
    let mut found: Vec<PacnewPacsaveFile> = Vec::new();
    let mut rest = entries;
    let mut n: usize = 0;
    while rest.len() > 0
        invariant
            n + rest@.len() == all.len(),
            all.len() <= usize::MAX,
            rest@ == all.skip(n as int),
            files_view(found@) + pacnew_views(rest@) == pacnew_views(all),
        decreases rest@.len(),
    {
        let ghost before = rest@;
        let e = rest.remove(0);
        proof {
            assert(rest@ =~= before.drop_first());
            assert(all.skip(n + 1) =~= before.drop_first());
        }
        let ghost fv = files_view(found@);
        match classify_pacnew(e) {
            Some(f) => {
                let ghost v = (f.path@, f.original_name@, f.file_type);
                found.push(f);
                assert(files_view(found@) =~= fv.push(v));
                assert(fv.push(v) + pacnew_views(rest@) =~= fv + (seq![v] + pacnew_views(rest@)));
            },
            None => {},
        }
        n += 1;
    }
    assert(files_view(found@) + pacnew_views(rest@) =~= files_view(found@));
    stable_sort(found)
}

// ---------------------------------------------------------------------------
// Archived versions and downgrades
// ---------------------------------------------------------------------------

/// A version of a package in the Arch Linux archive.
#[derive(Debug, Clone)]
pub struct AvailableVersion {
    pub version: String,
    pub date: String,
    pub repo: String,
}

impl SortKey for AvailableVersion {
    open spec fn goes_before(&self, other: &Self) -> bool {
        seq_lt(other.version@, self.version@)
    }

    fn exec_goes_before(&self, other: &Self) -> (r: bool) {
        str_lt(other.version.as_str(), self.version.as_str())
    }
}

/// No version sorts after the one before it.
pub open spec fn newest_first(r: Seq<AvailableVersion>) -> bool {
    forall|i: int, j: int| 0 <= i < j < r.len() ==> !seq_lt(#[trigger] r[i].version@, #[trigger] r[j].version@)
}

/// Archived versions are listed newest first.
#[verifier::spinoff_prover]
pub proof fn law_versions_newest_first(found: Seq<AvailableVersion>)
    ensures
        newest_first(stable_sorted(found)),
{
    assert forall|a: AvailableVersion| !#[trigger] a.goes_before(&a) by {
        crate::text::lemma_seq_lt_irreflexive(a.version@);
    }
    assert forall|a: AvailableVersion, b: AvailableVersion, c: AvailableVersion|
        #![trigger a.goes_before(&b), b.goes_before(&c)]
        a.goes_before(&b) && b.goes_before(&c) implies a.goes_before(&c) by {
        crate::text::lemma_seq_lt_transitive(c.version@, b.version@, a.version@);
    }
    crate::sorting::lemma_stable_sorted_in_order(found);
    let r = stable_sorted(found);
    assert forall|i: int, j: int| 0 <= i < j < r.len() implies !seq_lt(
        #[trigger] r[i].version@,
        #[trigger] r[j].version@,
    ) by {
        assert(!r[j].goes_before(&r[i]));
    }
}

/// The regular expression for the links of the archive's index page.
pub open spec fn version_link_pattern() -> Seq<char> {
    "href=\"(\\d{4}/\\d{2}/\\d{2})/([^\"]+/)\""@
}

/// The versions of an index page: from each match with a date (group 1)
/// and a non-empty version (group 2, trailing slashes dropped), in order.
pub open spec fn versions_of(caps: Seq<Seq<Option<Seq<char>>>>) -> Seq<(Seq<char>, Seq<char>)>
    decreases caps.len(),
{
    if caps.len() == 0 {
        Seq::empty()
    } else {
        let rest = versions_of(caps.drop_last());
        let c = caps.last();
        if c.len() > 2 && c[1] is Some && c[2] is Some && strip_trailing(c[2]->0, '/').len() > 0 {
            rest.push((strip_trailing(c[2]->0, '/'), c[1]->0))
        } else {
            rest
        }
    }
}

/// The views of a list of versions.
pub open spec fn versions_view(v: Seq<AvailableVersion>) -> Seq<(Seq<char>, Seq<char>)> {
    v.map_values(|a: AvailableVersion| (a.version@, a.date@))
}

/// At most the first `n` elements.
pub open spec fn first_n<T>(s: Seq<T>, n: nat) -> Seq<T> {
    if s.len() <= n {
        s
    } else {
        s.take(n as int)
    }
}

/// The versions found on an archive index page, newest (by version text)
/// first, at most 20, with their dates; the repository is unknown.
pub fn parse_available_versions(html: &str) -> (r: Vec<AvailableVersion>)
    ensures
        r@.len() <= 20,
        forall|i: int| 0 <= i < r@.len() ==> #[trigger] r@[i].repo@ == "unknown"@,
        regex_compiles(version_link_pattern()) ==> exists|found: Seq<AvailableVersion>|
            versions_view(found) == versions_of(regex_captures(version_link_pattern(), html@))
                && r@ == first_n(stable_sorted(found), 20),
        !regex_compiles(version_link_pattern()) ==> r@.len() == 0,
{
    match Pattern::compile("href=\"(\\d{4}/\\d{2}/\\d{2})/([^\"]+/)\"") {
        None => Vec::new(),
        Some(p) => {
            let caps = p.captures(html);
            let found = versions_from_captures(&caps);
            let ghost fv = found@;
            let mut sorted = stable_sort(found);
            let ghost sv = sorted@;
            if sorted.len() > 20 {
                sorted.truncate(20);
            }
            assert(sorted@ == first_n(sv, 20));
            proof {
                assert forall|i: int| 0 <= i < sorted@.len() implies #[trigger] sorted@[i].repo@
                    == "unknown"@ by {
                    crate::sorting::lemma_stable_sorted_members(fv, i);
                }
            }
            sorted
        },
    }
}

/// The versions of a list of capture groups.
pub fn versions_from_captures(caps: &Vec<Vec<Option<String>>>) -> (r: Vec<AvailableVersion>)
    ensures
        versions_view(r@) == versions_of(crate::pattern::captures_view(caps@)),
        forall|i: int| 0 <= i < r@.len() ==> #[trigger] r@[i].repo@ == "unknown"@,
{
    let ghost cv = crate::pattern::captures_view(caps@);
    let mut out: Vec<AvailableVersion> = Vec::new();
    let mut i: usize = 0;
    while i < caps.len()
        invariant
            i <= caps.len(),
            cv == crate::pattern::captures_view(caps@),
            versions_view(out@) == versions_of(cv.take(i as int)),
            forall|k: int| 0 <= k < out@.len() ==> #[trigger] out@[k].repo@ == "unknown"@,
        decreases caps.len() - i,
    {
        proof {
            crate::text::lemma_take_step(cv, i as int);
        }
        let c = &caps[i];
        if c.len() > 2 {
            match (&c[1], &c[2]) {
                (Some(date), Some(ver)) => {
                    let version = strip_trailing_exec(ver.as_str(), '/');
                    if !version.as_str().is_empty() {
                        let ghost before = versions_view(out@);
                        let d = date.clone();
                        out.push(AvailableVersion { version, date: d, repo: "unknown".to_owned() });
                        assert(versions_view(out@) =~= before.push((version@, d@)));
                    }
                },
                _ => {},
            }
        }
        i += 1;
    }
    assert(cv.take(caps.len() as int) =~= cv);
    out
}

/// The first character of `name` as a string.
fn first_char(name: &str) -> (r: String)
    requires
        name@.len() > 0,
    ensures
        r@ == seq![name@[0]],
{
    let v = chars_of(name);
    string_from(&v, 0, 1)
}

/// The archive directory of a package:
/// `https://archive.archlinux.org/packages/<first letter>/<name>/`.
pub open spec fn archive_dir(name: Seq<char>) -> Seq<char> {
    "https://archive.archlinux.org/packages/"@ + seq![name[0]] + "/"@ + name + "/"@
}

/// The URL of the archive's index page for a package. The name must start
/// with an ASCII character: its first byte is taken as the first letter.
pub fn archive_index_url(pkg_name: &str) -> (r: String)
    requires
        pkg_name@.len() > 0,
        (pkg_name@[0] as u32) < 128,
    ensures
        r@ == archive_dir(pkg_name@),
{
    let mut r = "https://archive.archlinux.org/packages/".to_owned();
    let f = first_char(pkg_name);
    r.append(f.as_str());
    r.append("/");
    r.append(pkg_name);
    r.append("/");
    r
}

/// The command that installs `version` of a package from the archive. The
/// name must start with an ASCII character: its first byte is taken as the
/// first letter.
pub open spec fn downgrade_spec(name: Seq<char>, version: Seq<char>) -> (Seq<char>, Seq<Seq<char>>) {
    (
        "sudo"@,
        seq![
            "pacman"@,
            "-U"@,
            "--noconfirm"@,
            archive_dir(name) + name + "-"@ + version + ".pkg.tar.zst"@,
        ],
    )
}

/// A downgrade runs `sudo pacman -U --noconfirm` on the package file in the
/// Arch archive: the directory of the package's first letter and name, and
/// the file named by the package, a `-`, the version and `.pkg.tar.zst`.
pub proof fn law_downgrade_url(name: Seq<char>, version: Seq<char>)
    requires
        name.len() > 0,
    ensures
        ({
            let c = downgrade_spec(name, version);
            let url = c.1[3];
            let dir = "https://archive.archlinux.org/packages/"@ + seq![name[0]] + "/"@ + name + "/"@;
            &&& c.0 == "sudo"@
            &&& c.1.len() == 4
            &&& c.1[0] == "pacman"@
            &&& c.1[1] == "-U"@
            &&& c.1[2] == "--noconfirm"@
            &&& url == dir + name + seq!['-'] + version + ".pkg.tar.zst"@
            &&& url.subrange(dir.len() as int, dir.len() + name.len() + 1int) == name.push('-')
        }),
{
    reveal_strlit("-");
    let dir = "https://archive.archlinux.org/packages/"@ + seq![name[0]] + "/"@ + name + "/"@;
    let url = dir + name + seq!['-'] + version + ".pkg.tar.zst"@;
    assert("-"@ =~= seq!['-']);
    assert(url.subrange(dir.len() as int, dir.len() + name.len() + 1int) =~= name.push('-'));
}

/// The command that clones a package's AUR repository.
pub fn get_aur_clone_command(pkg_name: &str) -> (r: String)
    ensures
        r@ == "git clone https://aur.archlinux.org/"@ + pkg_name@ + ".git"@,
{
    let mut r = "git clone https://aur.archlinux.org/".to_owned();
    r.append(pkg_name);
    r.append(".git");
    r
}

} // verus!
