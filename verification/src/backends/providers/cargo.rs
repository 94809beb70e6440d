//! Cargo: the output of `cargo search` and `cargo install --list`.
use vstd::prelude::*;

use crate::models::{all_plain, push_plain, summaries, Package, PackageSource, Summary};
use crate::services::{strip_leading, strip_trailing};
use crate::text::{
    contains_seq, first_match, lemma_first_match, occurs_at,
    lemma_lines_of_joined, lemma_trim_drop_ws_last, line_state, strip_cr,
    chars_of, is_prefix, lines, lines_of, split_once, split_once_spec, starts_with, string_from,
    trim, trim_str,
};

verus! {

/// Cargo package provider implementation
pub struct CargoProvider;

/// `s` without `c` characters at either end (`str::trim_matches`).
pub open spec fn strip_both(s: Seq<char>, c: char) -> Seq<char> {
    strip_trailing(strip_leading(s, c), c)
}

/// The package a `cargo search` line describes: `name = "version" #
/// description`, or without the description.
pub open spec fn cargo_line(line: Seq<char>) -> Option<Summary> {
    let t = trim(line);
    if t.len() == 0 || is_prefix("..."@, t) {
        None
    } else {
        match split_once_spec(t, " # "@) {
            Some((nv, desc)) => match split_once_spec(nv, " = "@) {
                Some((n, v)) => Some(
                    (trim(n), strip_both(trim(v), '"'), trim(desc), PackageSource::Cargo, false),
                ),
                None => None,
            },
            None => match split_once_spec(t, " = "@) {
                Some((n, v)) => Some(
                    (trim(n), strip_both(trim(v), '"'), Seq::empty(), PackageSource::Cargo, false),
                ),
                None => None,
            },
        }
    }
}

pub open spec fn cargo_lines(ls: Seq<Seq<char>>) -> Seq<Summary>
    decreases ls.len(),
{
    if ls.len() == 0 {
        Seq::empty()
    } else {
        let rest = cargo_lines(ls.drop_last());
        match cargo_line(ls.last()) {
            Some(e) => rest.push(e),
            None => rest,
        }
    }
}

proof fn lemma_cargo_lines_concat(xs: Seq<Seq<char>>, ys: Seq<Seq<char>>)
    ensures
        cargo_lines(xs + ys) == cargo_lines(xs) + cargo_lines(ys),
    decreases ys.len(),
{
    if ys.len() == 0 {
        assert(xs + ys =~= xs);
        assert(cargo_lines(xs) + cargo_lines(ys) =~= cargo_lines(xs));
    } else {
        lemma_cargo_lines_concat(xs, ys.drop_last());
        assert((xs + ys).drop_last() =~= xs + ys.drop_last());
        assert((xs + ys).last() == ys.last());
        let c = cargo_lines(xs);
        let d = cargo_lines(ys.drop_last());
        match cargo_line(ys.last()) {
            Some(e) => {
                assert((c + d).push(e) =~= c + d.push(e));
            },
            None => {},
        }
    }
}

/// The packages of one line.
proof fn lemma_cargo_lines_single(l: Seq<char>)
    ensures
        cargo_lines(seq![l]) == match cargo_line(l) {
            Some(e) => seq![e],
            None => Seq::<Summary>::empty(),
        },
{
    assert(seq![l].drop_last() =~= Seq::<Seq<char>>::empty());
    assert(seq![l].last() == l);
    assert(cargo_lines(Seq::<Seq<char>>::empty()) == Seq::<Summary>::empty());
    match cargo_line(l) {
        Some(e) => assert(Seq::<Summary>::empty().push(e) =~= seq![e]),
        None => {},
    }
}

/// `cargo search` output is read line by line: the packages of two outputs
/// joined by a line ending are those of the first followed by those of the
/// second, and empty output has none.
pub proof fn law_cargo_search_joins(a: Seq<char>, b: Seq<char>)
    ensures
        cargo_lines(lines_of(a + seq!['\n'] + b)) == cargo_lines(lines_of(a)) + cargo_lines(lines_of(b)),
        cargo_lines(lines_of(Seq::empty())) == Seq::<Summary>::empty(),
{
    lemma_lines_of_joined(a, b);
    let st = line_state(a);
    let t = strip_cr(st.1);
    lemma_cargo_lines_concat(st.0.push(t), lines_of(b));
    assert(st.0.push(t) =~= st.0 + seq![t]);
    lemma_cargo_lines_concat(st.0, seq![t]);
    lemma_cargo_lines_single(t);
    if st.1.len() > 0 {
        if st.1.last() == '\r' {
            lemma_trim_drop_ws_last(st.1);
        }
        assert(cargo_line(t) == cargo_line(st.1));
        assert(st.0.push(st.1) =~= st.0 + seq![st.1]);
        lemma_cargo_lines_concat(st.0, seq![st.1]);
        lemma_cargo_lines_single(st.1);
    } else {
        assert(t.len() == 0);
        assert(trim(t) =~= Seq::<char>::empty());
        assert(cargo_lines(st.0) + Seq::<Summary>::empty() =~= cargo_lines(st.0));
    }
    assert(line_state(Seq::<char>::empty()) == (Seq::<Seq<char>>::empty(), Seq::<char>::empty()));
}

/// A line of `cargo search` output gives no package when it is blank, when
/// it starts with `...` once trimmed, or when it has no ` = `.
pub proof fn law_cargo_line_skips(l: Seq<char>)
    ensures
        trim(l).len() == 0 ==> cargo_line(l) is None,
        is_prefix("..."@, trim(l)) ==> cargo_line(l) is None,
        !contains_seq(trim(l), " = "@) ==> cargo_line(l) is None,
{
    let t = trim(l);
    reveal_strlit(" = ");
    reveal_strlit(" # ");
    if !contains_seq(t, " = "@) {
        lemma_first_match(t, " = "@);
        lemma_first_match(t, " # "@);
        match first_match(t, " # "@) {
            Some(i) => {
                let nv = t.take(i);
                assert(occurs_at(t, " # "@, i));
                assert(i <= t.len());
                lemma_first_match(nv, " = "@);
                if contains_seq(nv, " = "@) {
                    let j = choose|j: int| occurs_at(nv, " = "@, j);
                    assert(t.subrange(j, j + 3) =~= nv.subrange(j, j + 3));
                    assert(occurs_at(t, " = "@, j));
                }
            },
            None => {},
        }
    }
}

/// Whether some line of `cargo install --list` output starts with `name`
/// and a space.
pub open spec fn cargo_lists(ls: Seq<Seq<char>>, name: Seq<char>) -> bool {
    exists|i: int| 0 <= i < ls.len() && is_prefix(name.push(' '), #[trigger] ls[i])
}

fn strip_both_exec(s: &str, c: char) -> (r: String)
    ensures
        r@ == strip_both(s@, c),
{
    let v = chars_of(s);
    let mut lo: usize = 0;
    proof {
        assert(v@.skip(0) =~= v@);
    }
    while lo < v.len() && v[lo] == c
        invariant
            lo <= v.len(),
            strip_leading(v@, c) == strip_leading(v@.skip(lo as int), c),
        decreases v.len() - lo,
    {
        assert(v@.skip(lo as int).drop_first() =~= v@.skip(lo + 1));
        lo += 1;
    }
    let ghost mid = v@.skip(lo as int);
    assert(strip_leading(mid, c) == mid);
    let mut hi: usize = v.len();
    proof {
        assert(v@.subrange(lo as int, hi as int) =~= mid);
    }
    while hi > lo && v[hi - 1] == c
        invariant
            lo <= hi <= v.len(),
            strip_trailing(mid, c) == strip_trailing(v@.subrange(lo as int, hi as int), c),
        decreases hi,
    {
        assert(v@.subrange(lo as int, hi as int).drop_last() =~= v@.subrange(lo as int, hi - 1));
        hi -= 1;
    }
    string_from(&v, lo, hi)
}

impl Default for CargoProvider {
    fn default() -> (r: CargoProvider)
        ensures
            r == CargoProvider,
    {
        CargoProvider::new()
    }
}

impl CargoProvider {
    pub fn new() -> (r: CargoProvider)
        ensures
            r == CargoProvider,
    {
        CargoProvider
    }

    fn parse_one(line: &str) -> (r: Option<Package>)
        ensures
            match r {
                Some(p) => cargo_line(line@) == Some(crate::models::summary(p))
                    && p.has_default_extras(),
                None => cargo_line(line@) is None,
            },
    {
        let t = trim_str(line);
        let ts = t.as_str();
        if ts.is_empty() || starts_with(ts, "...") {
            return None;
        }
        match split_once(ts, " # ") {
            Some((nv, desc)) => match split_once(nv.as_str(), " = ") {
                Some((n, v)) => {
                    let name = trim_str(n.as_str());
                    let vt = trim_str(v.as_str());
                    let version = strip_both_exec(vt.as_str(), '"');
                    let description = trim_str(desc.as_str());
                    Some(Package::basic(name, version, description, PackageSource::Cargo, false))
                },
                None => None,
            },
            None => match split_once(ts, " = ") {
                Some((n, v)) => {
                    let name = trim_str(n.as_str());
                    let vt = trim_str(v.as_str());
                    let version = strip_both_exec(vt.as_str(), '"');
                    Some(Package::basic(name, version, String::new(), PackageSource::Cargo, false))
                },
                None => None,
            },
        }
    }

    /// The crates of `cargo search` output.
    pub fn parse_cargo_search(stdout: &str) -> (r: Vec<Package>)
        ensures
            summaries(r@) == cargo_lines(lines_of(stdout@)),
            all_plain(r@),
    {
        let ls = lines(stdout);
        let ghost lv = ls.deep_view();
        let mut out: Vec<Package> = Vec::new();
        let mut i: usize = 0;
        assert(summaries(out@) =~= cargo_lines(lv.take(0)));
        while i < ls.len()
            invariant
                i <= ls.len(),
                lv == ls.deep_view(),
                all_plain(out@),
                summaries(out@) == cargo_lines(lv.take(i as int)),
            decreases ls.len() - i,
        {
            proof {
                crate::text::lemma_take_step(lv, i as int);
            }
            match Self::parse_one(ls[i].as_str()) {
                Some(p) => push_plain(&mut out, p),
                None => {},
            }
            i += 1;
        }
        assert(lv.take(ls.len() as int) =~= lv);
        out
    }

    /// Whether `cargo install --list` output lists the crate `name`.
    pub fn list_has(stdout: &str, name: &str) -> (r: bool)
        ensures
            r == cargo_lists(lines_of(stdout@), name@),
    {
        let ls = lines(stdout);
        let mut prefix = name.to_owned();
        crate::text::string_push(&mut prefix, ' ');
        let mut i: usize = 0;
        while i < ls.len()
            invariant
                i <= ls.len(),
                ls.deep_view() == lines_of(stdout@),
                prefix@ == name@.push(' '),
                forall|j: int| 0 <= j < i ==> !is_prefix(name@.push(' '), #[trigger] lines_of(stdout@)[j]),
            decreases ls.len() - i,
        {
            if starts_with(ls[i].as_str(), prefix.as_str()) {
                assert(lines_of(stdout@)[i as int] == ls@[i as int]@);
                return true;
            }
            i += 1;
        }
        false
    }
}

} // verus!
