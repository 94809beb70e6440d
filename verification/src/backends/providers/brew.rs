//! Homebrew: the output of `brew search`.
use vstd::prelude::*;

use crate::models::{all_plain, push_plain, summaries, Package, PackageSource, Summary};
use crate::text::{contains, contains_seq, lines, lines_of, trim, trim_str};

verus! {

pub struct BrewProvider;

/// A `brew search` line: a formula name, unless it is empty or a `==>`
/// heading.
pub open spec fn brew_line(line: Seq<char>) -> Option<Summary> {
    let name = trim(line);
    if name.len() > 0 && !contains_seq(name, "==>"@) {
        Some((name, "latest"@, Seq::empty(), PackageSource::Brew, false))
    } else {
        None
    }
}

pub open spec fn brew_lines(ls: Seq<Seq<char>>) -> Seq<Summary>
    decreases ls.len(),
{
    if ls.len() == 0 {
        Seq::empty()
    } else {
        let rest = brew_lines(ls.drop_last());
        match brew_line(ls.last()) {
            Some(e) => rest.push(e),
            None => rest,
        }
    }
}

impl BrewProvider {
    pub fn new() -> (r: BrewProvider)
        ensures
            r == BrewProvider,
    {
        BrewProvider
    }

    /// The formulae of `brew search` output, each at version `latest`.
    pub fn parse_search_output(stdout: &str) -> (r: Vec<Package>)
        ensures
            summaries(r@) == brew_lines(lines_of(stdout@)),
            all_plain(r@),
    {
        let ls = lines(stdout);
        let ghost lv = ls.deep_view();
        let mut out: Vec<Package> = Vec::new();
        let mut i: usize = 0;
        assert(summaries(out@) =~= brew_lines(lv.take(0)));
        while i < ls.len()
            invariant
                i <= ls.len(),
                lv == ls.deep_view(),
                all_plain(out@),
                summaries(out@) == brew_lines(lv.take(i as int)),
            decreases ls.len() - i,
        {
            proof {
                crate::text::lemma_take_step(lv, i as int);
            }
            let name = trim_str(ls[i].as_str());
            if !name.as_str().is_empty() && !contains(name.as_str(), "==>") {
                let p = Package::basic(name, "latest".to_owned(), String::new(), PackageSource::Brew, false);
                push_plain(&mut out, p);
            }
            i += 1;
        }
        assert(lv.take(ls.len() as int) =~= lv);
        out
    }
}

} // verus!
