//! Scoop: the output of `scoop search` and `scoop list`.
use vstd::prelude::*;

use crate::models::{all_plain, push_plain, summaries, Package, PackageSource, Summary};
use crate::text::{
    contains, contains_seq, is_prefix, lines, lines_of, split_whitespace, starts_with, trim,
    trim_str, ws_tokens,
};

verus! {

pub struct ScoopProvider;

/// A `scoop search` line `name version ...`, skipping blank lines, quoted
/// headings and "Results from" lines.
pub open spec fn scoop_line(line: Seq<char>) -> Option<Summary> {
    let t = trim(line);
    if t.len() == 0 || is_prefix("'"@, t) || contains_seq(t, "Results from"@) {
        None
    } else {
        let parts = ws_tokens(t);
        if parts.len() >= 2 {
            Some((parts[0], parts[1], Seq::empty(), PackageSource::Scoop, false))
        } else {
            None
        }
    }
}

pub open spec fn scoop_lines(ls: Seq<Seq<char>>) -> Seq<Summary>
    decreases ls.len(),
{
    if ls.len() == 0 {
        Seq::empty()
    } else {
        let rest = scoop_lines(ls.drop_last());
        match scoop_line(ls.last()) {
            Some(e) => rest.push(e),
            None => rest,
        }
    }
}

impl ScoopProvider {
    pub fn new() -> (r: ScoopProvider)
        ensures
            r == ScoopProvider,
    {
        ScoopProvider
    }

    /// The apps of `scoop search` output.
    pub fn parse_search_output(stdout: &str) -> (r: Vec<Package>)
        ensures
            summaries(r@) == scoop_lines(lines_of(stdout@)),
            all_plain(r@),
    {
        let ls = lines(stdout);
        let ghost lv = ls.deep_view();
        let mut out: Vec<Package> = Vec::new();
        let mut i: usize = 0;
        assert(summaries(out@) =~= scoop_lines(lv.take(0)));
        while i < ls.len()
            invariant
                i <= ls.len(),
                lv == ls.deep_view(),
                all_plain(out@),
                summaries(out@) == scoop_lines(lv.take(i as int)),
            decreases ls.len() - i,
        {
            proof {
                crate::text::lemma_take_step(lv, i as int);
            }
            let t = trim_str(ls[i].as_str());
            let ts = t.as_str();
            if !(ts.is_empty() || starts_with(ts, "'") || contains(ts, "Results from")) {
                let parts = split_whitespace(ts);
                if parts.len() >= 2 {
                    let p = Package::basic(parts[0].clone(), parts[1].clone(), String::new(), PackageSource::Scoop, false);
                    push_plain(&mut out, p);
                }
            }
            i += 1;
        }
        assert(lv.take(ls.len() as int) =~= lv);
        out
    }

    /// Whether `scoop list` output mentions `name` anywhere.
    pub fn list_has(stdout: &str, name: &str) -> (r: bool)
        ensures
            r == contains_seq(stdout@, name@),
    {
        contains(stdout, name)
    }
}

} // verus!
