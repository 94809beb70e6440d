//! APT: the output of `apt list`.
use vstd::prelude::*;

use crate::models::{all_plain, push_plain, summaries, summary, Package, PackageSource, Summary};
use crate::text::{contains, contains_seq, lines, lines_of, split_char, split_on, split_whitespace, ws_tokens};

verus! {

pub struct AptProvider;

/// An `apt list` line `name/repo version architecture [status]`.
pub open spec fn apt_line(line: Seq<char>) -> Option<Summary> {
    let parts = ws_tokens(line);
    if parts.len() < 2 {
        None
    } else {
        Some(
            (
                split_on(parts[0], '/')[0],
                parts[1],
                Seq::empty(),
                PackageSource::Apt,
                contains_seq(line, "[installed]"@),
            ),
        )
    }
}

/// The packages of `apt list` output, after its first line.
pub open spec fn apt_lines(ls: Seq<Seq<char>>) -> Seq<Summary>
    decreases ls.len(),
{
    if ls.len() == 0 {
        Seq::empty()
    } else {
        let rest = apt_lines(ls.drop_last());
        match apt_line(ls.last()) {
            Some(e) => rest.push(e),
            None => rest,
        }
    }
}

impl AptProvider {
    pub fn new() -> (r: AptProvider)
        ensures
            r == AptProvider,
    {
        AptProvider
    }

    /// Reads one `apt list` line.
    pub fn parse_line(line: &str) -> (r: Option<Package>)
        ensures
            match r {
                Some(p) => apt_line(line@) == Some(summary(p)) && p.has_default_extras(),
                None => apt_line(line@) is None,
            },
    {
        let parts = split_whitespace(line);
        if parts.len() < 2 {
            return None;
        }
        let pieces = split_char(parts[0].as_str(), '/');
        assert(pieces.deep_view().len() == pieces@.len());
        assert(split_on(parts@[0]@, '/').len() > 0);
        let name = pieces[0].clone();
        let version = parts[1].clone();
        let is_installed = contains(line, "[installed]");
        Some(Package::basic(name, version, String::new(), PackageSource::Apt, is_installed))
    }

    /// The packages of `apt list` output; its first line ("Listing...") is
    /// skipped.
    pub fn parse_list_output(stdout: &str) -> (r: Vec<Package>)
        ensures
            summaries(r@) == (if lines_of(stdout@).len() == 0 {
                Seq::empty()
            } else {
                apt_lines(lines_of(stdout@).drop_first())
            }),
            all_plain(r@),
    {
        let ls = lines(stdout);
        let ghost lv = ls.deep_view();
        let mut out: Vec<Package> = Vec::new();
        if ls.len() == 0 {
            assert(summaries(out@) =~= Seq::<Summary>::empty());
            return out;
        }
        let ghost body = lv.drop_first();
        let mut i: usize = 1;
        assert(summaries(out@) =~= apt_lines(body.take(0)));
        while i < ls.len()
            invariant
                1 <= i <= ls.len(),
                lv == ls.deep_view(),
                body == lv.drop_first(),
                all_plain(out@),
                summaries(out@) == apt_lines(body.take(i - 1)),
            decreases ls.len() - i,
        {
            proof {
                crate::text::lemma_take_step(body, i - 1);
            }
            match Self::parse_line(ls[i].as_str()) {
                Some(p) => push_plain(&mut out, p),
                None => {},
            }
            i += 1;
        }
        assert(body.take(ls.len() - 1) =~= body);
        out
    }
}

} // verus!
