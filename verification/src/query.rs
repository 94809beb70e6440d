//! The search query language: free text mixed with `key:value` filters
//! (`source:aur`, `installed:yes`, `name:^prefix`, `dep:glibc`).
use vstd::prelude::*;

use crate::text::{
    chars_of, ws_state, join, join_spec, lowercase, split_once, split_once_spec,
    split_whitespace, str_eq, string_from, to_lowercase, trim, trim_str, ws_tokens,
};

verus! {

/// Which sources a query asks for.
#[derive(Debug, Clone, Copy, PartialEq, Eq, Structural)]
pub enum QuerySourceFilter {
    Any,
    Repo,
    Aur,
}

/// A parsed search query.
#[derive(Debug, Clone)]
pub struct QuerySpec {
    pub text: String,
    pub source: QuerySourceFilter,
    pub installed: Option<bool>,
    pub name_prefix: Option<String>,
    pub name_contains: Option<String>,
    pub dependency_contains: Option<String>,
}

/// The filters of a query.
pub ghost struct QueryFilters {
    pub source: QuerySourceFilter,
    pub installed: Option<bool>,
    pub name_prefix: Option<Seq<char>>,
    pub name_contains: Option<Seq<char>>,
    pub dependency_contains: Option<Seq<char>>,
}

pub open spec fn opt_view(o: Option<String>) -> Option<Seq<char>> {
    crate::models::opt_view(o)
}

impl QuerySpec {
    pub open spec fn filters(&self) -> QueryFilters {
        QueryFilters {
            source: self.source,
            installed: self.installed,
            name_prefix: opt_view(self.name_prefix),
            name_contains: opt_view(self.name_contains),
            dependency_contains: opt_view(self.dependency_contains),
        }
    }
}

/// The filter that a `source:` value selects.
pub open spec fn source_filter(v: Seq<char>) -> QuerySourceFilter {
    if v == "aur"@ {
        QuerySourceFilter::Aur
    } else if v == "repo"@ || v == "pacman"@ {
        QuerySourceFilter::Repo
    } else {
        QuerySourceFilter::Any
    }
}

/// What an `installed:` value makes of the current setting.
pub open spec fn installed_filter(v: Seq<char>, cur: Option<bool>) -> Option<bool> {
    if v == "true"@ || v == "yes"@ || v == "1"@ {
        Some(true)
    } else if v == "false"@ || v == "no"@ || v == "0"@ {
        Some(false)
    } else {
        cur
    }
}

/// What a `name:` value makes of the filters: `^rest` sets the prefix,
/// anything else non-empty the substring, both lower-cased.
pub open spec fn name_filter(v: Seq<char>, f: QueryFilters) -> QueryFilters {
    if v.len() > 0 && v[0] == '^' {
        if v.len() > 1 {
            QueryFilters { name_prefix: Some(lowercase(v.drop_first())), ..f }
        } else {
            f
        }
    } else if v.len() > 0 {
        QueryFilters { name_contains: Some(lowercase(v)), ..f }
    } else {
        f
    }
}

/// One token of a query read into the state: the free-text tokens so far
/// and the filters.
pub open spec fn query_step(st: (Seq<Seq<char>>, QueryFilters), tok: Seq<char>) -> (Seq<Seq<char>>, QueryFilters) {
    match split_once_spec(tok, seq![':']) {
        Some((k, v)) => {
            let f = st.1;
            if k == "source"@ {
                (st.0, QueryFilters { source: source_filter(v), ..f })
            } else if k == "installed"@ {
                (st.0, QueryFilters { installed: installed_filter(v, f.installed), ..f })
            } else if k == "name"@ {
                (st.0, name_filter(v, f))
            } else if k == "dep"@ || k == "depends"@ {
                if v.len() > 0 {
                    (st.0, QueryFilters { dependency_contains: Some(lowercase(v)), ..f })
                } else {
                    st
                }
            } else {
                (st.0.push(tok), f)
            }
        },
        None => (st.0.push(tok), st.1),
    }
}

pub open spec fn no_filters() -> QueryFilters {
    QueryFilters {
        source: QuerySourceFilter::Any,
        installed: None,
        name_prefix: None,
        name_contains: None,
        dependency_contains: None,
    }
}

pub open spec fn query_state(toks: Seq<Seq<char>>) -> (Seq<Seq<char>>, QueryFilters)
    decreases toks.len(),
{
    if toks.len() == 0 {
        (Seq::empty(), no_filters())
    } else {
        query_step(query_state(toks.drop_last()), toks.last())
    }
}

/// The free text of a query: its plain tokens joined by single spaces.
pub open spec fn query_text(input: Seq<char>) -> Seq<char> {
    trim(join_spec(query_state(ws_tokens(input)).0, seq![' ']))
}

pub open spec fn query_filters(input: Seq<char>) -> QueryFilters {
    query_state(ws_tokens(input)).1
}

proof fn lemma_token_chars(s: Seq<char>)
    ensures
        forall|k: int, i: int|
            0 <= k < ws_tokens(s).len() && 0 <= i < ws_tokens(s)[k].len() ==> s.contains(
                #[trigger] ws_tokens(s)[k][i],
            ),
{
    lemma_state_chars(s);
    let st = ws_state(s);
    assert forall|k: int, i: int|
        0 <= k < ws_tokens(s).len() && 0 <= i < ws_tokens(s)[k].len() implies s.contains(
        #[trigger] ws_tokens(s)[k][i],
    ) by {
        if k < st.0.len() {
            assert(ws_tokens(s)[k] == st.0[k]);
        } else {
            assert(ws_tokens(s)[k] == st.1);
        }
    }
}

proof fn lemma_state_chars(s: Seq<char>)
    ensures
        forall|k: int, i: int|
            0 <= k < ws_state(s).0.len() && 0 <= i < ws_state(s).0[k].len() ==> s.contains(
                #[trigger] ws_state(s).0[k][i],
            ),
        forall|i: int| 0 <= i < ws_state(s).1.len() ==> s.contains(#[trigger] ws_state(s).1[i]),
    decreases s.len(),
{
    if s.len() > 0 {
        let p = s.drop_last();
        lemma_state_chars(p);
        let c = s.last();
        assert(s.contains(c)) by {
            assert(s[s.len() - 1] == c);
        }
        assert forall|x: char| p.contains(x) implies s.contains(x) by {
            let j = choose|j: int| 0 <= j < p.len() && p[j] == x;
            assert(s[j] == x);
        }
        let st = ws_state(p);
        let nst = ws_state(s);
        assert(nst == crate::text::ws_step(st, c));
        assert forall|k: int, i: int| 0 <= k < nst.0.len() && 0 <= i < nst.0[k].len() implies s.contains(
            #[trigger] nst.0[k][i],
        ) by {
            if k < st.0.len() {
                assert(nst.0[k] == st.0[k]);
                assert(p.contains(st.0[k][i]));
            } else {
                assert(nst.0[k] == st.1);
                assert(p.contains(st.1[i]));
            }
        }
        assert forall|i: int| 0 <= i < nst.1.len() implies s.contains(#[trigger] nst.1[i]) by {
            if i < st.1.len() && nst.1.len() > 0 && !crate::text::is_ws(c) {
                assert(nst.1[i] == st.1[i]);
                assert(p.contains(st.1[i]));
            }
        }
    }
}

proof fn lemma_no_colon_no_split(tok: Seq<char>)
    requires
        !tok.contains(':'),
    ensures
        split_once_spec(tok, seq![':']) is None,
{
    crate::text::lemma_first_match(tok, seq![':']);
    if crate::text::contains_seq(tok, seq![':']) {
        let i = choose|i: int| crate::text::occurs_at(tok, seq![':'], i);
        assert(tok.subrange(i, i + 1)[0] == ':');
        assert(tok[i] == ':');
    }
}

proof fn lemma_plain_state(toks: Seq<Seq<char>>)
    requires
        forall|k: int| 0 <= k < toks.len() ==> !(#[trigger] toks[k]).contains(':'),
    ensures
        query_state(toks) == (toks, no_filters()),
    decreases toks.len(),
{
    if toks.len() > 0 {
        lemma_plain_state(toks.drop_last());
        lemma_no_colon_no_split(toks[toks.len() - 1]);
        assert(toks.drop_last().push(toks.last()) =~= toks);
    }
}

/// A query without a colon sets no filter: all of it is free text, its
/// words joined by single spaces.
pub proof fn law_plain_query(input: Seq<char>)
    requires
        !input.contains(':'),
    ensures
        query_filters(input) == no_filters(),
        query_text(input) == trim(join_spec(ws_tokens(input), seq![' '])),
{
    lemma_token_chars(input);
    let toks = ws_tokens(input);
    assert forall|k: int| 0 <= k < toks.len() implies !(#[trigger] toks[k]).contains(':') by {
        if toks[k].contains(':') {
            let i = choose|i: int| 0 <= i < toks[k].len() && toks[k][i] == ':';
            assert(input.contains(toks[k][i]));
        }
    }
    lemma_plain_state(toks);
}

/// A query that asks for nothing: no text and no filter.
pub open spec fn unconstrained(text: Seq<char>, f: QueryFilters) -> bool {
    trim(text).len() == 0 && f.installed is None && f.source == QuerySourceFilter::Any
        && f.name_prefix is None && f.name_contains is None && f.dependency_contains is None
}

impl QuerySpec {
    fn apply_token(&mut self, text_tokens: &mut Vec<String>, tok: String)
        ensures
            (final(text_tokens).deep_view(), final(self).filters()) == query_step(
                (old(text_tokens).deep_view(), old(self).filters()),
                tok@,
            ),
            final(self).text@ == old(self).text@,
    {
        let colon = ":";
        proof {
            reveal_strlit(":");
            assert(colon@ =~= seq![':']);
        }
        match split_once(tok.as_str(), colon) {
            Some((k, v)) => {
                let ks = k.as_str();
                let vs = v.as_str();
                if str_eq(ks, "source") {
                    self.source = if str_eq(vs, "aur") {
                        QuerySourceFilter::Aur
                    } else if str_eq(vs, "repo") || str_eq(vs, "pacman") {
                        QuerySourceFilter::Repo
                    } else {
                        QuerySourceFilter::Any
                    };
                } else if str_eq(ks, "installed") {
                    if str_eq(vs, "true") || str_eq(vs, "yes") || str_eq(vs, "1") {
                        self.installed = Some(true);
                    } else if str_eq(vs, "false") || str_eq(vs, "no") || str_eq(vs, "0") {
                        self.installed = Some(false);
                    }
                } else if str_eq(ks, "name") {
                    let cs = chars_of(vs);
                    if cs.len() > 0 && cs[0] == '^' {
                        if cs.len() > 1 {
                            let rest = string_from(&cs, 1, cs.len());
                            assert(rest@ =~= vs@.drop_first());
                            self.name_prefix = Some(to_lowercase(rest.as_str()));
                        }
                    } else if cs.len() > 0 {
                        self.name_contains = Some(to_lowercase(vs));
                    }
                } else if str_eq(ks, "dep") || str_eq(ks, "depends") {
                    if !vs.is_empty() {
                        self.dependency_contains = Some(to_lowercase(vs));
                    }
                } else {
                    let ghost before = text_tokens.deep_view();
                    let ghost tv = tok@;
                    text_tokens.push(tok);
                    assert(text_tokens.deep_view() =~= before.push(tv));
                }
            },
            None => {
                let ghost before = text_tokens.deep_view();
                let ghost tv = tok@;
                text_tokens.push(tok);
                assert(text_tokens.deep_view() =~= before.push(tv));
            },
        }
    }

    /// Parses a query: `source:aur|repo|pacman`, `installed:true|yes|1|
    /// false|no|0`, `name:^prefix`, `name:part`, `dep:part` (or
    /// `depends:`) set filters; every other token is free text.
    pub fn parse(input: &str) -> (r: QuerySpec)
        ensures
            r.text@ == query_text(input@),
            r.filters() == query_filters(input@),
    {
        let tokens = split_whitespace(input);
        let mut text_tokens: Vec<String> = Vec::new();
        let mut spec = QuerySpec {
            text: String::new(),
            source: QuerySourceFilter::Any,
            installed: None,
            name_prefix: None,
            name_contains: None,
            dependency_contains: None,
        };
        let ghost toks = tokens.deep_view();
        assert(text_tokens.deep_view() =~= Seq::<Seq<char>>::empty());
        let mut i: usize = 0;
        while i < tokens.len()
            invariant
                i <= tokens.len(),
                toks == tokens.deep_view(),
                toks == ws_tokens(input@),
                (text_tokens.deep_view(), spec.filters()) == query_state(toks.take(i as int)),
            decreases tokens.len() - i,
        {
            proof {
                crate::text::lemma_take_step(toks, i as int);
            }
            let tok = tokens[i].clone();
            spec.apply_token(&mut text_tokens, tok);
            i += 1;
        }
        assert(toks.take(tokens.len() as int) =~= toks);
        let sep = " ";
        proof {
            reveal_strlit(" ");
            assert(sep@ =~= seq![' ']);
        }
        let joined = join(&text_tokens, sep);
        spec.text = trim_str(joined.as_str());
        spec
    }

    /// Whether the query asks for nothing (no text and no filter), in which
    /// case a search returns no results.
    pub fn is_unconstrained(&self) -> (r: bool)
        ensures
            r == unconstrained(self.text@, self.filters()),
    {
        let t = trim_str(self.text.as_str());
        t.as_str().is_empty() && self.installed.is_none() && self.source == QuerySourceFilter::Any
            && self.name_prefix.is_none() && self.name_contains.is_none()
            && self.dependency_contains.is_none()
    }

    /// The text handed to the providers: the free text, or the whole query
    /// trimmed when there is no free text.
    pub fn base_query(&self, query: &str) -> (r: String)
        ensures
            r@ == if self.text@.len() == 0 {
                trim(query@)
            } else {
                self.text@
            },
    {
        if self.text.as_str().is_empty() {
            trim_str(query)
        } else {
            self.text.clone()
        }
    }
}

/// A `source:` token selects the sources to search, wherever it stands in
/// a query: `source:aur` the AUR, `source:repo` and `source:pacman` the
/// repositories, any other value all sources; it adds no free text and
/// leaves the other filters as they were.
pub proof fn law_source_token_selects(st: (Seq<Seq<char>>, QueryFilters), v: Seq<char>)
    ensures
        ({
            let after = query_step(st, "source"@ + seq![':'] + v);
            &&& after.0 == st.0
            &&& after.1.installed == st.1.installed
            &&& after.1.name_prefix == st.1.name_prefix
            &&& after.1.name_contains == st.1.name_contains
            &&& after.1.dependency_contains == st.1.dependency_contains
            &&& v == "aur"@ ==> after.1.source == QuerySourceFilter::Aur
            &&& v == "repo"@ ==> after.1.source == QuerySourceFilter::Repo
            &&& v == "pacman"@ ==> after.1.source == QuerySourceFilter::Repo
            &&& (v != "aur"@ && v != "repo"@ && v != "pacman"@) ==> after.1.source
                == QuerySourceFilter::Any
        }),
{
    reveal_strlit("source");
    reveal_strlit("aur");
    reveal_strlit("repo");
    reveal_strlit("pacman");
    assert("repo"@ != "aur"@ && "pacman"@ != "aur"@) by {
        assert("repo"@[0] != "aur"@[0]);
        assert("pacman"@.len() != "aur"@.len());
    }
    assert(!"source"@.contains(':'));
    crate::text::lemma_split_once_at_char("source"@, ':', v);
    let tok = "source"@ + seq![':'] + v;
    assert(split_once_spec(tok, seq![':']) == Some(("source"@, v)));
    let after = query_step(st, tok);
    assert(after == (st.0, QueryFilters { source: source_filter(v), ..st.1 }));
}

/// A query made of one `source:` token searches the sources it names:
/// `source:aur` the AUR, `source:repo` or `source:pacman` the repositories;
/// it has no free text and sets no other filter.
pub proof fn law_source_only_query(v: Seq<char>)
    ensures
        ({
            let st = query_step((Seq::empty(), no_filters()), "source"@ + seq![':'] + v);
            &&& st.0 == Seq::<Seq<char>>::empty()
            &&& v == "aur"@ ==> st.1.source == QuerySourceFilter::Aur
            &&& (v == "repo"@ || v == "pacman"@) ==> st.1.source == QuerySourceFilter::Repo
            &&& (v == "aur"@ || v == "repo"@ || v == "pacman"@) ==> !unconstrained(
                trim(join_spec(st.0, seq![' '])),
                st.1,
            )
        }),
{
    law_source_token_selects((Seq::empty(), no_filters()), v);
    let st = query_step((Seq::empty(), no_filters()), "source"@ + seq![':'] + v);
    assert(join_spec(st.0, seq![' ']) == Seq::<char>::empty());
}

/// An `installed:` token asks for installed packages with `true`, `yes` or
/// `1`, for packages not installed with `false`, `no` or `0`, and leaves the
/// setting as it was for any other value; it adds no free text and changes
/// no other filter.
pub proof fn law_installed_token(st: (Seq<Seq<char>>, QueryFilters), v: Seq<char>)
    ensures
        ({
            let after = query_step(st, "installed"@ + seq![':'] + v);
            &&& after.0 == st.0
            &&& after.1.source == st.1.source
            &&& after.1.name_prefix == st.1.name_prefix
            &&& after.1.name_contains == st.1.name_contains
            &&& after.1.dependency_contains == st.1.dependency_contains
            &&& (v == "true"@ || v == "yes"@ || v == "1"@) ==> after.1.installed == Some(true)
            &&& (v == "false"@ || v == "no"@ || v == "0"@) ==> after.1.installed == Some(false)
        }),
{
    reveal_strlit("installed");
    reveal_strlit("source");
    reveal_strlit("true");
    reveal_strlit("yes");
    reveal_strlit("1");
    reveal_strlit("false");
    reveal_strlit("no");
    reveal_strlit("0");
    assert(!"installed"@.contains(':'));
    assert("installed"@ != "source"@) by {
        assert("installed"@[0] != "source"@[0]);
    }
    assert("false"@ != "true"@ && "false"@ != "yes"@ && "false"@ != "1"@) by {
        assert("false"@[0] != "true"@[0]);
        assert("false"@[0] != "yes"@[0]);
        assert("false"@[0] != "1"@[0]);
    }
    assert("no"@ != "true"@ && "no"@ != "yes"@ && "no"@ != "1"@) by {
        assert("no"@[0] != "true"@[0]);
        assert("no"@[0] != "yes"@[0]);
        assert("no"@[0] != "1"@[0]);
    }
    assert("0"@ != "true"@ && "0"@ != "yes"@ && "0"@ != "1"@) by {
        assert("0"@[0] != "true"@[0]);
        assert("0"@[0] != "yes"@[0]);
        assert("0"@[0] != "1"@[0]);
    }
    crate::text::lemma_split_once_at_char("installed"@, ':', v);
}

} // verus!
