//! Character-level text utilities: the building blocks of every parser in
//! this crate, each stated over the `Seq<char>` view of the strings it
//! handles.
use vstd::prelude::*;

verus! {

// ---------------------------------------------------------------------------
// Specifications
// ---------------------------------------------------------------------------

/// Unicode `White_Space`, the property that `char::is_whitespace` tests.
pub open spec fn is_ws(c: char) -> bool {
    let u = c as u32;
    ||| (0x09 <= u && u <= 0x0d)
    ||| u == 0x20
    ||| u == 0x85
    ||| u == 0xa0
    ||| u == 0x1680
    ||| (0x2000 <= u && u <= 0x200a)
    ||| u == 0x2028
    ||| u == 0x2029
    ||| u == 0x202f
    ||| u == 0x205f
    ||| u == 0x3000
}

/// One step of whitespace splitting: the tokens finished so far and the one
/// being read.
pub open spec fn ws_step(st: (Seq<Seq<char>>, Seq<char>), c: char) -> (Seq<Seq<char>>, Seq<char>) {
    if is_ws(c) {
        if st.1.len() > 0 {
            (st.0.push(st.1), Seq::empty())
        } else {
            st
        }
    } else {
        (st.0, st.1.push(c))
    }
}

pub open spec fn ws_state(s: Seq<char>) -> (Seq<Seq<char>>, Seq<char>)
    decreases s.len(),
{
    if s.len() == 0 {
        (Seq::empty(), Seq::empty())
    } else {
        ws_step(ws_state(s.drop_last()), s.last())
    }
}

/// The maximal runs of non-whitespace characters of `s`, in order
/// (`str::split_whitespace`).
pub open spec fn ws_tokens(s: Seq<char>) -> Seq<Seq<char>> {
    let st = ws_state(s);
    if st.1.len() > 0 {
        st.0.push(st.1)
    } else {
        st.0
    }
}

/// Drops one trailing carriage return.
pub open spec fn strip_cr(s: Seq<char>) -> Seq<char> {
    if s.len() > 0 && s.last() == '\r' {
        s.drop_last()
    } else {
        s
    }
}

pub open spec fn line_step(st: (Seq<Seq<char>>, Seq<char>), c: char) -> (Seq<Seq<char>>, Seq<char>) {
    if c == '\n' {
        (st.0.push(strip_cr(st.1)), Seq::empty())
    } else {
        (st.0, st.1.push(c))
    }
}

pub open spec fn line_state(s: Seq<char>) -> (Seq<Seq<char>>, Seq<char>)
    decreases s.len(),
{
    if s.len() == 0 {
        (Seq::empty(), Seq::empty())
    } else {
        line_step(line_state(s.drop_last()), s.last())
    }
}

/// The lines of `s` (`str::lines`): split at `\n`, a `\r` right before a
/// `\n` dropped, and no empty last line after a final line ending.
pub open spec fn lines_of(s: Seq<char>) -> Seq<Seq<char>> {
    let st = line_state(s);
    if st.1.len() > 0 {
        st.0.push(st.1)
    } else {
        st.0
    }
}

pub open spec fn split_step(st: (Seq<Seq<char>>, Seq<char>), c: char, sep: char) -> (Seq<Seq<char>>, Seq<char>) {
    if c == sep {
        (st.0.push(st.1), Seq::empty())
    } else {
        (st.0, st.1.push(c))
    }
}

pub open spec fn split_state(s: Seq<char>, sep: char) -> (Seq<Seq<char>>, Seq<char>)
    decreases s.len(),
{
    if s.len() == 0 {
        (Seq::empty(), Seq::empty())
    } else {
        split_step(split_state(s.drop_last(), sep), s.last(), sep)
    }
}

/// The pieces of `s` between occurrences of `sep` (`str::split` on a char).
pub open spec fn split_on(s: Seq<char>, sep: char) -> Seq<Seq<char>> {
    let st = split_state(s, sep);
    st.0.push(st.1)
}

pub open spec fn trim_start(s: Seq<char>) -> Seq<char>
    decreases s.len(),
{
    if s.len() > 0 && is_ws(s[0]) {
        trim_start(s.drop_first())
    } else {
        s
    }
}

pub open spec fn trim_end(s: Seq<char>) -> Seq<char>
    decreases s.len(),
{
    if s.len() > 0 && is_ws(s.last()) {
        trim_end(s.drop_last())
    } else {
        s
    }
}

/// `s` without leading and trailing whitespace (`str::trim`).
pub open spec fn trim(s: Seq<char>) -> Seq<char> {
    trim_end(trim_start(s))
}

pub open spec fn is_prefix(p: Seq<char>, s: Seq<char>) -> bool {
    p.len() <= s.len() && s.take(p.len() as int) == p
}

pub open spec fn is_suffix(p: Seq<char>, s: Seq<char>) -> bool {
    p.len() <= s.len() && s.skip(s.len() - p.len()) == p
}

/// `p` occurs in `s` starting at index `i`.
pub open spec fn occurs_at(s: Seq<char>, p: Seq<char>, i: int) -> bool {
    0 <= i && i + p.len() <= s.len() && s.subrange(i, i + p.len()) == p
}

pub open spec fn contains_seq(s: Seq<char>, p: Seq<char>) -> bool {
    exists|i: int| occurs_at(s, p, i)
}

pub open spec fn first_match_from(s: Seq<char>, p: Seq<char>, k: int) -> Option<int>
    decreases s.len() + 1 - k,
{
    if k < 0 || k + p.len() > s.len() {
        None
    } else if occurs_at(s, p, k) {
        Some(k)
    } else {
        first_match_from(s, p, k + 1)
    }
}

/// The first index at which `p` occurs in `s` (`str::find`).
pub open spec fn first_match(s: Seq<char>, p: Seq<char>) -> Option<int> {
    first_match_from(s, p, 0)
}

/// `s` cut around the first occurrence of `p` (`str::split_once`).
pub open spec fn split_once_spec(s: Seq<char>, p: Seq<char>) -> Option<(Seq<char>, Seq<char>)> {
    match first_match(s, p) {
        Some(i) => Some((s.take(i), s.skip(i + p.len()))),
        None => None,
    }
}

pub open spec fn join_spec(parts: Seq<Seq<char>>, sep: Seq<char>) -> Seq<char>
    decreases parts.len(),
{
    if parts.len() == 0 {
        Seq::empty()
    } else if parts.len() == 1 {
        parts[0]
    } else {
        join_spec(parts.drop_last(), sep) + sep + parts.last()
    }
}

pub open spec fn digit_char(d: nat) -> char {
    if d == 0 { '0' }
    else if d == 1 { '1' }
    else if d == 2 { '2' }
    else if d == 3 { '3' }
    else if d == 4 { '4' }
    else if d == 5 { '5' }
    else if d == 6 { '6' }
    else if d == 7 { '7' }
    else if d == 8 { '8' }
    else { '9' }
}

/// The decimal digits of `n`, most significant first, without leading zeros.
pub open spec fn decimal(n: nat) -> Seq<char>
    decreases n,
{
    if n < 10 {
        seq![digit_char(n)]
    } else {
        decimal(n / 10).push(digit_char(n % 10))
    }
}

/// `n` copies of `c`.
pub open spec fn repeat_char(c: char, n: nat) -> Seq<char> {
    Seq::new(n, |i: int| c)
}

/// The views of a sequence of strings.
pub open spec fn views(v: Seq<String>) -> Seq<Seq<char>> {
    v.map_values(|s: String| s@)
}

// ---------------------------------------------------------------------------
// Lemmas
// ---------------------------------------------------------------------------

proof fn lemma_trim_start_drop_last(s: Seq<char>)
    requires
        s.len() > 0,
    ensures
        trim_start(s).len() > 0 ==> trim_start(s.drop_last()) == trim_start(s).drop_last()
            && trim_start(s).last() == s.last(),
        trim_start(s).len() == 0 ==> trim_start(s.drop_last()).len() == 0,
    decreases s.len(),
{
    if is_ws(s[0]) {
        if s.len() == 1 {
            assert(s.drop_first().len() == 0);
            assert(s.drop_last().len() == 0);
        } else {
            lemma_trim_start_drop_last(s.drop_first());
            assert(s.drop_last().drop_first() =~= s.drop_first().drop_last());
            assert(s.drop_last()[0] == s[0]);
            assert(s.drop_first().last() == s.last());
            assert(trim_start(s) == trim_start(s.drop_first()));
            assert(trim_start(s.drop_last()) == trim_start(s.drop_last().drop_first()));
        }
    } else {
        assert(trim_start(s) == s);
        if s.len() == 1 {
            assert(s.drop_last().len() == 0);
        } else {
            assert(s.drop_last()[0] == s[0]);
            assert(trim_start(s.drop_last()) == s.drop_last());
        }
    }
}

/// Trimming ignores a trailing whitespace character.
pub proof fn lemma_trim_drop_ws_last(s: Seq<char>)
    requires
        s.len() > 0,
        is_ws(s.last()),
    ensures
        trim(s.drop_last()) == trim(s),
{
    lemma_trim_start_drop_last(s);
}

/// Reading more text after a line ending: the lines so far are followed by
/// those of the new text.
pub proof fn lemma_line_state_append(x: Seq<char>, b: Seq<char>)
    requires
        line_state(x).1.len() == 0,
    ensures
        line_state(x + b) == (line_state(x).0 + line_state(b).0, line_state(b).1),
    decreases b.len(),
{
    if b.len() == 0 {
        assert(x + b =~= x);
        assert(line_state(x).0 + line_state(b).0 =~= line_state(x).0);
    } else {
        lemma_line_state_append(x, b.drop_last());
        assert((x + b).drop_last() =~= x + b.drop_last());
        assert((x + b).last() == b.last());
        let a = line_state(x).0;
        let p = line_state(b.drop_last());
        assert((a + p.0).push(strip_cr(p.1)) =~= a + p.0.push(strip_cr(p.1)));
    }
}

/// The lines of `a`, a line ending and `b`: the complete lines of `a`, its
/// last partial line (a trailing carriage return dropped), then the lines of
/// `b`.
pub proof fn lemma_lines_of_joined(a: Seq<char>, b: Seq<char>)
    ensures
        lines_of(a + seq!['\n'] + b) == line_state(a).0.push(strip_cr(line_state(a).1)) + lines_of(b),
{
    let x = a + seq!['\n'];
    assert(x.drop_last() =~= a);
    assert(line_state(x) == (line_state(a).0.push(strip_cr(line_state(a).1)), Seq::<char>::empty()));
    lemma_line_state_append(x, b);
    let st = line_state(b);
    let h = line_state(a).0.push(strip_cr(line_state(a).1));
    if st.1.len() > 0 {
        assert((h + st.0).push(st.1) =~= h + st.0.push(st.1));
    }
}

pub proof fn lemma_take_step<T>(s: Seq<T>, i: int)
    requires
        0 <= i < s.len(),
    ensures
        s.take(i + 1).drop_last() == s.take(i),
        s.take(i + 1).last() == s[i],
        s.take(i + 1).len() == i + 1,
{
    assert(s.take(i + 1).drop_last() =~= s.take(i));
}

proof fn lemma_trim_start_skip(s: Seq<char>, k: int)
    requires
        0 <= k <= s.len(),
        forall|j: int| 0 <= j < k ==> is_ws(#[trigger] s[j]),
    ensures
        trim_start(s) == trim_start(s.skip(k)),
    decreases k,
{
    if k == 0 {
        assert(s.skip(0) =~= s);
    } else {
        let t = s.drop_first();
        assert forall|j: int| 0 <= j < k - 1 implies is_ws(#[trigger] t[j]) by {
            assert(t[j] == s[j + 1]);
        }
        lemma_trim_start_skip(t, k - 1);
        assert(t.skip(k - 1) =~= s.skip(k));
    }
}

proof fn lemma_trim_end_take(s: Seq<char>, k: int)
    requires
        0 <= k <= s.len(),
        forall|j: int| k <= j < s.len() ==> is_ws(#[trigger] s[j]),
    ensures
        trim_end(s) == trim_end(s.take(k)),
    decreases s.len() - k,
{
    if k == s.len() {
        assert(s.take(k) =~= s);
    } else {
        let t = s.drop_last();
        assert(is_ws(s[s.len() - 1]));
        assert forall|j: int| k <= j < t.len() implies is_ws(#[trigger] t[j]) by {
            assert(t[j] == s[j]);
        }
        lemma_trim_end_take(t, k);
        assert(t.take(k) =~= s.take(k));
    }
}

/// `trim(s)` is the slice of `s` between its first and last non-whitespace
/// characters.
pub proof fn lemma_trim_bounds(s: Seq<char>, lo: int, hi: int)
    requires
        0 <= lo <= hi <= s.len(),
        forall|j: int| 0 <= j < lo ==> is_ws(#[trigger] s[j]),
        forall|j: int| hi <= j < s.len() ==> is_ws(#[trigger] s[j]),
        lo == s.len() || !is_ws(s[lo]),
        lo < hi ==> !is_ws(s[hi - 1]),
        lo == hi ==> lo == s.len(),
    ensures
        trim(s) == s.subrange(lo, hi),
{
    lemma_trim_start_skip(s, lo);
    let t = s.skip(lo);
    assert(trim_start(t) == t);
    assert forall|j: int| hi - lo <= j < t.len() implies is_ws(#[trigger] t[j]) by {
        assert(t[j] == s[j + lo]);
    }
    lemma_trim_end_take(t, hi - lo);
    let u = t.take(hi - lo);
    assert(u =~= s.subrange(lo, hi));
    if hi > lo {
        assert(u.last() == s[hi - 1]);
    }
    assert(trim_end(u) == u);
}

proof fn lemma_first_match_skip(s: Seq<char>, p: Seq<char>, k: int)
    requires
        0 <= k,
        k + p.len() <= s.len() + 1,
        forall|j: int| 0 <= j < k ==> !occurs_at(s, p, j),
    ensures
        first_match(s, p) == first_match_from(s, p, k),
    decreases k,
{
    if k > 0 {
        lemma_first_match_skip(s, p, k - 1);
    }
}

// ---------------------------------------------------------------------------
// Executable functions
// ---------------------------------------------------------------------------

/// Appends one character to a `String` (`String::push`).
#[verifier::external_body]
pub(crate) fn string_push(s: &mut String, c: char)
    ensures
        final(s)@ == old(s)@.push(c),
{
    s.push(c)
}

/// The characters of `s`, in order.
pub fn chars_of(s: &str) -> (v: Vec<char>)
    ensures
        v@ == s@,
{
    let mut v: Vec<char> = Vec::new();
    for c in it: s.chars()
        invariant
            it.seq() == s@,
            v@ == it.seq().take(it.index() as int),
    {
        v.push(c);
    }
    v
}

/// The string made of `v[lo..hi]`.
pub fn string_from(v: &Vec<char>, lo: usize, hi: usize) -> (s: String)
    requires
        lo <= hi <= v.len(),
    ensures
        s@ == v@.subrange(lo as int, hi as int),
{
    let mut s = String::new();
    let mut i = lo;
    while i < hi
        invariant
            lo <= i <= hi <= v.len(),
            s@ == v@.subrange(lo as int, i as int),
        decreases hi - i,
    {
        string_push(&mut s, v[i]);
        assert(v@.subrange(lo as int, i + 1) =~= v@.subrange(lo as int, i as int).push(v@[i as int]));
        i += 1;
    }
    s
}

/// Copies a `String` with its contents.
pub fn copy_string(s: &String) -> (r: String)
    ensures
        r@ == s@,
{
    s.clone()
}

/// Copies a vector of strings with their contents.
pub fn copy_strings(v: &Vec<String>) -> (r: Vec<String>)
    ensures
        r.deep_view() == v.deep_view(),
{
    let mut r: Vec<String> = Vec::new();
    let mut i: usize = 0;
    while i < v.len()
        invariant
            i <= v.len(),
            r.len() == i,
            forall|j: int| 0 <= j < i ==> r@[j]@ == v@[j]@,
        decreases v.len() - i,
    {
        r.push(copy_string(&v[i]));
        i += 1;
    }
    assert(r.deep_view() =~= v.deep_view());
    r
}

/// `char::is_whitespace`.
pub fn is_whitespace(c: char) -> (r: bool)
    ensures
        r == is_ws(c),
{
    let u = c as u32;
    (0x09 <= u && u <= 0x0d) || u == 0x20 || u == 0x85 || u == 0xa0 || u == 0x1680 || (0x2000
        <= u && u <= 0x200a) || u == 0x2028 || u == 0x2029 || u == 0x202f || u == 0x205f || u
        == 0x3000
}

/// `str::split_whitespace`, collected.
pub fn split_whitespace(s: &str) -> (r: Vec<String>)
    ensures
        r.deep_view() == ws_tokens(s@),
{
    let v = chars_of(s);
    split_whitespace_chars(&v)
}

pub fn split_whitespace_chars(v: &Vec<char>) -> (r: Vec<String>)
    ensures
        r.deep_view() == ws_tokens(v@),
{
    let mut done: Vec<String> = Vec::new();
    let mut start: usize = 0;
    let mut i: usize = 0;
    while i < v.len()
        invariant
            start <= i <= v.len(),
            done.deep_view() == ws_state(v@.take(i as int)).0,
            v@.subrange(start as int, i as int) == ws_state(v@.take(i as int)).1,
        decreases v.len() - i,
    {
        proof {
            lemma_take_step(v@, i as int);
        }
        let c = v[i];
        if is_whitespace(c) {
            if start < i {
                let tok = string_from(v, start, i);
                let ghost before = done.deep_view();
                done.push(tok);
                assert(done.deep_view() =~= before.push(tok@));
            }
            start = i + 1;
        } else {
            assert(v@.subrange(start as int, i + 1) =~= v@.subrange(start as int, i as int).push(
                c,
            ));
        }
        i += 1;
    }
    assert(v@.take(v.len() as int) =~= v@);
    if start < v.len() {
        let tok = string_from(v, start, v.len());
        let ghost before = done.deep_view();
        done.push(tok);
        assert(done.deep_view() =~= before.push(tok@));
    }
    done
}

/// `str::lines`, collected.
pub fn lines(s: &str) -> (r: Vec<String>)
    ensures
        r.deep_view() == lines_of(s@),
{
    let v = chars_of(s);
    let mut done: Vec<String> = Vec::new();
    let mut start: usize = 0;
    let mut i: usize = 0;
    while i < v.len()
        invariant
            start <= i <= v.len(),
            v@ == s@,
            done.deep_view() == line_state(v@.take(i as int)).0,
            v@.subrange(start as int, i as int) == line_state(v@.take(i as int)).1,
        decreases v.len() - i,
    {
        proof {
            lemma_take_step(v@, i as int);
        }
        let c = v[i];
        if c == '\n' {
            let end = if start < i && v[i - 1] == '\r' {
                i - 1
            } else {
                i
            };
            let ghost cur = v@.subrange(start as int, i as int);
            assert(strip_cr(cur) =~= v@.subrange(start as int, end as int));
            let line = string_from(&v, start, end);
            let ghost before = done.deep_view();
            done.push(line);
            assert(done.deep_view() =~= before.push(line@));
            start = i + 1;
        } else {
            assert(v@.subrange(start as int, i + 1) =~= v@.subrange(start as int, i as int).push(
                c,
            ));
        }
        i += 1;
    }
    assert(v@.take(v.len() as int) =~= v@);
    if start < v.len() {
        let line = string_from(&v, start, v.len());
        let ghost before = done.deep_view();
        done.push(line);
        assert(done.deep_view() =~= before.push(line@));
    }
    done
}

/// `str::split` on a character, collected.
pub fn split_char(s: &str, sep: char) -> (r: Vec<String>)
    ensures
        r.deep_view() == split_on(s@, sep),
{
    let v = chars_of(s);
    let mut done: Vec<String> = Vec::new();
    let mut start: usize = 0;
    let mut i: usize = 0;
    while i < v.len()
        invariant
            start <= i <= v.len(),
            v@ == s@,
            done.deep_view() == split_state(v@.take(i as int), sep).0,
            v@.subrange(start as int, i as int) == split_state(v@.take(i as int), sep).1,
        decreases v.len() - i,
    {
        proof {
            lemma_take_step(v@, i as int);
        }
        let c = v[i];
        if c == sep {
            let piece = string_from(&v, start, i);
            let ghost before = done.deep_view();
            done.push(piece);
            assert(done.deep_view() =~= before.push(piece@));
            start = i + 1;
        } else {
            assert(v@.subrange(start as int, i + 1) =~= v@.subrange(start as int, i as int).push(
                c,
            ));
        }
        i += 1;
    }
    assert(v@.take(v.len() as int) =~= v@);
    let piece = string_from(&v, start, v.len());
    let ghost before = done.deep_view();
    done.push(piece);
    assert(done.deep_view() =~= before.push(piece@));
    done
}

/// The bounds of the trimmed part of `v`.
pub fn trim_bounds(v: &Vec<char>) -> (r: (usize, usize))
    ensures
        r.0 <= r.1 <= v.len(),
        trim(v@) == v@.subrange(r.0 as int, r.1 as int),
{
    let mut lo: usize = 0;
    while lo < v.len() && is_whitespace(v[lo])
        invariant
            lo <= v.len(),
            forall|j: int| 0 <= j < lo ==> is_ws(#[trigger] v@[j]),
        decreases v.len() - lo,
    {
        lo += 1;
    }
    let mut hi: usize = v.len();
    while hi > lo && is_whitespace(v[hi - 1])
        invariant
            lo <= hi <= v.len(),
            forall|j: int| hi <= j < v.len() ==> is_ws(#[trigger] v@[j]),
        decreases hi,
    {
        hi -= 1;
    }
    proof {
        lemma_trim_bounds(v@, lo as int, hi as int);
    }
    (lo, hi)
}

/// `str::trim`, as an owned string.
pub fn trim_str(s: &str) -> (r: String)
    ensures
        r@ == trim(s@),
{
    let v = chars_of(s);
    let (lo, hi) = trim_bounds(&v);
    string_from(&v, lo, hi)
}

/// `p` occurs in `v` at index `i`.
pub fn matches_at(v: &Vec<char>, p: &Vec<char>, i: usize) -> (r: bool)
    ensures
        r == occurs_at(v@, p@, i as int),
{
    if i > v.len() || p.len() > v.len() - i {
        return false;
    }
    let mut j: usize = 0;
    while j < p.len()
        invariant
            i + p.len() <= v.len(),
            j <= p.len(),
            forall|k: int| 0 <= k < j ==> v@[i + k] == p@[k],
        decreases p.len() - j,
    {
        if v[i + j] != p[j] {
            assert(v@.subrange(i as int, i + p.len())[j as int] != p@[j as int]);
            return false;
        }
        j += 1;
    }
    assert(v@.subrange(i as int, i + p.len()) =~= p@);
    true
}

/// The first index at which `p` occurs in `v`.
pub fn find_chars(v: &Vec<char>, p: &Vec<char>) -> (r: Option<usize>)
    ensures
        match r {
            Some(i) => first_match(v@, p@) == Some(i as int),
            None => first_match(v@, p@) is None,
        },
{
    if p.len() > v.len() {
        return None;
    }
    let last = v.len() - p.len();
    let mut i: usize = 0;
    loop
        invariant
            p.len() <= v.len(),
            last == v.len() - p.len(),
            i <= last,
            forall|j: int| 0 <= j < i ==> !occurs_at(v@, p@, j),
        decreases last - i,
    {
        if matches_at(v, p, i) {
            proof {
                lemma_first_match_skip(v@, p@, i as int);
            }
            return Some(i);
        }
        if i == last {
            proof {
                lemma_first_match_skip(v@, p@, i + 1);
            }
            return None;
        }
        i += 1;
    }
}

/// `s` starts with `p`.
pub fn starts_with_chars(v: &Vec<char>, p: &Vec<char>) -> (r: bool)
    ensures
        r == is_prefix(p@, v@),
{
    let b = matches_at(v, p, 0);
    proof {
        if b {
            assert(v@.take(p@.len() as int) =~= v@.subrange(0, p@.len() as int));
        } else if p@.len() <= v@.len() {
            assert(v@.take(p@.len() as int) =~= v@.subrange(0, p@.len() as int));
        }
    }
    b
}

/// String equality by content.
pub fn str_eq(a: &str, b: &str) -> (r: bool)
    ensures
        r == (a@ == b@),
{
    let v = chars_of(a);
    let w = chars_of(b);
    if v.len() != w.len() {
        return false;
    }
    let r = matches_at(&v, &w, 0);
    proof {
        assert(v@.subrange(0, w@.len() as int) =~= v@);
    }
    r
}

/// Whether `a` sorts strictly before `b` (`str` ordering: lexicographic on
/// code points, which is the order of their UTF-8 bytes).
pub open spec fn seq_lt(a: Seq<char>, b: Seq<char>) -> bool
    decreases a.len(),
{
    if a.len() == 0 {
        b.len() > 0
    } else if b.len() == 0 {
        false
    } else if a[0] != b[0] {
        (a[0] as u32) < (b[0] as u32)
    } else {
        seq_lt(a.drop_first(), b.drop_first())
    }
}

/// No string sorts before itself.
pub proof fn lemma_seq_lt_irreflexive(a: Seq<char>)
    ensures
        !seq_lt(a, a),
    decreases a.len(),
{
    if a.len() > 0 {
        lemma_seq_lt_irreflexive(a.drop_first());
    }
}

/// String order is transitive.
pub proof fn lemma_seq_lt_transitive(a: Seq<char>, b: Seq<char>, c: Seq<char>)
    requires
        seq_lt(a, b),
        seq_lt(b, c),
    ensures
        seq_lt(a, c),
    decreases a.len(),
{
    if a.len() > 0 && b.len() > 0 && c.len() > 0 {
        if a[0] == b[0] && b[0] == c[0] {
            lemma_seq_lt_transitive(a.drop_first(), b.drop_first(), c.drop_first());
        }
    }
}

proof fn lemma_seq_lt_skip(a: Seq<char>, b: Seq<char>, i: int)
    requires
        0 <= i <= a.len(),
        i <= b.len(),
        a.take(i) == b.take(i),
    ensures
        seq_lt(a, b) == seq_lt(a.skip(i), b.skip(i)),
    decreases i,
{
    if i > 0 {
        assert(a[0] == a.take(i)[0]);
        assert(b[0] == b.take(i)[0]);
        assert(a.drop_first().take(i - 1) =~= a.take(i).drop_first());
        assert(b.drop_first().take(i - 1) =~= b.take(i).drop_first());
        lemma_seq_lt_skip(a.drop_first(), b.drop_first(), i - 1);
        assert(a.drop_first().skip(i - 1) =~= a.skip(i));
        assert(b.drop_first().skip(i - 1) =~= b.skip(i));
    } else {
        assert(a.skip(0) =~= a);
        assert(b.skip(0) =~= b);
    }
}

/// `a < b` on strings.
pub fn str_lt(a: &str, b: &str) -> (r: bool)
    ensures
        r == seq_lt(a@, b@),
{
    let v = chars_of(a);
    let w = chars_of(b);
    let mut i: usize = 0;
    while i < v.len() && i < w.len() && v[i] == w[i]
        invariant
            i <= v.len(),
            i <= w.len(),
            v@.take(i as int) == w@.take(i as int),
        decreases v.len() - i,
    {
        assert(v@.take(i + 1) =~= v@.take(i as int).push(v@[i as int]));
        assert(w@.take(i + 1) =~= w@.take(i as int).push(w@[i as int]));
        i += 1;
    }
    proof {
        lemma_seq_lt_skip(v@, w@, i as int);
    }
    if i == v.len() {
        i < w.len()
    } else if i == w.len() {
        false
    } else {
        (v[i] as u32) < (w[i] as u32)
    }
}

/// `str::starts_with`.
pub fn starts_with(s: &str, p: &str) -> (r: bool)
    ensures
        r == is_prefix(p@, s@),
{
    let v = chars_of(s);
    let q = chars_of(p);
    starts_with_chars(&v, &q)
}

/// `str::ends_with`.
pub fn ends_with(s: &str, p: &str) -> (r: bool)
    ensures
        r == is_suffix(p@, s@),
{
    let v = chars_of(s);
    let q = chars_of(p);
    if q.len() > v.len() {
        return false;
    }
    let b = matches_at(&v, &q, v.len() - q.len());
    proof {
        assert(v@.skip(v@.len() - q@.len()) =~= v@.subrange(
            v@.len() - q@.len(),
            v@.len() - q@.len() + q@.len(),
        ));
    }
    b
}

/// `str::contains` for a string pattern.
pub fn contains(s: &str, p: &str) -> (r: bool)
    ensures
        r == contains_seq(s@, p@),
{
    let v = chars_of(s);
    let q = chars_of(p);
    let f = find_chars(&v, &q);
    proof {
        lemma_first_match_some(v@, q@, 0);
    }
    f.is_some()
}

proof fn lemma_first_match_some(s: Seq<char>, p: Seq<char>, k: int)
    requires
        0 <= k,
        forall|j: int| 0 <= j < k ==> !occurs_at(s, p, j),
    ensures
        (first_match_from(s, p, k) is Some) <==> contains_seq(s, p),
        first_match_from(s, p, k) matches Some(i) ==> occurs_at(s, p, i),
    decreases s.len() + 1 - k,
{
    if k + p.len() > s.len() {
        assert forall|i: int| !occurs_at(s, p, i) by {
            if occurs_at(s, p, i) && i >= k {
            }
        }
    } else if occurs_at(s, p, k) {
    } else {
        lemma_first_match_some(s, p, k + 1);
    }
}

proof fn lemma_first_char_from(s: Seq<char>, c: char, n: int, j: int)
    requires
        0 <= j <= n < s.len(),
        s[n] == c,
        forall|i: int| 0 <= i < n ==> s[i] != c,
    ensures
        first_match_from(s, seq![c], j) == Some(n),
    decreases n - j,
{
    if j == n {
        assert(s.subrange(n, n + 1) =~= seq![c]);
    } else {
        if occurs_at(s, seq![c], j) {
            assert(s.subrange(j, j + 1)[0] == s[j]);
        }
        lemma_first_char_from(s, c, n, j + 1);
    }
}

/// Cutting `k`, `c`, `v` at the first `c` gives `k` and `v` when `k` holds
/// no `c`.
pub proof fn lemma_split_once_at_char(k: Seq<char>, c: char, v: Seq<char>)
    requires
        !k.contains(c),
    ensures
        split_once_spec(k + seq![c] + v, seq![c]) == Some((k, v)),
{
    let s = k + seq![c] + v;
    assert forall|i: int| 0 <= i < k.len() implies s[i] != c by {
        assert(s[i] == k[i]);
    }
    lemma_first_char_from(s, c, k.len() as int, 0);
    assert(s.take(k.len() as int) =~= k);
    assert(s.skip(k.len() + 1int) =~= v);
}

/// The first occurrence of `p` in `s` is a real occurrence, and there is one
/// exactly when `p` occurs somewhere.
pub proof fn lemma_first_match(s: Seq<char>, p: Seq<char>)
    ensures
        (first_match(s, p) is Some) <==> contains_seq(s, p),
        first_match(s, p) matches Some(i) ==> occurs_at(s, p, i),
{
    lemma_first_match_some(s, p, 0);
}

/// `str::split_once` with a string pattern.
pub fn split_once(s: &str, p: &str) -> (r: Option<(String, String)>)
    ensures
        match r {
            Some((a, b)) => split_once_spec(s@, p@) == Some((a@, b@)),
            None => split_once_spec(s@, p@) is None,
        },
{
    let v = chars_of(s);
    let q = chars_of(p);
    match find_chars(&v, &q) {
        Some(i) => {
            proof {
                lemma_first_match(v@, q@);
                assert(occurs_at(v@, q@, i as int));
                assert(i + q@.len() <= v@.len());
            }
            assert(i + q.len() <= v.len());
            let a = string_from(&v, 0, i);
            let b = string_from(&v, i + q.len(), v.len());
            assert(a@ =~= s@.take(i as int));
            assert(b@ =~= s@.skip(i + q@.len()));
            Some((a, b))
        },
        None => None,
    }
}

/// Joins `parts` with `sep` between each two (`[String]::join`).
pub fn join(parts: &Vec<String>, sep: &str) -> (r: String)
    ensures
        r@ == join_spec(parts.deep_view(), sep@),
{
    let mut r = String::new();
    let mut i: usize = 0;
    while i < parts.len()
        invariant
            i <= parts.len(),
            r@ == join_spec(parts.deep_view().take(i as int), sep@),
        decreases parts.len() - i,
    {
        let ghost dv = parts.deep_view();
        proof {
            lemma_take_step(dv, i as int);
        }
        if i > 0 {
            r.append(sep);
        }
        r.append(parts[i].as_str());
        i += 1;
    }
    assert(parts.deep_view().take(parts.len() as int) =~= parts.deep_view());
    r
}

/// The decimal representation of `n` (`u64::to_string`).
pub fn u64_to_string(n: u64) -> (r: String)
    ensures
        r@ == decimal(n as nat),
{
    let mut digits: Vec<char> = Vec::new();
    let mut m = n;
    // digits holds the decimal of n % 10^k reversed; we rebuild at the end.
    let ghost mut rest: Seq<char> = Seq::empty();
    loop
        invariant_except_break
            decimal(n as nat) == decimal(m as nat) + rest,
            digits@ == rest.reverse(),
        ensures
            decimal(n as nat) == rest,
            digits@ == rest.reverse(),
        decreases m,
    {
        let d = m % 10;
        let c = digit_of(d);
        if m < 10 {
            proof {
                assert(decimal(m as nat) == seq![c]);
            }
            digits.push(c);
            proof {
                rest = seq![c] + rest;
                assert(digits@ =~= rest.reverse());
                assert(decimal(n as nat) =~= rest);
            }
            break;
        }
        proof {
            assert(decimal(m as nat) == decimal((m / 10) as nat).push(c));
            assert(decimal(m as nat) + rest =~= decimal((m / 10) as nat) + (seq![c] + rest));
            rest = seq![c] + rest;
        }
        digits.push(c);
        assert(digits@ =~= rest.reverse());
        m = m / 10;
    }
    let mut r = String::new();
    let mut k: usize = digits.len();
    while k > 0
        invariant
            k <= digits.len(),
            digits@ == rest.reverse(),
            decimal(n as nat) == rest,
            r@ == rest.take(digits.len() - k),
        decreases k,
    {
        k -= 1;
        string_push(&mut r, digits[k]);
        assert(rest.take(digits.len() - k) =~= rest.take(digits.len() - k - 1).push(
            digits@[k as int],
        ));
    }
    assert(rest.take(digits.len() as int) =~= rest);
    r
}

/// The decimal representation of a signed number: a minus sign before the
/// digits of its magnitude when it is negative.
pub open spec fn signed_decimal(n: int) -> Seq<char> {
    if n < 0 {
        seq!['-'] + decimal((-n) as nat)
    } else {
        decimal(n as nat)
    }
}

/// `i32::to_string`.
pub fn i32_to_string(n: i32) -> (r: String)
    ensures
        r@ == signed_decimal(n as int),
{
    if n < 0 {
        let m: u64 = (0i64 - (n as i64)) as u64;
        let mut r = String::new();
        string_push(&mut r, '-');
        let d = u64_to_string(m);
        r.append(d.as_str());
        r
    } else {
        u64_to_string(n as u64)
    }
}

fn digit_of(d: u64) -> (c: char)
    requires
        d < 10,
    ensures
        c == digit_char(d as nat),
{
    if d == 0 { '0' }
    else if d == 1 { '1' }
    else if d == 2 { '2' }
    else if d == 3 { '3' }
    else if d == 4 { '4' }
    else if d == 5 { '5' }
    else if d == 6 { '6' }
    else if d == 7 { '7' }
    else if d == 8 { '8' }
    else { '9' }
}

/// `n` copies of `c` as a string.
pub fn repeat(c: char, n: usize) -> (r: String)
    ensures
        r@ == repeat_char(c, n as nat),
{
    let mut r = String::new();
    let mut i: usize = 0;
    while i < n
        invariant
            i <= n,
            r@ == repeat_char(c, i as nat),
        decreases n - i,
    {
        string_push(&mut r, c);
        assert(repeat_char(c, (i + 1) as nat) =~= repeat_char(c, i as nat).push(c));
        i += 1;
    }
    r
}

/// The result of `str::to_lowercase` on `s` (full Unicode case mapping).
pub uninterp spec fn lowercase(s: Seq<char>) -> Seq<char>;

/// Calls `str::to_lowercase` (the Unicode lower-case mapping); its result is
/// named [`lowercase`], and nothing more is stated of it.
#[verifier::external_body]
pub(crate) fn to_lowercase(s: &str) -> (r: String)
    ensures
        r@ == lowercase(s@),
{
    s.to_lowercase()
}

} // verus!
