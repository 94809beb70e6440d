//! Regular expressions (the `regex` crate) and URL encoding (the
//! `urlencoding` crate), behind small trusted items.
use vstd::prelude::*;
use vstd::utf8::encode_utf8;

verus! {

#[verifier::external_type_specification]
#[verifier::external_body]
pub struct ExRegex(regex::Regex);

/// Whether `regex::Regex::new` accepts `pattern`.
pub uninterp spec fn regex_compiles(pattern: Seq<char>) -> bool;

/// Whether a regular expression with source `pattern` matches somewhere in
/// `text` (`regex::Regex::is_match`).
pub uninterp spec fn regex_is_match(pattern: Seq<char>, text: Seq<char>) -> bool;

/// What `regex::Regex::replace_all` leaves of `text` when every match of
/// `pattern` is replaced by `rep`.
pub uninterp spec fn regex_replace_all(pattern: Seq<char>, text: Seq<char>, rep: Seq<char>) -> Seq<char>;

/// The capture groups of each successive match of `pattern` in `text`
/// (`regex::Regex::captures_iter`); group 0 is the whole match.
pub uninterp spec fn regex_captures(pattern: Seq<char>, text: Seq<char>) -> Seq<Seq<Option<Seq<char>>>>;

/// `^[a-z0-9@._+-]+$`: the whole text, at least one character, each a
/// lower-case ASCII letter, an ASCII digit or one of `@ . _ + -`.
pub open spec fn lower_name_pattern() -> Seq<char> {
    "^[a-z0-9@._+-]+$"@
}

/// A character of the class `[a-z0-9@._+-]`.
pub open spec fn lower_name_char(c: char) -> bool {
    ('a' <= c && c <= 'z') || ('0' <= c && c <= '9') || c == '@' || c == '.' || c == '_' || c
        == '+' || c == '-'
}

/// A non-empty text made only of characters of `[a-z0-9@._+-]`.
pub open spec fn all_lower_name_chars(s: Seq<char>) -> bool {
    s.len() > 0 && forall|i: int| 0 <= i < s.len() ==> #[trigger] lower_name_char(s[i])
}

/// `[;&|<>$`"\n\r\x00]`: one character that a shell gives a meaning to.
pub open spec fn shell_meta_pattern() -> Seq<char> {
    "[;&|<>$`\"\\n\\r\\x00]"@
}

/// A character of the class `[;&|<>$`"\n\r\x00]`.
pub open spec fn shell_meta_char(c: char) -> bool {
    c == ';' || c == '&' || c == '|' || c == '<' || c == '>' || c == '$' || c == '`' || c == '"'
        || c == '\n' || c == '\r' || c == '\0'
}

/// `s` with every character of the class `[;&|<>$`"\n\r\x00]` removed, the
/// others kept in order.
pub open spec fn without_shell_meta(s: Seq<char>) -> Seq<char>
    decreases s.len(),
{
    if s.len() == 0 {
        Seq::empty()
    } else {
        let r = without_shell_meta(s.drop_last());
        if shell_meta_char(s.last()) {
            r
        } else {
            r.push(s.last())
        }
    }
}

/// A compiled regular expression together with its source text.
pub struct Pattern {
    source: String,
    re: regex::Regex,
}

/// Compiles `pattern` with `regex::Regex::new`; `None` where the crate
/// rejects it, as [`regex_compiles`] names. The two expressions above are
/// valid syntax well under the default size limit, so the crate's
/// documentation has them compile.
#[verifier::external_body]
fn regex_new(pattern: &str) -> (r: Option<regex::Regex>)
    ensures
        r is Some <==> regex_compiles(pattern@),
        pattern@ == lower_name_pattern() || pattern@ == shell_meta_pattern() ==> r is Some,
{
    regex::Regex::new(pattern).ok()
}

/// `regex::Regex::is_match` on the compiled expression of `p`. For
/// `^[a-z0-9@._+-]+$` the regex syntax documentation (anchors at the start
/// and end of the text, a character class, one or more repetitions) gives
/// the match.
#[verifier::external_body]
fn regex_match(p: &Pattern, text: &str) -> (r: bool)
    ensures
        r == regex_is_match(p.source@, text@),
        p.source@ == lower_name_pattern() ==> (r <==> all_lower_name_chars(text@)),
{
    p.re.is_match(text)
}

/// `regex::Regex::replace_all` on the compiled expression of `p`, with a
/// fixed replacement text. Each match of a one-character class is one
/// character of it; replacing every match by the empty text (which holds no
/// `$` group reference) removes those characters, as the documentation of
/// `replace_all` and of the class syntax gives.
#[verifier::external_body]
fn regex_replace(p: &Pattern, text: &str, rep: &str) -> (r: String)
    ensures
        r@ == regex_replace_all(p.source@, text@, rep@),
        p.source@ == shell_meta_pattern() && rep@.len() == 0 ==> r@ == without_shell_meta(text@),
{
    p.re.replace_all(text, rep).into_owned()
}

/// The views of a list of capture groups.
pub open spec fn captures_view(v: Seq<Vec<Option<String>>>) -> Seq<Seq<Option<Seq<char>>>> {
    v.map_values(|g: Vec<Option<String>>| g@.map_values(|o: Option<String>| match o {
        Some(s) => Some(s@),
        None => None,
    }))
}

/// `regex::Regex::captures_iter` on the compiled expression of `p`, each
/// group converted to an owned string.
#[verifier::external_body]
fn regex_captures_all(p: &Pattern, text: &str) -> (r: Vec<Vec<Option<String>>>)
    ensures
        captures_view(r@) == regex_captures(p.source@, text@),
{
    p.re.captures_iter(text).map(|c| c.iter().map(|m| m.map(|m| m.as_str().to_string())).collect()).collect()
}

impl Pattern {
    /// The source text of the expression.
    pub closed spec fn source(&self) -> Seq<char> {
        self.source@
    }

    /// Compiles `pattern`; `None` exactly when the regex crate rejects it.
    pub fn compile(pattern: &str) -> (r: Option<Pattern>)
        ensures
            r is Some <==> regex_compiles(pattern@),
            pattern@ == lower_name_pattern() || pattern@ == shell_meta_pattern() ==> r is Some,
            r matches Some(p) ==> p.source() == pattern@,
    {
        match regex_new(pattern) {
            Some(re) => Some(Pattern { source: pattern.to_owned(), re }),
            None => None,
        }
    }

    /// Whether the expression matches somewhere in `text`.
    pub fn is_match(&self, text: &str) -> (r: bool)
        ensures
            r == regex_is_match(self.source(), text@),
            self.source() == lower_name_pattern() ==> (r <==> all_lower_name_chars(text@)),
    {
        regex_match(self, text)
    }

    /// `text` with every match replaced by `rep`.
    pub fn replace_all(&self, text: &str, rep: &str) -> (r: String)
        ensures
            r@ == regex_replace_all(self.source(), text@, rep@),
            self.source() == shell_meta_pattern() && rep@.len() == 0 ==> r@ == without_shell_meta(
                text@,
            ),
    {
        regex_replace(self, text, rep)
    }

    /// The capture groups of every match in `text`.
    pub fn captures(&self, text: &str) -> (r: Vec<Vec<Option<String>>>)
        ensures
            captures_view(r@) == regex_captures(self.source(), text@),
    {
        regex_captures_all(self, text)
    }
}

// ---------------------------------------------------------------------------
// URL encoding
// ---------------------------------------------------------------------------

/// Bytes that `urlencoding::encode` keeps as they are.
pub open spec fn is_unreserved(b: u8) -> bool {
    (0x30 <= b && b <= 0x39) || (0x41 <= b && b <= 0x5a) || (0x61 <= b && b <= 0x7a) || b == 0x2d
        || b == 0x2e || b == 0x5f || b == 0x7e
}

/// An upper-case hexadecimal digit.
pub open spec fn hex_digit(d: u8) -> char {
    if d < 10 {
        (('0' as u8) + d) as char
    } else {
        (('A' as u8) + d - 10) as char
    }
}

/// The percent-encoding of a byte sequence: unreserved bytes as they are,
/// every other byte as `%` and two upper-case hexadecimal digits.
pub open spec fn percent_encode(bytes: Seq<u8>) -> Seq<char>
    decreases bytes.len(),
{
    if bytes.len() == 0 {
        Seq::empty()
    } else {
        let b = bytes.last();
        let tail = if is_unreserved(b) {
            seq![b as char]
        } else {
            seq!['%', hex_digit(b / 16), hex_digit(b % 16)]
        };
        percent_encode(bytes.drop_last()) + tail
    }
}

/// `urlencoding::encode`: percent-encodes the UTF-8 bytes of `s` except
/// ASCII alphanumerics and `-`, `.`, `_`, `~`, as the crate documents and
/// its source does.
#[verifier::external_body]
pub(crate) fn url_encode(s: &str) -> (r: String)
    ensures
        r@ == percent_encode(encode_utf8(s@)),
{
    urlencoding::encode(s).into_owned()
}

} // verus!
