use vstd::prelude::*;
use vstd::string::StringExecFns;
use vstd::utf8::encode_utf8;

use crate::error::FeditError;

verus! {

/// The compiled regular expression type of the `regex` crate.
#[verifier::external_type_specification]
#[verifier::external_body]
pub struct ExRegex(regex::Regex);

/// One match in the buffer: `start` and `end` are byte offsets into the
/// haystack.
#[derive(Debug, PartialEq, Eq, Clone, Copy)]
pub struct Match {
    pub start: usize,
    pub end: usize,
}

/// The characters that have a meaning in a regular expression and must be
/// escaped to match literally.
pub open spec fn is_meta_character(c: char) -> bool {
    c == '\\' || c == '.' || c == '+' || c == '*' || c == '?' || c == '(' || c == ')' || c == '|'
        || c == '[' || c == ']' || c == '{' || c == '}' || c == '^' || c == '$' || c == '#'
        || c == '&' || c == '-' || c == '~'
}

/// `text` with a backslash put before each meta character: a pattern that
/// matches `text` literally.
pub open spec fn escaped(text: Seq<char>) -> Seq<char>
    decreases text.len(),
{
    if text.len() == 0 {
        Seq::empty()
    } else {
        let c = text.last();
        escaped(text.drop_last()) + if is_meta_character(c) {
            seq!['\\', c]
        } else {
            seq![c]
        }
    }
}

/// Whether `regex::Regex::new` accepts this pattern text.
pub uninterp spec fn regex_compiles(pattern: Seq<char>) -> bool;

/// The (start, end) byte offsets of the successive non-overlapping matches
/// that `regex::Regex::find_iter` yields for this pattern in this haystack.
pub uninterp spec fn regex_find_spans(pattern: Seq<char>, haystack: Seq<char>) -> Seq<(usize, usize)>;

/// The text that `regex::Regex::replace_all` gives for this pattern,
/// haystack and replacement (in which `$name` and `${name}` expand to
/// capture groups).
pub uninterp spec fn regex_replace_all(
    pattern: Seq<char>,
    haystack: Seq<char>,
    replacement: Seq<char>,
) -> Seq<char>;

/// A compiled regular expression and the pattern text it was compiled from.
/// Only `compile` makes one.
struct Compiled {
    re: regex::Regex,
    source: Ghost<Seq<char>>,
}

impl View for Compiled {
    type V = Seq<char>;

    closed spec fn view(&self) -> Seq<char> {
        self.source@
    }
}

/// Calls `regex::escape`. Claims what its source shows: a backslash is put
/// before each character for which `regex_syntax::is_meta_character` holds
/// (the same set as `is_meta_character` here), every character kept in order.
#[verifier::external_body]
fn escape(text: &str) -> (r: String)
    ensures
        r@ == escaped(text@),
{
    regex::escape(text)
}

/// Calls `regex::Regex::new`. Claims that it succeeds exactly when
/// `regex_compiles` holds of the pattern, and that the value it gives is
/// tied to the pattern it was compiled from.
#[verifier::external_body]
fn compile(pattern: &str) -> (r: Result<Compiled, regex::Error>)
    ensures
        r is Ok <==> regex_compiles(pattern@),
        r matches Ok(c) ==> c@ == pattern@,
{
    match regex::Regex::new(pattern) {
        Ok(re) => Ok(Compiled { re, source: Ghost(pattern@) }),
        Err(e) => Err(e),
    }
}

/// Calls `regex::Regex::find_iter` and collects each match's `start` and
/// `end`. Claims that these are `regex_find_spans` of the pattern and
/// haystack, and what the crate documents of them: each lies within the
/// haystack's bytes on character boundaries with its start not after its
/// end, and they come in order without overlapping, each starting after the
/// one before.
#[verifier::external_body]
fn find_spans(re: &Compiled, haystack: &str) -> (r: Vec<Match>)
    ensures
        r@.map_values(|m: Match| (m.start, m.end)) == regex_find_spans(re@, haystack@),
        forall|i: int|
            0 <= i < r.len() ==> #[trigger] r[i].start <= r[i].end <= encode_utf8(haystack@).len(),
        forall|i: int|
            0 <= i < r.len() ==> on_char_boundary(haystack@, #[trigger] r[i].start as int)
                && on_char_boundary(haystack@, r[i].end as int),
        forall|i: int, j: int|
            0 <= i < j < r.len() ==> #[trigger] r[i].end <= #[trigger] r[j].start && r[i].start
                < r[j].start,
{
    re.re.find_iter(haystack).map(|m| Match { start: m.start(), end: m.end() }).collect()
}

/// Calls `regex::Regex::replace_all` with `replacement` as the replacer.
/// Claims that the text it gives is `regex_replace_all` of the pattern,
/// haystack and replacement, and what the crate's source shows for a
/// replacement without `$` (no capture expansion): the haystack's bytes with
/// each range that `find_iter` yields replaced by the replacement.
#[verifier::external_body]
fn replace_all(re: &Compiled, haystack: &str, replacement: &str) -> (r: String)
    ensures
        r@ == regex_replace_all(re@, haystack@, replacement@),
        !replacement@.contains('$') ==> encode_utf8(r@) == splice_bytes(
            encode_utf8(haystack@),
            regex_find_spans(re@, haystack@),
            encode_utf8(replacement@),
            0,
        ),
{
    re.re.replace_all(haystack, replacement).into_owned()
}

/// `offset` is where a character of `text` starts in its UTF-8 bytes, or the
/// end of them.
pub open spec fn on_char_boundary(text: Seq<char>, offset: int) -> bool {
    exists|k: int| 0 <= k <= text.len() && #[trigger] encode_utf8(text.take(k)).len() == offset
}

/// `text` with each byte range of `spans` (in order, from `from` on)
/// replaced by `rep`, every other byte kept in order.
pub open spec fn splice_bytes(text: Seq<u8>, spans: Seq<(usize, usize)>, rep: Seq<u8>, from: int) -> Seq<u8>
    decreases spans.len(),
{
    if spans.len() == 0 {
        text.subrange(from, text.len() as int)
    } else {
        text.subrange(from, spans[0].0 as int) + rep + splice_bytes(
            text,
            spans.drop_first(),
            rep,
            spans[0].1 as int,
        )
    }
}

/// The flag group that makes a pattern ignore case.
pub open spec fn ignore_case_flag() -> Seq<char> {
    seq!['(', '?', 'i', ')']
}

/// The pattern a search compiles: the needle itself in regex mode, else the
/// needle escaped to match literally; prefixed with the ignore-case flag
/// unless the search is case sensitive.
pub open spec fn search_pattern_text(needle: Seq<char>, use_regex: bool, case_sensitive: bool) -> Seq<char> {
    let base = if use_regex {
        needle
    } else {
        escaped(needle)
    };
    if case_sensitive {
        base
    } else {
        ignore_case_flag() + base
    }
}

/// The (start, end) pairs of a list of matches.
pub open spec fn spans_of(ms: Seq<Match>) -> Seq<(usize, usize)> {
    ms.map_values(|m: Match| (m.start, m.end))
}

/// Builds the pattern text that a search for `needle` compiles.
pub fn search_pattern(needle: &str, use_regex: bool, case_sensitive: bool) -> (r: String)
    ensures
        r@ == search_pattern_text(needle@, use_regex, case_sensitive),
{
    let base = if use_regex {
        needle.to_owned()
    } else {
        escape(needle)
    };
    if case_sensitive {
        base
    } else {
        let mut p = String::from_str("(?i)");
        p.append(base.as_str());
        proof {
            reveal_strlit("(?i)");
            assert(p@ =~= search_pattern_text(needle@, use_regex, case_sensitive));
        }
        p
    }
}

/// Every match of `needle` in `haystack`, as byte ranges. An empty needle
/// matches nothing. The needle is a regular expression when `use_regex`,
/// else literal text; case is ignored unless `case_sensitive`. A pattern that
/// does not compile gives a `Regex` error.
pub fn find_matches(haystack: String, needle: String, use_regex: bool, case_sensitive: bool) -> (r:
    Result<Vec<Match>, FeditError>)
    ensures
        needle@.len() == 0 ==> (r matches Ok(v) && v@.len() == 0),
        needle@.len() > 0 ==> {
            let p = search_pattern_text(needle@, use_regex, case_sensitive);
            &&& (r is Ok <==> regex_compiles(p))
            &&& (r matches Ok(v) ==> spans_of(v@) == regex_find_spans(p, haystack@))
            &&& (r matches Err(e) ==> e is Regex)
        },
        r matches Ok(v) ==> {
            &&& forall|i: int|
                0 <= i < v.len() ==> #[trigger] v[i].start <= v[i].end <= encode_utf8(haystack@).len()
            &&& forall|i: int|
                0 <= i < v.len() ==> on_char_boundary(haystack@, #[trigger] v[i].start as int)
                    && on_char_boundary(haystack@, v[i].end as int)
            &&& forall|i: int, j: int|
                0 <= i < j < v.len() ==> #[trigger] v[i].end <= #[trigger] v[j].start && v[i].start
                    < v[j].start
        },
{
    if needle.as_str().is_empty() {
        return Ok(Vec::new());
    }
    let pattern = search_pattern(needle.as_str(), use_regex, case_sensitive);
    let re = match compile(pattern.as_str()) {
        Ok(re) => re,
        Err(e) => return Err(FeditError::Regex(e)),
    };
    Ok(find_spans(&re, haystack.as_str()))
}

/// `haystack` with every match of `needle` replaced by `replacement`. An
/// empty needle leaves the haystack as it is. The needle is read as in
/// `find_matches`; a pattern that does not compile gives a `Regex` error.
pub fn replace_matches(
    haystack: String,
    needle: String,
    replacement: String,
    use_regex: bool,
    case_sensitive: bool,
) -> (r: Result<String, FeditError>)
    ensures
        needle@.len() == 0 ==> (r matches Ok(s) && s@ == haystack@),
        needle@.len() > 0 ==> {
            let p = search_pattern_text(needle@, use_regex, case_sensitive);
            &&& (r is Ok <==> regex_compiles(p))
            &&& (r matches Ok(s) ==> s@ == regex_replace_all(p, haystack@, replacement@))
            &&& (!replacement@.contains('$') ==> (r matches Ok(s) ==> encode_utf8(s@) == splice_bytes(
                encode_utf8(haystack@),
                regex_find_spans(p, haystack@),
                encode_utf8(replacement@),
                0,
            )))
            &&& (r matches Err(e) ==> e is Regex)
        },
{
    if needle.as_str().is_empty() {
        return Ok(haystack);
    }
    let pattern = search_pattern(needle.as_str(), use_regex, case_sensitive);
    let re = match compile(pattern.as_str()) {
        Ok(re) => re,
        Err(e) => return Err(FeditError::Regex(e)),
    };
    Ok(replace_all(&re, haystack.as_str(), replacement.as_str()))
}

/// Find and replace agree: with a replacement that has no `$`, the text
/// `replace_matches` gives is the haystack with exactly the ranges that
/// `find_matches` reports for the same search replaced, every other byte
/// kept in order; when nothing is found the haystack comes back unchanged.
/// Both succeed on exactly the same searches.
pub proof fn law_replace_splices_found_matches(
    haystack: Seq<char>,
    needle: Seq<char>,
    replacement: Seq<char>,
    use_regex: bool,
    case_sensitive: bool,
    found: Seq<Match>,
    replaced: Seq<char>,
)
    requires
        !replacement.contains('$'),
        needle.len() == 0 ==> found.len() == 0 && replaced == haystack,
        needle.len() > 0 ==> {
            let p = search_pattern_text(needle, use_regex, case_sensitive);
            &&& regex_compiles(p)
            &&& spans_of(found) == regex_find_spans(p, haystack)
            &&& encode_utf8(replaced) == splice_bytes(
                encode_utf8(haystack),
                regex_find_spans(p, haystack),
                encode_utf8(replacement),
                0,
            )
        },
    ensures
        encode_utf8(replaced) == splice_bytes(encode_utf8(haystack), spans_of(found), encode_utf8(replacement), 0),
        found.len() == 0 ==> replaced == haystack,
{
    if found.len() == 0 {
        assert(spans_of(found) =~= Seq::<(usize, usize)>::empty());
        let h = encode_utf8(haystack);
        assert(h.subrange(0, h.len() as int) =~= h);
        if needle.len() > 0 {
            vstd::utf8::encode_utf8_decode_utf8(replaced);
            vstd::utf8::encode_utf8_decode_utf8(haystack);
        }
    }
}

/// Ignoring case never depends on the needle's characters: the pattern of a
/// case-insensitive search is `(?i)` followed by the pattern of the same
/// search with case respected. That pattern is the needle itself in regex
/// mode and the needle escaped otherwise.
pub proof fn law_ignore_case_prefixes_pattern(needle: Seq<char>, use_regex: bool)
    ensures
        search_pattern_text(needle, use_regex, false) == seq!['(', '?', 'i', ')']
            + search_pattern_text(needle, use_regex, true),
        search_pattern_text(needle, true, true) == needle,
        search_pattern_text(needle, false, true) == escaped(needle),
{
}

} // verus!
