//! Turning the path token of a request line into the path that the route table sees.

use vstd::prelude::*;
use vstd::string::*;
use vstd::utf8::*;
use crate::errors::ConnectionError;

verus! {

/// `std::string::FromUtf8Error`, the error of `urlencoding::decode`. Nothing is read
/// from it.
#[verifier::external_type_specification]
#[verifier::external_body]
pub struct ExFromUtf8Error(std::string::FromUtf8Error);

/// `regex::Error`, the error of `regex::Regex::new`. Nothing is read from it.
#[verifier::external_type_specification]
#[verifier::external_body]
pub struct ExRegexError(regex::Error);

/// The value of a hexadecimal digit, in either case.
pub open spec fn hex_value(digit: u8) -> Option<u8> {
    if 0x30 <= digit <= 0x39 {
        Some((digit - 0x30) as u8)
    } else if 0x41 <= digit <= 0x46 {
        Some((digit - 0x41 + 10) as u8)
    } else if 0x61 <= digit <= 0x66 {
        Some((digit - 0x61 + 10) as u8)
    } else {
        None
    }
}

/// `data` with each `%` that two hexadecimal digits follow replaced, together with the
/// digits, by the byte that they denote. Any other `%` stays as it is.
pub open spec fn percent_decoded(data: Seq<u8>) -> Seq<u8>
    decreases data.len(),
{
    if data.len() == 0 {
        data
    } else if data[0] != 0x25 {
        seq![data[0]] + percent_decoded(data.skip(1))
    } else if data.len() < 3 {
        data
    } else if hex_value(data[1]) is None {
        seq![0x25u8] + percent_decoded(data.skip(1))
    } else if hex_value(data[2]) is None {
        seq![0x25u8, data[1]] + percent_decoded(data.skip(2))
    } else {
        seq![(16 * hex_value(data[1])->0 + hex_value(data[2])->0) as u8] + percent_decoded(
            data.skip(3),
        )
    }
}

/// `text` with every occurrence of `pattern` replaced by `with`. The occurrences are found
/// from the left and do not overlap.
pub open spec fn replace_all(text: Seq<char>, pattern: Seq<char>, with: Seq<char>) -> Seq<char>
    decreases text.len(),
{
    if pattern.len() == 0 || text.len() < pattern.len() {
        text
    } else if text.subrange(0, pattern.len() as int) == pattern {
        with + replace_all(text.skip(pattern.len() as int), pattern, with)
    } else {
        seq![text[0]] + replace_all(text.skip(1), pattern, with)
    }
}

/// Whether `pattern` stands in `text` from index `i` on.
pub open spec fn occurs_at(text: Seq<char>, pattern: Seq<char>, i: int) -> bool {
    0 <= i && i + pattern.len() <= text.len() && text.subrange(i, i + pattern.len()) == pattern
}

/// The index of the first `?` of `text` at or after `i`; the length of `text` where
/// there is none.
pub open spec fn query_start(text: Seq<char>, i: int) -> int
    decreases text.len() - i,
{
    if i < 0 || i >= text.len() {
        text.len() as int
    } else if text[i] == '?' {
        i
    } else {
        query_start(text, i + 1)
    }
}

/// `text` without its query: `text` up to its first `?`, and all of it where it has none.
pub open spec fn strip_query(text: Seq<char>) -> Seq<char> {
    text.take(query_start(text, 0))
}

/// The four characters that stand for a step to the parent directory.
pub open spec fn parent_segment() -> Seq<char> {
    seq!['/', '.', '.', '/']
}

/// The regular expression that matches `parent_segment()` and nothing else.
pub open spec fn parent_segment_pattern() -> Seq<char> {
    seq!['/', '\\', '.', '\\', '.', '/']
}

/// The regular expression that matches a query: a `?` and every character after it, a
/// line break too, up to the end.
pub open spec fn query_pattern() -> Seq<char> {
    seq!['(', '?', 's', ')', '\\', '?', '.', '*']
}

/// Calls `urlencoding::decode`. The crate decodes the bytes of `data` as `percent_decoded`
/// says, and hands them back as text where they are UTF-8; otherwise it fails.
#[verifier::external_body]
fn url_decode(data: &str) -> (r: Result<String, std::string::FromUtf8Error>)
    ensures
        match r {
            Ok(s) => valid_utf8(percent_decoded(data.spec_bytes())) && s@ == decode_utf8(
                percent_decoded(data.spec_bytes()),
            ),
            Err(_) => !valid_utf8(percent_decoded(data.spec_bytes())),
        },
{
    match urlencoding::decode(data) {
        Ok(s) => Ok(s.into_owned()),
        Err(e) => Err(e),
    }
}

/// Compiles `pattern` with `regex::Regex::new` and has `Regex::replace_all` replace every
/// match in `text` by `with`. The contract speaks of one pattern only,
/// `parent_segment_pattern()`, replaced by a slash: the pattern compiles, a match is an
/// occurrence of the four characters `/../`, and the matches are taken from the left
/// without overlap. Of any other pattern nothing is claimed.
#[verifier::external_body]
fn regex_replace_all(pattern: &str, text: &str, with: &str) -> (r: Result<String, regex::Error>)
    ensures
        match r {
            Ok(s) => pattern@ == parent_segment_pattern() && with@ == seq!['/'] ==> s@
                == replace_all(text@, parent_segment(), with@),
            Err(_) => !(pattern@ == parent_segment_pattern() && with@ == seq!['/']),
        },
{
    match regex::Regex::new(pattern) {
        Ok(re) => Ok(re.replace_all(text, with).into_owned()),
        Err(e) => Err(e),
    }
}

/// Compiles `pattern` with `regex::Regex::new` and has `Regex::replace` replace the first
/// match in `text` by `with`. The contract speaks of one pattern only, `query_pattern()`,
/// replaced by nothing: the pattern compiles, and its first match starts at the first `?`
/// of the text and runs to the end of it, whatever characters follow. Of any other pattern
/// nothing is claimed.
#[verifier::external_body]
fn regex_replace(pattern: &str, text: &str, with: &str) -> (r: Result<String, regex::Error>)
    ensures
        match r {
            Ok(s) => pattern@ == query_pattern() && with@.len() == 0 ==> s@ == strip_query(
                text@,
            ),
            Err(_) => !(pattern@ == query_pattern() && with@.len() == 0),
        },
{
    match regex::Regex::new(pattern) {
        Ok(re) => Ok(re.replace(text, with).into_owned()),
        Err(e) => Err(e),
    }
}

/// Decodes the percent escapes of `route`.
pub fn decode_route(route: &str) -> (r: Result<String, ConnectionError>)
    ensures
        match r {
            Ok(s) => decoded(route@) == Some(s@),
            Err(e) => decoded(route@) is None && e == ConnectionError::InvalidEncoding,
        },
{
    match url_decode(route) {
        Ok(s) => Ok(s),
        Err(_) => Err(ConnectionError::InvalidEncoding),
    }
}

/// Replaces every `/../` of `route` by a single slash.
pub fn collapse_parent_segments(route: &str) -> (r: String)
    ensures
        r@ == replace_all(route@, parent_segment(), seq!['/']),
{
    proof {
        reveal_strlit("/\\.\\./");
        reveal_strlit("/");
        assert("/\\.\\./"@ =~= parent_segment_pattern());
        assert("/"@ =~= seq!['/']);
    }
    match regex_replace_all("/\\.\\./", route, "/") {
        Ok(s) => s,
        Err(_) => vstd::pervasive::unreached(),
    }
}

/// Removes the query of `route`: the first `?` and all that follows it.
pub fn remove_query(route: &str) -> (r: String)
    ensures
        r@ == strip_query(route@),
{
    proof {
        reveal_strlit("(?s)\\?.*");
        reveal_strlit("");
        assert("(?s)\\?.*"@ =~= query_pattern());
    }
    match regex_replace("(?s)\\?.*", route, "") {
        Ok(s) => s,
        Err(_) => vstd::pervasive::unreached(),
    }
}

/// A path token with its percent escapes decoded: nothing where the decoded bytes are no
/// UTF-8.
pub open spec fn decoded(raw: Seq<char>) -> Option<Seq<char>> {
    let bytes = percent_decoded(encode_utf8(raw));
    if valid_utf8(bytes) {
        Some(decode_utf8(bytes))
    } else {
        None
    }
}

/// What `sanitize` makes of a path token: nothing where its decoded bytes are no UTF-8.
pub open spec fn sanitized(raw: Seq<char>) -> Option<Seq<char>> {
    match decoded(raw) {
        Some(path) => Some(strip_query(replace_all(path, parent_segment(), seq!['/']))),
        None => None,
    }
}

/// Makes the path token of a request line into the path that is looked up: percent
/// escapes are decoded, then every `/../` becomes `/`, then the query is removed.
pub fn sanitize(raw: &str) -> (r: Result<String, ConnectionError>)
    ensures
        match r {
            Ok(s) => sanitized(raw@) == Some(s@),
            Err(e) => sanitized(raw@) is None && e == ConnectionError::InvalidEncoding,
        },
{
    let decoded = decode_route(raw)?;
    let collapsed = collapse_parent_segments(decoded.as_str());
    Ok(remove_query(collapsed.as_str()))
}

/// A text in which the pattern does not occur is left as it is.
pub proof fn lemma_replace_all_absent(text: Seq<char>, pattern: Seq<char>, with: Seq<char>)
    requires
        forall|i: int| !occurs_at(text, pattern, i),
    ensures
        replace_all(text, pattern, with) == text,
    decreases text.len(),
{
    if pattern.len() == 0 || text.len() < pattern.len() {
    } else {
        assert(!occurs_at(text, pattern, 0));
        let rest = text.skip(1);
        assert forall|i: int| !occurs_at(rest, pattern, i) by {
            if occurs_at(rest, pattern, i) {
                assert(rest.subrange(i, i + pattern.len()) == text.subrange(
                    i + 1,
                    i + 1 + pattern.len(),
                ));
                assert(occurs_at(text, pattern, i + 1));
            }
        }
        lemma_replace_all_absent(rest, pattern, with);
        assert(seq![text[0]] + rest == text);
    }
}

/// The first occurrence of the pattern is replaced: where `before` is followed by the
/// pattern and the pattern starts nowhere earlier, the result is `before`, then the
/// replacement, then what the rule makes of the text `after` the occurrence.
pub proof fn lemma_replace_all_first(
    before: Seq<char>,
    after: Seq<char>,
    pattern: Seq<char>,
    with: Seq<char>,
)
    requires
        pattern.len() > 0,
        forall|i: int| 0 <= i < before.len() ==> !occurs_at(before + pattern + after, pattern, i),
    ensures
        replace_all(before + pattern + after, pattern, with) == before + with + replace_all(
            after,
            pattern,
            with,
        ),
    decreases before.len(),
{
    let text = before + pattern + after;
    if before.len() == 0 {
        assert(text.subrange(0, pattern.len() as int) == pattern);
        assert(text.skip(pattern.len() as int) == after);
        assert(before + with == with);
    } else {
        assert(!occurs_at(text, pattern, 0));
        let rest = before.skip(1);
        assert(text.skip(1) == rest + pattern + after);
        assert forall|i: int| 0 <= i < rest.len() implies !occurs_at(
            rest + pattern + after,
            pattern,
            i,
        ) by {
            if occurs_at(rest + pattern + after, pattern, i) {
                assert((rest + pattern + after).subrange(i, i + pattern.len()) == text.subrange(
                    i + 1,
                    i + 1 + pattern.len(),
                ));
                assert(occurs_at(text, pattern, i + 1));
            }
        }
        lemma_replace_all_first(rest, after, pattern, with);
        assert(seq![text[0]] + (rest + with + replace_all(after, pattern, with)) == before + with
            + replace_all(after, pattern, with));
    }
}

/// The first `/../` of a decoded path is replaced by a slash in the sanitized path: where
/// the decoded path is `before`, then `/../`, then `after`, and `/../` starts nowhere
/// earlier, the sanitized path is `before`, a slash, and what the replacement makes of
/// `after`, all without the query.
pub proof fn lemma_sanitized_replaces_parent_segment(
    raw: Seq<char>,
    before: Seq<char>,
    after: Seq<char>,
)
    requires
        decoded(raw) == Some(before + parent_segment() + after),
        forall|i: int|
            0 <= i < before.len() ==> !occurs_at(
                before + parent_segment() + after,
                parent_segment(),
                i,
            ),
    ensures
        sanitized(raw) == Some(
            strip_query(before + seq!['/'] + replace_all(after, parent_segment(), seq!['/'])),
        ),
{
    lemma_replace_all_first(before, after, parent_segment(), seq!['/']);
}

proof fn lemma_query_start(text: Seq<char>, i: int)
    requires
        0 <= i <= text.len(),
    ensures
        i <= query_start(text, i) <= text.len(),
        query_start(text, i) < text.len() ==> text[query_start(text, i)] == '?',
        forall|j: int| i <= j < query_start(text, i) ==> text[j] != '?',
    decreases text.len() - i,
{
    if i < text.len() && text[i] != '?' {
        lemma_query_start(text, i + 1);
    }
}

/// A path without its query holds no `?`, and it is the path where the path holds none.
pub proof fn lemma_strip_query(text: Seq<char>)
    ensures
        strip_query(text).is_prefix_of(text),
        !strip_query(text).contains('?'),
        !text.contains('?') ==> strip_query(text) == text,
{
    lemma_query_start(text, 0);
    let start = query_start(text, 0);
    if start < text.len() {
        assert(text.contains('?'));
    } else {
        assert(text.take(start) == text);
    }
}

} // verus!
