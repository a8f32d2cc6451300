//! Text helpers shared by the request parser, the route table and the renderers.

use vstd::prelude::*;
use vstd::string::*;
use vstd::utf8::*;

verus! {

/// Whether `c` is Unicode white space.
pub open spec fn is_whitespace(c: char) -> bool {
    ||| '\u{9}' <= c <= '\u{d}'
    ||| c == ' '
    ||| c == '\u{85}'
    ||| c == '\u{a0}'
    ||| c == '\u{1680}'
    ||| '\u{2000}' <= c <= '\u{200a}'
    ||| c == '\u{2028}'
    ||| c == '\u{2029}'
    ||| c == '\u{202f}'
    ||| c == '\u{205f}'
    ||| c == '\u{3000}'
}

/// Tests a character for Unicode white space.
pub fn whitespace(c: char) -> (r: bool)
    ensures
        r == is_whitespace(c),
{
    ('\u{9}' <= c && c <= '\u{d}') || c == ' ' || c == '\u{85}' || c == '\u{a0}' || c == '\u{1680}'
        || ('\u{2000}' <= c && c <= '\u{200a}') || c == '\u{2028}' || c == '\u{2029}' || c
        == '\u{202f}' || c == '\u{205f}' || c == '\u{3000}'
}

/// The characters of `s`, in order.
pub fn chars_of(s: &str) -> (v: Vec<char>)
    ensures
        v@ == s@,
{
    broadcast use group_string_axioms;

    let mut v: Vec<char> = Vec::new();
    for c in it: s.chars()
        invariant
            it.seq() == s@,
            v@ == s@.take(it.index()),
    {
        v.push(c);
        assert(s@.take(it.index() + 1) == s@.take(it.index()).push(c));
    }
    assert(s@.take(s@.len() as int) == s@);
    v
}

/// Compares two strings character by character.
pub fn str_eq(a: &str, b: &str) -> (r: bool)
    ensures
        r == (a@ == b@),
{
    let x = a.as_bytes();
    let y = b.as_bytes();
    proof {
        encode_utf8_decode_utf8(a@);
        encode_utf8_decode_utf8(b@);
    }
    if x.len() != y.len() {
        return false;
    }
    let mut i: usize = 0;
    while i < x.len()
        invariant
            i <= x.len(),
            x.len() == y.len(),
            x@ == a.spec_bytes(),
            y@ == b.spec_bytes(),
            forall|j: int| 0 <= j < i ==> x@[j] == y@[j],
        decreases x.len() - i,
    {
        if x[i] != y[i] {
            return false;
        }
        i = i + 1;
    }
    assert(x@ =~= y@);
    true
}

/// The first index at or after `i` at which `s` holds no white space; the length of `s`
/// where only white space follows.
pub open spec fn skip_whitespace(s: Seq<char>, i: int) -> int
    decreases s.len() - i,
{
    if 0 <= i < s.len() && is_whitespace(s[i]) {
        skip_whitespace(s, i + 1)
    } else {
        i
    }
}

/// The first index at or after `i` at which `s` holds white space; the length of `s`
/// where none follows.
pub open spec fn skip_token(s: Seq<char>, i: int) -> int
    decreases s.len() - i,
{
    if 0 <= i < s.len() && !is_whitespace(s[i]) {
        skip_token(s, i + 1)
    } else {
        i
    }
}

/// Where the token of index `k` starts and ends, counting the tokens from zero. A token is
/// a longest run of characters that are no white space. Where `s` has no such token, both
/// are the length of `s`.
pub open spec fn token_bounds(s: Seq<char>, k: nat) -> (int, int)
    decreases k,
{
    let from = if k == 0 {
        0
    } else {
        token_bounds(s, (k - 1) as nat).1
    };
    let start = skip_whitespace(s, from);
    (start, skip_token(s, start))
}

/// The token of index `k` of `s`, if `s` has that many.
pub open spec fn token(s: Seq<char>, k: nat) -> Option<Seq<char>> {
    let (start, end) = token_bounds(s, k);
    if start < s.len() {
        Some(s.subrange(start, end))
    } else {
        None
    }
}

/// Walks over white space (`white`) or over a token from index `from` on.
fn skip(chars: &Vec<char>, from: usize, white: bool) -> (r: usize)
    requires
        from <= chars.len(),
    ensures
        from <= r <= chars.len(),
        white ==> r == skip_whitespace(chars@, from as int),
        !white ==> r == skip_token(chars@, from as int),
{
    let mut i: usize = from;
    while i < chars.len() && whitespace(chars[i]) == white
        invariant
            from <= i <= chars.len(),
            white ==> skip_whitespace(chars@, from as int) == skip_whitespace(chars@, i as int),
            !white ==> skip_token(chars@, from as int) == skip_token(chars@, i as int),
        decreases chars.len() - i,
    {
        i = i + 1;
    }
    i
}

/// The token of index `k` of `line`, as `split_whitespace` counts them.
pub fn nth_token(line: &str, k: usize) -> (r: Option<&str>)
    ensures
        match r {
            Some(t) => token(line@, k as nat) == Some(t@),
            None => token(line@, k as nat) is None,
        },
{
    let chars = chars_of(line);
    let mut start: usize = skip(&chars, 0, true);
    let mut end: usize = skip(&chars, start, false);
    let mut i: usize = 0;
    while i < k
        invariant
            i <= k,
            chars@ == line@,
            start <= end <= chars.len(),
            token_bounds(line@, i as nat) == (start as int, end as int),
        decreases k - i,
    {
        start = skip(&chars, end, true);
        end = skip(&chars, start, false);
        i = i + 1;
    }
    if start < chars.len() {
        Some(line.substring_char(start, end))
    } else {
        None
    }
}

/// The character that stands for the digit `d`.
pub open spec fn digit_char(d: int) -> char {
    if d == 0 {
        '0'
    } else if d == 1 {
        '1'
    } else if d == 2 {
        '2'
    } else if d == 3 {
        '3'
    } else if d == 4 {
        '4'
    } else if d == 5 {
        '5'
    } else if d == 6 {
        '6'
    } else if d == 7 {
        '7'
    } else if d == 8 {
        '8'
    } else {
        '9'
    }
}

/// The decimal digits of `n`, the most significant first, without leading zeros.
pub open spec fn decimal(n: nat) -> Seq<char>
    decreases n,
{
    if n < 10 {
        seq![digit_char(n as int)]
    } else {
        decimal(n / 10).push(digit_char((n % 10) as int))
    }
}

fn digit_str(d: usize) -> (r: &'static str)
    requires
        d < 10,
    ensures
        r@ == seq![digit_char(d as int)],
{
    proof {
        reveal_strlit("0");
        reveal_strlit("1");
        reveal_strlit("2");
        reveal_strlit("3");
        reveal_strlit("4");
        reveal_strlit("5");
        reveal_strlit("6");
        reveal_strlit("7");
        reveal_strlit("8");
        reveal_strlit("9");
    }
    let r = if d == 0 {
        "0"
    } else if d == 1 {
        "1"
    } else if d == 2 {
        "2"
    } else if d == 3 {
        "3"
    } else if d == 4 {
        "4"
    } else if d == 5 {
        "5"
    } else if d == 6 {
        "6"
    } else if d == 7 {
        "7"
    } else if d == 8 {
        "8"
    } else {
        "9"
    };
    assert(r@ =~= seq![digit_char(d as int)]);
    r
}

/// Writes `n` in decimal digits.
pub fn to_decimal(n: usize) -> (r: String)
    ensures
        r@ == decimal(n as nat),
    decreases n,
{
    if n < 10 {
        String::from_str(digit_str(n))
    } else {
        let mut r = to_decimal(n / 10);
        r.append(digit_str(n % 10));
        assert(r@ =~= decimal(n as nat));
        r
    }
}

/// The index of the last `c` in `s`, or -1 where `s` holds none.
pub open spec fn last_index_of(s: Seq<char>, c: char) -> int
    decreases s.len(),
{
    if s.len() == 0 {
        -1
    } else if s.last() == c {
        s.len() - 1
    } else {
        last_index_of(s.drop_last(), c)
    }
}

/// The last component of a path written with slashes: what follows the last slash.
pub open spec fn file_name(path: Seq<char>) -> Seq<char> {
    path.skip(last_index_of(path, '/') + 1)
}

/// The extension of a path written with slashes: what follows the last dot of its last
/// component. It is empty where that component has no dot, or only the one it begins with.
pub open spec fn extension(path: Seq<char>) -> Seq<char> {
    let name = file_name(path);
    let dot = last_index_of(name, '.');
    if dot <= 0 {
        Seq::empty()
    } else {
        name.skip(dot + 1)
    }
}

proof fn lemma_last_index_of(s: Seq<char>, c: char)
    ensures
        -1 <= last_index_of(s, c) < s.len(),
        last_index_of(s, c) >= 0 ==> s[last_index_of(s, c)] == c,
        forall|j: int| last_index_of(s, c) < j < s.len() ==> s[j] != c,
    decreases s.len(),
{
    if s.len() > 0 && s.last() != c {
        let init = s.drop_last();
        lemma_last_index_of(init, c);
        assert forall|j: int| last_index_of(s, c) < j < s.len() implies s[j] != c by {
            if j < init.len() {
                assert(init[j] == s[j]);
            }
        }
    }
}

proof fn lemma_last_index_of_is(s: Seq<char>, c: char, i: int)
    requires
        -1 <= i < s.len(),
        i >= 0 ==> s[i] == c,
        forall|j: int| i < j < s.len() ==> s[j] != c,
    ensures
        last_index_of(s, c) == i,
{
    lemma_last_index_of(s, c);
}

/// The extension of `path`.
pub fn extension_of(path: &str) -> (r: &str)
    ensures
        r@ == extension(path@),
{
    let chars = chars_of(path);
    let n: usize = chars.len();
    let mut i: usize = n;
    while i > 0 && chars[i - 1] != '.' && chars[i - 1] != '/'
        invariant
            i <= n,
            n == chars.len(),
            forall|j: int| i <= j < n ==> chars@[j] != '.' && chars@[j] != '/',
        decreases i,
    {
        i = i - 1;
    }
    let ghost slash = last_index_of(path@, '/');
    let ghost name = file_name(path@);
    proof {
        lemma_last_index_of(path@, '/');
        lemma_last_index_of(name, '.');
    }
    if i == 0 || chars[i - 1] == '/' {
        proof {
            assert(slash == i - 1);
            assert(forall|j: int| 0 <= j < name.len() ==> name[j] == path@[j + i]);
            assert(last_index_of(name, '.') == -1);
            reveal_strlit("");
        }
        ""
    } else if i == 1 || chars[i - 2] == '/' {
        proof {
            assert(slash == i - 2);
            assert(forall|j: int| 0 <= j < name.len() ==> name[j] == path@[j + i - 1]);
            lemma_last_index_of_is(name, '.', 0);
            reveal_strlit("");
        }
        ""
    } else {
        proof {
            assert(slash < i - 2);
            assert(forall|j: int| 0 <= j < name.len() ==> name[j] == path@[j + slash + 1]);
            lemma_last_index_of_is(name, '.', i - 1 - (slash + 1));
            assert(name.skip(i - 1 - (slash + 1) + 1) =~= path@.subrange(i as int, n as int));
        }
        path.substring_char(i, n)
    }
}

} // verus!
