//! Character-level text operations used by the analyzers.
//!
//! Text is handled as sequences of `char`; the executable functions work on
//! slices and vectors of `char` and are specified over their views.

use vstd::prelude::*;

verus! {

/// The Unicode `White_Space` property, which `char::is_whitespace` tests.
pub open spec fn is_ws(c: char) -> bool {
    ||| c == '\t'
    ||| c == '\n'
    ||| c == '\x0B'
    ||| c == '\x0C'
    ||| c == '\r'
    ||| c == ' '
    ||| c == '\u{85}'
    ||| c == '\u{A0}'
    ||| c == '\u{1680}'
    ||| ('\u{2000}' <= c && c <= '\u{200A}')
    ||| c == '\u{2028}'
    ||| c == '\u{2029}'
    ||| c == '\u{202F}'
    ||| c == '\u{205F}'
    ||| c == '\u{3000}'
}

pub fn char_is_ws(c: char) -> (r: bool)
    ensures
        r == is_ws(c),
{
    c == '\t' || c == '\n' || c == '\x0B' || c == '\x0C' || c == '\r' || c == ' ' || c == '\u{85}'
        || c == '\u{A0}' || c == '\u{1680}' || ('\u{2000}' <= c && c <= '\u{200A}') || c
        == '\u{2028}' || c == '\u{2029}' || c == '\u{202F}' || c == '\u{205F}' || c == '\u{3000}'
}

/// First index at or after `i` whose char is not whitespace (or the length).
pub open spec fn skip_ws(s: Seq<char>, i: int) -> int
    decreases s.len() - i,
{
    if 0 <= i < s.len() && is_ws(s[i]) {
        skip_ws(s, i + 1)
    } else {
        i
    }
}

/// Walking back from `e` towards `lo`, the end of the text once trailing
/// whitespace is dropped.
pub open spec fn back_ws(s: Seq<char>, lo: int, e: int) -> int
    decreases e - lo,
{
    if lo < e && is_ws(s[e - 1]) {
        back_ws(s, lo, e - 1)
    } else {
        e
    }
}

/// `str::trim`: the text without leading and trailing whitespace.
pub open spec fn trimmed(s: Seq<char>) -> Seq<char> {
    let a = skip_ws(s, 0);
    s.subrange(a, back_ws(s, a, s.len() as int))
}

pub proof fn lemma_skip_ws_bounds(s: Seq<char>, i: int)
    requires
        0 <= i <= s.len(),
    ensures
        i <= skip_ws(s, i) <= s.len(),
    decreases s.len() - i,
{
    if i < s.len() && is_ws(s[i]) {
        lemma_skip_ws_bounds(s, i + 1);
    }
}

pub proof fn lemma_back_ws_bounds(s: Seq<char>, lo: int, e: int)
    requires
        0 <= lo <= e <= s.len(),
    ensures
        lo <= back_ws(s, lo, e) <= e,
    decreases e - lo,
{
    if lo < e && is_ws(s[e - 1]) {
        lemma_back_ws_bounds(s, lo, e - 1);
    }
}

/// The bounds of the trimmed text inside `s`.
pub fn trim_bounds(s: &[char]) -> (r: (usize, usize))
    ensures
        r.0 == skip_ws(s@, 0),
        r.1 == back_ws(s@, r.0 as int, s@.len() as int),
        r.0 <= r.1 <= s@.len(),
        trimmed(s@) == s@.subrange(r.0 as int, r.1 as int),
{
    let mut a: usize = 0;
    while a < s.len() && char_is_ws(s[a])
        invariant
            a <= s@.len(),
            skip_ws(s@, 0) == skip_ws(s@, a as int),
        decreases s@.len() - a,
    {
        a = a + 1;
    }
    let mut b: usize = s.len();
    while b > a && char_is_ws(s[b - 1])
        invariant
            a <= b <= s@.len(),
            back_ws(s@, a as int, s@.len() as int) == back_ws(s@, a as int, b as int),
        decreases b,
    {
        b = b - 1;
    }
    (a, b)
}

/// `str::trim`.
pub fn trim(s: &[char]) -> (r: Vec<char>)
    ensures
        r@ == trimmed(s@),
{
    let (a, b) = trim_bounds(s);
    vstd::slice::slice_to_vec(vstd::slice::slice_subrange(s, a, b))
}


/// The chars of a string.
pub(crate) fn str_chars(s: &str) -> (r: Vec<char>)
    ensures
        r@ == s@,
{
    let mut out: Vec<char> = Vec::new();
    for c in it: s.chars()
        invariant
            it.seq() == s@,
            out@.len() == it.index(),
            forall|i: int| 0 <= i < out@.len() ==> out@[i] == s@[i],
    {
        out.push(c);
    }
    out
}

/// A string made of the given chars.
#[verifier::external_body]
pub(crate) fn chars_to_string(s: &[char]) -> (r: String)
    ensures
        r@ == s@,
{
    s.iter().collect()
}

/// `str < str`: strings are ordered lexicographically by chars (UTF-8 keeps
/// the order of code points, so this is the order of their bytes too).
pub(crate) fn str_less(a: &str, b: &str) -> (r: bool)
    ensures
        r == lex_less(a@, b@),
{
    let x = str_chars(a);
    let y = str_chars(b);
    chars_less(x.as_slice(), y.as_slice())
}

proof fn lemma_lex_less_skip(a: Seq<char>, b: Seq<char>, i: int)
    requires
        0 <= i < a.len(),
        i < b.len(),
    ensures
        lex_less(a.skip(i), b.skip(i)) == if a[i] != b[i] {
            (a[i] as u32) < (b[i] as u32)
        } else {
            lex_less(a.skip(i + 1), b.skip(i + 1))
        },
{
    assert(a.skip(i).drop_first() =~= a.skip(i + 1));
    assert(b.skip(i).drop_first() =~= b.skip(i + 1));
}

/// Lexicographic comparison of two char slices.
pub fn chars_less(a: &[char], b: &[char]) -> (r: bool)
    ensures
        r == lex_less(a@, b@),
{
    let mut i: usize = 0;
    assert(a@.skip(0) =~= a@);
    assert(b@.skip(0) =~= b@);
    loop
        invariant
            i <= a@.len(),
            i <= b@.len(),
            lex_less(a@, b@) == lex_less(a@.skip(i as int), b@.skip(i as int)),
        decreases a@.len() - i,
    {
        if i == a.len() {
            return i < b.len();
        }
        if i == b.len() {
            return false;
        }
        proof {
            lemma_lex_less_skip(a@, b@, i as int);
        }
        if a[i] != b[i] {
            return (a[i] as u32) < (b[i] as u32);
        }
        i = i + 1;
    }
}

/// Lexicographic order on char sequences.
pub open spec fn lex_less(a: Seq<char>, b: Seq<char>) -> bool
    decreases a.len(),
{
    if a.len() == 0 {
        b.len() > 0
    } else if b.len() == 0 {
        false
    } else if a[0] != b[0] {
        (a[0] as u32) < (b[0] as u32)
    } else {
        lex_less(a.drop_first(), b.drop_first())
    }
}

pub proof fn lemma_lex_less_asymmetric(a: Seq<char>, b: Seq<char>)
    ensures
        lex_less(a, b) ==> !lex_less(b, a),
    decreases a.len(),
{
    if a.len() > 0 && b.len() > 0 && a[0] == b[0] {
        lemma_lex_less_asymmetric(a.drop_first(), b.drop_first());
    }
}

pub proof fn lemma_lex_less_transitive(a: Seq<char>, b: Seq<char>, c: Seq<char>)
    ensures
        lex_less(a, b) && lex_less(b, c) ==> lex_less(a, c),
    decreases a.len(),
{
    if a.len() > 0 && b.len() > 0 && c.len() > 0 && a[0] == b[0] && b[0] == c[0] {
        lemma_lex_less_transitive(a.drop_first(), b.drop_first(), c.drop_first());
    }
}

/// `p` stands in `s` at index `i`.
pub open spec fn occurs_at(s: Seq<char>, p: Seq<char>, i: int) -> bool {
    0 <= i && i + p.len() <= s.len() && s.subrange(i, i + p.len()) == p
}

/// `str::contains`.
pub open spec fn has_sub(s: Seq<char>, p: Seq<char>) -> bool {
    exists|i: int| occurs_at(s, p, i)
}

/// `str::starts_with`.
pub open spec fn starts_with(s: Seq<char>, p: Seq<char>) -> bool {
    p.len() <= s.len() && s.subrange(0, p.len() as int) == p
}

/// `str::ends_with`.
pub open spec fn ends_with(s: Seq<char>, p: Seq<char>) -> bool {
    p.len() <= s.len() && s.subrange(s.len() - p.len(), s.len() as int) == p
}

/// The first index at or after `i` where `p` stands in `s`.
pub open spec fn find_from(s: Seq<char>, p: Seq<char>, i: int) -> Option<int>
    decreases s.len() + 1 - i,
{
    if i < 0 || i + p.len() > s.len() {
        None
    } else if occurs_at(s, p, i) {
        Some(i)
    } else {
        find_from(s, p, i + 1)
    }
}

pub proof fn lemma_find_from(s: Seq<char>, p: Seq<char>, i: int)
    requires
        0 <= i,
    ensures
        find_from(s, p, i) matches Some(k) ==> i <= k && occurs_at(s, p, k) && forall|j: int|
            i <= j < k ==> !occurs_at(s, p, j),
        find_from(s, p, i) is None ==> forall|j: int| i <= j ==> !occurs_at(s, p, j),
    decreases s.len() + 1 - i,
{
    if i + p.len() > s.len() {
    } else if occurs_at(s, p, i) {
    } else {
        lemma_find_from(s, p, i + 1);
        assert forall|j: int| i <= j && find_from(s, p, i) is None implies !occurs_at(s, p, j) by {
            if j > i {
            }
        }
    }
}

/// The first occurrence of `p` in `s`.
pub open spec fn find_first(s: Seq<char>, p: Seq<char>) -> Option<int> {
    find_from(s, p, 0)
}

pub proof fn lemma_find_first_has_sub(s: Seq<char>, p: Seq<char>)
    ensures
        find_first(s, p) is Some <==> has_sub(s, p),
        find_first(s, p) matches Some(k) ==> occurs_at(s, p, k),
{
    lemma_find_from(s, p, 0);
    if has_sub(s, p) {
        let k = choose|k: int| occurs_at(s, p, k);
        assert(occurs_at(s, p, k));
    }
}

/// Whether `p` stands in `s` at index `i`.
pub fn matches_at(s: &[char], p: &[char], i: usize) -> (r: bool)
    ensures
        r == occurs_at(s@, p@, i as int),
{
    let n = s.len();
    if i > n || p.len() > n - i {
        return false;
    }
    let mut j: usize = 0;
    while j < p.len()
        invariant
            n == s@.len(),
            i + p@.len() <= s@.len(),
            j <= p@.len(),
            forall|jj: int| 0 <= jj < j ==> s@[i + jj] == p@[jj],
        decreases p@.len() - j,
    {
        if s[i + j] != p[j] {
            assert(s@.subrange(i as int, i + p@.len())[j as int] != p@[j as int]);
            return false;
        }
        j = j + 1;
    }
    assert(s@.subrange(i as int, i + p@.len()) =~= p@);
    true
}

/// `str::find`.
pub fn find(s: &[char], p: &[char]) -> (r: Option<usize>)
    ensures
        r matches Some(k) ==> find_first(s@, p@) == Some(k as int),
        r is None ==> find_first(s@, p@) is None,
{
    let n = s.len();
    if p.len() == 0 {
        assert(s@.subrange(0, 0) =~= p@);
        return Some(0);
    }
    let mut i: usize = 0;
    while i <= n && p.len() <= n - i
        invariant
            n == s@.len(),
            p@.len() > 0,
            find_from(s@, p@, 0) == find_from(s@, p@, i as int),
        decreases s@.len() + 1 - i,
    {
        if matches_at(s, p, i) {
            return Some(i);
        }
        i = i + 1;
    }
    None
}

/// `str::contains`.
pub fn contains(s: &[char], p: &[char]) -> (r: bool)
    ensures
        r == has_sub(s@, p@),
{
    proof {
        lemma_find_first_has_sub(s@, p@);
    }
    find(s, p).is_some()
}

/// `str::starts_with`.
pub fn starts_with_exec(s: &[char], p: &[char]) -> (r: bool)
    ensures
        r == starts_with(s@, p@),
{
    matches_at(s, p, 0)
}

/// `str::ends_with`.
pub fn ends_with_exec(s: &[char], p: &[char]) -> (r: bool)
    ensures
        r == ends_with(s@, p@),
{
    if p.len() > s.len() {
        false
    } else {
        matches_at(s, p, s.len() - p.len())
    }
}

/// The text without any whitespace: what `split_whitespace().collect::<String>()`
/// builds.
pub open spec fn compact_from(s: Seq<char>, i: int) -> Seq<char>
    decreases s.len() - i,
{
    if i < 0 || i >= s.len() {
        Seq::empty()
    } else {
        (if is_ws(s[i]) {
            Seq::empty()
        } else {
            seq![s[i]]
        }) + compact_from(s, i + 1)
    }
}

pub open spec fn compacted(s: Seq<char>) -> Seq<char> {
    compact_from(s, 0)
}

pub fn compact(s: &[char]) -> (r: Vec<char>)
    ensures
        r@ == compacted(s@),
{
    let mut out: Vec<char> = Vec::new();
    let mut i: usize = 0;
    while i < s.len()
        invariant
            i <= s@.len(),
            out@ + compact_from(s@, i as int) == compacted(s@),
        decreases s@.len() - i,
    {
        let ghost rest = compact_from(s@, i + 1);
        let ghost prev = out@;
        if !char_is_ws(s[i]) {
            out.push(s[i]);
            assert(prev + (seq![s@[i as int]] + rest) =~= out@ + rest);
        } else {
            assert(Seq::<char>::empty() + rest =~= rest);
        }
        i = i + 1;
    }
    assert(out@ + compact_from(s@, i as int) =~= out@);
    out
}

/// `str::split_once` at the first occurrence of `p`.
pub open spec fn split_once(s: Seq<char>, p: Seq<char>) -> Option<(Seq<char>, Seq<char>)> {
    match find_first(s, p) {
        Some(k) => Some((s.subrange(0, k), s.subrange(k + p.len(), s.len() as int))),
        None => None,
    }
}

pub fn split_once_exec(s: &[char], p: &[char]) -> (r: Option<(Vec<char>, Vec<char>)>)
    ensures
        match r {
            Some((a, b)) => split_once(s@, p@) == Some((a@, b@)),
            None => split_once(s@, p@) is None,
        },
{
    match find(s, p) {
        Some(k) => {
            proof {
                lemma_find_first_has_sub(s@, p@);
            }
            let n = s.len();
            assert(occurs_at(s@, p@, k as int));
            let a = vstd::slice::slice_to_vec(vstd::slice::slice_subrange(s, 0, k));
            let b = vstd::slice::slice_to_vec(
                vstd::slice::slice_subrange(s, k + p.len(), s.len()),
            );
            Some((a, b))
        },
        None => None,
    }
}

/// The last index before `e` holding `c`.
pub open spec fn rfind_char(s: Seq<char>, c: char, e: int) -> Option<int>
    decreases e,
{
    if e <= 0 || e > s.len() {
        None
    } else if s[e - 1] == c {
        Some(e - 1)
    } else {
        rfind_char(s, c, e - 1)
    }
}

pub proof fn lemma_rfind_char(s: Seq<char>, c: char, e: int)
    requires
        0 <= e <= s.len(),
    ensures
        rfind_char(s, c, e) matches Some(k) ==> 0 <= k < e && s[k] == c,
    decreases e,
{
    if e > 0 && s[e - 1] != c {
        lemma_rfind_char(s, c, e - 1);
    }
}

/// The index of the last `c` in `s`.
pub fn rfind_char_exec(s: &[char], c: char) -> (r: Option<usize>)
    ensures
        match r {
            Some(k) => rfind_char(s@, c, s@.len() as int) == Some(k as int) && k < s@.len(),
            None => rfind_char(s@, c, s@.len() as int) is None,
        },
{
    let n = s.len();
    let mut e: usize = n;
    while e > 0
        invariant
            n == s@.len(),
            e <= s@.len(),
            rfind_char(s@, c, s@.len() as int) == rfind_char(s@, c, e as int),
        decreases e,
    {
        if s[e - 1] == c {
            return Some(e - 1);
        }
        e = e - 1;
    }
    None
}

/// `str::rsplit_once` at the last `c`.
pub open spec fn rsplit_once_char(s: Seq<char>, c: char) -> Option<(Seq<char>, Seq<char>)> {
    match rfind_char(s, c, s.len() as int) {
        Some(k) => Some((s.subrange(0, k), s.subrange(k + 1, s.len() as int))),
        None => None,
    }
}

/// What `rsplit(c).next()` yields: the text after the last `c`, or all of it.
pub open spec fn after_last(s: Seq<char>, c: char) -> Seq<char> {
    match rfind_char(s, c, s.len() as int) {
        Some(k) => s.subrange(k + 1, s.len() as int),
        None => s,
    }
}

pub fn rsplit_once_char_exec(s: &[char], c: char) -> (r: Option<(Vec<char>, Vec<char>)>)
    ensures
        match r {
            Some((a, b)) => rsplit_once_char(s@, c) == Some((a@, b@)),
            None => rsplit_once_char(s@, c) is None,
        },
{
    match rfind_char_exec(s, c) {
        Some(k) => {
            let n = s.len();
            let a = vstd::slice::slice_to_vec(vstd::slice::slice_subrange(s, 0, k));
            let b = vstd::slice::slice_to_vec(vstd::slice::slice_subrange(s, k + 1, n));
            Some((a, b))
        },
        None => None,
    }
}

pub fn after_last_exec(s: &[char], c: char) -> (r: Vec<char>)
    ensures
        r@ == after_last(s@, c),
{
    match rfind_char_exec(s, c) {
        Some(k) => {
            let n = s.len();
            vstd::slice::slice_to_vec(vstd::slice::slice_subrange(s, k + 1, n))
        },
        None => vstd::slice::slice_to_vec(s),
    }
}

/// The end of the run of non-whitespace chars that starts at `i`.
pub open spec fn word_end(s: Seq<char>, i: int) -> int
    decreases s.len() - i,
{
    if 0 <= i < s.len() && !is_ws(s[i]) {
        word_end(s, i + 1)
    } else {
        i
    }
}

pub proof fn lemma_word_end_bounds(s: Seq<char>, i: int)
    requires
        0 <= i <= s.len(),
    ensures
        i <= word_end(s, i) <= s.len(),
        i < s.len() && !is_ws(s[i]) ==> i < word_end(s, i),
    decreases s.len() - i,
{
    if i < s.len() && !is_ws(s[i]) {
        lemma_word_end_bounds(s, i + 1);
    }
}

pub proof fn lemma_skip_ws_stops(s: Seq<char>, i: int)
    requires
        0 <= i <= s.len(),
    ensures
        skip_ws(s, i) < s.len() ==> !is_ws(s[skip_ws(s, i)]),
    decreases s.len() - i,
{
    if i < s.len() && is_ws(s[i]) {
        lemma_skip_ws_stops(s, i + 1);
    }
}

/// The words of `s` from index `i` on: what `split_whitespace` yields.
pub open spec fn words_from(s: Seq<char>, i: int) -> Seq<Seq<char>>
    decreases s.len() - i,
{
    if i < 0 || i >= s.len() {
        Seq::empty()
    } else {
        let a = skip_ws(s, i);
        if a >= s.len() {
            Seq::empty()
        } else {
            let b = word_end(s, a);
            proof {
                lemma_skip_ws_bounds(s, i);
                lemma_skip_ws_stops(s, i);
                lemma_word_end_bounds(s, a);
            }
            seq![s.subrange(a, b)] + words_from(s, b)
        }
    }
}

pub open spec fn words(s: Seq<char>) -> Seq<Seq<char>> {
    words_from(s, 0)
}

/// `split_whitespace().collect::<Vec<_>>()`.
pub fn split_words(s: &[char]) -> (r: Vec<Vec<char>>)
    ensures
        r.deep_view() == words(s@),
{
    let mut out: Vec<Vec<char>> = Vec::new();
    let mut i: usize = 0;
    while i < s.len()
        invariant
            i <= s@.len(),
            out.deep_view() + words_from(s@, i as int) == words(s@),
        decreases s@.len() - i,
    {
        let mut a: usize = i;
        while a < s.len() && char_is_ws(s[a])
            invariant
                i <= a <= s@.len(),
                skip_ws(s@, i as int) == skip_ws(s@, a as int),
            decreases s@.len() - a,
        {
            a = a + 1;
        }
        if a >= s.len() {
            assert(words_from(s@, i as int) =~= Seq::<Seq<char>>::empty());
            assert(out.deep_view() + Seq::<Seq<char>>::empty() =~= out.deep_view());
            return out;
        }
        let mut b: usize = a;
        while b < s.len() && !char_is_ws(s[b])
            invariant
                a <= b <= s@.len(),
                word_end(s@, a as int) == word_end(s@, b as int),
            decreases s@.len() - b,
        {
            b = b + 1;
        }
        proof {
            lemma_skip_ws_stops(s@, i as int);
        }
        let ghost before = out.deep_view();
        let w = vstd::slice::slice_to_vec(vstd::slice::slice_subrange(s, a, b));
        assert(w.deep_view() =~= w@);
        out.push(w);
        assert(out.deep_view() =~= before.push(s@.subrange(a as int, b as int)));
        assert(before + (seq![s@.subrange(a as int, b as int)] + words_from(s@, b as int))
            =~= out.deep_view() + words_from(s@, b as int));
        i = b;
    }
    assert(words_from(s@, i as int) =~= Seq::<Seq<char>>::empty());
    assert(out.deep_view() + Seq::<Seq<char>>::empty() =~= out.deep_view());
    out
}

/// An ASCII letter.
pub open spec fn is_ascii_alpha(c: char) -> bool {
    ('a' <= c && c <= 'z') || ('A' <= c && c <= 'Z')
}

/// An ASCII letter or digit.
pub open spec fn is_ascii_alnum(c: char) -> bool {
    is_ascii_alpha(c) || ('0' <= c && c <= '9')
}

/// A non-empty run of `_` and ASCII letters and digits that does not start
/// with a digit.
pub open spec fn is_identifier(s: Seq<char>) -> bool {
    &&& s.len() > 0
    &&& forall|i: int| 0 <= i < s.len() ==> (s[i] == '_' || is_ascii_alnum(#[trigger] s[i]))
    &&& (s[0] == '_' || is_ascii_alpha(s[0]))
}

pub fn is_identifier_exec(s: &[char]) -> (r: bool)
    ensures
        r == is_identifier(s@),
{
    if s.len() == 0 {
        return false;
    }
    let mut i: usize = 0;
    while i < s.len()
        invariant
            i <= s@.len(),
            forall|j: int| 0 <= j < i ==> (s@[j] == '_' || is_ascii_alnum(#[trigger] s@[j])),
        decreases s@.len() - i,
    {
        let c = s[i];
        if !(c == '_' || ('a' <= c && c <= 'z') || ('A' <= c && c <= 'Z') || ('0' <= c && c
            <= '9')) {
            return false;
        }
        i = i + 1;
    }
    let c = s[0];
    c == '_' || ('a' <= c && c <= 'z') || ('A' <= c && c <= 'Z')
}

/// First index at or after `i` whose char is not `c`.
pub open spec fn skip_char(s: Seq<char>, c: char, i: int) -> int
    decreases s.len() - i,
{
    if 0 <= i < s.len() && s[i] == c {
        skip_char(s, c, i + 1)
    } else {
        i
    }
}

/// Walking back from `e` towards `lo`, the end once trailing `c` are dropped.
pub open spec fn back_char(s: Seq<char>, c: char, lo: int, e: int) -> int
    decreases e - lo,
{
    if lo < e && s[e - 1] == c {
        back_char(s, c, lo, e - 1)
    } else {
        e
    }
}

/// `str::trim_matches(c)`.
pub open spec fn trim_char(s: Seq<char>, c: char) -> Seq<char> {
    let a = skip_char(s, c, 0);
    s.subrange(a, back_char(s, c, a, s.len() as int))
}

/// `str::trim_start_matches(c)`.
pub open spec fn trim_start_char(s: Seq<char>, c: char) -> Seq<char> {
    s.subrange(skip_char(s, c, 0), s.len() as int)
}

pub fn trim_char_bounds(s: &[char], c: char) -> (r: (usize, usize))
    ensures
        r.0 == skip_char(s@, c, 0),
        r.1 == back_char(s@, c, r.0 as int, s@.len() as int),
        r.0 <= r.1 <= s@.len(),
{
    let mut a: usize = 0;
    while a < s.len() && s[a] == c
        invariant
            a <= s@.len(),
            skip_char(s@, c, 0) == skip_char(s@, c, a as int),
        decreases s@.len() - a,
    {
        a = a + 1;
    }
    let mut b: usize = s.len();
    while b > a && s[b - 1] == c
        invariant
            a <= b <= s@.len(),
            back_char(s@, c, a as int, s@.len() as int) == back_char(s@, c, a as int, b as int),
        decreases b,
    {
        b = b - 1;
    }
    (a, b)
}

pub fn trim_char_exec(s: &[char], c: char) -> (r: Vec<char>)
    ensures
        r@ == trim_char(s@, c),
{
    let (a, b) = trim_char_bounds(s, c);
    vstd::slice::slice_to_vec(vstd::slice::slice_subrange(s, a, b))
}

pub fn trim_start_char_exec(s: &[char], c: char) -> (r: Vec<char>)
    ensures
        r@ == trim_start_char(s@, c),
{
    let (a, _b) = trim_char_bounds(s, c);
    vstd::slice::slice_to_vec(vstd::slice::slice_subrange(s, a, s.len()))
}

/// `str::trim_start_matches(p)` for a non-empty text pattern: every leading
/// copy of `p` goes.
pub open spec fn strip_prefixes(s: Seq<char>, p: Seq<char>) -> Seq<char>
    decreases s.len(),
{
    if p.len() > 0 && starts_with(s, p) {
        strip_prefixes(s.subrange(p.len() as int, s.len() as int), p)
    } else {
        s
    }
}

/// `str::trim_end_matches(p)` for a non-empty text pattern.
pub open spec fn strip_suffixes(s: Seq<char>, p: Seq<char>) -> Seq<char>
    decreases s.len(),
{
    if p.len() > 0 && ends_with(s, p) {
        strip_suffixes(s.subrange(0, s.len() - p.len()), p)
    } else {
        s
    }
}

pub fn strip_prefixes_exec(s: &[char], p: &[char]) -> (r: Vec<char>)
    ensures
        r@ == strip_prefixes(s@, p@),
{
    let n = s.len();
    let mut a: usize = 0;
    assert(s@.subrange(0, s@.len() as int) =~= s@);
    while p.len() > 0 && matches_at(s, p, a)
        invariant
            n == s@.len(),
            a <= s@.len(),
            strip_prefixes(s@, p@) == strip_prefixes(s@.subrange(a as int, s@.len() as int), p@),
        decreases s@.len() - a,
    {
        let ghost cur = s@.subrange(a as int, s@.len() as int);
        assert(cur.subrange(0, p@.len() as int) =~= s@.subrange(a as int, a + p@.len()));
        assert(cur.subrange(p@.len() as int, cur.len() as int) =~= s@.subrange(
            a + p@.len(),
            s@.len() as int,
        ));
        a = a + p.len();
    }
    let ghost cur = s@.subrange(a as int, s@.len() as int);
    if p.len() > 0 && p.len() <= s.len() - a {
        assert(cur.subrange(0, p@.len() as int) =~= s@.subrange(a as int, a + p@.len()));
    }
    vstd::slice::slice_to_vec(vstd::slice::slice_subrange(s, a, s.len()))
}

pub fn strip_suffixes_exec(s: &[char], p: &[char]) -> (r: Vec<char>)
    ensures
        r@ == strip_suffixes(s@, p@),
{
    let mut e: usize = s.len();
    assert(s@.subrange(0, s@.len() as int) =~= s@);
    while p.len() > 0 && p.len() <= e && matches_at(s, p, e - p.len())
        invariant
            e <= s@.len(),
            strip_suffixes(s@, p@) == strip_suffixes(s@.subrange(0, e as int), p@),
        decreases e,
    {
        let ghost cur = s@.subrange(0, e as int);
        assert(cur.subrange(cur.len() - p@.len(), cur.len() as int) =~= s@.subrange(
            e - p@.len(),
            e as int,
        ));
        assert(cur.subrange(0, cur.len() - p@.len()) =~= s@.subrange(0, e - p@.len()));
        e = e - p.len();
    }
    let ghost cur = s@.subrange(0, e as int);
    if p.len() > 0 && p.len() <= e {
        assert(cur.subrange(cur.len() - p@.len(), cur.len() as int) =~= s@.subrange(
            e - p@.len(),
            e as int,
        ));
    }
    vstd::slice::slice_to_vec(vstd::slice::slice_subrange(s, 0, e))
}


/// A vector of chars has its chars as deep view.
pub proof fn lemma_chars_deep_view(v: Vec<char>)
    ensures
        v.deep_view() == v@,
{
    assert(v.deep_view() =~= v@);
}

pub fn chars_eq(a: &[char], b: &[char]) -> (r: bool)
    ensures
        r == (a@ == b@),
{
    if a.len() != b.len() {
        return false;
    }
    let mut i: usize = 0;
    while i < a.len()
        invariant
            a@.len() == b@.len(),
            i <= a@.len(),
            forall|j: int| 0 <= j < i ==> a@[j] == b@[j],
        decreases a@.len() - i,
    {
        if a[i] != b[i] {
            return false;
        }
        i = i + 1;
    }
    assert(a@ =~= b@);
    true
}

/// Whether the chars of `s` spell the string `lit`.
pub fn chars_are(s: &[char], lit: &str) -> (r: bool)
    ensures
        r == (s@ == lit@),
{
    let l = str_chars(lit);
    chars_eq(s, l.as_slice())
}

pub fn concat(a: &[char], b: &[char]) -> (r: Vec<char>)
    ensures
        r@ == a@ + b@,
{
    let mut out = vstd::slice::slice_to_vec(a);
    let mut i: usize = 0;
    while i < b.len()
        invariant
            i <= b@.len(),
            out@ == a@ + b@.take(i as int),
        decreases b@.len() - i,
    {
        out.push(b[i]);
        assert(out@ =~= a@ + b@.take(i + 1));
        i = i + 1;
    }
    assert(b@.take(i as int) =~= b@);
    out
}

/// `a` followed by the string `lit`.
pub fn concat_lit(a: &[char], lit: &str) -> (r: Vec<char>)
    ensures
        r@ == a@ + lit@,
{
    let l = str_chars(lit);
    concat(a, l.as_slice())
}

pub fn has_char(s: &[char], c: char) -> (r: bool)
    ensures
        r == s@.contains(c),
{
    let mut i: usize = 0;
    while i < s.len()
        invariant
            i <= s@.len(),
            forall|j: int| 0 <= j < i ==> s@[j] != c,
        decreases s@.len() - i,
    {
        if s[i] == c {
            return true;
        }
        i = i + 1;
    }
    false
}

/// Whether the text contains the string `lit`.
pub fn contains_lit(s: &[char], lit: &str) -> (r: bool)
    ensures
        r == has_sub(s@, lit@),
{
    let l = str_chars(lit);
    contains(s, l.as_slice())
}

pub fn starts_with_lit(s: &[char], lit: &str) -> (r: bool)
    ensures
        r == starts_with(s@, lit@),
{
    let l = str_chars(lit);
    starts_with_exec(s, l.as_slice())
}

pub fn ends_with_lit(s: &[char], lit: &str) -> (r: bool)
    ensures
        r == ends_with(s@, lit@),
{
    let l = str_chars(lit);
    ends_with_exec(s, l.as_slice())
}

} // verus!
