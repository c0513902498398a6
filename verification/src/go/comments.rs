//! Lines of a source text and the doc comment above a declaration.

use vstd::prelude::*;
use crate::text::{
    chars_to_string, ends_with, ends_with_lit, starts_with, starts_with_lit, str_chars,
    strip_prefixes, strip_prefixes_exec, strip_suffixes, strip_suffixes_exec, trim,
    trim_start_char, trim_start_char_exec, trimmed,
};

verus! {

/// The first index at or after `i` that holds a line feed, or the length.
pub open spec fn line_break_pos(s: Seq<char>, i: int) -> int
    decreases s.len() - i,
{
    if 0 <= i < s.len() && s[i] != '\n' {
        line_break_pos(s, i + 1)
    } else {
        i
    }
}

pub proof fn lemma_line_break_pos(s: Seq<char>, i: int)
    requires
        0 <= i <= s.len(),
    ensures
        i <= line_break_pos(s, i) <= s.len(),
        line_break_pos(s, i) < s.len() ==> s[line_break_pos(s, i)] == '\n',
    decreases s.len() - i,
{
    if i < s.len() && s[i] != '\n' {
        lemma_line_break_pos(s, i + 1);
    }
}

/// A line without the carriage return that ends it.
pub open spec fn drop_cr(l: Seq<char>) -> Seq<char> {
    if l.len() > 0 && l.last() == '\r' {
        l.drop_last()
    } else {
        l
    }
}

/// `str::lines` on the text from index `i` on: split at line feeds, a
/// carriage return before a line feed dropped, no empty line after a final
/// line feed.
pub open spec fn lines_from(s: Seq<char>, i: int) -> Seq<Seq<char>>
    decreases s.len() - i,
{
    if i < 0 || i >= s.len() {
        Seq::empty()
    } else {
        let k = line_break_pos(s, i);
        proof {
            lemma_line_break_pos(s, i);
        }
        if k < s.len() {
            seq![drop_cr(s.subrange(i, k))] + lines_from(s, k + 1)
        } else {
            seq![s.subrange(i, s.len() as int)]
        }
    }
}

pub open spec fn source_lines(s: Seq<char>) -> Seq<Seq<char>> {
    lines_from(s, 0)
}

/// `str::lines`.
pub fn split_lines(s: &[char]) -> (r: Vec<Vec<char>>)
    ensures
        r.deep_view() == source_lines(s@),
{
    let n = s.len();
    let mut out: Vec<Vec<char>> = Vec::new();
    let mut i: usize = 0;
    while i < n
        invariant
            n == s@.len(),
            i <= n,
            out.deep_view() + lines_from(s@, i as int) == source_lines(s@),
        decreases n - i,
    {
        let mut k: usize = i;
        while k < n && s[k] != '\n'
            invariant
                n == s@.len(),
                i <= k <= n,
                line_break_pos(s@, i as int) == line_break_pos(s@, k as int),
            decreases n - k,
        {
            k = k + 1;
        }
        let ghost before = out.deep_view();
        if k < n {
            let mut line = vstd::slice::slice_to_vec(vstd::slice::slice_subrange(s, i, k));
            let ghost raw = line@;
            if line.len() > 0 && line[line.len() - 1] == '\r' {
                line.pop();
                assert(line@ =~= raw.drop_last());
            }
            assert(line.deep_view() =~= line@);
            out.push(line);
            assert(out.deep_view() =~= before.push(drop_cr(s@.subrange(i as int, k as int))));
            assert(before + (seq![drop_cr(s@.subrange(i as int, k as int))] + lines_from(
                s@,
                k + 1,
            )) =~= out.deep_view() + lines_from(s@, k + 1));
            i = k + 1;
        } else {
            let line = vstd::slice::slice_to_vec(vstd::slice::slice_subrange(s, i, n));
            assert(line.deep_view() =~= line@);
            out.push(line);
            assert(out.deep_view() =~= before + seq![s@.subrange(i as int, n as int)]);
            assert(lines_from(s@, n as int) =~= Seq::<Seq<char>>::empty());
            assert(out.deep_view() + Seq::<Seq<char>>::empty() =~= out.deep_view());
            i = n;
        }
    }
    assert(lines_from(s@, i as int) =~= Seq::<Seq<char>>::empty());
    assert(out.deep_view() + Seq::<Seq<char>>::empty() =~= out.deep_view());
    out
}

/// The parts joined with `sep` between them.
pub open spec fn joined(parts: Seq<Seq<char>>, sep: Seq<char>) -> Seq<char>
    decreases parts.len(),
{
    if parts.len() == 0 {
        Seq::empty()
    } else if parts.len() == 1 {
        parts[0]
    } else {
        joined(parts.drop_last(), sep) + sep + parts.last()
    }
}

/// `join`.
pub fn join_chars(parts: &Vec<Vec<char>>, sep: &[char]) -> (r: Vec<char>)
    ensures
        r@ == joined(parts.deep_view(), sep@),
{
    let mut out: Vec<char> = Vec::new();
    let mut i: usize = 0;
    while i < parts.len()
        invariant
            i <= parts@.len(),
            out@ == joined(parts.deep_view().take(i as int), sep@),
        decreases parts@.len() - i,
    {
        let ghost before = out@;
        let ghost pv = parts.deep_view();
        assert(pv.take(i + 1).drop_last() =~= pv.take(i as int));
        assert(parts@[i as int].deep_view() =~= parts@[i as int]@);
        if i > 0 {
            let mut k: usize = 0;
            while k < sep.len()
                invariant
                    k <= sep@.len(),
                    out@ == before + sep@.take(k as int),
                decreases sep@.len() - k,
            {
                out.push(sep[k]);
                assert(out@ =~= before + sep@.take(k + 1));
                k = k + 1;
            }
            assert(sep@.take(k as int) =~= sep@);
        } else {
            assert(pv.take(1) =~= seq![pv[0]]);
        }
        let ghost mid = out@;
        let p = &parts[i];
        let mut k: usize = 0;
        while k < p.len()
            invariant
                k <= p@.len(),
                out@ == mid + p@.take(k as int),
            decreases p@.len() - k,
        {
            out.push(p[k]);
            assert(out@ =~= mid + p@.take(k + 1));
            k = k + 1;
        }
        assert(p@.take(k as int) =~= p@);
        if i == 0 {
            assert(out@ =~= joined(pv.take(1), sep@));
        }
        i = i + 1;
    }
    assert(parts.deep_view().take(i as int) =~= parts.deep_view());
    out
}

/// A `//` comment line.
pub open spec fn is_line_comment(l: Seq<char>) -> bool {
    starts_with(trimmed(l), "//"@)
}

/// The words of a `//` comment line.
pub open spec fn line_comment_text(l: Seq<char>) -> Seq<char> {
    trimmed(strip_prefixes(trimmed(l), "//"@))
}

/// The first of the `//` comment lines that run up to (not including) line
/// `e`.
pub open spec fn comment_run_start(lines: Seq<Seq<char>>, e: int) -> int
    decreases e,
{
    if 0 < e <= lines.len() && is_line_comment(lines[e - 1]) {
        comment_run_start(lines, e - 1)
    } else {
        e
    }
}

/// Going up from line `j`, the first line that opens a block comment, or
/// the first line of the text.
pub open spec fn block_top(lines: Seq<Seq<char>>, j: int) -> int
    decreases j,
{
    if j <= 0 {
        0
    } else if starts_with(trimmed(lines[j]), "/*"@) {
        j
    } else {
        block_top(lines, j - 1)
    }
}

/// A line of a block comment without its markers and whitespace.
pub open spec fn block_line_text(l: Seq<char>) -> Seq<char> {
    trimmed(
        trim_start_char(strip_suffixes(strip_prefixes(trimmed(l), "/*"@), "*/"@), '*'),
    )
}

/// The non-empty block comment lines from line `j` up to (not including)
/// line `e`.
pub open spec fn block_parts(lines: Seq<Seq<char>>, j: int, e: int) -> Seq<Seq<char>>
    decreases e - j,
{
    if j >= e {
        Seq::empty()
    } else {
        let rest = block_parts(lines, j + 1, e);
        if block_line_text(lines[j]).len() > 0 {
            seq![block_line_text(lines[j])] + rest
        } else {
            rest
        }
    }
}

/// The texts of the `//` comment lines from line `j` up to (not including)
/// line `e`.
pub open spec fn line_comment_parts(lines: Seq<Seq<char>>, j: int, e: int) -> Seq<Seq<char>>
    decreases e - j,
{
    if j >= e {
        Seq::empty()
    } else {
        seq![line_comment_text(lines[j])] + line_comment_parts(lines, j + 1, e)
    }
}

/// The doc comment of a declaration that starts on (0-based) row `row`:
/// the `//` lines right above it, or, when the first line above those ends a
/// block comment, the non-empty lines from that closing line up to the
/// nearest line above it that opens a block comment (or the first line),
/// each joined with line feeds.  The closing line itself is never taken for
/// the opening one.
pub open spec fn doc_comment(lines: Seq<Seq<char>>, row: int) -> Option<Seq<char>> {
    if row == 0 || row > lines.len() {
        None
    } else {
        let j = comment_run_start(lines, row);
        if j > 0 && ends_with(trimmed(lines[j - 1]), "*/"@) {
            let parts = block_parts(lines, block_top(lines, j - 2), j);
            if parts.len() == 0 {
                None
            } else {
                Some(joined(parts, "\n"@))
            }
        } else if j == row {
            None
        } else {
            Some(joined(line_comment_parts(lines, j, row), "\n"@))
        }
    }
}

fn block_line_text_exec(l: &[char]) -> (r: Vec<char>)
    ensures
        r@ == block_line_text(l@),
{
    let t = trim(l);
    let open = str_chars("/*");
    let close = str_chars("*/");
    let a = strip_prefixes_exec(t.as_slice(), open.as_slice());
    let b = strip_suffixes_exec(a.as_slice(), close.as_slice());
    let c = trim_start_char_exec(b.as_slice(), '*');
    trim(c.as_slice())
}

fn line_comment_text_exec(l: &[char]) -> (r: Vec<char>)
    ensures
        r@ == line_comment_text(l@),
{
    let t = trim(l);
    let slashes = str_chars("//");
    let a = strip_prefixes_exec(t.as_slice(), slashes.as_slice());
    trim(a.as_slice())
}

/// The doc comment above row `row`, from the lines of the source.
pub fn doc_comment_of_lines(lines: &Vec<Vec<char>>, row: usize) -> (r: Option<Vec<char>>)
    ensures
        r.deep_view() == doc_comment(lines.deep_view(), row as int),
{
    let ghost lv = lines.deep_view();
    if row == 0 || row > lines.len() {
        return None;
    }
    let mut j: usize = row;
    while j > 0 && starts_with_lit(trim(lines[j - 1].as_slice()).as_slice(), "//")
        invariant
            lv == lines.deep_view(),
            j <= row <= lines@.len(),
            comment_run_start(lv, row as int) == comment_run_start(lv, j as int),
        decreases j,
    {
        proof {
            crate::text::lemma_chars_deep_view(lines@[j - 1]);
        }
        j = j - 1;
    }
    proof {
        if j > 0 {
            crate::text::lemma_chars_deep_view(lines@[j - 1]);
        }
    }
    let sep = str_chars("\n");
    if j > 0 && ends_with_lit(trim(lines[j - 1].as_slice()).as_slice(), "*/") {
        let mut top: usize = if j >= 2 {
            j - 2
        } else {
            0
        };
        while top > 0 && !starts_with_lit(trim(lines[top].as_slice()).as_slice(), "/*")
            invariant
                lv == lines.deep_view(),
                top < j <= lines@.len(),
                block_top(lv, j - 2) == block_top(lv, top as int),
            decreases top,
        {
            proof {
                crate::text::lemma_chars_deep_view(lines@[top as int]);
            }
            top = top - 1;
        }
        proof {
            crate::text::lemma_chars_deep_view(lines@[top as int]);
        }
        let mut parts: Vec<Vec<char>> = Vec::new();
        let mut k: usize = top;
        while k < j
            invariant
                lv == lines.deep_view(),
                top <= k <= j <= lines@.len(),
                parts.deep_view() + block_parts(lv, k as int, j as int) == block_parts(
                    lv,
                    top as int,
                    j as int,
                ),
            decreases j - k,
        {
            proof {
                crate::text::lemma_chars_deep_view(lines@[k as int]);
            }
            let text = block_line_text_exec(lines[k].as_slice());
            let ghost before = parts.deep_view();
            let ghost rest = block_parts(lv, k + 1, j as int);
            if text.len() > 0 {
                proof {
                    crate::text::lemma_chars_deep_view(text);
                }
                parts.push(text);
                assert(parts.deep_view() =~= before.push(text@));
                assert(before + (seq![text@] + rest) =~= parts.deep_view() + rest);
            }
            k = k + 1;
        }
        assert(block_parts(lv, j as int, j as int) =~= Seq::<Seq<char>>::empty());
        assert(parts.deep_view() + Seq::<Seq<char>>::empty() =~= parts.deep_view());
        if parts.len() == 0 {
            return None;
        }
        let joined_text = join_chars(&parts, sep.as_slice());
        assert(Some(joined_text).deep_view() == Some(joined_text@));
        return Some(joined_text);
    }
    if j == row {
        return None;
    }
    let mut parts: Vec<Vec<char>> = Vec::new();
    let mut k: usize = j;
    while k < row
        invariant
            lv == lines.deep_view(),
            j <= k <= row <= lines@.len(),
            parts.deep_view() + line_comment_parts(lv, k as int, row as int) == line_comment_parts(
                lv,
                j as int,
                row as int,
            ),
        decreases row - k,
    {
        proof {
            crate::text::lemma_chars_deep_view(lines@[k as int]);
        }
        let text = line_comment_text_exec(lines[k].as_slice());
        let ghost before = parts.deep_view();
        let ghost rest = line_comment_parts(lv, k + 1, row as int);
        proof {
            crate::text::lemma_chars_deep_view(text);
        }
        parts.push(text);
        assert(parts.deep_view() =~= before.push(text@));
        assert(before + (seq![text@] + rest) =~= parts.deep_view() + rest);
        k = k + 1;
    }
    assert(line_comment_parts(lv, row as int, row as int) =~= Seq::<Seq<char>>::empty());
    assert(parts.deep_view() + Seq::<Seq<char>>::empty() =~= parts.deep_view());
    let joined_text = join_chars(&parts, sep.as_slice());
    assert(Some(joined_text).deep_view() == Some(joined_text@));
    Some(joined_text)
}

/// The doc comment of a declaration that starts on (0-based) row
/// `function_start_row` of `source`.
pub fn extract_doc_comment(source: &str, function_start_row: usize) -> (r: Option<String>)
    ensures
        r.deep_view() == doc_comment(source_lines(source@), function_start_row as int),
{
    let s = str_chars(source);
    let lines = split_lines(s.as_slice());
    match doc_comment_of_lines(&lines, function_start_row) {
        Some(c) => Some(chars_to_string(c.as_slice())),
        None => None,
    }
}

} // verus!
