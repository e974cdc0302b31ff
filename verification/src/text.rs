//! Shared line and token discipline of the OBJ and MTL grammars: both are
//! strictly line-oriented, strip a trailing `#` comment from each line, and
//! split the rest on white space.

use vstd::prelude::*;
use vstd::string::StrSliceExecFns;

verus! {

// --------------------------------------------------------------- characters

/// The characters treated as white space when a line is split into tokens:
/// the Unicode `White_Space` set, as Rust's `char::is_whitespace` has it.
pub open spec fn is_space(c: char) -> bool {
    let u = c as u32;
    u == 0x20 || (0x09 <= u && u <= 0x0d) || u == 0x85 || u == 0xa0 || u == 0x1680 || (0x2000
        <= u && u <= 0x200a) || u == 0x2028 || u == 0x2029 || u == 0x202f || u == 0x205f || u
        == 0x3000
}

pub fn check_space(c: char) -> (r: bool)
    ensures
        r == is_space(c),
{
    let u = c as u32;
    u == 0x20 || (0x09 <= u && u <= 0x0d) || u == 0x85 || u == 0xa0 || u == 0x1680 || (0x2000
        <= u && u <= 0x200a) || u == 0x2028 || u == 0x2029 || u == 0x202f || u == 0x205f || u
        == 0x3000
}

// --------------------------------------------------------- first occurrence

/// Index of the first occurrence of `c` in `s`, or `s.len()` when absent.
pub open spec fn find_char(s: Seq<char>, c: char) -> int
    decreases s.len(),
{
    if s.len() == 0 {
        0
    } else if s[0] == c {
        0
    } else {
        1 + find_char(s.drop_first(), c)
    }
}

/// Index of the first white-space character in `s`, or `s.len()`.
pub open spec fn find_space(s: Seq<char>) -> int
    decreases s.len(),
{
    if s.len() == 0 {
        0
    } else if is_space(s[0]) {
        0
    } else {
        1 + find_space(s.drop_first())
    }
}

pub proof fn lemma_find_char(s: Seq<char>, c: char)
    ensures
        0 <= find_char(s, c) <= s.len(),
        forall|j: int| 0 <= j < find_char(s, c) ==> s[j] != c,
        find_char(s, c) < s.len() ==> s[find_char(s, c)] == c,
    decreases s.len(),
{
    if s.len() == 0 {
    } else if s[0] == c {
    } else {
        lemma_find_char(s.drop_first(), c);
        assert forall|j: int| 0 <= j < find_char(s, c) implies s[j] != c by {
            if j >= 1 {
                assert(s.drop_first()[j - 1] == s[j]);
            }
        }
        if find_char(s, c) < s.len() {
            assert(s.drop_first()[find_char(s, c) - 1] == s[find_char(s, c)]);
        }
    }
}

/// A scan that found no `c` before `m`, and `c` or the end at `m`, found
/// exactly `find_char(s, c)`.
pub proof fn lemma_find_char_is(s: Seq<char>, c: char, m: int)
    requires
        0 <= m <= s.len(),
        forall|j: int| 0 <= j < m ==> s[j] != c,
        m < s.len() ==> s[m] == c,
    ensures
        find_char(s, c) == m,
    decreases s.len(),
{
    if s.len() == 0 {
    } else if s[0] == c {
        assert(m == 0);
    } else {
        assert(m >= 1);
        assert forall|j: int| 0 <= j < m - 1 implies s.drop_first()[j] != c by {
            assert(s.drop_first()[j] == s[j + 1]);
        }
        if m - 1 < s.drop_first().len() {
            assert(s.drop_first()[m - 1] == s[m]);
        }
        lemma_find_char_is(s.drop_first(), c, m - 1);
    }
}

pub proof fn lemma_find_space(s: Seq<char>)
    ensures
        0 <= find_space(s) <= s.len(),
        forall|j: int| 0 <= j < find_space(s) ==> !is_space(s[j]),
        find_space(s) < s.len() ==> is_space(s[find_space(s)]),
    decreases s.len(),
{
    if s.len() == 0 {
    } else if is_space(s[0]) {
    } else {
        lemma_find_space(s.drop_first());
        assert forall|j: int| 0 <= j < find_space(s) implies !is_space(s[j]) by {
            if j >= 1 {
                assert(s.drop_first()[j - 1] == s[j]);
            }
        }
        if find_space(s) < s.len() {
            assert(s.drop_first()[find_space(s) - 1] == s[find_space(s)]);
        }
    }
}

pub proof fn lemma_find_space_is(s: Seq<char>, m: int)
    requires
        0 <= m <= s.len(),
        forall|j: int| 0 <= j < m ==> !is_space(s[j]),
        m < s.len() ==> is_space(s[m]),
    ensures
        find_space(s) == m,
    decreases s.len(),
{
    if s.len() == 0 {
    } else if is_space(s[0]) {
        assert(m == 0);
    } else {
        assert(m >= 1);
        assert forall|j: int| 0 <= j < m - 1 implies !is_space(s.drop_first()[j]) by {
            assert(s.drop_first()[j] == s[j + 1]);
        }
        if m - 1 < s.drop_first().len() {
            assert(s.drop_first()[m - 1] == s[m]);
        }
        lemma_find_space_is(s.drop_first(), m - 1);
    }
}

// -------------------------------------------------------------------- lines

/// The `'\n'`-separated lines of `s`; every text, even the empty one, is a
/// sequence of one or more (possibly empty) lines.
pub open spec fn spec_lines(s: Seq<char>) -> Seq<Seq<char>>
    decreases s.len() via spec_lines_decreases
{
    let i = find_char(s, '\n');
    if i == s.len() {
        seq![s]
    } else {
        seq![s.take(i)] + spec_lines(s.skip(i + 1))
    }
}

#[via_fn]
proof fn spec_lines_decreases(s: Seq<char>) {
    lemma_find_char(s, '\n');
}

// ------------------------------------------------------------------- tokens

/// The white-space-separated tokens of `s`; every token is non-empty.
pub open spec fn spec_tokens(s: Seq<char>) -> Seq<Seq<char>>
    decreases s.len() via spec_tokens_decreases
{
    if s.len() == 0 {
        Seq::empty()
    } else if is_space(s[0]) {
        spec_tokens(s.drop_first())
    } else {
        let j = find_space(s);
        seq![s.take(j)] + spec_tokens(s.skip(j))
    }
}

#[via_fn]
proof fn spec_tokens_decreases(s: Seq<char>) {
    lemma_find_space(s);
}

/// The tokens a parser sees on one line: everything from the first `#`
/// onward is comment and is discarded before the line is split.
pub open spec fn spec_line_tokens(l: Seq<char>) -> Seq<Seq<char>> {
    spec_tokens(l.take(find_char(l, '#')))
}

// -------------------------------------------------------------- exec: lines

/// Split a text into its `'\n'`-separated lines.
pub fn split_lines<'a>(text: &'a str) -> (lines: Vec<&'a str>)
    ensures
        lines@.len() == spec_lines(text@).len(),
        forall|i: int| 0 <= i < lines@.len() ==> lines@[i]@ == spec_lines(text@)[i],
{
    let n = text.unicode_len();
    let mut lines: Vec<&'a str> = Vec::new();
    let mut pos: usize = 0;
    let ghost mut done: Seq<Seq<char>> = Seq::empty();
    proof {
        assert(text@.skip(0) =~= text@);
    }
    loop
        invariant_except_break
            spec_lines(text@) == done + spec_lines(text@.skip(pos as int)),
        invariant
            pos <= n,
            n == text@.len(),
            lines@.len() == done.len(),
            forall|i: int| 0 <= i < done.len() ==> lines@[i]@ == done[i],
        ensures
            done == spec_lines(text@),
            lines@.len() == done.len(),
            forall|i: int| 0 <= i < done.len() ==> lines@[i]@ == done[i],
        decreases n - pos,
    {
        let mut j = pos;
        while j < n && text.get_char(j) != '\n'
            invariant
                pos <= j <= n,
                n == text@.len(),
                forall|k: int| pos <= k < j ==> text@[k] != '\n',
            decreases n - j,
        {
            j += 1;
        }
        let line = text.substring_char(pos, j);
        lines.push(line);
        proof {
            let suffix = text@.skip(pos as int);
            assert forall|k: int| 0 <= k < j - pos implies suffix[k] != '\n' by {
                assert(suffix[k] == text@[pos + k]);
            }
            if j < n {
                assert(suffix[j - pos] == text@[j as int]);
            }
            lemma_find_char_is(suffix, '\n', j - pos);
            assert(line@ =~= suffix.take(j - pos));
            done = done.push(line@);
        }
        if j == n {
            proof {
                let suffix = text@.skip(pos as int);
                assert(spec_lines(suffix) =~= seq![suffix]);
                assert(line@ =~= suffix);
                assert(spec_lines(text@) =~~= done);
            }
            break ;
        }
        proof {
            let suffix = text@.skip(pos as int);
            assert(spec_lines(suffix) == seq![suffix.take(j - pos)] + spec_lines(
                suffix.skip(j - pos + 1),
            ));
            assert(suffix.skip(j - pos + 1) =~= text@.skip(j + 1));
            assert(spec_lines(text@) =~~= done + spec_lines(text@.skip(j + 1)));
        }
        pos = j + 1;
    }
    lines
}

// ------------------------------------------------------------- exec: tokens

/// Strip the `#` comment from a line and split the rest into tokens.
pub fn line_tokens<'a>(line: &'a str) -> (toks: Vec<&'a str>)
    ensures
        toks@.len() == spec_line_tokens(line@).len(),
        forall|i: int| 0 <= i < toks@.len() ==> toks@[i]@ == spec_line_tokens(line@)[i],
{
    let n = line.unicode_len();
    // find the start of the comment, if any
    let mut h: usize = 0;
    while h < n && line.get_char(h) != '#'
        invariant
            h <= n,
            n == line@.len(),
            forall|k: int| 0 <= k < h ==> line@[k] != '#',
        decreases n - h,
    {
        h += 1;
    }
    proof {
        lemma_find_char_is(line@, '#', h as int);
    }
    let ghost eff = line@.take(h as int);
    let mut toks: Vec<&'a str> = Vec::new();
    let ghost mut done: Seq<Seq<char>> = Seq::empty();
    let mut pos: usize = 0;
    proof {
        assert(eff.skip(0) =~= eff);
    }
    loop
        invariant
            pos <= h <= n,
            n == line@.len(),
            eff == line@.take(h as int),
            toks@.len() == done.len(),
            forall|i: int| 0 <= i < done.len() ==> toks@[i]@ == done[i],
            spec_tokens(eff) == done + spec_tokens(eff.skip(pos as int)),
        ensures
            done == spec_tokens(eff),
            toks@.len() == done.len(),
            forall|i: int| 0 <= i < done.len() ==> toks@[i]@ == done[i],
        decreases h - pos,
    {
        let ghost pos0 = pos as int;
        // skip white space
        while pos < h && check_space(line.get_char(pos))
            invariant
                pos0 <= pos as int,
                pos <= h <= n,
                n == line@.len(),
                eff == line@.take(h as int),
                spec_tokens(eff) == done + spec_tokens(eff.skip(pos as int)),
            decreases h - pos,
        {
            proof {
                let suffix = eff.skip(pos as int);
                assert(suffix[0] == line@[pos as int]);
                assert(suffix.drop_first() =~= eff.skip(pos as int + 1));
            }
            pos += 1;
        }
        if pos == h {
            proof {
                assert(eff.skip(pos as int) =~= Seq::<char>::empty());
                assert(spec_tokens(eff) =~~= done);
            }
            break ;
        }
        // scan to the end of the token
        let mut j = pos + 1;
        while j < h && !check_space(line.get_char(j))
            invariant
                pos < j <= h <= n,
                n == line@.len(),
                forall|k: int| pos < k < j ==> !is_space(line@[k]),
            decreases h - j,
        {
            j += 1;
        }
        let tok = line.substring_char(pos, j);
        toks.push(tok);
        proof {
            let suffix = eff.skip(pos as int);
            assert(suffix[0] == line@[pos as int]);
            assert(!is_space(suffix[0]));
            assert forall|k: int| 0 <= k < j - pos implies !is_space(suffix[k]) by {
                assert(suffix[k] == line@[pos + k]);
            }
            if j < h {
                assert(suffix[j - pos] == line@[j as int]);
            }
            lemma_find_space_is(suffix, j - pos);
            assert(tok@ =~= suffix.take(j - pos));
            assert(spec_tokens(suffix) == seq![suffix.take(j - pos)] + spec_tokens(
                suffix.skip(j - pos),
            ));
            assert(suffix.skip(j - pos) =~= eff.skip(j as int));
            done = done.push(tok@);
            assert(spec_tokens(eff) =~~= done + spec_tokens(eff.skip(j as int)));
        }
        pos = j;
    }
    toks
}

/// The views of a sequence of string slices.
pub open spec fn tok_views(ts: Seq<&str>) -> Seq<Seq<char>> {
    ts.map_values(|t: &str| t@)
}

// ----------------------------------------------------------- exec: equality

/// Character-for-character string equality.
pub fn str_eq(a: &str, b: &str) -> (r: bool)
    ensures
        r == (a@ == b@),
{
    let n = a.unicode_len();
    if n != b.unicode_len() {
        return false;
    }
    let mut i: usize = 0;
    while i < n
        invariant
            i <= n,
            n == a@.len(),
            n == b@.len(),
            forall|k: int| 0 <= k < i ==> a@[k] == b@[k],
        decreases n - i,
    {
        if a.get_char(i) != b.get_char(i) {
            return false;
        }
        i += 1;
    }
    proof {
        assert(a@ =~= b@);
    }
    true
}

} // verus!
