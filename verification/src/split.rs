//! Splitting, joining, trimming and line breaking of character sequences.

use crate::text::{append, chars_of, find_from, find_in, subvec, vec_views};
use vstd::prelude::*;

verus! {

// ---------------------------------------------------------------------
// White space

/// The characters with the Unicode property `White_Space`.
pub open spec fn is_space(c: char) -> bool {
    let u = c as u32;
    (0x09 <= u <= 0x0D) || u == 0x20 || u == 0x85 || u == 0xA0 || u == 0x1680 || (0x2000 <= u
        <= 0x200A) || u == 0x2028 || u == 0x2029 || u == 0x202F || u == 0x205F || u == 0x3000
}

pub fn is_whitespace(c: char) -> (r: bool)
    ensures
        r == is_space(c),
{
    let u: u32 = c as u32;
    (0x09 <= u && u <= 0x0D) || u == 0x20 || u == 0x85 || u == 0xA0 || u == 0x1680 || (0x2000 <= u
        && u <= 0x200A) || u == 0x2028 || u == 0x2029 || u == 0x202F || u == 0x205F || u == 0x3000
}

/// First index at or after `i` that holds no white space, or the length.
pub open spec fn skip_space(s: Seq<char>, i: int) -> int
    decreases s.len() - i,
{
    if i < 0 || i >= s.len() {
        s.len() as int
    } else if is_space(s[i]) {
        skip_space(s, i + 1)
    } else {
        i
    }
}

/// End of the text before index `j` once trailing white space is dropped.
pub open spec fn skip_space_back(s: Seq<char>, j: int) -> int
    decreases j,
{
    if j <= 0 || j > s.len() {
        0
    } else if is_space(s[j - 1]) {
        skip_space_back(s, j - 1)
    } else {
        j
    }
}

/// `s` without leading and trailing white space.
pub open spec fn trim(s: Seq<char>) -> Seq<char> {
    let a = skip_space(s, 0);
    let b = skip_space_back(s, s.len() as int);
    if a >= b {
        Seq::empty()
    } else {
        s.subrange(a, b)
    }
}

/// `s` holds nothing but white space.
pub open spec fn is_blank(s: Seq<char>) -> bool {
    skip_space(s, 0) >= s.len()
}

pub proof fn lemma_skip_space(s: Seq<char>, i: int)
    requires
        0 <= i <= s.len(),
    ensures
        i <= skip_space(s, i) <= s.len(),
        forall|k: int| i <= k < skip_space(s, i) ==> is_space(s[k]),
        skip_space(s, i) < s.len() ==> !is_space(s[skip_space(s, i)]),
    decreases s.len() - i,
{
    if i < s.len() && is_space(s[i]) {
        lemma_skip_space(s, i + 1);
    }
}

pub fn vec_skip_space(s: &Vec<char>, from: usize) -> (r: usize)
    requires
        from <= s.len(),
    ensures
        r as int == skip_space(s@, from as int),
        from <= r <= s.len(),
{
    let mut i: usize = from;
    while i < s.len() && is_whitespace(s[i])
        invariant
            from <= i <= s.len(),
            skip_space(s@, from as int) == skip_space(s@, i as int),
        decreases s.len() - i,
    {
        i += 1;
    }
    i
}

pub fn vec_skip_space_back(s: &Vec<char>, to: usize) -> (r: usize)
    requires
        to <= s.len(),
    ensures
        r as int == skip_space_back(s@, to as int),
        r <= to,
{
    let mut j: usize = to;
    while j > 0 && is_whitespace(s[j - 1])
        invariant
            j <= to <= s.len(),
            skip_space_back(s@, to as int) == skip_space_back(s@, j as int),
        decreases j,
    {
        j -= 1;
    }
    j
}

pub fn vec_trim(s: &Vec<char>) -> (r: Vec<char>)
    ensures
        r@ == trim(s@),
{
    let a = vec_skip_space(s, 0);
    let b = vec_skip_space_back(s, s.len());
    if a >= b {
        let r: Vec<char> = Vec::new();
        assert(r@ =~= Seq::<char>::empty());
        r
    } else {
        subvec(s, a, b)
    }
}

pub fn vec_is_blank(s: &Vec<char>) -> (r: bool)
    ensures
        r == is_blank(s@),
{
    vec_skip_space(s, 0) >= s.len()
}

/// Whether `s` holds nothing but white space.
pub fn str_is_blank(s: &str) -> (r: bool)
    ensures
        r == is_blank(s@),
{
    let v = chars_of(s);
    vec_is_blank(&v)
}

// ---------------------------------------------------------------------
// Splitting and joining

/// The pieces of `s[i..]` between occurrences of `pat`. A text without the
/// pattern, and any text when the pattern is empty, is one piece.
pub open spec fn split_from(s: Seq<char>, pat: Seq<char>, i: int) -> Seq<Seq<char>>
    decreases s.len() - i,
{
    match find_from(s, pat, i) {
        Some(k) => if pat.len() > 0 && i <= k && k + pat.len() <= s.len() {
            seq![s.subrange(i, k)] + split_from(s, pat, k + pat.len())
        } else {
            seq![s.subrange(i, s.len() as int)]
        },
        None => seq![s.subrange(i, s.len() as int)],
    }
}

/// The pieces of `s` between occurrences of `pat`.
pub open spec fn split(s: Seq<char>, pat: Seq<char>) -> Seq<Seq<char>> {
    split_from(s, pat, 0)
}

/// The pieces with `sep` between each two neighbours.
pub open spec fn join(parts: Seq<Seq<char>>, sep: Seq<char>) -> Seq<char>
    decreases parts.len(),
{
    if parts.len() == 0 {
        Seq::empty()
    } else if parts.len() == 1 {
        parts[0]
    } else {
        join(parts.drop_last(), sep) + sep + parts.last()
    }
}

pub fn vec_split(s: &Vec<char>, pat: &Vec<char>) -> (r: Vec<Vec<char>>)
    ensures
        vec_views(r@) == split(s@, pat@),
        r.len() >= 1,
{
    let mut out: Vec<Vec<char>> = Vec::new();
    let mut i: usize = 0;
    loop
        invariant
            i <= s.len(),
            split(s@, pat@) == vec_views(out@) + split_from(s@, pat@, i as int),
        decreases s.len() - i,
    {
        let found = find_in(s, pat, i);
        let ghost before = vec_views(out@);
        match found {
            Some(k) if pat.len() > 0 => {
                out.push(subvec(s, i, k));
                assert(vec_views(out@) =~= before.push(s@.subrange(i as int, k as int)));
                assert(before + (seq![s@.subrange(i as int, k as int)] + split_from(
                    s@,
                    pat@,
                    k + pat.len(),
                )) =~= vec_views(out@) + split_from(s@, pat@, k + pat.len()));
                i = k + pat.len();
            },
            _ => {
                out.push(subvec(s, i, s.len()));
                assert(vec_views(out@) =~= before.push(s@.subrange(i as int, s.len() as int)));
                assert(before + seq![s@.subrange(i as int, s.len() as int)] =~= vec_views(out@));
                return out;
            },
        }
    }
}

pub fn vec_join(parts: &Vec<Vec<char>>, sep: &Vec<char>) -> (r: Vec<char>)
    ensures
        r@ == join(vec_views(parts@), sep@),
{
    let mut out: Vec<char> = Vec::new();
    let mut i: usize = 0;
    while i < parts.len()
        invariant
            i <= parts.len(),
            out@ == join(vec_views(parts@).take(i as int), sep@),
        decreases parts.len() - i,
    {
        let ghost prefix = vec_views(parts@).take(i + 1);
        assert(prefix.drop_last() =~= vec_views(parts@).take(i as int));
        assert(prefix.last() == parts@[i as int]@);
        if i > 0 {
            append(&mut out, sep);
        }
        append(&mut out, &parts[i]);
        assert(out@ =~= join(prefix, sep@)) by {
            if i == 0 {
                assert(join(vec_views(parts@).take(0), sep@) =~= Seq::<char>::empty());
            }
        }
        i += 1;
    }
    assert(vec_views(parts@).take(parts.len() as int) =~= vec_views(parts@));
    out
}

// ---------------------------------------------------------------------
// Lines

/// First index at or after `i` that holds a line feed, or the length.
pub open spec fn next_newline(s: Seq<char>, i: int) -> int
    decreases s.len() - i,
{
    if i < 0 || i >= s.len() {
        s.len() as int
    } else if s[i] == '\n' {
        i
    } else {
        next_newline(s, i + 1)
    }
}

/// `line` without one trailing carriage return.
pub open spec fn strip_cr(line: Seq<char>) -> Seq<char> {
    if line.len() > 0 && line.last() == '\r' {
        line.drop_last()
    } else {
        line
    }
}

/// The lines of `s[i..]`: each ends at a line feed, which is dropped
/// together with a carriage return before it; what follows the last line
/// feed is a line of its own unless it is empty.
pub open spec fn lines_from(s: Seq<char>, i: int) -> Seq<Seq<char>>
    decreases s.len() - i,
{
    if i < 0 || i >= s.len() {
        Seq::empty()
    } else {
        let k = next_newline(s, i);
        if i <= k < s.len() {
            seq![strip_cr(s.subrange(i, k))] + lines_from(s, k + 1)
        } else {
            seq![s.subrange(i, s.len() as int)]
        }
    }
}

/// The lines of `s`.
pub open spec fn lines(s: Seq<char>) -> Seq<Seq<char>> {
    lines_from(s, 0)
}

pub fn vec_next_newline(s: &Vec<char>, from: usize) -> (r: usize)
    requires
        from <= s.len(),
    ensures
        r as int == next_newline(s@, from as int),
        from <= r <= s.len(),
{
    let mut i: usize = from;
    while i < s.len() && s[i] != '\n'
        invariant
            from <= i <= s.len(),
            next_newline(s@, from as int) == next_newline(s@, i as int),
        decreases s.len() - i,
    {
        i += 1;
    }
    i
}

pub fn vec_lines(s: &Vec<char>) -> (r: Vec<Vec<char>>)
    ensures
        vec_views(r@) == lines(s@),
{
    let mut out: Vec<Vec<char>> = Vec::new();
    let mut i: usize = 0;
    assert(vec_views(out@) =~= Seq::<Seq<char>>::empty());
    while i < s.len()
        invariant
            i <= s.len(),
            lines(s@) == vec_views(out@) + lines_from(s@, i as int),
        decreases s.len() - i,
    {
        let k = vec_next_newline(s, i);
        let ghost before = vec_views(out@);
        if k < s.len() {
            let mut end: usize = k;
            if end > i && s[end - 1] == '\r' {
                end -= 1;
            }
            let line = subvec(s, i, end);
            assert(line@ =~= strip_cr(s@.subrange(i as int, k as int)));
            out.push(line);
            assert(vec_views(out@) =~= before.push(line@));
            assert(before + (seq![line@] + lines_from(s@, k + 1)) =~= vec_views(out@) + lines_from(
                s@,
                k + 1,
            ));
            i = k + 1;
        } else {
            out.push(subvec(s, i, s.len()));
            assert(vec_views(out@) =~= before.push(s@.subrange(i as int, s.len() as int)));
            assert(before + seq![s@.subrange(i as int, s.len() as int)] =~= vec_views(out@));
            assert(lines_from(s@, s.len() as int) =~= Seq::<Seq<char>>::empty());
            i = s.len();
        }
    }
    assert(vec_views(out@) + Seq::<Seq<char>>::empty() =~= vec_views(out@));
    out
}

} // verus!
