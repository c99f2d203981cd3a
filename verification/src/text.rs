//! Character-level text utilities.
//!
//! All string algorithms in this crate work on `Vec<char>`, whose view is the
//! same `Seq<char>` that `str` and `String` have.  This module holds the
//! conversions between the two representations and the character
//! classification helpers that rely on the Unicode tables of the standard
//! library.

use vstd::prelude::*;
use vstd::std_specs::iter::IteratorSpec;

verus! {

broadcast use vstd::string::group_string_axioms;

/// The first character of `char::to_lowercase(c)`.  For every character
/// whose lowercase form is a single character — all of ASCII and almost
/// every cased letter — this is its Unicode lowercase form.
pub uninterp spec fn lower_char(c: char) -> char;

/// Whether `char::is_alphanumeric(c)` holds.
pub uninterp spec fn alnum_char(c: char) -> bool;

/// Whether `char::is_whitespace(c)` holds.
pub uninterp spec fn space_char(c: char) -> bool;

/// Relies on `char::to_lowercase`: the result depends on the character
/// alone; on ASCII it takes `'A'..='Z'` to `'a'..='z'` and leaves every
/// other character unchanged.
#[verifier::external_body]
pub fn to_lower_char(c: char) -> (r: char)
    ensures
        r == lower_char(c),
        'A' <= c && c <= 'Z' ==> r as u32 == c as u32 + 32,
        (c as u32) < 128 && !('A' <= c && c <= 'Z') ==> r == c,
{
    c.to_lowercase().next().unwrap_or(c)
}

/// Relies on `char::is_alphanumeric`: the result depends on the character
/// alone; on ASCII exactly the letters and digits are alphanumeric.
#[verifier::external_body]
pub fn is_alnum_char(c: char) -> (r: bool)
    ensures
        r == alnum_char(c),
        ('a' <= c && c <= 'z') || ('A' <= c && c <= 'Z') || ('0' <= c && c <= '9') ==> r,
        (c as u32) < 128 && !(('a' <= c && c <= 'z') || ('A' <= c && c <= 'Z') || ('0' <= c && c
            <= '9')) ==> !r,
{
    c.is_alphanumeric()
}

/// Relies on `char::is_whitespace`: the result depends on the character
/// alone; the ASCII whitespace characters are space, tab, line feed,
/// vertical tab, form feed and carriage return.
#[verifier::external_body]
pub fn is_space_char(c: char) -> (r: bool)
    ensures
        r == space_char(c),
        c == ' ' || c == '\t' || c == '\n' || c == '\r' || (c as u32) == 11 || (c as u32) == 12 ==> r,
        (c as u32) < 128 && !(c == ' ' || c == '\t' || c == '\n' || c == '\r' || (c as u32) == 11 || c
            as u32 == 12) ==> !r,
{
    c.is_whitespace()
}

/// The characters of a string slice, in order.
pub fn str_to_chars(s: &str) -> (r: Vec<char>)
    ensures
        r@ == s@,
{
    let mut it = s.chars();
    let mut r: Vec<char> = Vec::new();
    loop
        invariant
            it.obeys_prophetic_iter_laws(),
            it.decrease() is Some,
            r@ + it.remaining() == s@,
        ensures
            r@ + it.remaining() == s@,
            it.remaining().len() == 0,
        decreases it.decrease()->0,
    {
        match it.next() {
            Some(c) => r.push(c),
            None => {
                break ;
            },
        }
    }
    assert(r@ =~= s@);
    r
}

/// Relies on `String`'s `FromIterator` over characters: collecting yields
/// exactly the given characters, in order.
#[verifier::external_body]
pub fn chars_to_string(v: &Vec<char>) -> (r: String)
    ensures
        r@ == v@,
{
    v.iter().collect()
}

/// Whether two character vectors hold the same characters.
pub fn chars_eq(a: &Vec<char>, b: &Vec<char>) -> (r: bool)
    ensures
        r == (a@ == b@),
{
    if a.len() != b.len() {
        assert(a@ != b@);
        return false;
    }
    let mut i: usize = 0;
    while i < a.len()
        invariant
            i <= a.len(),
            a@.len() == b@.len(),
            forall|j: int| 0 <= j < i ==> a@[j] == b@[j],
        decreases a.len() - i,
    {
        if a[i] != b[i] {
            return false;
        }
        i += 1;
    }
    assert(a@ =~= b@);
    true
}

/// A character sequence taken to lowercase, character by character.
pub open spec fn lowered_seq(s: Seq<char>) -> Seq<char> {
    s.map_values(|c: char| lower_char(c))
}

/// Every character of `v` taken to lowercase.
pub fn lower_chars(v: &Vec<char>) -> (r: Vec<char>)
    ensures
        r@ == lowered_seq(v@),
{
    let mut r: Vec<char> = Vec::new();
    let mut i: usize = 0;
    while i < v.len()
        invariant
            i <= v.len(),
            r@.len() == i,
            forall|j: int| 0 <= j < i ==> r@[j] == lower_char(v@[j]),
        decreases v.len() - i,
    {
        r.push(to_lower_char(v[i]));
        i += 1;
    }
    assert(r@ =~= lowered_seq(v@));
    r
}

/// Whether `pat` occurs in `text` at position `i`; with `ci` the text is
/// compared after per-character lowering (the pattern is then expected to
/// be lowered already).
pub open spec fn match_at(text: Seq<char>, pat: Seq<char>, i: int, ci: bool) -> bool {
    &&& 0 <= i
    &&& i + pat.len() <= text.len()
    &&& (if ci {
        lowered_seq(text.subrange(i, i + pat.len() as int)) == pat
    } else {
        text.subrange(i, i + pat.len() as int) == pat
    })
}

/// The first position at or after `i` where `pat` occurs in `text`.
pub open spec fn find_from(text: Seq<char>, pat: Seq<char>, i: int, ci: bool) -> Option<int>
    decreases text.len() - i,
{
    if i < 0 || i + pat.len() > text.len() {
        None
    } else if pat.len() == 0 {
        Some(i)
    } else if match_at(text, pat, i, ci) {
        Some(i)
    } else {
        find_from(text, pat, i + 1, ci)
    }
}

/// A found position lies within the text.
pub proof fn lemma_find_from_in_range(text: Seq<char>, pat: Seq<char>, i: int, ci: bool)
    ensures
        find_from(text, pat, i, ci) matches Some(j) ==> i <= j && match_at(text, pat, j, ci),
    decreases text.len() - i,
{
    if !(i < 0 || i + pat.len() > text.len()) {
        if pat.len() == 0 {
            assert(text.subrange(i, i) =~= Seq::<char>::empty());
            assert(lowered_seq(text.subrange(i, i)) =~= Seq::<char>::empty());
            assert(pat =~= Seq::<char>::empty());
            assert(match_at(text, pat, i, ci));
        } else if !match_at(text, pat, i, ci) {
            lemma_find_from_in_range(text, pat, i + 1, ci);
        }
    }
}

/// Find the first occurrence of `pat` in `text`, exactly or
/// case-insensitively.  For the case-insensitive search the pattern must
/// already be lowered.
pub fn find_sub(text: &Vec<char>, pat: &Vec<char>, ci: bool) -> (r: Option<usize>)
    ensures
        match r {
            Some(i) => find_from(text@, pat@, 0, ci) == Some(i as int),
            None => find_from(text@, pat@, 0, ci) is None,
        },
{
    let n = text.len();
    let m = pat.len();
    if m > n {
        return None;
    }
    let mut i: usize = 0;
    loop
        invariant
            m <= n,
            n == text@.len(),
            m == pat@.len(),
            i <= n - m + 1,
            find_from(text@, pat@, 0, ci) == find_from(text@, pat@, i as int, ci),
        decreases n - m + 1 - i,
    {
        if i > n - m {
            proof {
                assert(find_from(text@, pat@, i as int, ci) is None);
            }
            return None;
        }
        let mut j: usize = 0;
        let mut ok = true;
        while j < m
            invariant
                i + m <= n,
                n == text@.len(),
                m == pat@.len(),
                j <= m,
                ok == (forall|j2: int|
                    0 <= j2 < j ==> (if ci {
                        lower_char(text@[i + j2])
                    } else {
                        text@[i + j2]
                    }) == pat@[j2]),
            decreases m - j,
        {
            let t = if ci {
                to_lower_char(text[i + j])
            } else {
                text[i + j]
            };
            if t != pat[j] {
                ok = false;
                proof {
                    assert(!((if ci {
                        lower_char(text@[i + j])
                    } else {
                        text@[i + j]
                    }) == pat@[j as int]));
                }
                j = m;
            } else {
                j += 1;
            }
        }
        if ok {
            proof {
                if ci {
                    assert(lowered_seq(text@.subrange(i as int, i + m)) =~= pat@);
                } else {
                    assert(text@.subrange(i as int, i + m) =~= pat@);
                }
                assert(match_at(text@, pat@, i as int, ci));
            }
            return Some(i);
        }
        proof {
            if ci {
                if lowered_seq(text@.subrange(i as int, i + m)) == pat@ {
                    assert(forall|j2: int|
                        0 <= j2 < m ==> lower_char(text@[i + j2]) == pat@[j2]) by {
                        assert forall|j2: int| 0 <= j2 < m implies lower_char(text@[i + j2])
                            == pat@[j2] by {
                            assert(lowered_seq(text@.subrange(i as int, i + m))[j2] == pat@[j2]);
                        }
                    }
                }
            } else {
                if text@.subrange(i as int, i + m) == pat@ {
                    assert(forall|j2: int| 0 <= j2 < m ==> text@[i + j2] == pat@[j2]) by {
                        assert forall|j2: int| 0 <= j2 < m implies text@[i + j2] == pat@[j2] by {
                            assert(text@.subrange(i as int, i + m)[j2] == pat@[j2]);
                        }
                    }
                }
            }
            assert(!match_at(text@, pat@, i as int, ci));
        }
        i += 1;
    }
}

/// Append `src[from..to]` to `out`.
pub fn push_range(out: &mut Vec<char>, src: &Vec<char>, from: usize, to: usize)
    requires
        from <= to <= src@.len(),
    ensures
        final(out)@ == old(out)@ + src@.subrange(from as int, to as int),
{
    let mut i: usize = from;
    while i < to
        invariant
            from <= i <= to <= src@.len(),
            out@ == old(out)@ + src@.subrange(from as int, i as int),
        decreases to - i,
    {
        out.push(src[i]);
        assert(out@ =~= old(out)@ + src@.subrange(from as int, i + 1));
        i += 1;
    }
}

/// Append `src[from..to]`, each character taken to lowercase, to `out`.
pub fn push_lowered_range(out: &mut Vec<char>, src: &Vec<char>, from: usize, to: usize)
    requires
        from <= to <= src@.len(),
    ensures
        final(out)@ == old(out)@ + lowered_seq(src@.subrange(from as int, to as int)),
{
    let mut i: usize = from;
    while i < to
        invariant
            from <= i <= to <= src@.len(),
            out@ == old(out)@ + lowered_seq(src@.subrange(from as int, i as int)),
        decreases to - i,
    {
        out.push(to_lower_char(src[i]));
        assert(out@ =~= old(out)@ + lowered_seq(src@.subrange(from as int, i + 1)));
        i += 1;
    }
}

/// The characters `src[from..to]`, as a fresh vector.
pub fn vec_slice(src: &Vec<char>, from: usize, to: usize) -> (r: Vec<char>)
    requires
        from <= to <= src@.len(),
    ensures
        r@ == src@.subrange(from as int, to as int),
{
    let mut r: Vec<char> = Vec::new();
    push_range(&mut r, src, from, to);
    assert(r@ =~= src@.subrange(from as int, to as int));
    r
}

/// The suffix of `src` from position `from` on, as a fresh vector.
pub fn vec_suffix(src: &Vec<char>, from: usize) -> (r: Vec<char>)
    requires
        from <= src@.len(),
    ensures
        r@ == src@.skip(from as int),
{
    let mut r: Vec<char> = Vec::new();
    let mut i: usize = from;
    while i < src.len()
        invariant
            from <= i <= src@.len(),
            r@ == src@.subrange(from as int, i as int),
        decreases src@.len() - i,
    {
        r.push(src[i]);
        assert(r@ =~= src@.subrange(from as int, i + 1));
        i += 1;
    }
    assert(r@ =~= src@.skip(from as int));
    r
}

/// How many leading characters of `s` are whitespace.
pub open spec fn space_run(s: Seq<char>) -> int
    decreases s.len(),
{
    if s.len() > 0 && space_char(s[0]) {
        1 + space_run(s.drop_first())
    } else {
        0
    }
}

/// How many leading characters of `s` are alphanumeric.
pub open spec fn word_run(s: Seq<char>) -> int
    decreases s.len(),
{
    if s.len() > 0 && alnum_char(s[0]) {
        1 + word_run(s.drop_first())
    } else {
        0
    }
}

/// The sentence punctuation stripped after a lowered word.
pub open spec fn is_trailing_punct(c: char) -> bool {
    c == '.' || c == ',' || c == '!' || c == '?'
}

/// How many leading characters of `s` are trailing-punctuation marks.
pub open spec fn punct_run(s: Seq<char>) -> int
    decreases s.len(),
{
    if s.len() > 0 && is_trailing_punct(s[0]) {
        1 + punct_run(s.drop_first())
    } else {
        0
    }
}

/// How many leading characters of `s` are plain spaces.
pub open spec fn blank_run(s: Seq<char>) -> int
    decreases s.len(),
{
    if s.len() > 0 && s[0] == ' ' {
        1 + blank_run(s.drop_first())
    } else {
        0
    }
}

/// Every run is at most as long as the sequence.
pub proof fn lemma_runs_bounded(s: Seq<char>)
    ensures
        0 <= space_run(s) <= s.len(),
        0 <= word_run(s) <= s.len(),
        0 <= punct_run(s) <= s.len(),
        0 <= blank_run(s) <= s.len(),
    decreases s.len(),
{
    if s.len() > 0 {
        lemma_runs_bounded(s.drop_first());
    }
}

/// The positions a run covers satisfy its predicate; generic step lemma
/// used by the scanners: a run seen from position `i` extends by one when
/// the character there matches.
proof fn lemma_run_step(s: Seq<char>, i: int)
    requires
        0 <= i < s.len(),
    ensures
        space_char(s[i]) ==> space_run(s.skip(i)) == 1 + space_run(s.skip(i + 1)),
        !space_char(s[i]) ==> space_run(s.skip(i)) == 0,
        alnum_char(s[i]) ==> word_run(s.skip(i)) == 1 + word_run(s.skip(i + 1)),
        !alnum_char(s[i]) ==> word_run(s.skip(i)) == 0,
        is_trailing_punct(s[i]) ==> punct_run(s.skip(i)) == 1 + punct_run(s.skip(i + 1)),
        !is_trailing_punct(s[i]) ==> punct_run(s.skip(i)) == 0,
        s[i] == ' ' ==> blank_run(s.skip(i)) == 1 + blank_run(s.skip(i + 1)),
        s[i] != ' ' ==> blank_run(s.skip(i)) == 0,
{
    assert(s.skip(i)[0] == s[i]);
    assert(s.skip(i).drop_first() =~= s.skip(i + 1));
}

/// Which of the four run kinds a scanner counts.
#[derive(Clone, Copy, PartialEq, Eq, Structural)]
pub enum RunKind {
    Spaces,
    Word,
    Punct,
    Blanks,
}

/// The run of the given kind at the start of `s.skip(from)`.
pub open spec fn run_of(kind: RunKind, s: Seq<char>) -> int {
    match kind {
        RunKind::Spaces => space_run(s),
        RunKind::Word => word_run(s),
        RunKind::Punct => punct_run(s),
        RunKind::Blanks => blank_run(s),
    }
}

/// Count the run of the given kind starting at position `from`.
pub fn scan_run(kind: RunKind, s: &Vec<char>, from: usize) -> (r: usize)
    requires
        from <= s@.len(),
    ensures
        from + r <= s@.len(),
        r == run_of(kind, s@.skip(from as int)),
{
    let mut i: usize = from;
    loop
        invariant
            from <= i <= s@.len(),
            run_of(kind, s@.skip(from as int)) == (i - from) + run_of(kind, s@.skip(i as int)),
        ensures
            from <= i <= s@.len(),
            run_of(kind, s@.skip(from as int)) == i - from,
        decreases s@.len() - i,
    {
        if i == s.len() {
            assert(s@.skip(i as int) =~= Seq::<char>::empty());
            break ;
        }
        let c = s[i];
        let hit = match kind {
            RunKind::Spaces => is_space_char(c),
            RunKind::Word => is_alnum_char(c),
            RunKind::Punct => c == '.' || c == ',' || c == '!' || c == '?',
            RunKind::Blanks => c == ' ',
        };
        proof {
            lemma_run_step(s@, i as int);
        }
        if !hit {
            break ;
        }
        i += 1;
    }
    proof {
        lemma_runs_bounded(s@.skip(from as int));
    }
    i - from
}

/// How many trailing characters of `s` are whitespace.
pub open spec fn trailing_space_run(s: Seq<char>) -> int
    decreases s.len(),
{
    if s.len() > 0 && space_char(s.last()) {
        1 + trailing_space_run(s.drop_last())
    } else {
        0
    }
}

pub proof fn lemma_trailing_bounded(s: Seq<char>)
    ensures
        0 <= trailing_space_run(s) <= s.len(),
    decreases s.len(),
{
    if s.len() > 0 {
        lemma_trailing_bounded(s.drop_last());
    }
}

/// `s` with leading and trailing whitespace removed.
pub open spec fn trim_spec(s: Seq<char>) -> Seq<char> {
    let a = s.skip(space_run(s));
    a.take(a.len() - trailing_space_run(a))
}

/// Remove leading and trailing whitespace.
pub fn trim_chars(v: &Vec<char>) -> (r: Vec<char>)
    ensures
        r@ == trim_spec(v@),
{
    proof {
        assert(v@.skip(0) =~= v@);
    }
    let st = scan_run(RunKind::Spaces, v, 0);
    let ghost a = v@.skip(st as int);
    let mut e = v.len();
    proof {
        assert(a.take(a.len() as int) =~= a);
    }
    loop
        invariant
            st <= e <= v@.len(),
            a == v@.skip(st as int),
            trailing_space_run(a) == (a.len() - (e - st)) + trailing_space_run(
                a.take(e - st as int),
            ),
        ensures
            st <= e <= v@.len(),
            trailing_space_run(a) == a.len() - (e - st),
        decreases e,
    {
        if e == st {
            proof {
                assert(a.take(0) =~= Seq::<char>::empty());
            }
            break ;
        }
        let c = v[e - 1];
        proof {
            let t = e - st as int;
            assert(a.take(t).last() == v@[e - 1]);
            assert(a.take(t).drop_last() =~= a.take(t - 1));
        }
        if !is_space_char(c) {
            proof {
                assert(trailing_space_run(a.take(e - st as int)) == 0);
            }
            break ;
        }
        e = e - 1;
    }
    proof {
        lemma_trailing_bounded(a);
        assert(a.take(a.len() - trailing_space_run(a)) =~= v@.subrange(st as int, e as int));
    }
    vec_slice(v, st, e)
}

} // verus!
