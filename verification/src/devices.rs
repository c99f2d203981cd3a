//! Input-source enumeration and device resolution.
//!
//! The platform's source lists arrive as plain text (the sound server's
//! enumeration output) or as plain name lists; this module parses them,
//! marks the default source — never more than one — and resolves a
//! configured device hint to an entry.  Opening the device itself happens
//! outside of this crate.

use vstd::prelude::*;
use crate::text::{
    str_to_chars, chars_to_string, lower_chars, lowered_seq, find_from, find_sub,
    lemma_find_from_in_range, chars_eq, vec_slice, vec_suffix, trim_spec, trim_chars,
};

verus! {

/// One enumerated input source.
pub struct SourceEntry {
    pub name: String,
    pub description: String,
    pub is_default: bool,
}

/// The pieces of `s` between line feeds.
pub open spec fn split_nl(s: Seq<char>) -> Seq<Seq<char>>
    decreases s.len(),
    via split_nl_dec
{
    match find_from(s, seq!['\n'], 0, false) {
        None => seq![s],
        Some(i) => seq![s.take(i)] + split_nl(s.skip(i + 1)),
    }
}

#[via_fn]
proof fn split_nl_dec(s: Seq<char>) {
    lemma_find_from_in_range(s, seq!['\n'], 0, false);
}

/// Split a text at line feeds.
fn split_lines(text: Vec<char>) -> (r: Vec<Vec<char>>)
    ensures
        r.deep_view() == split_nl(text@),
{
    let mut nl: Vec<char> = Vec::new();
    nl.push('\n');
    proof {
        assert(nl@ =~= seq!['\n']);
    }
    let mut out: Vec<Vec<char>> = Vec::new();
    let mut rem = text;
    loop
        invariant
            nl@ == seq!['\n'],
            split_nl(text@) == out.deep_view() + split_nl(rem@),
        decreases rem@.len(),
    {
        let ghost out0 = out.deep_view();
        match find_sub(&rem, &nl, false) {
            None => {
                let ghost rv = rem@;
                out.push(rem);
                proof {
                    assert(split_nl(rv) == seq![rv]);
                    assert(out.deep_view() =~~= out0.push(rv));
                    assert(out0.push(rv) =~~= out0 + seq![rv]);
                }
                return out;
            },
            Some(i) => {
                proof {
                    lemma_find_from_in_range(rem@, nl@, 0, false);
                    assert(crate::text::match_at(rem@, nl@, i as int, false));
                }
                let rl = rem.len();
                assert(i + 1 <= rl);
                let line = vec_slice(&rem, 0, i);
                let next = vec_suffix(&rem, i + 1);
                let ghost rv = rem@;
                out.push(line);
                proof {
                    assert(rv.subrange(0, i as int) =~= rv.take(i as int));
                    assert(out.deep_view() =~~= out0.push(rv.take(i as int)));
                    assert(split_nl(rv) == seq![rv.take(i as int)] + split_nl(next@));
                    assert(out0 + (seq![rv.take(i as int)] + split_nl(next@)) =~~= out.deep_view()
                        + split_nl(next@));
                }
                rem = next;
            },
        }
    }
}

/// Whether `p` is a prefix of `s`.
pub open spec fn has_prefix(s: Seq<char>, p: Seq<char>) -> bool {
    p.len() <= s.len() && s.take(p.len() as int) == p
}

/// Strip a prefix, if present.
fn strip_prefix_chars(v: &Vec<char>, p: &Vec<char>) -> (r: Option<Vec<char>>)
    ensures
        r is Some <==> has_prefix(v@, p@),
        r matches Some(rest) ==> rest@ == v@.skip(p@.len() as int),
{
    if p.len() > v.len() {
        proof {
            assert(!has_prefix(v@, p@));
        }
        return None;
    }
    let head = vec_slice(v, 0, p.len());
    if chars_eq(&head, p) {
        Some(vec_suffix(v, p.len()))
    } else {
        proof {
            assert(!has_prefix(v@, p@));
        }
        None
    }
}

/// Whether a source name denotes a monitor source (output capture, not a
/// microphone); those are skipped.
pub open spec fn monitor_name(nm: Seq<char>) -> bool {
    find_from(nm, ".monitor"@, 0, false) is Some
}

/// One line of the sound server's enumeration applied to the parser
/// state `(pending name, entries, a default was marked)`: a `Name:` line
/// remembers the name, a `Description:` line completes an entry for a
/// pending non-monitor name — marked default when the name equals the
/// server's default source and no earlier entry was marked — and every
/// other line changes nothing.
pub open spec fn pactl_step(
    cur: Option<Seq<char>>,
    acc: Seq<(Seq<char>, Seq<char>, bool)>,
    have: bool,
    line: Seq<char>,
    default_name: Seq<char>,
) -> (Option<Seq<char>>, Seq<(Seq<char>, Seq<char>, bool)>, bool) {
    let t = trim_spec(line);
    if has_prefix(t, "Name: "@) {
        (Some(t.skip("Name: "@.len() as int)), acc, have)
    } else if has_prefix(t, "Description: "@) {
        match cur {
            Some(nm) => if monitor_name(nm) {
                (None, acc, have)
            } else {
                let isdef = nm == default_name && !have;
                (None, acc.push((nm, t.skip("Description: "@.len() as int), isdef)), have || isdef)
            },
            None => (None, acc, have),
        }
    } else {
        (cur, acc, have)
    }
}

/// The parser state after all lines.
pub open spec fn pactl_fold(
    lines: Seq<Seq<char>>,
    default_name: Seq<char>,
    cur: Option<Seq<char>>,
    acc: Seq<(Seq<char>, Seq<char>, bool)>,
    have: bool,
) -> (Option<Seq<char>>, Seq<(Seq<char>, Seq<char>, bool)>, bool)
    decreases lines.len(),
{
    if lines.len() == 0 {
        (cur, acc, have)
    } else {
        let st = pactl_step(cur, acc, have, lines[0], default_name);
        pactl_fold(lines.drop_first(), default_name, st.0, st.1, st.2)
    }
}

/// The `(name, description, is default)` entries parsed out of the sound
/// server's enumeration output.
pub open spec fn pactl_entries(stdout: Seq<char>, default_name: Seq<char>) -> Seq<
    (Seq<char>, Seq<char>, bool),
> {
    pactl_fold(split_nl(stdout), default_name, None, Seq::empty(), false).1
}

/// Whether a vector of entries realizes a parsed entry sequence.
pub open spec fn entries_match(es: Seq<SourceEntry>, sp: Seq<(Seq<char>, Seq<char>, bool)>) -> bool {
    &&& es.len() == sp.len()
    &&& forall|i: int|
        0 <= i < es.len() ==> (#[trigger] es[i]).name@ == sp[i].0 && es[i].description@ == sp[i].1
            && es[i].is_default == sp[i].2
}

proof fn lemma_pactl_fold_snoc(
    lines: Seq<Seq<char>>,
    default_name: Seq<char>,
    cur: Option<Seq<char>>,
    acc: Seq<(Seq<char>, Seq<char>, bool)>,
    have: bool,
    x: Seq<char>,
)
    ensures
        pactl_fold(lines.push(x), default_name, cur, acc, have) == ({
            let st = pactl_fold(lines, default_name, cur, acc, have);
            pactl_step(st.0, st.1, st.2, x, default_name)
        }),
    decreases lines.len(),
{
    if lines.len() == 0 {
        reveal_with_fuel(pactl_fold, 2);
        assert(lines.push(x)[0] == x);
        assert(lines.push(x).drop_first() =~~= Seq::<Seq<char>>::empty());
    } else {
        assert(lines.push(x)[0] == lines[0]);
        assert(lines.push(x).drop_first() =~~= lines.drop_first().push(x));
        let st = pactl_step(cur, acc, have, lines[0], default_name);
        lemma_pactl_fold_snoc(lines.drop_first(), default_name, st.0, st.1, st.2, x);
    }
}

/// How many entries are marked default.
pub open spec fn default_count(sp: Seq<(Seq<char>, Seq<char>, bool)>) -> int
    decreases sp.len(),
{
    if sp.len() == 0 {
        0
    } else {
        default_count(sp.drop_last()) + if sp.last().2 {
            1int
        } else {
            0
        }
    }
}

proof fn lemma_default_count_nonneg(sp: Seq<(Seq<char>, Seq<char>, bool)>)
    ensures
        default_count(sp) >= 0,
    decreases sp.len(),
{
    if sp.len() > 0 {
        lemma_default_count_nonneg(sp.drop_last());
    }
}

proof fn lemma_fold_default_bound(
    lines: Seq<Seq<char>>,
    default_name: Seq<char>,
    cur: Option<Seq<char>>,
    acc: Seq<(Seq<char>, Seq<char>, bool)>,
    have: bool,
)
    requires
        default_count(acc) <= (if have {
            1int
        } else {
            0
        }),
    ensures
        ({
            let st = pactl_fold(lines, default_name, cur, acc, have);
            default_count(st.1) <= (if st.2 {
                1int
            } else {
                0
            })
        }),
    decreases lines.len(),
{
    if lines.len() > 0 {
        let st = pactl_step(cur, acc, have, lines[0], default_name);
        assert(default_count(st.1) <= (if st.2 {
            1int
        } else {
            0
        })) by {
            if st.1 != acc {
                assert(st.1.drop_last() =~~= acc);
            }
        }
        lemma_fold_default_bound(lines.drop_first(), default_name, st.0, st.1, st.2);
    }
}

/// Law: the parsed enumeration never marks more than one entry default.
pub proof fn lemma_at_most_one_default(stdout: Seq<char>, default_name: Seq<char>)
    ensures
        default_count(pactl_entries(stdout, default_name)) <= 1,
{
    lemma_fold_default_bound(split_nl(stdout), default_name, None, Seq::empty(), false);
}

proof fn lemma_count_pairs(sp: Seq<(Seq<char>, Seq<char>, bool)>)
    requires
        default_count(sp) <= 1,
    ensures
        forall|i: int, j: int| 0 <= i < j < sp.len() ==> !((#[trigger] sp[i]).2 && (#[trigger] sp[j]).2),
    decreases sp.len(),
{
    if sp.len() > 0 {
        lemma_default_count_nonneg(sp.drop_last());
        if sp.last().2 {
            assert(default_count(sp.drop_last()) == 0);
            lemma_no_default_of_zero(sp.drop_last());
        }
        lemma_count_pairs(sp.drop_last());
        assert forall|i: int, j: int| 0 <= i < j < sp.len() implies !((#[trigger] sp[i]).2 && (
        #[trigger] sp[j]).2) by {
            if j < sp.len() - 1 {
                assert(sp.drop_last()[i] == sp[i]);
                assert(sp.drop_last()[j] == sp[j]);
            } else {
                if sp.last().2 {
                    assert(sp.drop_last()[i] == sp[i]);
                }
            }
        }
    }
}

proof fn lemma_no_default_of_zero(sp: Seq<(Seq<char>, Seq<char>, bool)>)
    requires
        default_count(sp) == 0,
    ensures
        forall|i: int| 0 <= i < sp.len() ==> !(#[trigger] sp[i]).2,
    decreases sp.len(),
{
    if sp.len() > 0 {
        lemma_default_count_nonneg(sp.drop_last());
        lemma_no_default_of_zero(sp.drop_last());
        assert forall|i: int| 0 <= i < sp.len() implies !(#[trigger] sp[i]).2 by {
            if i < sp.len() - 1 {
                assert(sp.drop_last()[i] == sp[i]);
            }
        }
    }
}

/// Parse the sound server's source enumeration into entries, marking at
/// most one as default.
pub fn parse_pactl_sources(stdout: &str, default_name: &str) -> (r: Vec<SourceEntry>)
    ensures
        entries_match(r@, pactl_entries(stdout@, default_name@)),
        forall|i: int, j: int|
            0 <= i < j < r@.len() ==> !((#[trigger] r@[i]).is_default && (
            #[trigger] r@[j]).is_default),
{
    let text = str_to_chars(stdout);
    let dn = str_to_chars(default_name);
    let lines = split_lines(text);
    let name_p = str_to_chars("Name: ");
    let desc_p = str_to_chars("Description: ");
    let mon = str_to_chars(".monitor");
    let mut cur: Option<Vec<char>> = None;
    let mut out: Vec<SourceEntry> = Vec::new();
    let mut have = false;
    let mut idx: usize = 0;
    let ghost sl = split_nl(stdout@);
    while idx < lines.len()
        invariant
            lines.deep_view() == sl,
            idx <= lines@.len(),
            lines@.len() == sl.len(),
            dn@ == default_name@,
            name_p@ == "Name: "@,
            desc_p@ == "Description: "@,
            mon@ == ".monitor"@,
            ({
                let st = pactl_fold(sl.take(idx as int), default_name@, None, Seq::empty(), false);
                &&& (match cur {
                    Some(c) => st.0 == Some(c@),
                    None => st.0 is None,
                })
                &&& entries_match(out@, st.1)
                &&& have == st.2
            }),
        decreases lines@.len() - idx,
    {
        proof {
            lemma_pactl_fold_snoc(
                sl.take(idx as int),
                default_name@,
                None,
                Seq::empty(),
                false,
                sl[idx as int],
            );
            assert(sl.take(idx + 1) =~~= sl.take(idx as int).push(sl[idx as int]));
            assert(lines@[idx as int]@ == sl[idx as int]);
        }
        let t = trim_chars(&lines[idx]);
        match strip_prefix_chars(&t, &name_p) {
            Some(rest) => {
                cur = Some(rest);
            },
            None => {
                match strip_prefix_chars(&t, &desc_p) {
                    Some(rest) => {
                        let taken = cur;
                        cur = None;
                        match taken {
                            Some(nm) => {
                                match find_sub(&nm, &mon, false) {
                                    Some(_) => {},
                                    None => {
                                        let isdef = !have && chars_eq(&nm, &dn);
                                        let ghost st0 = pactl_fold(
                                            sl.take(idx as int),
                                            default_name@,
                                            None,
                                            Seq::empty(),
                                            false,
                                        );
                                        let entry = SourceEntry {
                                            name: chars_to_string(&nm),
                                            description: chars_to_string(&rest),
                                            is_default: isdef,
                                        };
                                        out.push(entry);
                                        have = have || isdef;
                                        proof {
                                            let stepped = pactl_step(
                                                st0.0,
                                                st0.1,
                                                st0.2,
                                                sl[idx as int],
                                                default_name@,
                                            );
                                            assert(stepped.1 == st0.1.push(
                                                (
                                                    nm@,
                                                    trim_spec(sl[idx as int]).skip(
                                                        "Description: "@.len() as int,
                                                    ),
                                                    isdef,
                                                ),
                                            ));
                                            assert(entries_match(out@, stepped.1));
                                        }
                                    },
                                }
                            },
                            None => {},
                        }
                    },
                    None => {},
                }
            },
        }
        idx += 1;
    }
    proof {
        assert(sl.take(sl.len() as int) =~~= sl);
        lemma_at_most_one_default(stdout@, default_name@);
        lemma_count_pairs(pactl_entries(stdout@, default_name@));
    }
    out
}

/// The number a digit sequence denotes.
pub open spec fn digits_val(s: Seq<char>) -> int
    decreases s.len(),
{
    if s.len() == 0 {
        0
    } else {
        10 * digits_val(s.drop_last()) + (s.last() as int - '0' as int)
    }
}

/// Whether every character is an ASCII digit.
pub open spec fn all_digits(s: Seq<char>) -> bool {
    forall|i: int| 0 <= i < s.len() ==> '0' <= #[trigger] s[i] <= '9'
}

/// A numeral may carry one leading plus sign.
pub open spec fn numeral_body(s: Seq<char>) -> Seq<char> {
    if s.len() > 0 && s[0] == '+' {
        s.drop_first()
    } else {
        s
    }
}

/// Whether `s` parses as a machine-size number: at least one digit after
/// an optional plus sign, all digits, and a value in range.
pub open spec fn parses_as_usize(s: Seq<char>) -> bool {
    let d = numeral_body(s);
    d.len() > 0 && all_digits(d) && digits_val(d) <= usize::MAX as int
}

/// The value of a numeral.
pub open spec fn numeral_value(s: Seq<char>) -> int {
    digits_val(numeral_body(s))
}

proof fn lemma_digits_val_nonneg(s: Seq<char>)
    requires
        all_digits(s),
    ensures
        digits_val(s) >= 0,
    decreases s.len(),
{
    if s.len() > 0 {
        assert(all_digits(s.drop_last())) by {
            assert(forall|i: int| 0 <= i < s.len() - 1 ==> s.drop_last()[i] == s[i]);
        }
        lemma_digits_val_nonneg(s.drop_last());
    }
}

/// A digit prefix never denotes more than the whole numeral.
proof fn lemma_digits_val_prefix(s: Seq<char>, k: int)
    requires
        all_digits(s),
        0 <= k <= s.len(),
    ensures
        digits_val(s.take(k)) <= digits_val(s),
    decreases s.len() - k,
{
    if k < s.len() {
        lemma_digits_val_prefix(s, k + 1);
        assert(s.take(k + 1).drop_last() =~= s.take(k));
        assert(all_digits(s.take(k + 1))) by {
            assert(forall|i: int| 0 <= i < k + 1 ==> s.take(k + 1)[i] == s[i]);
        }
        lemma_digits_val_nonneg(s.take(k + 1));
        lemma_digits_val_nonneg(s.take(k));
        assert(digits_val(s.take(k + 1)) == 10 * digits_val(s.take(k)) + (s[k] as int
            - '0' as int));
    } else {
        assert(s.take(k) =~= s);
    }
}

/// Parse a device hint as a numeric index, exactly as the standard
/// numeric parser would: an optional plus sign, then digits, rejected
/// when empty, non-numeric or out of machine range.
pub fn parse_usize(v: &Vec<char>) -> (r: Option<usize>)
    ensures
        match r {
            Some(n) => parses_as_usize(v@) && n == numeral_value(v@),
            None => !parses_as_usize(v@),
        },
{
    let n = v.len();
    let start: usize = if n > 0 && v[0] == '+' {
        1
    } else {
        0
    };
    let ghost d = numeral_body(v@);
    proof {
        assert(d =~= v@.skip(start as int));
    }
    if n == start {
        return None;
    }
    let mut acc: usize = 0;
    let mut i: usize = start;
    while i < n
        invariant
            start <= i <= n,
            n == v@.len(),
            start <= 1,
            n > start,
            d == numeral_body(v@),
            d == v@.skip(start as int),
            all_digits(d.take(i - start as int)),
            acc == digits_val(d.take(i - start as int)),
        decreases n - i,
    {
        let c = v[i];
        if !('0' <= c && c <= '9') {
            proof {
                assert(d[i - start as int] == c);
                assert(!all_digits(d));
            }
            return None;
        }
        let dig: usize = (c as u32 as usize) - ('0' as u32 as usize);
        let wide: u128 = 10 * (acc as u128) + (dig as u128);
        proof {
            assert(d.take(i - start + 1).drop_last() =~= d.take(i - start as int));
            assert(d.take(i - start + 1).last() == d[i - start as int]);
            assert(all_digits(d.take(i - start + 1))) by {
                assert(forall|j: int| 0 <= j < i - start + 1 ==> d.take(i - start + 1)[j] == d[j]);
            }
        }
        if wide > (usize::MAX as u128) {
            proof {
                if all_digits(d) {
                    lemma_digits_val_prefix(d, i - start + 1);
                    assert(digits_val(d) >= digits_val(d.take(i - start + 1)));
                }
            }
            return None;
        }
        acc = wide as usize;
        i += 1;
    }
    proof {
        assert(d.take(d.len() as int) =~= d);
    }
    Some(acc)
}

/// Whether an entry matches a textual device hint: exactly by source
/// name, or case-insensitively as a substring of the description.
pub open spec fn hint_matches(e: SourceEntry, hint: Seq<char>) -> bool {
    e.name@ == hint || find_from(lowered_seq(e.description@), lowered_seq(hint), 0, false) is Some
}

/// The first entry at or after `i` matching the hint.
pub open spec fn first_hint_match(entries: Seq<SourceEntry>, hint: Seq<char>, i: int) -> Option<
    int,
>
    decreases entries.len() - i,
{
    if i < 0 || i >= entries.len() {
        None
    } else if hint_matches(entries[i], hint) {
        Some(i)
    } else {
        first_hint_match(entries, hint, i + 1)
    }
}

/// How a device hint resolves against the enumerated sources: a numeric
/// hint is an index into the list (out of range resolves to nothing), any
/// other hint picks the first entry it matches.
pub open spec fn spec_resolve_hint(hint: Seq<char>, entries: Seq<SourceEntry>) -> Option<int> {
    if parses_as_usize(hint) {
        if numeral_value(hint) < entries.len() {
            Some(numeral_value(hint))
        } else {
            None
        }
    } else {
        first_hint_match(entries, hint, 0)
    }
}

/// Resolve a configured device hint against the enumerated sources.
pub fn resolve_source_hint(hint: &str, entries: &Vec<SourceEntry>) -> (r: Option<usize>)
    ensures
        match r {
            Some(i) => spec_resolve_hint(hint@, entries@) == Some(i as int) && i < entries@.len(),
            None => spec_resolve_hint(hint@, entries@) is None,
        },
{
    let hc = str_to_chars(hint);
    match parse_usize(&hc) {
        Some(i) => {
            if i < entries.len() {
                Some(i)
            } else {
                None
            }
        },
        None => {
            let hl = lower_chars(&hc);
            let mut i: usize = 0;
            loop
                invariant
                    i <= entries@.len(),
                    !parses_as_usize(hint@),
                    hc@ == hint@,
                    hl@ == lowered_seq(hint@),
                    first_hint_match(entries@, hint@, 0) == first_hint_match(
                        entries@,
                        hint@,
                        i as int,
                    ),
                decreases entries@.len() - i,
            {
                if i == entries.len() {
                    return None;
                }
                let nm = str_to_chars(entries[i].name.as_str());
                let matched = if chars_eq(&nm, &hc) {
                    true
                } else {
                    let dl = lower_chars(&str_to_chars(entries[i].description.as_str()));
                    match find_sub(&dl, &hl, false) {
                        Some(_) => true,
                        None => false,
                    }
                };
                proof {
                    assert(matched == hint_matches(entries@[i as int], hint@));
                }
                if matched {
                    return Some(i);
                }
                i += 1;
            }
        },
    }
}

/// The first name at or after `i` equal to the hint.
pub open spec fn first_name_eq(names: Seq<String>, hint: Seq<char>, i: int) -> Option<int>
    decreases names.len() - i,
{
    if i < 0 || i >= names.len() {
        None
    } else if names[i]@ == hint {
        Some(i)
    } else {
        first_name_eq(names, hint, i + 1)
    }
}

/// Find a device by exact name, as the fallback resolution does.
pub fn find_exact_name(names: &Vec<String>, hint: &str) -> (r: Option<usize>)
    ensures
        match r {
            Some(i) => first_name_eq(names@, hint@, 0) == Some(i as int) && i < names@.len(),
            None => first_name_eq(names@, hint@, 0) is None,
        },
{
    let hc = str_to_chars(hint);
    let mut i: usize = 0;
    loop
        invariant
            i <= names@.len(),
            hc@ == hint@,
            first_name_eq(names@, hint@, 0) == first_name_eq(names@, hint@, i as int),
        decreases names@.len() - i,
    {
        if i == names.len() {
            return None;
        }
        let nm = str_to_chars(names[i].as_str());
        if chars_eq(&nm, &hc) {
            return Some(i);
        }
        i += 1;
    }
}

/// Mark the default entry in a plain name list (the fallback enumeration,
/// where a name doubles as its description): the first name equal to the
/// reported default — and only it — is marked.
pub fn mark_default_sources(names: &Vec<String>, default_name: Option<&str>) -> (r: Vec<
    SourceEntry,
>)
    ensures
        r@.len() == names@.len(),
        forall|i: int|
            0 <= i < r@.len() ==> (#[trigger] r@[i]).name@ == names@[i]@
                && r@[i].description@ == names@[i]@,
        forall|i: int|
            0 <= i < r@.len() ==> ((#[trigger] r@[i]).is_default <==> (default_name matches Some(d)
                && first_name_eq(names@, d@, 0) == Some(i))),
        forall|i: int, j: int|
            0 <= i < j < r@.len() ==> !((#[trigger] r@[i]).is_default && (
            #[trigger] r@[j]).is_default),
{
    let mut out: Vec<SourceEntry> = Vec::new();
    match default_name {
        None => {
            let mut i: usize = 0;
            while i < names.len()
                invariant
                    i <= names@.len(),
                    out@.len() == i,
                    forall|k: int|
                        0 <= k < i ==> (#[trigger] out@[k]).name@ == names@[k]@
                            && out@[k].description@ == names@[k]@ && !out@[k].is_default,
                decreases names@.len() - i,
            {
                out.push(
                    SourceEntry {
                        name: names[i].clone(),
                        description: names[i].clone(),
                        is_default: false,
                    },
                );
                i += 1;
            }
            out
        },
        Some(d) => {
            let pos = find_exact_name(names, d);
            let mut i: usize = 0;
            while i < names.len()
                invariant
                    i <= names@.len(),
                    out@.len() == i,
                    (match pos {
                        Some(p) => first_name_eq(names@, d@, 0) == Some(p as int) && p
                            < names@.len(),
                        None => first_name_eq(names@, d@, 0) is None,
                    }),
                    forall|k: int|
                        0 <= k < i ==> (#[trigger] out@[k]).name@ == names@[k]@
                            && out@[k].description@ == names@[k]@,
                    forall|k: int|
                        0 <= k < i ==> ((#[trigger] out@[k]).is_default <==> first_name_eq(
                            names@,
                            d@,
                            0,
                        ) == Some(k)),
                decreases names@.len() - i,
            {
                let isdef = match pos {
                    Some(p) => p == i,
                    None => false,
                };
                out.push(
                    SourceEntry {
                        name: names[i].clone(),
                        description: names[i].clone(),
                        is_default: isdef,
                    },
                );
                i += 1;
            }
            out
        },
    }
}

/// The first entry marked default, if any.
pub open spec fn first_default(es: Seq<SourceEntry>, i: int) -> Option<int>
    decreases es.len() - i,
{
    if i < 0 || i >= es.len() {
        None
    } else if es[i].is_default {
        Some(i)
    } else {
        first_default(es, i + 1)
    }
}

/// The description of the default source, if one is marked.
pub fn default_source_description(entries: &Vec<SourceEntry>) -> (r: Option<String>)
    ensures
        match r {
            Some(desc) => first_default(entries@, 0) matches Some(i) && desc@
                == entries@[i].description@,
            None => first_default(entries@, 0) is None,
        },
{
    let mut i: usize = 0;
    loop
        invariant
            i <= entries@.len(),
            first_default(entries@, 0) == first_default(entries@, i as int),
        decreases entries@.len() - i,
    {
        if i == entries.len() {
            return None;
        }
        if entries[i].is_default {
            return Some(entries[i].description.clone());
        }
        i += 1;
    }
}

} // verus!
