//! Decoding the remote engine's response.
//!
//! The endpoint answers with a JSON object whose fields are strings; the
//! transcription is its `text` field.  The decoder accepts exactly that
//! shape — an object of string fields, with the standard string escapes —
//! and rejects everything else, as a strict deserializer into a string
//! map would.

use vstd::prelude::*;
use crate::text::{str_to_chars, chars_to_string, chars_eq};

verus! {

/// The character a Unicode scalar value denotes.
pub uninterp spec fn char_of(u: u32) -> char;

/// Whether `u` is a Unicode scalar value.
pub open spec fn valid_code(u: u32) -> bool {
    u < 0xD800 || (0xE000 <= u && u < 0x110000)
}

/// Relies on `char::from_u32`: every Unicode scalar value denotes one
/// character, whose numeric value it is.
#[verifier::external_body]
fn char_from_code(u: u32) -> (c: char)
    requires
        valid_code(u),
    ensures
        c == char_of(u),
        c as u32 == u,
{
    char::from_u32(u).unwrap_or(' ')
}

/// The whitespace the grammar allows between tokens.
pub open spec fn json_ws(c: char) -> bool {
    c == ' ' || c == '\t' || c == '\n' || c == '\r'
}

/// The first position at or after `i` holding no whitespace.
pub open spec fn skip_ws(s: Seq<char>, i: int) -> int
    decreases s.len() - i,
{
    if 0 <= i < s.len() && json_ws(s[i]) {
        skip_ws(s, i + 1)
    } else {
        i
    }
}

proof fn lemma_skip_ws_bounds(s: Seq<char>, i: int)
    requires
        0 <= i <= s.len(),
    ensures
        i <= skip_ws(s, i) <= s.len(),
    decreases s.len() - i,
{
    if i < s.len() && json_ws(s[i]) {
        lemma_skip_ws_bounds(s, i + 1);
    }
}

/// Advance past whitespace.
fn skip_ws_exec(s: &Vec<char>, i: usize) -> (r: usize)
    requires
        i <= s@.len(),
    ensures
        r as int == skip_ws(s@, i as int),
        i <= r <= s@.len(),
{
    let mut j = i;
    loop
        invariant
            i <= j <= s@.len(),
            skip_ws(s@, i as int) == skip_ws(s@, j as int),
        decreases s@.len() - j,
    {
        if j == s.len() {
            return j;
        }
        let c = s[j];
        if !(c == ' ' || c == '\t' || c == '\n' || c == '\r') {
            return j;
        }
        j += 1;
    }
}

/// Whether `c` is a hexadecimal digit.
pub open spec fn hex_digit(c: char) -> bool {
    ('0' <= c && c <= '9') || ('a' <= c && c <= 'f') || ('A' <= c && c <= 'F')
}

/// A hexadecimal digit's value.
pub open spec fn hex_val(c: char) -> int {
    if '0' <= c && c <= '9' {
        c as int - '0' as int
    } else if 'a' <= c && c <= 'f' {
        c as int - 'a' as int + 10
    } else {
        c as int - 'A' as int + 10
    }
}

/// The value of four hexadecimal digits at position `i`, if they are
/// there.
pub open spec fn hex4_at(s: Seq<char>, i: int) -> Option<int> {
    if 0 <= i && i + 4 <= s.len() && hex_digit(s[i]) && hex_digit(s[i + 1]) && hex_digit(
        s[i + 2],
    ) && hex_digit(s[i + 3]) {
        Some(
            ((hex_val(s[i]) * 16 + hex_val(s[i + 1])) * 16 + hex_val(s[i + 2])) * 16 + hex_val(
                s[i + 3],
            ),
        )
    } else {
        None
    }
}

/// One hexadecimal digit's value.
fn hex_digit_val(c: char) -> (r: Option<u32>)
    ensures
        match r {
            Some(d) => hex_digit(c) && d as int == hex_val(c) && d < 16,
            None => !hex_digit(c),
        },
{
    if '0' <= c && c <= '9' {
        Some((c as u32) - ('0' as u32))
    } else if 'a' <= c && c <= 'f' {
        Some((c as u32) - ('a' as u32) + 10)
    } else if 'A' <= c && c <= 'F' {
        Some((c as u32) - ('A' as u32) + 10)
    } else {
        None
    }
}

/// Read four hexadecimal digits.
fn hex4_exec(s: &Vec<char>, i: usize) -> (r: Option<u32>)
    requires
        i <= s@.len(),
    ensures
        match r {
            Some(h) => hex4_at(s@, i as int) == Some(h as int) && h < 0x10000,
            None => hex4_at(s@, i as int) is None,
        },
{
    let n = s.len();
    if n - i < 4 {
        return None;
    }
    let d0 = match hex_digit_val(s[i]) {
        Some(d) => d,
        None => {
            return None;
        },
    };
    let d1 = match hex_digit_val(s[i + 1]) {
        Some(d) => d,
        None => {
            return None;
        },
    };
    let d2 = match hex_digit_val(s[i + 2]) {
        Some(d) => d,
        None => {
            return None;
        },
    };
    let d3 = match hex_digit_val(s[i + 3]) {
        Some(d) => d,
        None => {
            return None;
        },
    };
    Some(((d0 * 16 + d1) * 16 + d2) * 16 + d3)
}

/// The interior of a string literal, read from position `i` (just past
/// the opening quote) with the characters decoded so far: on success the
/// decoded text and the position just past the closing quote.  Raw
/// control characters, bad escapes, lone surrogates and an unterminated
/// literal are rejected.
pub open spec fn parse_string_body(s: Seq<char>, i: int, acc: Seq<char>) -> Option<
    (Seq<char>, int),
>
    decreases s.len() - i,
{
    if i < 0 || i >= s.len() {
        None
    } else if s[i] == '"' {
        Some((acc, i + 1))
    } else if s[i] == '\\' {
        if i + 1 >= s.len() {
            None
        } else {
            let e = s[i + 1];
            if e == '"' {
                parse_string_body(s, i + 2, acc.push('"'))
            } else if e == '\\' {
                parse_string_body(s, i + 2, acc.push('\\'))
            } else if e == '/' {
                parse_string_body(s, i + 2, acc.push('/'))
            } else if e == 'b' {
                parse_string_body(s, i + 2, acc.push('\u{0008}'))
            } else if e == 'f' {
                parse_string_body(s, i + 2, acc.push('\u{000C}'))
            } else if e == 'n' {
                parse_string_body(s, i + 2, acc.push('\n'))
            } else if e == 'r' {
                parse_string_body(s, i + 2, acc.push('\r'))
            } else if e == 't' {
                parse_string_body(s, i + 2, acc.push('\t'))
            } else if e == 'u' {
                match hex4_at(s, i + 2) {
                    None => None,
                    Some(h) => if 0xD800 <= h < 0xDC00 {
                        if i + 7 < s.len() && s[i + 6] == '\\' && s[i + 7] == 'u' {
                            match hex4_at(s, i + 8) {
                                Some(l) => if 0xDC00 <= l < 0xE000 {
                                    parse_string_body(
                                        s,
                                        i + 12,
                                        acc.push(
                                            char_of(
                                                (0x10000 + (h - 0xD800) * 0x400 + (l
                                                    - 0xDC00)) as u32,
                                            ),
                                        ),
                                    )
                                } else {
                                    None
                                },
                                None => None,
                            }
                        } else {
                            None
                        }
                    } else if 0xDC00 <= h < 0xE000 {
                        None
                    } else {
                        parse_string_body(s, i + 6, acc.push(char_of(h as u32)))
                    },
                }
            } else {
                None
            }
        }
    } else if (s[i] as u32) < 0x20 {
        None
    } else {
        parse_string_body(s, i + 1, acc.push(s[i]))
    }
}

/// A string literal at position `i`: the opening quote must stand there.
pub open spec fn parse_string_at(s: Seq<char>, i: int) -> Option<(Seq<char>, int)> {
    if 0 <= i < s.len() && s[i] == '"' {
        parse_string_body(s, i + 1, Seq::empty())
    } else {
        None
    }
}

/// A parsed literal ends past where it began and within the text.
proof fn lemma_string_body_bounds(s: Seq<char>, i: int, acc: Seq<char>)
    ensures
        parse_string_body(s, i, acc) matches Some(p) ==> i < p.1 <= s.len(),
    decreases s.len() - i,
{
    if !(i < 0 || i >= s.len()) && s[i] != '"' {
        if s[i] == '\\' {
            if i + 1 < s.len() {
                let e = s[i + 1];
                if e == '"' {
                    lemma_string_body_bounds(s, i + 2, acc.push('"'));
                } else if e == '\\' {
                    lemma_string_body_bounds(s, i + 2, acc.push('\\'));
                } else if e == '/' {
                    lemma_string_body_bounds(s, i + 2, acc.push('/'));
                } else if e == 'b' {
                    lemma_string_body_bounds(s, i + 2, acc.push('\u{0008}'));
                } else if e == 'f' {
                    lemma_string_body_bounds(s, i + 2, acc.push('\u{000C}'));
                } else if e == 'n' {
                    lemma_string_body_bounds(s, i + 2, acc.push('\n'));
                } else if e == 'r' {
                    lemma_string_body_bounds(s, i + 2, acc.push('\r'));
                } else if e == 't' {
                    lemma_string_body_bounds(s, i + 2, acc.push('\t'));
                } else if e == 'u' {
                    match hex4_at(s, i + 2) {
                        Some(h) => {
                            if 0xD800 <= h < 0xDC00 {
                                if i + 7 < s.len() && s[i + 6] == '\\' && s[i + 7] == 'u' {
                                    match hex4_at(s, i + 8) {
                                        Some(l) => {
                                            if 0xDC00 <= l < 0xE000 {
                                                lemma_string_body_bounds(
                                                    s,
                                                    i + 12,
                                                    acc.push(
                                                        char_of(
                                                            (0x10000 + (h - 0xD800) * 0x400 + (l
                                                                - 0xDC00)) as u32,
                                                        ),
                                                    ),
                                                );
                                            }
                                        },
                                        None => {},
                                    }
                                }
                            } else if 0xDC00 <= h < 0xE000 {
                            } else {
                                lemma_string_body_bounds(s, i + 6, acc.push(char_of(h as u32)));
                            }
                        },
                        None => {},
                    }
                }
            }
        } else if (s[i] as u32) >= 0x20 {
            lemma_string_body_bounds(s, i + 1, acc.push(s[i]));
        }
    }
}

proof fn lemma_string_at_bounds(s: Seq<char>, i: int)
    ensures
        parse_string_at(s, i) matches Some(p) ==> i + 2 <= p.1 <= s.len(),
{
    if 0 <= i < s.len() && s[i] == '"' {
        lemma_string_body_bounds(s, i + 1, Seq::empty());
    }
}

/// Read a string literal.
fn parse_string_exec(s: &Vec<char>, i: usize) -> (r: Option<(Vec<char>, usize)>)
    requires
        i <= s@.len(),
    ensures
        match r {
            Some(p) => parse_string_at(s@, i as int) == Some((p.0@, p.1 as int)) && i < p.1
                <= s@.len(),
            None => parse_string_at(s@, i as int) is None,
        },
{
    let n = s.len();
    if i >= n {
        return None;
    }
    if s[i] != '"' {
        return None;
    }
    let mut acc: Vec<char> = Vec::new();
    let mut pos: usize = i + 1;
    loop
        invariant
            i < pos <= s@.len(),
            n == s@.len(),
            parse_string_at(s@, i as int) == parse_string_body(s@, pos as int, acc@),
        decreases s@.len() - pos,
    {
        if pos == n {
            return None;
        }
        let c = s[pos];
        if c == '"' {
            return Some((acc, pos + 1));
        }
        if c == '\\' {
            let avail = n - pos;
            if avail < 2 {
                return None;
            }
            let e = s[pos + 1];
            if e == '"' || e == '\\' || e == '/' || e == 'b' || e == 'f' || e == 'n' || e == 'r'
                || e == 't' {
                let decoded: char = if e == '"' {
                    '"'
                } else if e == '\\' {
                    '\\'
                } else if e == '/' {
                    '/'
                } else if e == 'b' {
                    '\u{0008}'
                } else if e == 'f' {
                    '\u{000C}'
                } else if e == 'n' {
                    '\n'
                } else if e == 'r' {
                    '\r'
                } else {
                    '\t'
                };
                acc.push(decoded);
                pos = pos + 2;
            } else if e == 'u' {
                match hex4_exec(s, pos + 2) {
                    None => {
                        return None;
                    },
                    Some(h) => {
                        if 0xD800 <= h && h < 0xDC00 {
                            if avail >= 8 && s[pos + 6] == '\\' && s[pos + 7] == 'u' {
                                match hex4_exec(s, pos + 8) {
                                    Some(l) => {
                                        if 0xDC00 <= l && l < 0xE000 {
                                            let u: u32 = 0x10000 + (h - 0xD800) * 0x400 + (l
                                                - 0xDC00);
                                            acc.push(char_from_code(u));
                                            assert(pos + 12 <= n);
                                            pos = pos + 12;
                                        } else {
                                            return None;
                                        }
                                    },
                                    None => {
                                        return None;
                                    },
                                }
                            } else {
                                return None;
                            }
                        } else if 0xDC00 <= h && h < 0xE000 {
                            return None;
                        } else {
                            acc.push(char_from_code(h));
                            assert(pos + 6 <= n);
                            pos = pos + 6;
                        }
                    },
                }
            } else {
                return None;
            }
        } else if (c as u32) < 0x20 {
            return None;
        } else {
            acc.push(c);
            pos = pos + 1;
        }
    }
}

/// The members of an object, read from position `i` (just past `{` or a
/// comma): `"key" : "value"` pairs separated by commas, ending at `}`.
/// On success the accumulated pairs and the position just past the
/// closing brace.  Only string values are accepted.
pub open spec fn parse_members(
    s: Seq<char>,
    i: int,
    acc: Seq<(Seq<char>, Seq<char>)>,
) -> Option<(Seq<(Seq<char>, Seq<char>)>, int)>
    decreases s.len() - i,
    when 0 <= i
    via parse_members_dec
{
    let k = skip_ws(s, i);
    match parse_string_at(s, k) {
        None => None,
        Some(key) => {
            let c = skip_ws(s, key.1);
            if c < s.len() && s[c] == ':' {
                let v = skip_ws(s, c + 1);
                match parse_string_at(s, v) {
                    None => None,
                    Some(val) => {
                        let e = skip_ws(s, val.1);
                        if e < s.len() && s[e] == ',' {
                            parse_members(s, e + 1, acc.push((key.0, val.0)))
                        } else if e < s.len() && s[e] == '}' {
                            Some((acc.push((key.0, val.0)), e + 1))
                        } else {
                            None
                        }
                    },
                }
            } else {
                None
            }
        },
    }
}

#[via_fn]
proof fn parse_members_dec(s: Seq<char>, i: int, acc: Seq<(Seq<char>, Seq<char>)>) {
    if 0 <= i {
        if i <= s.len() {
            lemma_skip_ws_bounds(s, i);
        }
        let k = skip_ws(s, i);
        lemma_string_at_bounds(s, k);
        match parse_string_at(s, k) {
            Some(key) => {
                lemma_skip_ws_bounds(s, key.1);
                let c = skip_ws(s, key.1);
                if c < s.len() && s[c] == ':' {
                    lemma_skip_ws_bounds(s, c + 1);
                    let v = skip_ws(s, c + 1);
                    lemma_string_at_bounds(s, v);
                    match parse_string_at(s, v) {
                        Some(val) => {
                            lemma_skip_ws_bounds(s, val.1);
                        },
                        None => {},
                    }
                }
            },
            None => {},
        }
    }
}

/// The whole text as an object of string fields: optional surrounding
/// whitespace, `{`, members or nothing, `}`, and nothing after.
pub open spec fn parse_json_object(s: Seq<char>) -> Option<Seq<(Seq<char>, Seq<char>)>> {
    let i = skip_ws(s, 0);
    if i < s.len() && s[i] == '{' {
        let j = skip_ws(s, i + 1);
        if j < s.len() && s[j] == '}' {
            if skip_ws(s, j + 1) == s.len() {
                Some(Seq::empty())
            } else {
                None
            }
        } else {
            match parse_members(s, i + 1, Seq::empty()) {
                Some(p) => if skip_ws(s, p.1) == s.len() {
                    Some(p.0)
                } else {
                    None
                },
                None => None,
            }
        }
    } else {
        None
    }
}

/// The pairs a vector of character-vector pairs stands for.
pub open spec fn pairs_of(v: Seq<(Vec<char>, Vec<char>)>) -> Seq<(Seq<char>, Seq<char>)> {
    v.map_values(|p: (Vec<char>, Vec<char>)| (p.0@, p.1@))
}

/// Read the members of an object.
fn parse_members_exec(s: &Vec<char>, i: usize) -> (r: Option<(Vec<(Vec<char>, Vec<char>)>, usize)>)
    requires
        i <= s@.len(),
    ensures
        match r {
            Some(p) => parse_members(s@, i as int, Seq::empty()) == Some(
                (pairs_of(p.0@), p.1 as int),
            ) && p.1 <= s@.len(),
            None => parse_members(s@, i as int, Seq::empty()) is None,
        },
{
    let n = s.len();
    let mut acc: Vec<(Vec<char>, Vec<char>)> = Vec::new();
    let mut pos: usize = i;
    proof {
        assert(pairs_of(acc@) =~= Seq::<(Seq<char>, Seq<char>)>::empty());
    }
    loop
        invariant
            pos <= n,
            n == s@.len(),
            parse_members(s@, i as int, Seq::empty()) == parse_members(
                s@,
                pos as int,
                pairs_of(acc@),
            ),
        decreases n - pos,
    {
        let k = skip_ws_exec(s, pos);
        let key = match parse_string_exec(s, k) {
            Some(p) => p,
            None => {
                return None;
            },
        };
        let c = skip_ws_exec(s, key.1);
        if !(c < n && s[c] == ':') {
            return None;
        }
        let v = skip_ws_exec(s, c + 1);
        let val = match parse_string_exec(s, v) {
            Some(p) => p,
            None => {
                return None;
            },
        };
        let e = skip_ws_exec(s, val.1);
        let ghost acc0 = pairs_of(acc@);
        if e < n && s[e] == ',' {
            let kv = key.0;
            let vv = val.0;
            let ghost kseq = kv@;
            let ghost vseq = vv@;
            acc.push((kv, vv));
            proof {
                assert(pairs_of(acc@) =~~= acc0.push((kseq, vseq)));
            }
            proof {
                assert(pos + 1 <= e + 1 <= n);
            }
            pos = e + 1;
        } else if e < n && s[e] == '}' {
            let kv = key.0;
            let vv = val.0;
            let ghost kseq = kv@;
            let ghost vseq = vv@;
            acc.push((kv, vv));
            proof {
                assert(pairs_of(acc@) =~~= acc0.push((kseq, vseq)));
            }
            return Some((acc, e + 1));
        } else {
            return None;
        }
    }
}

/// Read the whole text as an object of string fields.
fn parse_object_exec(s: &Vec<char>) -> (r: Option<Vec<(Vec<char>, Vec<char>)>>)
    ensures
        match r {
            Some(v) => parse_json_object(s@) == Some(pairs_of(v@)),
            None => parse_json_object(s@) is None,
        },
{
    let n = s.len();
    let i = skip_ws_exec(s, 0);
    if !(i < n && s[i] == '{') {
        return None;
    }
    let j = skip_ws_exec(s, i + 1);
    if j < n && s[j] == '}' {
        if skip_ws_exec(s, j + 1) == n {
            let empty: Vec<(Vec<char>, Vec<char>)> = Vec::new();
            proof {
                assert(pairs_of(empty@) =~= Seq::<(Seq<char>, Seq<char>)>::empty());
            }
            Some(empty)
        } else {
            None
        }
    } else {
        match parse_members_exec(s, i + 1) {
            Some(p) => {
                if skip_ws_exec(s, p.1) == n {
                    Some(p.0)
                } else {
                    None
                }
            },
            None => None,
        }
    }
}

/// The value of the last field with the given key, if any; a repeated
/// key keeps its last value, as a map built by insertion would.
pub open spec fn last_field(pairs: Seq<(Seq<char>, Seq<char>)>, key: Seq<char>) -> Option<
    Seq<char>,
>
    decreases pairs.len(),
{
    if pairs.len() == 0 {
        None
    } else if pairs.last().0 == key {
        Some(pairs.last().1)
    } else {
        last_field(pairs.drop_last(), key)
    }
}

/// Why a response was rejected.
#[derive(Debug, Clone, Copy, PartialEq, Eq, Structural)]
pub enum ResponseError {
    /// The body is not an object of string fields.
    MalformedResponse,
}

/// What a response body yields: nothing when it is not an object of
/// string fields, else its `text` field — empty when the field is
/// missing.
pub open spec fn spec_response_text(s: Seq<char>) -> Option<Seq<char>> {
    match parse_json_object(s) {
        None => None,
        Some(pairs) => Some(
            match last_field(pairs, "text"@) {
                Some(t) => t,
                None => Seq::empty(),
            },
        ),
    }
}

/// Extract the transcription from the endpoint's response body.
pub fn parse_transcription_response(body: &str) -> (r: Result<String, ResponseError>)
    ensures
        match r {
            Ok(t) => spec_response_text(body@) == Some(t@),
            Err(e) => spec_response_text(body@) is None && e == ResponseError::MalformedResponse,
        },
{
    let chars = str_to_chars(body);
    let pairs = match parse_object_exec(&chars) {
        Some(p) => p,
        None => {
            return Err(ResponseError::MalformedResponse);
        },
    };
    let key = str_to_chars("text");
    let ghost sp = pairs_of(pairs@);
    let mut j: usize = pairs.len();
    proof {
        assert(sp.take(sp.len() as int) =~~= sp);
    }
    loop
        invariant
            j <= pairs@.len(),
            key@ == "text"@,
            sp == pairs_of(pairs@),
            sp.len() == pairs@.len(),
            parse_json_object(body@) == Some(sp),
            last_field(sp, "text"@) == last_field(sp.take(j as int), "text"@),
        decreases j,
    {
        if j == 0 {
            proof {
                assert(sp.take(0) =~= Seq::<(Seq<char>, Seq<char>)>::empty());
            }
            let empty: Vec<char> = Vec::new();
            return Ok(chars_to_string(&empty));
        }
        proof {
            assert(sp[j - 1] == (pairs@[j - 1].0@, pairs@[j - 1].1@));
            assert(sp.take(j as int).drop_last() =~~= sp.take(j - 1));
            assert(sp.take(j as int).last() == sp[j - 1]);
        }
        if chars_eq(&pairs[j - 1].0, &key) {
            proof {
                assert(last_field(sp, "text"@) == Some(sp[j - 1].1));
            }
            return Ok(chars_to_string(&pairs[j - 1].1));
        }
        j = j - 1;
    }
}

} // verus!
