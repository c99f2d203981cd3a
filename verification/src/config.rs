//! Configuration: defaults, environment resolution, and the text
//! replacement rules applied to transcriptions.
//!
//! The configuration file itself is TOML; reading and decoding it happens
//! outside of this crate, which receives plain values.  Everything the
//! configuration *means* — the default values, the tilde expansion, the
//! rewrite rules — is defined and verified here.

use vstd::prelude::*;
use vstd::string::StringExecFns;
use crate::text::{
    str_to_chars, lower_chars, chars_to_string, lowered_seq, space_char,
    find_from, match_at, find_sub, lemma_find_from_in_range, push_range, push_lowered_range,
    vec_suffix, is_space_char, space_run, word_run, punct_run, blank_run, is_trailing_punct,
    lemma_runs_bounded, RunKind, scan_run,
};

verus! {

/// Text rewrite rules: spoken phrases on the left, their replacements on
/// the right, applied in order; `lowercase_after` additionally lowercases
/// the word following a replacement that ends mid-sentence.
pub struct Replacements {
    pub lowercase_after: bool,
    pub rules: Vec<(String, String)>,
}

/// The resolved configuration handed to the pipeline.
pub struct Config {
    pub hotkey: String,
    pub backend: String,
    pub model_path: String,
    pub api_key: String,
    pub api_url: String,
    pub typing_delay_ms: u64,
    pub min_duration_ms: u64,
    pub device: Option<String>,
    pub language: Option<String>,
    pub initial_prompt: Option<String>,
    pub replacements: Replacements,
}

/// The default hotkey name.
pub fn default_hotkey() -> (r: String)
    ensures
        r@ == "AltGr"@,
{
    String::from_str("AltGr")
}

/// The default backend selection.
pub fn default_backend() -> (r: String)
    ensures
        r@ == "local"@,
{
    String::from_str("local")
}

/// The default model file location.
pub fn default_model_path() -> (r: String)
    ensures
        r@ == "~/.local/share/dictr/models/ggml-base.bin"@,
{
    String::from_str("~/.local/share/dictr/models/ggml-base.bin")
}

/// The default endpoint of the remote backend.
pub fn default_api_url() -> (r: String)
    ensures
        r@ == "https://api.openai.com/v1/audio/transcriptions"@,
{
    String::from_str("https://api.openai.com/v1/audio/transcriptions")
}

/// The default delay between typed characters, in milliseconds.
pub fn default_typing_delay() -> (r: u64)
    ensures
        r == 2,
{
    2
}

/// The default minimum recording duration, in milliseconds.
pub fn default_min_duration() -> (r: u64)
    ensures
        r == 300,
{
    300
}

/// The default of the `lowercase_after` rule switch.
pub fn default_true() -> (r: bool)
    ensures
        r,
{
    true
}

impl Default for Replacements {
    /// No rules, `lowercase_after` on.
    fn default() -> (r: Replacements)
        ensures
            r.lowercase_after,
            r.rules@.len() == 0,
    {
        Replacements { lowercase_after: default_true(), rules: Vec::new() }
    }
}

impl Default for Config {
    /// Every field at its documented default.
    fn default() -> (r: Config)
        ensures
            r.hotkey@ == "AltGr"@,
            r.backend@ == "local"@,
            r.model_path@ == "~/.local/share/dictr/models/ggml-base.bin"@,
            r.api_key@.len() == 0,
            r.api_url@ == "https://api.openai.com/v1/audio/transcriptions"@,
            r.typing_delay_ms == 2,
            r.min_duration_ms == 300,
            r.device is None,
            r.language is None,
            r.initial_prompt is None,
            r.replacements.lowercase_after,
            r.replacements.rules@.len() == 0,
    {
        Config {
            hotkey: default_hotkey(),
            backend: default_backend(),
            model_path: default_model_path(),
            api_key: String::new(),
            api_url: default_api_url(),
            typing_delay_ms: default_typing_delay(),
            min_duration_ms: default_min_duration(),
            device: None,
            language: None,
            initial_prompt: None,
            replacements: Replacements::default(),
        }
    }
}

impl Config {
    /// Resolve environment-dependent fields, from values the caller read
    /// from the environment: a model path starting with `~` has the tilde
    /// replaced by the home directory, and an empty API key is filled
    /// from the environment's key, when either is present.
    pub fn resolve_env(&mut self, home: Option<&str>, env_api_key: Option<&str>)
        ensures
            final(self).model_path@ == (if old(self).model_path@.len() > 0 && old(
                self,
            ).model_path@[0] == '~' && home is Some {
                home->0@ + old(self).model_path@.skip(1)
            } else {
                old(self).model_path@
            }),
            final(self).api_key@ == (if old(self).api_key@.len() == 0 && env_api_key is Some {
                env_api_key->0@
            } else {
                old(self).api_key@
            }),
            final(self).hotkey == old(self).hotkey,
            final(self).backend == old(self).backend,
            final(self).api_url == old(self).api_url,
            final(self).typing_delay_ms == old(self).typing_delay_ms,
            final(self).min_duration_ms == old(self).min_duration_ms,
            final(self).device == old(self).device,
            final(self).language == old(self).language,
            final(self).initial_prompt == old(self).initial_prompt,
            final(self).replacements.lowercase_after == old(self).replacements.lowercase_after,
            final(self).replacements.rules == old(self).replacements.rules,
    {
        let mp = str_to_chars(self.model_path.as_str());
        if mp.len() > 0 {
            let c0 = mp[0];
            if c0 == '~' {
                match home {
                    Some(h) => {
                        let rest = vec_suffix(&mp, 1);
                        let expanded = String::from_str(h).concat(
                            chars_to_string(&rest).as_str(),
                        );
                        self.model_path = expanded;
                    },
                    None => {},
                }
            }
        }
        if self.api_key.as_str().is_empty() {
            match env_api_key {
                Some(k) => {
                    self.api_key = String::from_str(k);
                },
                None => {},
            }
        }
    }

    /// The model path as configured, after any tilde expansion.
    pub fn resolved_model_path(&self) -> (r: String)
        ensures
            r@ == self.model_path@,
    {
        self.model_path.clone()
    }
}

/// One rewrite pass: every case-insensitive occurrence of the (already
/// lowered) pattern is replaced, left to right, and the replacement text
/// itself is never rescanned within the pass.
pub open spec fn replace_ci(text: Seq<char>, patl: Seq<char>, to: Seq<char>) -> Seq<char>
    decreases text.len(),
    via replace_ci_dec
{
    if patl.len() == 0 {
        text
    } else {
        match find_from(text, patl, 0, true) {
            Some(i) => text.subrange(0, i) + to + replace_ci(
                text.skip(i + patl.len() as int),
                patl,
                to,
            ),
            None => text,
        }
    }
}

#[via_fn]
proof fn replace_ci_dec(text: Seq<char>, patl: Seq<char>, to: Seq<char>) {
    if patl.len() > 0 {
        lemma_find_from_in_range(text, patl, 0, true);
    }
}

/// Replace every case-insensitive occurrence of the lowered pattern.
pub fn replace_rule(text: Vec<char>, patl: &Vec<char>, to: &Vec<char>) -> (r: Vec<char>)
    requires
        patl@.len() >= 1,
    ensures
        r@ == replace_ci(text@, patl@, to@),
{
    let mut out: Vec<char> = Vec::new();
    let mut rem = text;
    loop
        invariant
            patl@.len() >= 1,
            replace_ci(text@, patl@, to@) == out@ + replace_ci(rem@, patl@, to@),
        decreases rem@.len(),
    {
        match find_sub(&rem, patl, true) {
            Some(i) => {
                proof {
                    lemma_find_from_in_range(rem@, patl@, 0, true);
                    assert(match_at(rem@, patl@, i as int, true));
                    assert(i + patl@.len() <= rem@.len());
                }
                let m = patl.len();
                let rl = rem.len();
                assert(i + m <= rl);
                let ghost out0 = out@;
                push_range(&mut out, &rem, 0, i);
                push_range(&mut out, to, 0, to.len());
                let next = vec_suffix(&rem, i + m);
                proof {
                    assert(to@.subrange(0, to@.len() as int) =~= to@);
                    assert(replace_ci(rem@, patl@, to@) == rem@.subrange(0, i as int) + to@
                        + replace_ci(rem@.skip(i + m), patl@, to@));
                    assert(out0 + (rem@.subrange(0, i as int) + to@ + replace_ci(
                        next@,
                        patl@,
                        to@,
                    )) =~= out@ + replace_ci(next@, patl@, to@));
                }
                rem = next;
            },
            None => {
                let e = rem.len();
                push_range(&mut out, &rem, 0, e);
                proof {
                    assert(rem@.subrange(0, rem@.len() as int) =~= rem@);
                }
                return out;
            },
        }
    }
}


/// The lowercase-after pass for one prefix: after every exact occurrence
/// of the prefix, the whitespace before the following word is dropped,
/// the word itself is lowercased, the sentence punctuation right after it
/// is stripped, and — when anything follows — the leading plain spaces
/// are collapsed into a single space.
pub open spec fn lower_after(text: Seq<char>, prefix: Seq<char>) -> Seq<char>
    decreases text.len(),
    via lower_after_dec
{
    if prefix.len() == 0 {
        text
    } else {
        match find_from(text, prefix, 0, false) {
            None => text,
            Some(i) => {
                let end = i + prefix.len() as int;
                let tail = text.skip(end);
                let a1 = tail.skip(space_run(tail));
                let w = word_run(a1);
                let head = text.subrange(0, end) + lowered_seq(a1.subrange(0, w));
                let a2 = a1.skip(w);
                let a3 = a2.skip(punct_run(a2));
                if a3.len() == 0 {
                    head
                } else {
                    head + seq![' '] + lower_after(a3.skip(blank_run(a3)), prefix)
                }
            },
        }
    }
}

#[via_fn]
proof fn lower_after_dec(text: Seq<char>, prefix: Seq<char>) {
    if prefix.len() > 0 {
        lemma_find_from_in_range(text, prefix, 0, false);
        match find_from(text, prefix, 0, false) {
            Some(i) => {
                let end = i + prefix.len() as int;
                let tail = text.skip(end);
                lemma_runs_bounded(tail);
                let a1 = tail.skip(space_run(tail));
                lemma_runs_bounded(a1);
                let a2 = a1.skip(word_run(a1));
                lemma_runs_bounded(a2);
                let a3 = a2.skip(punct_run(a2));
                lemma_runs_bounded(a3);
            },
            None => {},
        }
    }
}

/// Apply the lowercase-after pass for one prefix.
pub fn lower_after_rule(text: Vec<char>, prefix: &Vec<char>) -> (r: Vec<char>)
    requires
        prefix@.len() >= 1,
    ensures
        r@ == lower_after(text@, prefix@),
{
    let mut out: Vec<char> = Vec::new();
    let mut rem = text;
    loop
        invariant
            prefix@.len() >= 1,
            lower_after(text@, prefix@) == out@ + lower_after(rem@, prefix@),
        decreases rem@.len(),
    {
        match find_sub(&rem, prefix, false) {
            None => {
                let e = rem.len();
                push_range(&mut out, &rem, 0, e);
                proof {
                    assert(rem@.subrange(0, rem@.len() as int) =~= rem@);
                }
                return out;
            },
            Some(i) => {
                proof {
                    lemma_find_from_in_range(rem@, prefix@, 0, false);
                    assert(match_at(rem@, prefix@, i as int, false));
                }
                let m = prefix.len();
                let rl = rem.len();
                assert(i + m <= rl);
                let end = i + m;
                let ghost tail = rem@.skip(end as int);
                let sr = scan_run(RunKind::Spaces, &rem, end);
                let ws = end + sr;
                proof {
                    assert(rem@.skip(end as int).skip(sr as int) =~= rem@.skip(ws as int));
                }
                let wr = scan_run(RunKind::Word, &rem, ws);
                let ghost a1 = tail.skip(space_run(tail));
                proof {
                    assert(a1 =~= rem@.skip(ws as int));
                    assert(a1.subrange(0, wr as int) =~= rem@.subrange(ws as int, (ws + wr) as int));
                    assert(a1.skip(wr as int) =~= rem@.skip((ws + wr) as int));
                }
                let ghost out0 = out@;
                push_range(&mut out, &rem, 0, end);
                push_lowered_range(&mut out, &rem, ws, ws + wr);
                let ghost head = rem@.subrange(0, end as int) + lowered_seq(
                    a1.subrange(0, wr as int),
                );
                proof {
                    assert(out@ =~= out0 + head);
                }
                let ps = ws + wr;
                let pr = scan_run(RunKind::Punct, &rem, ps);
                let bs = ps + pr;
                let ghost a2 = a1.skip(wr as int);
                let ghost a3 = a2.skip(punct_run(a2));
                proof {
                    assert(a2 =~= rem@.skip(ps as int));
                    assert(a2.skip(pr as int) =~= rem@.skip(bs as int));
                    assert(a3 =~= rem@.skip(bs as int));
                }
                if bs == rem.len() {
                    proof {
                        assert(a3 =~= Seq::<char>::empty());
                        assert(lower_after(rem@, prefix@) == head);
                        assert(out@ + Seq::<char>::empty() =~= out@);
                    }
                    let next: Vec<char> = Vec::new();
                    rem = next;
                } else {
                    let br = scan_run(RunKind::Blanks, &rem, bs);
                    out.push(' ');
                    let next = vec_suffix(&rem, bs + br);
                    proof {
                        assert(a3.skip(blank_run(a3)) =~= rem@.skip((bs + br) as int));
                        assert(a3.len() != 0);
                        assert(lower_after(rem@, prefix@) == head + seq![' '] + lower_after(
                            next@,
                            prefix@,
                        ));
                        assert(out@ =~= out0 + head + seq![' ']);
                        assert(out0 + (head + seq![' '] + lower_after(next@, prefix@)) =~= out@
                            + lower_after(next@, prefix@));
                    }
                    rem = next;
                }
            },
        }
    }
}

/// One rule applied to a transcription: a rule with an empty key does
/// nothing, any other rule rewrites case-insensitively.
pub open spec fn rule_pass(text: Seq<char>, key: Seq<char>, val: Seq<char>) -> Seq<char> {
    if key.len() == 0 {
        text
    } else {
        replace_ci(text, lowered_seq(key), val)
    }
}

/// All rewrite rules applied, in order.
pub open spec fn apply_rules(text: Seq<char>, rules: Seq<(String, String)>) -> Seq<char>
    decreases rules.len(),
{
    if rules.len() == 0 {
        text
    } else {
        apply_rules(rule_pass(text, rules[0].0@, rules[0].1@), rules.drop_first())
    }
}

/// Whether a rule's replacement acts as a prefix for the lowercase-after
/// pass: it must end in a character that is neither whitespace nor
/// sentence punctuation.
pub open spec fn is_prefix_value(v: Seq<char>) -> bool {
    &&& v.len() > 0
    &&& !space_char(v.last())
    &&& !(v.last() == '.' || v.last() == ',' || v.last() == ';' || v.last() == ':' || v.last()
        == '!' || v.last() == '?')
}

/// The lowercase-after pass for one rule's replacement value.
pub open spec fn prefix_pass(text: Seq<char>, val: Seq<char>) -> Seq<char> {
    if is_prefix_value(val) {
        lower_after(text, val)
    } else {
        text
    }
}

/// The lowercase-after pass applied for every rule's replacement, in
/// order.
pub open spec fn apply_prefixes(text: Seq<char>, rules: Seq<(String, String)>) -> Seq<char>
    decreases rules.len(),
{
    if rules.len() == 0 {
        text
    } else {
        apply_prefixes(prefix_pass(text, rules[0].1@), rules.drop_first())
    }
}

/// What [`Config::apply_replacements`] produces: every rule applied in
/// order, then — with `lowercase_after` on — the lowercase-after pass for
/// every replacement value.
pub open spec fn replaced_text(
    lowercase_after: bool,
    rules: Seq<(String, String)>,
    text: Seq<char>,
) -> Seq<char> {
    let t = apply_rules(text, rules);
    if lowercase_after {
        apply_prefixes(t, rules)
    } else {
        t
    }
}

proof fn lemma_apply_rules_snoc(text: Seq<char>, rules: Seq<(String, String)>, x: (String, String))
    ensures
        apply_rules(text, rules.push(x)) == rule_pass(apply_rules(text, rules), x.0@, x.1@),
    decreases rules.len(),
{
    if rules.len() == 0 {
        reveal_with_fuel(apply_rules, 2);
        assert(rules.push(x)[0] == x);
        assert(rules.push(x).drop_first() =~= Seq::<(String, String)>::empty());
    } else {
        assert(rules.push(x)[0] == rules[0]);
        assert(rules.push(x).drop_first() =~= rules.drop_first().push(x));
        lemma_apply_rules_snoc(rule_pass(text, rules[0].0@, rules[0].1@), rules.drop_first(), x);
    }
}

proof fn lemma_apply_prefixes_snoc(
    text: Seq<char>,
    rules: Seq<(String, String)>,
    x: (String, String),
)
    ensures
        apply_prefixes(text, rules.push(x)) == prefix_pass(apply_prefixes(text, rules), x.1@),
    decreases rules.len(),
{
    if rules.len() == 0 {
        reveal_with_fuel(apply_prefixes, 2);
        assert(rules.push(x)[0] == x);
        assert(rules.push(x).drop_first() =~= Seq::<(String, String)>::empty());
    } else {
        assert(rules.push(x)[0] == rules[0]);
        assert(rules.push(x).drop_first() =~= rules.drop_first().push(x));
        lemma_apply_prefixes_snoc(prefix_pass(text, rules[0].1@), rules.drop_first(), x);
    }
}

impl Config {
    /// Apply the configured rewrite rules to a transcription.
    pub fn apply_replacements(&self, text: &str) -> (r: String)
        ensures
            r@ == replaced_text(
                self.replacements.lowercase_after,
                self.replacements.rules@,
                text@,
            ),
    {
        let rules = &self.replacements.rules;
        let mut cur = str_to_chars(text);
        let mut idx: usize = 0;
        while idx < rules.len()
            invariant
                idx <= rules@.len(),
                cur@ == apply_rules(text@, rules@.take(idx as int)),
            decreases rules@.len() - idx,
        {
            let key = str_to_chars(rules[idx].0.as_str());
            let val = str_to_chars(rules[idx].1.as_str());
            proof {
                lemma_apply_rules_snoc(text@, rules@.take(idx as int), rules@[idx as int]);
                assert(rules@.take(idx + 1) =~= rules@.take(idx as int).push(rules@[idx as int]));
            }
            if key.len() > 0 {
                let patl = lower_chars(&key);
                cur = replace_rule(cur, &patl, &val);
            }
            idx += 1;
        }
        proof {
            assert(rules@.take(rules@.len() as int) =~= rules@);
        }
        if self.replacements.lowercase_after {
            let ghost t1 = cur@;
            let mut idx2: usize = 0;
            while idx2 < rules.len()
                invariant
                    idx2 <= rules@.len(),
                    cur@ == apply_prefixes(t1, rules@.take(idx2 as int)),
                decreases rules@.len() - idx2,
            {
                let val = str_to_chars(rules[idx2].1.as_str());
                proof {
                    lemma_apply_prefixes_snoc(t1, rules@.take(idx2 as int), rules@[idx2 as int]);
                    assert(rules@.take(idx2 + 1) =~= rules@.take(idx2 as int).push(
                        rules@[idx2 as int],
                    ));
                }
                let is_pref = if val.len() == 0 {
                    false
                } else {
                    let c = val[val.len() - 1];
                    !is_space_char(c) && !(c == '.' || c == ',' || c == ';' || c == ':' || c == '!'
                        || c == '?')
                };
                proof {
                    assert(is_pref == is_prefix_value(rules@[idx2 as int].1@));
                }
                if is_pref {
                    cur = lower_after_rule(cur, &val);
                }
                idx2 += 1;
            }
            proof {
                assert(rules@.take(rules@.len() as int) =~= rules@);
            }
        }
        chars_to_string(&cur)
    }
}

/// The configuration directory: `$XDG_CONFIG_HOME/dictr` when that
/// variable is set, else `$HOME/.config/dictr`, else a relative
/// `.config/dictr`.
pub open spec fn spec_dirs_path(xdg: Option<&str>, home: Option<&str>) -> Seq<char> {
    if xdg is Some {
        xdg->0@ + "/dictr"@
    } else if home is Some {
        home->0@ + "/.config/dictr"@
    } else {
        ".config/dictr"@
    }
}

/// The configuration directory, from the environment values the caller
/// read.
pub fn dirs_path(xdg: Option<&str>, home: Option<&str>) -> (r: String)
    ensures
        r@ == spec_dirs_path(xdg, home),
{
    match xdg {
        Some(x) => String::from_str(x).concat("/dictr"),
        None => match home {
            Some(h) => String::from_str(h).concat("/.config/dictr"),
            None => String::from_str(".config/dictr"),
        },
    }
}

/// The configuration file location: `config.toml` in the configuration
/// directory.
pub fn config_path(xdg: Option<&str>, home: Option<&str>) -> (r: String)
    ensures
        r@ == spec_dirs_path(xdg, home) + "/config.toml"@,
{
    dirs_path(xdg, home).concat("/config.toml")
}

} // verus!
