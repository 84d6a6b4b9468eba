//! Recipes, install inputs, and the normalization of app ids and command names.
use vstd::prelude::*;
use std::collections::BTreeMap;
use crate::text::{
    append_chars, char_is_ascii_alnum, chars_of, join, join_chars, lemma_chars_deep_view, lower,
    split_nonempty, split_pieces, string_of, to_lower, trim_chars, trim_set, trim_space,
    trim_whitespace, is_ascii_alnum, is_ascii_upper, trim_start_set, trim_end_set,
};

verus! {

/// Desktop-entry settings of a recipe.
#[derive(Clone, Debug)]
pub struct RecipeDesktop {
    pub name: Option<String>,
    pub generic_name: Option<String>,
    pub categories: Option<Vec<String>>,
    pub terminal: Option<bool>,
    pub comment: Option<String>,
}

impl Default for RecipeDesktop {
    fn default() -> (r: Self)
        ensures
            r.name is None && r.generic_name is None && r.categories is None && r.terminal is None
                && r.comment is None,
    {
        RecipeDesktop { name: None, generic_name: None, categories: None, terminal: None, comment: None }
    }
}

/// A recipe that describes how to install an app.
#[derive(Clone, Debug)]
pub struct AppRecipe {
    pub id: Option<String>,
    pub name: Option<String>,
    pub version: Option<String>,
    pub probe_version: Option<bool>,
    pub exec_path: Option<String>,
    pub command: Option<String>,
    pub icon: Option<String>,
    pub desktop: Option<RecipeDesktop>,
    pub args: Option<Vec<String>>,
    pub env: Option<BTreeMap<String, String>>,
    pub working_dir: Option<String>,
}

impl Default for AppRecipe {
    fn default() -> (r: Self)
        ensures
            r.id is None && r.name is None && r.version is None && r.probe_version is None
                && r.exec_path is None && r.command is None && r.icon is None && r.desktop is None
                && r.args is None && r.env is None && r.working_dir is None,
    {
        AppRecipe {
            id: None,
            name: None,
            version: None,
            probe_version: None,
            exec_path: None,
            command: None,
            icon: None,
            desktop: None,
            args: None,
            env: None,
            working_dir: None,
        }
    }
}

/// What the caller of an install gives: overrides of detected values, a
/// recipe, and flags.
#[derive(Clone, Debug)]
pub struct InstallInput {
    pub id: Option<String>,
    pub name: Option<String>,
    pub version: Option<String>,
    pub probe_version: Option<bool>,
    pub exec_path: Option<String>,
    pub command: Option<String>,
    pub icon: Option<String>,
    pub recipe: Option<AppRecipe>,
    pub force: bool,
    pub interactive_config: bool,
}

impl Default for InstallInput {
    fn default() -> (r: Self)
        ensures
            r.id is None && r.name is None && r.version is None && r.probe_version is None
                && r.exec_path is None && r.command is None && r.icon is None && r.recipe is None
                && !r.force && !r.interactive_config,
    {
        InstallInput {
            id: None,
            name: None,
            version: None,
            probe_version: None,
            exec_path: None,
            command: None,
            icon: None,
            recipe: None,
            force: false,
            interactive_config: false,
        }
    }
}

// ---------------------------------------------------------------------------
// Ids and command names
// ---------------------------------------------------------------------------

/// Characters kept as they are: ASCII letters and digits, and `.` and `_` in
/// ids, `_` and `-` in command names.
pub open spec fn keeps(c: char, command: bool) -> bool {
    is_ascii_alnum(c) || (if command {
        c == '_' || c == '-'
    } else {
        c == '.' || c == '_'
    })
}

/// Every run of other characters replaced by one `-`; the flag says whether
/// the output ends with such a replacement.
pub open spec fn dash_runs(s: Seq<char>, command: bool) -> (Seq<char>, bool)
    decreases s.len(),
{
    if s.len() == 0 {
        (Seq::empty(), false)
    } else {
        let prev = dash_runs(s.drop_last(), command);
        let c = s.last();
        if keeps(c, command) {
            (prev.0.push(c), false)
        } else if !prev.1 {
            (prev.0.push('-'), true)
        } else {
            prev
        }
    }
}

/// The id or command name made of `value`: trimmed, ASCII lower-cased, runs of
/// other characters turned into one `-`, and `-` trimmed from both ends.
pub open spec fn spec_sanitize(value: Seq<char>, command: bool) -> Seq<char> {
    trim_set(dash_runs(lower(trim_space(value)), command).0, seq!['-'])
}

fn sanitize(value: &str, command: bool) -> (r: Vec<char>)
    ensures
        r@ == spec_sanitize(value@, command),
{
    let v = chars_of(value);
    let low = to_lower(&trim_whitespace(&v));
    let mut out: Vec<char> = Vec::new();
    let mut last_dash = false;
    let mut i: usize = 0;
    while i < low.len()
        invariant
            i <= low.len(),
            (out@, last_dash) == dash_runs(low@.take(i as int), command),
        decreases low.len() - i,
    {
        assert(low@.take(i + 1).drop_last() =~= low@.take(i as int));
        let ch = low[i];
        let keep = char_is_ascii_alnum(ch) || (if command {
            ch == '_' || ch == '-'
        } else {
            ch == '.' || ch == '_'
        });
        if keep {
            out.push(ch);
            last_dash = false;
        } else if !last_dash {
            out.push('-');
            last_dash = true;
        }
        i = i + 1;
    }
    assert(low@.take(low.len() as int) =~= low@);
    let mut dash: Vec<char> = Vec::new();
    dash.push('-');
    assert(dash@ =~= seq!['-']);
    trim_chars(&out, &dash)
}

/// The app id made of `value`: ASCII lower case, letters, digits, `.` and `_`
/// kept, other runs turned into one `-`, no `-` at either end.
pub fn sanitize_id(value: &str) -> (r: String)
    ensures
        r@ == spec_sanitize(value@, false),
{
    string_of(&sanitize(value, false))
}

/// The command name made of `value`: ASCII lower case, letters, digits, `_` and
/// `-` kept, other runs turned into one `-`, no `-` at either end.
pub fn sanitize_command(value: &str) -> (r: String)
    ensures
        r@ == spec_sanitize(value@, true),
{
    string_of(&sanitize(value, true))
}

/// A string that sanitizing keeps as it is: only kept characters and `-`, no
/// ASCII upper case, and in ids no two `-` in a row.
pub open spec fn clean_body(s: Seq<char>, command: bool) -> bool {
    &&& forall|i: int| 0 <= i < s.len() ==> keeps(#[trigger] s[i], command) || s[i] == '-'
    &&& forall|i: int| 0 <= i < s.len() ==> !is_ascii_upper(#[trigger] s[i])
    &&& !command ==> forall|i: int| 0 <= i < s.len() - 1 ==> !(#[trigger] s[i] == '-' && s[i + 1] == '-')
}

proof fn lemma_dash_runs_clean(t: Seq<char>, command: bool)
    requires
        forall|i: int| 0 <= i < t.len() ==> !is_ascii_upper(#[trigger] t[i]),
    ensures
        clean_body(dash_runs(t, command).0, command),
        dash_runs(t, command).1 ==> dash_runs(t, command).0.len() > 0 && dash_runs(t, command).0.last() == '-',
        (!command && dash_runs(t, command).0.len() > 0 && dash_runs(t, command).0.last() == '-')
            ==> dash_runs(t, command).1,
    decreases t.len(),
{
    if t.len() > 0 {
        let p = t.drop_last();
        assert forall|i: int| 0 <= i < p.len() implies !is_ascii_upper(#[trigger] p[i]) by {
            assert(p[i] == t[i]);
        }
        lemma_dash_runs_clean(p, command);
        let prev = dash_runs(p, command);
        let c = t.last();
        assert(!is_ascii_upper(t[t.len() - 1]));
        if keeps(c, command) {
            let out = prev.0.push(c);
            assert forall|i: int| 0 <= i < out.len() implies keeps(#[trigger] out[i], command) || out[i] == '-' by {
                if i < prev.0.len() {
                    assert(out[i] == prev.0[i]);
                }
            }
            assert forall|i: int| 0 <= i < out.len() implies !is_ascii_upper(#[trigger] out[i]) by {
                if i < prev.0.len() {
                    assert(out[i] == prev.0[i]);
                }
            }
            if !command {
                assert forall|i: int| 0 <= i < out.len() - 1 implies !(#[trigger] out[i] == '-' && out[i + 1] == '-') by {
                    if i + 1 < prev.0.len() {
                        assert(out[i] == prev.0[i] && out[i + 1] == prev.0[i + 1]);
                    }
                }
            }
        } else if !prev.1 {
            let out = prev.0.push('-');
            assert forall|i: int| 0 <= i < out.len() implies keeps(#[trigger] out[i], command) || out[i] == '-' by {
                if i < prev.0.len() {
                    assert(out[i] == prev.0[i]);
                }
            }
            assert forall|i: int| 0 <= i < out.len() implies !is_ascii_upper(#[trigger] out[i]) by {
                if i < prev.0.len() {
                    assert(out[i] == prev.0[i]);
                }
            }
            if !command {
                assert forall|i: int| 0 <= i < out.len() - 1 implies !(#[trigger] out[i] == '-' && out[i + 1] == '-') by {
                    if i + 1 < prev.0.len() {
                        assert(out[i] == prev.0[i] && out[i + 1] == prev.0[i + 1]);
                    } else {
                        assert(out[i] == prev.0.last());
                    }
                }
            }
        }
    }
}

proof fn lemma_trim_dash_start(s: Seq<char>)
    ensures
        exists|i: int| 0 <= i <= s.len() && trim_start_set(s, seq!['-']) == s.skip(i),
        trim_start_set(s, seq!['-']).len() > 0 ==> trim_start_set(s, seq!['-'])[0] != '-',
    decreases s.len(),
{
    if s.len() > 0 && seq!['-'].contains(s[0]) {
        lemma_trim_dash_start(s.drop_first());
        let i = choose|i: int| 0 <= i <= s.drop_first().len() && trim_start_set(s.drop_first(), seq!['-']) == s.drop_first().skip(i);
        assert(s.drop_first().skip(i) =~= s.skip(i + 1));
    } else {
        assert(s.skip(0) =~= s);
        if s.len() > 0 && s[0] == '-' {
            assert(seq!['-'][0] == '-');
        }
    }
}

proof fn lemma_trim_dash_end(s: Seq<char>)
    ensures
        exists|j: int| 0 <= j <= s.len() && trim_end_set(s, seq!['-']) == s.take(j),
        trim_end_set(s, seq!['-']).len() > 0 ==> trim_end_set(s, seq!['-']).last() != '-',
    decreases s.len(),
{
    if s.len() > 0 && seq!['-'].contains(s.last()) {
        lemma_trim_dash_end(s.drop_last());
        let j = choose|j: int| 0 <= j <= s.drop_last().len() && trim_end_set(s.drop_last(), seq!['-']) == s.drop_last().take(j);
        assert(s.drop_last().take(j) =~= s.take(j));
    } else {
        assert(s.take(s.len() as int) =~= s);
        if s.len() > 0 && s.last() == '-' {
            assert(seq!['-'][0] == '-');
        }
    }
}

proof fn lemma_trim_dash_keeps_start(s: Seq<char>)
    requires
        s.len() > 0 ==> s[0] != '-',
    ensures
        trim_end_set(s, seq!['-']).len() > 0 ==> trim_end_set(s, seq!['-'])[0] != '-',
{
    lemma_trim_dash_end(s);
    let j = choose|j: int| 0 <= j <= s.len() && trim_end_set(s, seq!['-']) == s.take(j);
    if j > 0 {
        assert(s.take(j)[0] == s[0]);
    }
}

proof fn lemma_clean_subrange(s: Seq<char>, i: int, j: int, command: bool)
    requires
        clean_body(s, command),
        0 <= i <= j <= s.len(),
    ensures
        clean_body(s.subrange(i, j), command),
{
    let t = s.subrange(i, j);
    assert forall|k: int| 0 <= k < t.len() implies keeps(#[trigger] t[k], command) || t[k] == '-' by {
        assert(t[k] == s[k + i]);
    }
    assert forall|k: int| 0 <= k < t.len() implies !is_ascii_upper(#[trigger] t[k]) by {
        assert(t[k] == s[k + i]);
    }
    if !command {
        assert forall|k: int| 0 <= k < t.len() - 1 implies !(#[trigger] t[k] == '-' && t[k + 1] == '-') by {
            assert(t[k] == s[k + i] && t[k + 1] == s[k + 1 + i]);
        }
    }
}

/// A sanitized value: clean, with no `-` at either end.
pub open spec fn is_sanitized(s: Seq<char>, command: bool) -> bool {
    &&& clean_body(s, command)
    &&& (s.len() > 0 ==> s[0] != '-' && s.last() != '-')
}

/// A sanitized id or command name holds only kept characters and `-`, no
/// ASCII upper case, no `-` at either end and, in ids, no two `-` in a row.
pub proof fn lemma_sanitize_shape(v: Seq<char>, command: bool)
    ensures
        is_sanitized(spec_sanitize(v, command), command),
{
    let l = lower(trim_space(v));
    assert forall|i: int| 0 <= i < l.len() implies !is_ascii_upper(#[trigger] l[i]) by {}
    lemma_dash_runs_clean(l, command);
    let d = dash_runs(l, command).0;
    lemma_trim_dash_start(d);
    let i = choose|i: int| 0 <= i <= d.len() && trim_start_set(d, seq!['-']) == d.skip(i);
    let a = trim_start_set(d, seq!['-']);
    assert(d.skip(i) =~= d.subrange(i, d.len() as int));
    lemma_clean_subrange(d, i, d.len() as int, command);
    lemma_trim_dash_end(a);
    lemma_trim_dash_keeps_start(a);
    let j = choose|j: int| 0 <= j <= a.len() && trim_end_set(a, seq!['-']) == a.take(j);
    assert(a.take(j) =~= a.subrange(0, j));
    lemma_clean_subrange(a, 0, j, command);
}

proof fn lemma_clean_fixed(s: Seq<char>, command: bool)
    requires
        clean_body(s, command),
        s.len() > 0 ==> s[0] != '-',
    ensures
        dash_runs(s, command).0 == s,
        dash_runs(s, command).1 == (s.len() > 0 && s.last() == '-' && !keeps('-', command)),
    decreases s.len(),
{
    if s.len() > 0 {
        let p = s.drop_last();
        lemma_clean_subrange(s, 0, s.len() - 1, command);
        assert(s.subrange(0, s.len() - 1) =~= p);
        if p.len() > 0 {
            assert(p[0] == s[0]);
        }
        lemma_clean_fixed(p, command);
        let c = s.last();
        assert(keeps(s[s.len() - 1], command) || s[s.len() - 1] == '-');
        if !keeps(c, command) {
            assert(c == '-');
            assert(s.len() > 1);
            assert(!(s[s.len() - 2] == '-' && s[s.len() - 1] == '-'));
            assert(p.last() == s[s.len() - 2]);
        }
        assert(p.push(c) =~= s);
    }
}

proof fn lemma_trim_dash_fixed(s: Seq<char>)
    requires
        s.len() > 0 ==> s[0] != '-' && s.last() != '-',
    ensures
        trim_set(s, seq!['-']) == s,
{
    if s.len() > 0 {
        assert(!seq!['-'].contains(s[0])) by {
            if seq!['-'].contains(s[0]) {
                let k = choose|k: int| 0 <= k < 1 && seq!['-'][k] == s[0];
            }
        }
        assert(!seq!['-'].contains(s.last())) by {
            if seq!['-'].contains(s.last()) {
                let k = choose|k: int| 0 <= k < 1 && seq!['-'][k] == s.last();
            }
        }
    }
}

/// Sanitizing a sanitized id or command name changes nothing.
pub proof fn lemma_sanitize_idempotent(v: Seq<char>, command: bool)
    ensures
        spec_sanitize(spec_sanitize(v, command), command) == spec_sanitize(v, command),
{
    let s = spec_sanitize(v, command);
    lemma_sanitize_shape(v, command);
    assert(trim_space(s) == s) by {
        if s.len() > 0 {
            assert(keeps(s[0], command) || s[0] == '-');
            assert(keeps(s[s.len() - 1], command) || s[s.len() - 1] == '-');
        }
    }
    assert(lower(s) =~= s) by {
        assert forall|i: int| 0 <= i < s.len() implies lower(s)[i] == s[i] by {
            assert(!is_ascii_upper(s[i]));
        }
    }
    lemma_clean_fixed(s, command);
    lemma_trim_dash_fixed(s);
}

// ---------------------------------------------------------------------------
// Display names
// ---------------------------------------------------------------------------

/// What `char::to_uppercase` yields for `c`.
pub uninterp spec fn unicode_upper(c: char) -> Seq<char>;

/// `char::to_uppercase`, collected. Claims only that the result is the named
/// one.
#[verifier::external_body]
fn char_to_upper(c: char) -> (r: Vec<char>)
    ensures
        r@ == unicode_upper(c),
{
    c.to_uppercase().collect()
}

/// A word with its first character upper-cased.
pub open spec fn capitalize(w: Seq<char>) -> Seq<char> {
    if w.len() == 0 {
        Seq::empty()
    } else {
        unicode_upper(w[0]) + w.drop_first()
    }
}

/// The words of `ws`, each capitalized.
pub open spec fn capitalize_all(ws: Seq<Seq<char>>) -> Seq<Seq<char>> {
    ws.map_values(|w: Seq<char>| capitalize(w))
}

/// The display name of an id: its words between `-`, `_` and `.`, each
/// capitalized, joined with spaces.
pub open spec fn spec_display_name(id: Seq<char>) -> Seq<char> {
    join(capitalize_all(split_nonempty(id, seq!['-', '_', '.'])), seq![' '])
}

/// `My App` from `my-app`: words between `-`, `_` and `.`, each with its first
/// character upper-cased, joined with spaces.
pub fn display_name_from_id(id: &str) -> (r: String)
    ensures
        r@ == spec_display_name(id@),
{
    let v = chars_of(id);
    let mut seps: Vec<char> = Vec::new();
    seps.push('-');
    seps.push('_');
    seps.push('.');
    assert(seps@ =~= seq!['-', '_', '.']);
    let words = split_pieces(&v, &seps);
    let ghost wv = words.deep_view();
    let mut caps: Vec<Vec<char>> = Vec::new();
    let mut i: usize = 0;
    while i < words.len()
        invariant
            i <= words.len(),
            wv == words.deep_view(),
            caps.deep_view() == capitalize_all(wv).take(i as int),
        decreases words.len() - i,
    {
        proof {
            lemma_chars_deep_view(&words@[i as int]);
        }
        let w = &words[i];
        let mut c: Vec<char> = Vec::new();
        if w.len() > 0 {
            c = char_to_upper(w[0]);
            let mut k: usize = 1;
            let ghost head = c@;
            while k < w.len()
                invariant
                    1 <= k <= w.len(),
                    c@ == head + w@.subrange(1, k as int),
                decreases w.len() - k,
            {
                c.push(w[k]);
                assert(w@.subrange(1, k + 1) =~= w@.subrange(1, k as int).push(w@[k as int]));
                k = k + 1;
            }
            assert(w@.subrange(1, w.len() as int) =~= w@.drop_first());
        } else {
            assert(c@ =~= Seq::<char>::empty());
        }
        proof {
            lemma_chars_deep_view(&c);
        }
        let ghost before = caps.deep_view();
        caps.push(c);
        assert(caps.deep_view() =~= before.push(capitalize(wv[i as int])));
        assert(capitalize_all(wv).take(i + 1) =~= capitalize_all(wv).take(i as int).push(
            capitalize(wv[i as int]),
        ));
        i = i + 1;
    }
    assert(capitalize_all(wv).take(words.len() as int) =~= capitalize_all(wv));
    let mut space: Vec<char> = Vec::new();
    space.push(' ');
    assert(space@ =~= seq![' ']);
    string_of(&join_chars(&caps, &space))
}

} // verus!
