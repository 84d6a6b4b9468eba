//! Finding an installed app's version in metadata files and in the output of
//! version probes.
use vstd::prelude::*;
use crate::filename::opt_seq;
use crate::regex_ops::{opt_text, opt_texts, regex_captures, regex_captures_text};
use crate::text::{
    char_to_ascii_lower, chars_of, contains_char, contains_lit, contains_seq, copy_chars,
    lemma_chars_deep_view, lower, split_by, split_keep, string_of, strip_v, strip_v_prefix,
    to_lower, trim_chars, trim_set, trim_space, trim_whitespace, utf8_len, utf8_len_exceeds,
    contains_chars, append_str, append_chars,
};

verus! {

/// A version number in program output or a metadata file; group 1 is the version.
pub const VERSION_TEXT_PATTERN: &'static str = r#"(?ix)
        \b
        (?:version\s*)?
        ["']?
        v?
        (\d{1,4}(?:\.\d{1,8}){1,5}(?:[-+~._][0-9A-Za-z][0-9A-Za-z._+-]*)?)
        ["']?
        "#;

/// Metadata files larger than this many bytes are read as empty.
pub const MAX_METADATA_BYTES: u64 = 524288;

/// At most this many bytes of a probe's standard output, and of its standard
/// error, are read.
pub const MAX_PROBE_OUTPUT_BYTES: u64 = 131072;

/// A probe still running after this many milliseconds is killed.
pub const PROBE_TIMEOUT_MILLIS: u64 = 3000;

/// A version that was found, and where it was found.
#[derive(Clone, Debug, PartialEq, Eq)]
pub struct VersionProbeResult {
    pub version: String,
    pub source: String,
}

impl View for VersionProbeResult {
    type V = (Seq<char>, Seq<char>);

    open spec fn view(&self) -> (Seq<char>, Seq<char>) {
        (self.version@, self.source@)
    }
}

pub open spec fn opt_probe(o: Option<VersionProbeResult>) -> Option<(Seq<char>, Seq<char>)> {
    match o {
        Some(p) => Some(p@),
        None => None,
    }
}

// ---------------------------------------------------------------------------
// Lines
// ---------------------------------------------------------------------------

pub open spec fn strip_cr(p: Seq<char>) -> Seq<char> {
    if p.len() > 0 && p.last() == '\r' {
        p.drop_last()
    } else {
        p
    }
}

/// `str::lines`: the text split at `\n`, a `\r` before the `\n` removed, and no
/// final empty line after a trailing `\n`.
pub open spec fn lines_of(text: Seq<char>) -> Seq<Seq<char>> {
    let ps = split_by(text, seq!['\n']);
    let init = ps.drop_last().map_values(|p: Seq<char>| strip_cr(p));
    if ps.last().len() == 0 {
        init
    } else {
        init.push(ps.last())
    }
}

/// The first 80 lines.
pub open spec fn first_lines(text: Seq<char>) -> Seq<Seq<char>> {
    let l = lines_of(text);
    if l.len() > 80 {
        l.take(80)
    } else {
        l
    }
}

fn strip_cr_chars(p: &Vec<char>) -> (r: Vec<char>)
    ensures
        r@ == strip_cr(p@),
{
    if p.len() > 0 && p[p.len() - 1] == '\r' {
        let mut q = copy_chars(p);
        q.pop();
        assert(q@ =~= p@.drop_last());
        q
    } else {
        copy_chars(p)
    }
}

/// The first 80 lines of `text`.
fn first_lines_exec(text: &Vec<char>) -> (r: Vec<Vec<char>>)
    ensures
        r.deep_view() == first_lines(text@),
{
    let mut nl: Vec<char> = Vec::new();
    nl.push('\n');
    assert(nl@ =~= seq!['\n']);
    let ps = split_keep(text, &nl);
    proof {
        crate::text::lemma_split_by_nonempty(text@, seq!['\n']);
    }
    let ghost pv = ps.deep_view();
    let ghost all = lines_of(text@);
    let mut out: Vec<Vec<char>> = Vec::new();
    let mut i: usize = 0;
    while i + 1 < ps.len() && out.len() < 80
        invariant
            pv == ps.deep_view(),
            pv == split_by(text@, seq!['\n']),
            ps.len() >= 1,
            i < ps.len(),
            out.len() == i,
            i <= 80,
            forall|k: int| 0 <= k < i ==> #[trigger] out.deep_view()[k] == strip_cr(pv[k]),
        decreases ps.len() - i,
    {
        proof {
            lemma_chars_deep_view(&ps@[i as int]);
        }
        let q = strip_cr_chars(&ps[i]);
        proof {
            lemma_chars_deep_view(&q);
        }
        let ghost before = out.deep_view();
        out.push(q);
        assert(out.deep_view() =~= before.push(strip_cr(pv[i as int])));
        i = i + 1;
    }
    proof {
        lemma_chars_deep_view(&ps@[ps.len() - 1]);
    }
    let last_nonempty = ps[ps.len() - 1].len() > 0;
    if out.len() < 80 && last_nonempty {
        let q = copy_chars(&ps[ps.len() - 1]);
        proof {
            lemma_chars_deep_view(&q);
        }
        let ghost before = out.deep_view();
        out.push(q);
        assert(out.deep_view() =~= before.push(pv.last()));
    }
    proof {
        assert(all.len() == pv.len() - 1 + (if pv.last().len() == 0 {
            0int
        } else {
            1int
        }));
        if all.len() > 80 {
            assert(out.deep_view() =~= all.take(80));
        } else {
            assert(out.deep_view() =~= all);
        }
    }
    out
}

// ---------------------------------------------------------------------------
// Scoring version candidates
// ---------------------------------------------------------------------------

/// The lower-cased names that mark a line as being about this app; blank
/// names are left out.
pub open spec fn needles(command_name: Seq<char>, app_id: Seq<char>, app_name: Seq<char>) -> Seq<
    Seq<char>,
> {
    let a = if trim_space(command_name).len() > 0 {
        seq![lower(command_name)]
    } else {
        Seq::empty()
    };
    let b = if trim_space(app_id).len() > 0 {
        seq![lower(app_id)]
    } else {
        Seq::empty()
    };
    let c = if trim_space(app_name).len() > 0 {
        seq![lower(app_name)]
    } else {
        Seq::empty()
    };
    a + b + c
}

pub open spec fn mentions_any(line_lower: Seq<char>, ns: Seq<Seq<char>>) -> bool {
    exists|k: int| 0 <= k < ns.len() && contains_seq(line_lower, #[trigger] ns[k])
}

/// A line that speaks of build dates, commits or runtimes.
pub open spec fn is_noise_line(line_lower: Seq<char>) -> bool {
    ||| contains_seq(line_lower, "build date"@)
    ||| contains_seq(line_lower, "build time"@)
    ||| contains_seq(line_lower, "commit"@)
    ||| contains_seq(line_lower, "runtime"@)
    ||| contains_seq(line_lower, "luajit"@)
}

/// The score of a version found on line `i`.
pub open spec fn line_score(i: int, line_lower: Seq<char>, ns: Seq<Seq<char>>) -> int {
    1000 - i + (if i == 0 {
        120int
    } else {
        0int
    }) + (if contains_seq(line_lower, "version"@) {
        80int
    } else {
        0int
    }) + (if mentions_any(line_lower, ns) {
        80int
    } else {
        0int
    }) - (if is_noise_line(line_lower) {
        160int
    } else {
        0int
    })
}

/// `looks_like_false_positive`: copyright or licence lines, and plain dotted
/// numbers with a part longer than 8 bytes (timestamps, build ids).
pub open spec fn spec_false_positive(version: Seq<char>, line_lower: Seq<char>) -> bool {
    let l = lower(version);
    ||| contains_seq(line_lower, "copyright"@)
    ||| contains_seq(line_lower, "license"@)
    ||| (!l.contains('-') && !l.contains('+') && exists|k: int|
        0 <= k < split_by(l, seq!['.']).len() && utf8_len(#[trigger] split_by(l, seq!['.'])[k])
            > 8)
}

/// The candidates that the captures of line `i` give, in order.
pub open spec fn line_candidates(
    i: int,
    line: Seq<char>,
    caps: Seq<Option<Seq<char>>>,
    ns: Seq<Seq<char>>,
) -> Seq<(int, Seq<char>)>
    decreases caps.len(),
{
    if caps.len() == 0 {
        Seq::empty()
    } else {
        let prev = line_candidates(i, line, caps.drop_last(), ns);
        match caps.last() {
            Some(raw) => if spec_false_positive(raw, lower(line)) {
                prev
            } else {
                prev.push((line_score(i, lower(line), ns), strip_v(raw)))
            },
            None => prev,
        }
    }
}

/// The candidates of all lines, in order.
pub open spec fn all_candidates(
    lines: Seq<Seq<char>>,
    caps: Seq<Seq<Option<Seq<char>>>>,
    ns: Seq<Seq<char>>,
) -> Seq<(int, Seq<char>)>
    decreases lines.len(),
{
    if lines.len() == 0 {
        Seq::empty()
    } else {
        all_candidates(lines.drop_last(), caps.drop_last(), ns) + line_candidates(
            lines.len() - 1,
            lines.last(),
            caps[lines.len() - 1],
            ns,
        )
    }
}

/// The first candidate with the highest score.
pub open spec fn best_of(cands: Seq<(int, Seq<char>)>) -> Option<(int, Seq<char>)>
    decreases cands.len(),
{
    if cands.len() == 0 {
        None
    } else {
        match best_of(cands.drop_last()) {
            Some(b) => if b.0 >= cands.last().0 {
                Some(b)
            } else {
                Some(cands.last())
            },
            None => Some(cands.last()),
        }
    }
}

/// The version chosen from lines and their captures.
pub open spec fn pick(
    lines: Seq<Seq<char>>,
    caps: Seq<Seq<Option<Seq<char>>>>,
    command_name: Seq<char>,
    app_id: Seq<char>,
    app_name: Seq<char>,
) -> Option<Seq<char>> {
    match best_of(all_candidates(lines, caps, needles(command_name, app_id, app_name))) {
        Some(b) => Some(b.1),
        None => None,
    }
}

/// The group-1 captures of the version pattern on a line; none when the
/// pattern does not compile.
pub open spec fn line_captures(line: Seq<char>) -> Seq<Option<Seq<char>>> {
    match regex_captures(VERSION_TEXT_PATTERN@, line, 1) {
        Some(c) => c,
        None => Seq::empty(),
    }
}

/// `parse_version_from_text`.
pub open spec fn spec_parse_version_from_text(
    text: Seq<char>,
    command_name: Seq<char>,
    app_id: Seq<char>,
    app_name: Seq<char>,
) -> Option<Seq<char>> {
    let ls = first_lines(text);
    pick(ls, ls.map_values(|l: Seq<char>| line_captures(l)), command_name, app_id, app_name)
}

pub open spec fn caps_view(c: Seq<Vec<Option<String>>>) -> Seq<Seq<Option<Seq<char>>>> {
    c.map_values(|v: Vec<Option<String>>| opt_texts(v@))
}

fn needles_exec(command_name: &str, app_id: &str, app_name: &str) -> (r: Vec<Vec<char>>)
    ensures
        r.deep_view() == needles(command_name@, app_id@, app_name@),
{
    let mut r: Vec<Vec<char>> = Vec::new();
    let a = chars_of(command_name);
    let b = chars_of(app_id);
    let c = chars_of(app_name);
    let ghost r0 = r.deep_view();
    assert(r0 =~= Seq::<Seq<char>>::empty());
    if trim_whitespace(&a).len() > 0 {
        let l = to_lower(&a);
        proof {
            lemma_chars_deep_view(&l);
        }
        r.push(l);
    }
    let ghost r1 = r.deep_view();
    assert(r1 =~= r0 + (if trim_space(a@).len() > 0 {
        seq![lower(a@)]
    } else {
        Seq::empty()
    }));
    if trim_whitespace(&b).len() > 0 {
        let l = to_lower(&b);
        proof {
            lemma_chars_deep_view(&l);
        }
        r.push(l);
    }
    let ghost r2 = r.deep_view();
    assert(r2 =~= r1 + (if trim_space(b@).len() > 0 {
        seq![lower(b@)]
    } else {
        Seq::empty()
    }));
    if trim_whitespace(&c).len() > 0 {
        let l = to_lower(&c);
        proof {
            lemma_chars_deep_view(&l);
        }
        r.push(l);
    }
    assert(r.deep_view() =~= r2 + (if trim_space(c@).len() > 0 {
        seq![lower(c@)]
    } else {
        Seq::empty()
    }));
    r
}

fn mentions_any_exec(line_lower: &Vec<char>, ns: &Vec<Vec<char>>) -> (r: bool)
    ensures
        r == mentions_any(line_lower@, ns.deep_view()),
{
    let mut i: usize = 0;
    while i < ns.len()
        invariant
            i <= ns.len(),
            forall|k: int| 0 <= k < i ==> !contains_seq(line_lower@, #[trigger] ns.deep_view()[k]),
        decreases ns.len() - i,
    {
        proof {
            lemma_chars_deep_view(&ns@[i as int]);
        }
        if contains_chars(line_lower, &ns[i]) {
            assert(contains_seq(line_lower@, ns.deep_view()[i as int]));
            return true;
        }
        i = i + 1;
    }
    false
}

fn line_score_exec(i: usize, line_lower: &Vec<char>, ns: &Vec<Vec<char>>) -> (r: i32)
    requires
        i < 80,
    ensures
        r == line_score(i as int, line_lower@, ns.deep_view()),
{
    let mut score: i32 = 1000 - (i as i32);
    if i == 0 {
        score = score + 120;
    }
    if contains_lit(line_lower, "version") {
        score = score + 80;
    }
    if mentions_any_exec(line_lower, ns) {
        score = score + 80;
    }
    if contains_lit(line_lower, "build date") || contains_lit(line_lower, "build time")
        || contains_lit(line_lower, "commit") || contains_lit(line_lower, "runtime")
        || contains_lit(line_lower, "luajit") {
        score = score - 160;
    }
    score
}

fn looks_like_false_positive(version: &Vec<char>, line_lower: &Vec<char>) -> (r: bool)
    ensures
        r == spec_false_positive(version@, line_lower@),
{
    if contains_lit(line_lower, "copyright") || contains_lit(line_lower, "license") {
        return true;
    }
    let l = to_lower(version);
    if !contains_char(&l, '-') && !contains_char(&l, '+') {
        let mut dots: Vec<char> = Vec::new();
        dots.push('.');
        assert(dots@ =~= seq!['.']);
        let parts = split_keep(&l, &dots);
        let mut i: usize = 0;
        while i < parts.len()
            invariant
                i <= parts.len(),
                parts.deep_view() == split_by(l@, seq!['.']),
                l@ == lower(version@),
                !l@.contains('-'),
                !l@.contains('+'),
                forall|k: int| 0 <= k < i ==> utf8_len(#[trigger] parts.deep_view()[k]) <= 8,
            decreases parts.len() - i,
        {
            proof {
                lemma_chars_deep_view(&parts@[i as int]);
            }
            if utf8_len_exceeds(&parts[i], 8) {
                assert(utf8_len(parts.deep_view()[i as int]) > 8);
                assert(utf8_len(split_by(lower(version@), seq!['.'])[i as int]) > 8);
                return true;
            }
            i = i + 1;
        }
    }
    false
}

pub open spec fn best_view(b: Option<(i32, Vec<char>)>) -> Option<(int, Seq<char>)> {
    match b {
        Some(x) => Some((x.0 as int, x.1@)),
        None => None,
    }
}

/// The version on the lines, given the captures of the version pattern on each
/// line: every capture that is not a false positive is scored, and the first
/// one with the highest score wins, without its `v` prefix.
pub fn pick_version(
    lines: &Vec<String>,
    captures: &Vec<Vec<Option<String>>>,
    command_name: &str,
    app_id: &str,
    app_name: &str,
) -> (r: Option<String>)
    requires
        lines.len() == captures.len(),
        lines.len() <= 80,
    ensures
        opt_seq(r) == pick(
            lines.deep_view(),
            caps_view(captures@),
            command_name@,
            app_id@,
            app_name@,
        ),
{
    let ns = needles_exec(command_name, app_id, app_name);
    let ghost nsv = ns.deep_view();
    let ghost lv = lines.deep_view();
    let ghost cv = caps_view(captures@);
    let mut best: Option<(i32, Vec<char>)> = None;
    let mut i: usize = 0;
    while i < lines.len()
        invariant
            i <= lines.len() <= 80,
            lines.len() == captures.len(),
            nsv == ns.deep_view(),
            lv == lines.deep_view(),
            cv == caps_view(captures@),
            best_view(best) == best_of(all_candidates(lv.take(i as int), cv.take(i as int), nsv)),
        decreases lines.len() - i,
    {
        let line = chars_of(lines[i].as_str());
        let low = to_lower(&line);
        let caps = &captures[i];
        let ghost base = all_candidates(lv.take(i as int), cv.take(i as int), nsv);
        let ghost cl = cv[i as int];
        let mut j: usize = 0;
        assert(cl.take(0) =~= Seq::<Option<Seq<char>>>::empty());
        assert(base + line_candidates(i as int, line@, cl.take(0), nsv) =~= base);
        while j < caps.len()
            invariant
                i < lines.len() <= 80,
                j <= caps.len(),
                line@ == lv[i as int],
                low@ == lower(line@),
                cl == opt_texts(caps@),
                best_view(best) == best_of(base + line_candidates(i as int, line@, cl.take(j as int), nsv)),
                nsv == ns.deep_view(),
            decreases caps.len() - j,
        {
            let ghost prev = base + line_candidates(i as int, line@, cl.take(j as int), nsv);
            assert(cl.take(j + 1).drop_last() =~= cl.take(j as int));
            assert(cl.take(j + 1).last() == opt_text(caps@[j as int]));
            match &caps[j] {
                Some(raw) => {
                    let rc = chars_of(raw.as_str());
                    if !looks_like_false_positive(&rc, &low) {
                        let score = line_score_exec(i, &low, &ns);
                        let version = strip_v_prefix(&rc);
                        let ghost cand = (score as int, version@);
                        proof {
                            assert(base + line_candidates(i as int, line@, cl.take(j + 1), nsv)
                                =~= prev.push(cand));
                            assert(prev.push(cand).drop_last() =~= prev);
                        }
                        let replace = match &best {
                            Some(b) => b.0 < score,
                            None => true,
                        };
                        if replace {
                            best = Some((score, version));
                        }
                    } else {
                        assert(base + line_candidates(i as int, line@, cl.take(j + 1), nsv)
                            =~= prev);
                    }
                },
                None => {
                    assert(base + line_candidates(i as int, line@, cl.take(j + 1), nsv) =~= prev);
                },
            }
            j = j + 1;
        }
        proof {
            assert(cl.take(caps.len() as int) =~= cl);
            assert(lv.take(i + 1).drop_last() =~= lv.take(i as int));
            assert(cv.take(i + 1).drop_last() =~= cv.take(i as int));
            assert(cv.take(i + 1)[i as int] == cl);
        }
        i = i + 1;
    }
    assert(lv.take(lines.len() as int) =~= lv);
    assert(cv.take(lines.len() as int) =~= cv);
    match best {
        Some(b) => Some(string_of(&b.1)),
        None => None,
    }
}

/// The most likely version in `text`, scoring each version-looking match on
/// the first 80 lines (earlier lines, lines that say "version" or name the
/// app score higher; build-date, commit and runtime lines lower).
pub fn parse_version_from_text(text: &str, command_name: &str, app_id: &str, app_name: &str) -> (r:
    Option<String>)
    ensures
        opt_seq(r) == spec_parse_version_from_text(text@, command_name@, app_id@, app_name@),
{
    let t = chars_of(text);
    let ls = first_lines_exec(&t);
    let lines = crate::text::strings_of(&ls);
    let mut caps: Vec<Vec<Option<String>>> = Vec::new();
    let mut i: usize = 0;
    while i < lines.len()
        invariant
            i <= lines.len(),
            lines.deep_view() == first_lines(text@),
            caps.len() == i,
            forall|k: int|
                0 <= k < i ==> #[trigger] caps_view(caps@)[k] == line_captures(lines.deep_view()[k]),
        decreases lines.len() - i,
    {
        let c = match regex_captures_text(VERSION_TEXT_PATTERN, lines[i].as_str(), 1) {
            Some(c) => c,
            None => {
                let e: Vec<Option<String>> = Vec::new();
                assert(opt_texts(e@) =~= Seq::<Option<Seq<char>>>::empty());
                e
            },
        };
        proof {
            assert(lines.deep_view()[i as int] == lines@[i as int]@);
            assert(opt_texts(c@) == line_captures(
                lines.deep_view()[i as int],
            ));
        }
        let ghost before = caps@;
        caps.push(c);
        proof {
            assert(caps@ =~= before.push(c));
            assert forall|k: int| 0 <= k < i + 1 implies #[trigger] caps_view(caps@)[k]
                == line_captures(lines.deep_view()[k]) by {
                if k < i {
                    assert(caps@[k] == before[k]);
                    assert(caps_view(before)[k] == line_captures(lines.deep_view()[k]));
                } else {
                    assert(caps@[k] == c);
                }
            }
        }
        i = i + 1;
    }
    proof {
        let ls_v = first_lines(text@);
        assert(ls_v.len() <= 80);
        assert(caps_view(caps@) =~= ls_v.map_values(|l: Seq<char>| line_captures(l)));
    }
    pick_version(&lines, &caps, command_name, app_id, app_name)
}

/// `clean_version`: the value without surrounding white space and quotes, and
/// the version found in it, or the value itself without a `v` prefix.
pub open spec fn spec_clean_version(value: Seq<char>) -> Option<Seq<char>> {
    let t = trim_set(trim_space(value), seq!['\'', '"']);
    if t.len() == 0 {
        None
    } else {
        match spec_parse_version_from_text(t, ""@, ""@, ""@) {
            Some(v) => Some(v),
            None => Some(strip_v(t)),
        }
    }
}

pub fn clean_version(value: &str) -> (r: Option<String>)
    ensures
        opt_seq(r) == spec_clean_version(value@),
{
    let v = chars_of(value);
    let mut quotes: Vec<char> = Vec::new();
    quotes.push('\'');
    quotes.push('"');
    assert(quotes@ =~= seq!['\'', '"']);
    let t = trim_chars(&trim_whitespace(&v), &quotes);
    if t.len() == 0 {
        return None;
    }
    let ts = string_of(&t);
    match parse_version_from_text(ts.as_str(), "", "", "") {
        Some(found) => Some(found),
        None => Some(string_of(&strip_v_prefix(&t))),
    }
}

// ---------------------------------------------------------------------------
// Metadata files
// ---------------------------------------------------------------------------

/// `serde_json::from_str::<serde_json::Value>(text)`, then `Value::get(key)` and
/// `Value::as_str`: `None` when the text is not JSON, `Some(None)` when the
/// top-level value has no string under `key`.
pub uninterp spec fn json_string_field(text: Seq<char>, key: Seq<char>) -> Option<Option<Seq<char>>>;

/// Parses `text` with `serde_json::from_str` into a `serde_json::Value` and
/// reads the string under `key` with `Value::get` (an object's member, `None`
/// for any other value, in serde_json's `value/index.rs`) and `Value::as_str`
/// (`None` unless a string, in `value/mod.rs`). The parse depends on the text
/// alone. Claims only that the result is the named one.
#[verifier::external_body]
fn json_field(text: &str, key: &str) -> (r: Option<Option<String>>)
    ensures
        match r {
            Some(Some(v)) => json_string_field(text@, key@) == Some(Some(v@)),
            Some(None) => json_string_field(text@, key@) == Some(None::<Seq<char>>),
            None => json_string_field(text@, key@).is_none(),
        },
{
    match serde_json::from_str::<serde_json::Value>(text) {
        Ok(json) => match json.get(key) {
            Some(v) => match v.as_str() {
                Some(s) => Some(Some(s.to_string())),
                None => Some(None),
            },
            None => Some(None),
        },
        Err(_) => None,
    }
}

/// The version that a JSON metadata file `rel` with contents `text` gives:
/// its cleaned `version`, else its cleaned `buildNumber`.
pub open spec fn spec_json_version(rel: Seq<char>, text: Seq<char>) -> Option<(Seq<char>, Seq<char>)> {
    if trim_space(text).len() == 0 {
        None
    } else {
        match json_string_field(text, "version"@) {
            None => None,
            Some(v) => {
                let cleaned = match v {
                    Some(s) => spec_clean_version(s),
                    None => None,
                };
                match cleaned {
                    Some(ver) => Some((ver, rel)),
                    None => match json_string_field(text, "buildNumber"@) {
                        Some(Some(b)) => match spec_clean_version(b) {
                            Some(ver) => Some((ver, rel + ":buildNumber"@)),
                            None => None,
                        },
                        _ => None,
                    },
                }
            },
        }
    }
}

pub fn metadata_json_version(rel: &str, text: &str) -> (r: Option<VersionProbeResult>)
    ensures
        opt_probe(r) == spec_json_version(rel@, text@),
{
    let t = chars_of(text);
    if trim_whitespace(&t).len() == 0 {
        return None;
    }
    let v = match json_field(text, "version") {
        None => {
            return None;
        },
        Some(v) => v,
    };
    let cleaned = match &v {
        Some(s) => clean_version(s.as_str()),
        None => None,
    };
    match cleaned {
        Some(ver) => Some(VersionProbeResult { version: ver, source: String::from_str(rel) }),
        None => match json_field(text, "buildNumber") {
            Some(Some(b)) => match clean_version(b.as_str()) {
                Some(ver) => {
                    let mut src = chars_of(rel);
                    append_str(&mut src, ":buildNumber");
                    Some(VersionProbeResult { version: ver, source: string_of(&src) })
                },
                None => None,
            },
            _ => None,
        },
    }
}

/// The version that a plain metadata file `rel` with contents `text` gives.
pub open spec fn spec_text_version(rel: Seq<char>, text: Seq<char>) -> Option<(Seq<char>, Seq<char>)> {
    match spec_parse_version_from_text(text, ""@, ""@, ""@) {
        Some(v) => Some((v, rel)),
        None => None,
    }
}

pub fn metadata_text_version(rel: &str, text: &str) -> (r: Option<VersionProbeResult>)
    ensures
        opt_probe(r) == spec_text_version(rel@, text@),
{
    match parse_version_from_text(text, "", "", "") {
        Some(v) => Some(VersionProbeResult { version: v, source: String::from_str(rel) }),
        None => None,
    }
}

/// What a probe printed: its standard output, then its standard error, on a
/// new line when the output so far does not end one.
pub open spec fn spec_combined_output(stdout: Option<Seq<char>>, stderr: Option<Seq<char>>) -> Seq<char> {
    let out = match stdout {
        Some(o) => o,
        None => Seq::empty(),
    };
    match stderr {
        Some(e) => out + (if out.len() > 0 && out.last() != '\n' {
            seq!['\n']
        } else {
            Seq::empty()
        }) + e,
        None => out,
    }
}

pub fn combined_output(stdout: Option<String>, stderr: Option<String>) -> (r: String)
    ensures
        r@ == spec_combined_output(opt_seq(stdout), opt_seq(stderr)),
{
    let mut out: Vec<char> = match &stdout {
        Some(o) => chars_of(o.as_str()),
        None => Vec::new(),
    };
    match &stderr {
        Some(e) => {
            if out.len() > 0 && out[out.len() - 1] != '\n' {
                out.push('\n');
            }
            append_str(&mut out, e.as_str());
        },
        None => {},
    }
    string_of(&out)
}

// ---------------------------------------------------------------------------
// Detection steps
// ---------------------------------------------------------------------------

/// The metadata files looked at, in order: four JSON files, then five text files.
pub open spec fn metadata_rel(stage: int) -> Seq<char> {
    if stage == 0 {
        "product-info.json"@
    } else if stage == 1 {
        "package.json"@
    } else if stage == 2 {
        "resources/app/package.json"@
    } else if stage == 3 {
        "app/package.json"@
    } else if stage == 4 {
        "VERSION"@
    } else if stage == 5 {
        "VERSION.txt"@
    } else if stage == 6 {
        "version.txt"@
    } else if stage == 7 {
        "build.txt"@
    } else {
        "RELEASE"@
    }
}

fn metadata_rel_exec(stage: usize) -> (r: &'static str)
    ensures
        r@ == metadata_rel(stage as int),
{
    if stage == 0 {
        "product-info.json"
    } else if stage == 1 {
        "package.json"
    } else if stage == 2 {
        "resources/app/package.json"
    } else if stage == 3 {
        "app/package.json"
    } else if stage == 4 {
        "VERSION"
    } else if stage == 5 {
        "VERSION.txt"
    } else if stage == 6 {
        "version.txt"
    } else if stage == 7 {
        "build.txt"
    } else {
        "RELEASE"
    }
}

/// The arguments of the command probes, in order: `--version`, `-version`,
/// `-v`, `version`, `-V`, then no arguments.
pub open spec fn probe_args(k: int) -> Seq<Seq<char>> {
    if k == 0 {
        seq!["--version"@]
    } else if k == 1 {
        seq!["-version"@]
    } else if k == 2 {
        seq!["-v"@]
    } else if k == 3 {
        seq!["version"@]
    } else if k == 4 {
        seq!["-V"@]
    } else {
        Seq::empty()
    }
}

fn probe_args_exec(k: usize) -> (r: Vec<String>)
    ensures
        r.deep_view() == probe_args(k as int),
{
    let mut r: Vec<String> = Vec::new();
    if k == 0 {
        r.push(String::from_str("--version"));
    } else if k == 1 {
        r.push(String::from_str("-version"));
    } else if k == 2 {
        r.push(String::from_str("-v"));
    } else if k == 3 {
        r.push(String::from_str("version"));
    } else if k == 4 {
        r.push(String::from_str("-V"));
    }
    assert(r.deep_view() =~= probe_args(k as int));
    r
}

/// How a probe's arguments are shown: joined with spaces, or `<no args>`.
pub open spec fn rendered_args(args: Seq<Seq<char>>) -> Seq<char> {
    if args.len() == 0 {
        "<no args>"@
    } else {
        crate::text::join(args, seq![' '])
    }
}

/// What the detection asks for next.
#[derive(Debug)]
pub enum DetectAction {
    /// Read this metadata file; answer `Missing` when it is not a file.
    ReadMetadata(String),
    /// Tell whether the executable is a file.
    CheckExecutable(String),
    /// Run the executable with these arguments in the app directory.
    RunProbe(Vec<String>),
    /// Detection is over.
    Done(Result<Option<VersionProbeResult>, String>),
}

/// The answer to the last action.
#[derive(Debug)]
pub enum DetectEvent {
    Missing,
    Text(String),
    Failed(String),
    ExecutableIsFile(bool),
    ProbeOutput(Option<String>),
}

pub ghost enum ActionView {
    ReadMetadata(Seq<char>),
    CheckExecutable(Seq<char>),
    RunProbe(Seq<Seq<char>>),
    Done(Result<Option<(Seq<char>, Seq<char>)>, Seq<char>>),
}

impl View for DetectAction {
    type V = ActionView;

    open spec fn view(&self) -> ActionView {
        match self {
            DetectAction::ReadMetadata(p) => ActionView::ReadMetadata(p@),
            DetectAction::CheckExecutable(p) => ActionView::CheckExecutable(p@),
            DetectAction::RunProbe(a) => ActionView::RunProbe(a.deep_view()),
            DetectAction::Done(r) => ActionView::Done(
                match r {
                    Ok(o) => Ok(opt_probe(*o)),
                    Err(m) => Err(m@),
                },
            ),
        }
    }
}

/// Version detection after an install, one step at a time: metadata files
/// first (stages 0 to 8), then whether the executable is a file (stage 9), then
/// the command probes (stages 10 to 15).
pub struct VersionDetection {
    pub stage: usize,
    pub app_dir: String,
    pub exec_abs: String,
    pub command_name: String,
    pub app_id: String,
    pub app_name: String,
}

/// The stage after which detection is over.
pub open spec fn finished_stage() -> int {
    16
}

/// The action of a stage.
pub open spec fn action_at(d: VersionDetection, stage: int) -> ActionView {
    if stage < 9 {
        ActionView::ReadMetadata(crate::pathstr::path_join(d.app_dir@, metadata_rel(stage)))
    } else if stage == 9 {
        ActionView::CheckExecutable(d.exec_abs@)
    } else if stage < 16 {
        ActionView::RunProbe(probe_args(stage - 10))
    } else {
        ActionView::Done(Ok(None))
    }
}

/// What an answer at a stage decides: `Some` of the outcome when detection is
/// over, `None` to go on with the next stage.
pub open spec fn decide(d: VersionDetection, stage: int, e: DetectEvent) -> Option<
    Result<Option<(Seq<char>, Seq<char>)>, Seq<char>>,
> {
    if stage < 4 {
        match e {
            DetectEvent::Failed(m) => Some(Err(m@)),
            DetectEvent::Text(t) => match spec_json_version(metadata_rel(stage), t@) {
                Some(r) => Some(Ok(Some(r))),
                None => None,
            },
            _ => None,
        }
    } else if stage < 9 {
        match e {
            DetectEvent::Failed(m) => Some(Err(m@)),
            DetectEvent::Text(t) => match spec_text_version(metadata_rel(stage), t@) {
                Some(r) => Some(Ok(Some(r))),
                None => None,
            },
            _ => None,
        }
    } else if stage == 9 {
        match e {
            DetectEvent::ExecutableIsFile(true) => None,
            _ => Some(Ok(None)),
        }
    } else if stage < 16 {
        match e {
            DetectEvent::ProbeOutput(Some(out)) => match spec_parse_version_from_text(
                out@,
                d.command_name@,
                d.app_id@,
                d.app_name@,
            ) {
                Some(v) => Some(
                    Ok(Some((v, d.exec_abs@ + seq![' '] + rendered_args(probe_args(stage - 10))))),
                ),
                None => None,
            },
            _ => None,
        }
    } else {
        Some(Ok(None))
    }
}

impl VersionDetection {
    fn action(&self) -> (r: DetectAction)
        ensures
            r@ == action_at(*self, self.stage as int),
    {
        if self.stage < 9 {
            let rel = metadata_rel_exec(self.stage);
            let p = crate::pathstr::join_path_str(&chars_of(self.app_dir.as_str()), rel);
            DetectAction::ReadMetadata(string_of(&p))
        } else if self.stage == 9 {
            DetectAction::CheckExecutable(self.exec_abs.clone())
        } else if self.stage < 16 {
            DetectAction::RunProbe(probe_args_exec(self.stage - 10))
        } else {
            DetectAction::Done(Ok(None))
        }
    }

    /// Takes the answer to the last action and returns the next action.
    pub fn step(&mut self, event: DetectEvent) -> (r: DetectAction)
        ensures
            final(self).app_dir == old(self).app_dir,
            final(self).exec_abs == old(self).exec_abs,
            final(self).command_name == old(self).command_name,
            final(self).app_id == old(self).app_id,
            final(self).app_name == old(self).app_name,
            match decide(*old(self), old(self).stage as int, event) {
                Some(outcome) => r@ == ActionView::Done(outcome) && final(self).stage
                    == finished_stage(),
                None => final(self).stage == old(self).stage + 1 && r@ == action_at(
                    *final(self),
                    final(self).stage as int,
                ),
            },
    {
        let stage = self.stage;
        let decided: Option<Result<Option<VersionProbeResult>, String>> = if stage < 4 {
            match event {
                DetectEvent::Failed(m) => Some(Err(m)),
                DetectEvent::Text(t) => match metadata_json_version(metadata_rel_exec(stage), t.as_str()) {
                    Some(r) => Some(Ok(Some(r))),
                    None => None,
                },
                _ => None,
            }
        } else if stage < 9 {
            match event {
                DetectEvent::Failed(m) => Some(Err(m)),
                DetectEvent::Text(t) => match metadata_text_version(metadata_rel_exec(stage), t.as_str()) {
                    Some(r) => Some(Ok(Some(r))),
                    None => None,
                },
                _ => None,
            }
        } else if stage == 9 {
            match event {
                DetectEvent::ExecutableIsFile(true) => None,
                _ => Some(Ok(None)),
            }
        } else if stage < 16 {
            match event {
                DetectEvent::ProbeOutput(Some(out)) => match parse_version_from_text(
                    out.as_str(),
                    self.command_name.as_str(),
                    self.app_id.as_str(),
                    self.app_name.as_str(),
                ) {
                    Some(v) => {
                        let args = probe_args_exec(stage - 10);
                        let mut src = chars_of(self.exec_abs.as_str());
                        src.push(' ');
                        if args.len() == 0 {
                            append_str(&mut src, "<no args>");
                        } else {
                            let av = crate::text::chars_of_all(&args);
                            let mut space: Vec<char> = Vec::new();
                            space.push(' ');
                            assert(space@ =~= seq![' ']);
                            append_chars(&mut src, &crate::text::join_chars(&av, &space));
                        }
                        assert(src@ =~= self.exec_abs@ + seq![' '] + rendered_args(
                            probe_args(stage - 10),
                        ));
                        Some(Ok(Some(VersionProbeResult { version: v, source: string_of(&src) })))
                    },
                    None => None,
                },
                _ => None,
            }
        } else {
            Some(Ok(None))
        };
        match decided {
            Some(outcome) => {
                self.stage = 16;
                DetectAction::Done(outcome)
            },
            None => {
                self.stage = stage + 1;
                self.action()
            },
        }
    }
}

/// Starts version detection for an app installed in `app_dir` whose executable
/// is `exec_path_inside_app`; returns the detection and its first action.
pub fn detect_installed_version(
    app_dir: &str,
    exec_path_inside_app: &str,
    command_name: &str,
    app_id: &str,
    app_name: &str,
) -> (r: (VersionDetection, DetectAction))
    ensures
        r.0.stage == 0,
        r.0.app_dir@ == app_dir@,
        r.0.exec_abs@ == crate::pathstr::path_join(app_dir@, exec_path_inside_app@),
        r.0.command_name@ == command_name@,
        r.0.app_id@ == app_id@,
        r.0.app_name@ == app_name@,
        r.1@ == action_at(r.0, 0),
{
    let exec_abs = crate::pathstr::join_path(&chars_of(app_dir), &chars_of(exec_path_inside_app));
    let d = VersionDetection {
        stage: 0,
        app_dir: String::from_str(app_dir),
        exec_abs: string_of(&exec_abs),
        command_name: String::from_str(command_name),
        app_id: String::from_str(app_id),
        app_name: String::from_str(app_name),
    };
    let a = d.action();
    (d, a)
}

} // verus!
