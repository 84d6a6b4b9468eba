//! What an archive holds: entry safety, the common root directory, and the
//! files that look like the app's executable, icon, desktop entry or manifest.
use vstd::prelude::*;
use crate::filename::{guess_from_filename, opt_seq, spec_guess_from_filename, FilenameGuess};
use crate::pathstr::{
    components, dot, dotdot, extension, file_name, file_name_or_empty, has_component_ci,
    has_root, is_normal, path_components, path_extension, slash, has_component_ignore_case,
};
use crate::text::{
    chars_lt, chars_of, concat_chars, contains_lit, contains_seq, copy_chars, ends_with,
    ends_with_lit, eq_chars, eq_ignore_case, eq_lit, lemma_chars_deep_view, lemma_seq_lt_irreflexive,
    lemma_seq_lt_transitive, lemma_seq_lt_trichotomy, lower, replace_char, replace_char_char,
    seq_lt, starts_with, starts_with_chars, string_of, to_lower, contains_chars, append_chars,
};
use crate::state::clone_strings;

verus! {

// ---------------------------------------------------------------------------
// Entries
// ---------------------------------------------------------------------------

/// One entry of an archive.
#[derive(Debug)]
pub struct ArchiveEntry {
    pub path: String,
    pub is_file: bool,
    pub is_dir: bool,
    pub is_symlink: bool,
    pub executable: bool,
    pub size: u64,
    pub unsafe_reason: Option<String>,
}

pub ghost struct EntryView {
    pub path: Seq<char>,
    pub is_file: bool,
    pub is_dir: bool,
    pub is_symlink: bool,
    pub executable: bool,
    pub size: u64,
    pub unsafe_reason: Option<Seq<char>>,
}

impl View for ArchiveEntry {
    type V = EntryView;

    open spec fn view(&self) -> EntryView {
        EntryView {
            path: self.path@,
            is_file: self.is_file,
            is_dir: self.is_dir,
            is_symlink: self.is_symlink,
            executable: self.executable,
            size: self.size,
            unsafe_reason: opt_seq(self.unsafe_reason),
        }
    }
}

pub open spec fn entry_views(es: Seq<ArchiveEntry>) -> Seq<EntryView> {
    es.map_values(|e: ArchiveEntry| e@)
}

fn clone_opt_string(o: &Option<String>) -> (r: Option<String>)
    ensures
        opt_seq(r) == opt_seq(*o),
{
    match o {
        Some(s) => Some(s.clone()),
        None => None,
    }
}

impl ArchiveEntry {
    pub fn duplicate(&self) -> (r: ArchiveEntry)
        ensures
            r@ == self@,
    {
        ArchiveEntry {
            path: self.path.clone(),
            is_file: self.is_file,
            is_dir: self.is_dir,
            is_symlink: self.is_symlink,
            executable: self.executable,
            size: self.size,
            unsafe_reason: clone_opt_string(&self.unsafe_reason),
        }
    }
}

/// Why the components `cs` are unsafe to extract: the first `..` or root
/// component decides.
pub open spec fn components_reason(cs: Seq<Seq<char>>) -> Option<Seq<char>>
    decreases cs.len(),
{
    if cs.len() == 0 {
        None
    } else if cs[0] == dotdot() {
        Some("path traversal using .."@)
    } else if cs[0] == slash() {
        Some("root/prefix path"@)
    } else {
        components_reason(cs.drop_first())
    }
}

/// `unsafe_path_reason`: absolute paths, `..` components and root components
/// are unsafe.
pub open spec fn spec_unsafe_path_reason(p: Seq<char>) -> Option<Seq<char>> {
    if has_root(p) {
        Some("absolute path"@)
    } else {
        components_reason(components(p))
    }
}

/// Why extracting an entry at `path` would be unsafe, or `None` when it is safe.
pub fn unsafe_path_reason(path: &str) -> (r: Option<String>)
    ensures
        opt_seq(r) == spec_unsafe_path_reason(path@),
{
    let p = chars_of(path);
    if p.len() > 0 && p[0] == '/' {
        return Some(String::from_str("absolute path"));
    }
    let cs = path_components(&p);
    let ghost cv = cs.deep_view();
    let mut i: usize = 0;
    assert(cv.skip(0) =~= cv);
    while i < cs.len()
        invariant
            i <= cs.len(),
            cv == cs.deep_view(),
            cv == components(p@),
            p@ == path@,
            !has_root(p@),
            components_reason(cv) == components_reason(cv.skip(i as int)),
        decreases cs.len() - i,
    {
        proof {
            lemma_chars_deep_view(&cs@[i as int]);
            assert(cv.skip(i as int)[0] == cv[i as int]);
            assert(cv.skip(i as int).drop_first() =~= cv.skip(i + 1));
        }
        if eq_lit(&cs[i], "..") {
            proof {
                reveal_strlit("..");
                assert(cv[i as int] =~= dotdot());
            }
            return Some(String::from_str("path traversal using .."));
        }
        if eq_lit(&cs[i], "/") {
            proof {
                reveal_strlit("/");
                assert(cv[i as int] =~= slash());
            }
            return Some(String::from_str("root/prefix path"));
        }
        proof {
            reveal_strlit("..");
            reveal_strlit("/");
            if cv[i as int] == dotdot() {
                assert(cv[i as int] =~= ".."@);
            }
            if cv[i as int] == slash() {
                assert(cv[i as int] =~= "/"@);
            }
        }
        i = i + 1;
    }
    None
}

/// An archive entry as read from its header: the executable flag is any of the
/// mode's execute bits, and the unsafe reason is that of its path.
pub fn archive_entry(
    path: String,
    is_file: bool,
    is_dir: bool,
    is_symlink: bool,
    mode: u32,
    size: u64,
) -> (r: ArchiveEntry)
    ensures
        r@ == (EntryView {
            path: path@,
            is_file,
            is_dir,
            is_symlink,
            executable: (mode & 0o111) != 0,
            size,
            unsafe_reason: spec_unsafe_path_reason(path@),
        }),
{
    let unsafe_reason = unsafe_path_reason(path.as_str());
    ArchiveEntry {
        path,
        is_file,
        is_dir,
        is_symlink,
        executable: (mode & 0o111) != 0,
        size,
        unsafe_reason,
    }
}

// ---------------------------------------------------------------------------
// Common root
// ---------------------------------------------------------------------------

/// The first component of `p` when it is a name.
pub open spec fn root_of(p: Seq<char>) -> Option<Seq<char>> {
    let cs = components(p);
    if cs.len() > 0 && is_normal(cs[0]) {
        Some(cs[0])
    } else {
        None
    }
}

/// The directory that every entry starting with a name starts with: some entry
/// starts with it, and no entry starts with a different name.
pub open spec fn spec_common_root(es: Seq<EntryView>) -> Option<Seq<char>> {
    if exists|i: int| 0 <= i < es.len() && (#[trigger] root_of(es[i].path)).is_some() {
        let i = choose|i: int| 0 <= i < es.len() && (#[trigger] root_of(es[i].path)).is_some();
        let r = root_of(es[i].path).unwrap();
        if forall|j: int|
            0 <= j < es.len() && (#[trigger] root_of(es[j].path)).is_some() ==> root_of(
                es[j].path,
            ).unwrap() == r {
            Some(r)
        } else {
            None
        }
    } else {
        None
    }
}

fn root_of_exec(p: &Vec<char>) -> (r: Option<Vec<char>>)
    ensures
        match r {
            Some(v) => root_of(p@) == Some(v@),
            None => root_of(p@).is_none(),
        },
{
    let cs = path_components(p);
    if cs.len() == 0 {
        return None;
    }
    proof {
        lemma_chars_deep_view(&cs@[0]);
    }
    let c = &cs[0];
    let is_slash = c.len() == 1 && c[0] == '/';
    let is_dot = c.len() == 1 && c[0] == '.';
    let is_dotdot = c.len() == 2 && c[0] == '.' && c[1] == '.';
    proof {
        if c@ == slash() {
            assert(c@[0] == '/');
        }
        if c@ == dot() {
            assert(c@[0] == '.');
        }
        if c@ == dotdot() {
            assert(c@[0] == '.' && c@[1] == '.');
        }
        if is_slash {
            assert(c@ =~= slash());
        }
        if is_dot {
            assert(c@ =~= dot());
        }
        if is_dotdot {
            assert(c@ =~= dotdot());
        }
    }
    if is_slash || is_dot || is_dotdot {
        None
    } else {
        Some(copy_chars(c))
    }
}

/// The common top-level directory of the entries.
pub fn common_root(entries: &Vec<ArchiveEntry>) -> (r: Option<String>)
    ensures
        opt_seq(r) == spec_common_root(entry_views(entries@)),
{
    let ghost es = entry_views(entries@);
    let mut found: Option<Vec<char>> = None;
    let mut found_at: usize = 0;
    let mut many = false;
    let mut i: usize = 0;
    while i < entries.len()
        invariant
            i <= entries.len(),
            es == entry_views(entries@),
            found_at <= i,
            match found {
                Some(r) => found_at < i && root_of(es[found_at as int].path) == Some(r@),
                None => forall|k: int| 0 <= k < i ==> (#[trigger] root_of(es[k].path)).is_none(),
            },
            found is None ==> !many,
            found matches Some(r) ==> (many <==> exists|k: int|
                0 <= k < i && (#[trigger] root_of(es[k].path)).is_some() && root_of(
                    es[k].path,
                ).unwrap() != r@),
        decreases entries.len() - i,
    {
        let p = chars_of(entries[i].path.as_str());
        assert(es[i as int].path == p@);
        let ro = root_of_exec(&p);
        match ro {
            Some(r) => {
                match &found {
                    Some(f) => {
                        if !eq_chars(f, &r) {
                            many = true;
                        }
                    },
                    None => {
                        found = Some(r);
                        found_at = i;
                    },
                }
            },
            None => {},
        }
        i = i + 1;
    }
    match found {
        Some(r) => {
            if many {
                proof {
                    let k = choose|k: int|
                        0 <= k < entries.len() && (#[trigger] root_of(es[k].path)).is_some()
                            && root_of(es[k].path).unwrap() != r@;
                    let c = choose|c: int|
                        0 <= c < es.len() && (#[trigger] root_of(es[c].path)).is_some();
                    let rc = root_of(es[c].path).unwrap();
                    if rc == r@ {
                        assert(root_of(es[k].path).unwrap() != rc);
                    } else {
                        assert(root_of(es[found_at as int].path).unwrap() != rc);
                    }
                }
                None
            } else {
                proof {
                    assert(root_of(es[found_at as int].path).is_some());
                }
                Some(string_of(&r))
            }
        },
        None => None,
    }
}

// ---------------------------------------------------------------------------
// Executable candidates
// ---------------------------------------------------------------------------

/// A file that may be the app's executable, with its score.
#[derive(Debug)]
pub struct ExecutableCandidate {
    pub path: String,
    pub score: i32,
    pub reason: String,
}

impl View for ExecutableCandidate {
    type V = (Seq<char>, int, Seq<char>);

    open spec fn view(&self) -> (Seq<char>, int, Seq<char>) {
        (self.path@, self.score as int, self.reason@)
    }
}

pub open spec fn candidate_views(cs: Seq<ExecutableCandidate>) -> Seq<(Seq<char>, int, Seq<char>)> {
    cs.map_values(|c: ExecutableCandidate| c@)
}

/// Shared libraries and helper binaries that are never the app.
pub open spec fn spec_library_or_helper(file_name: Seq<char>) -> bool {
    let l = lower(file_name);
    ||| ends_with(l, ".so"@)
    ||| contains_seq(l, ".so."@)
    ||| ends_with(l, ".dll"@)
    ||| ends_with(l, ".dylib"@)
    ||| ends_with(l, ".a"@)
    ||| l == "crashpad_handler"@
    ||| l == "chrome-sandbox"@
}

fn looks_like_library_or_helper(file_name: &Vec<char>) -> (r: bool)
    ensures
        r == spec_library_or_helper(file_name@),
{
    let l = to_lower(file_name);
    ends_with_lit(&l, ".so") || contains_lit(&l, ".so.") || ends_with_lit(&l, ".dll")
        || ends_with_lit(&l, ".dylib") || ends_with_lit(&l, ".a") || eq_lit(&l, "crashpad_handler")
        || eq_lit(&l, "chrome-sandbox")
}

/// An AppImage bundle, by its file name.
pub open spec fn is_appimage(file_name: Seq<char>) -> bool {
    ends_with(lower(file_name), ".appimage"@)
}

/// The score of an AppImage bundle: below an exact app-name match, above an
/// `<app>-<arch>` name and any name that only starts with the app name.
pub open spec fn appimage_score() -> int {
    136
}

/// `score_executable`: how likely a file is the app's executable. AppImage
/// bundles have a score of their own, between exact app-name matches and
/// `<app>-<arch>` names.
pub open spec fn spec_score(
    file_name: Seq<char>,
    app: Seq<char>,
    arch: Seq<char>,
    path: Seq<char>,
) -> int {
    if is_appimage(file_name) {
        appimage_score()
    } else {
        spec_name_score(file_name, app, arch, path)
    }
}

/// The score of a file that is not an AppImage bundle: `1`, plus `100` for the
/// app name itself, `85` for `<app>-<arch>` or `<app>_<arch>`, `45` for a name
/// that starts with the app name, `15` under a `bin` directory, and `5` for a
/// `.sh` or `.run` script.
pub open spec fn spec_name_score(
    file_name: Seq<char>,
    app: Seq<char>,
    arch: Seq<char>,
    path: Seq<char>,
) -> int {
    let l = lower(file_name);
    let al = lower(app);
    let us = replace_char(al, '-', seq!['_']);
    let da = replace_char(al, '_', seq!['-']);
    let named = if al.len() > 0 {
        (if l == al || l == us || l == da {
            100int
        } else {
            0int
        }) + (if arch.len() > 0 && (l == da + seq!['-'] + arch || l == us + seq!['_'] + arch) {
            85int
        } else {
            0int
        }) + (if starts_with(l, al) || starts_with(l, us) || starts_with(l, da) {
            45int
        } else {
            0int
        }) + (if has_component_ci(path, "bin"@) {
            15int
        } else {
            0int
        })
    } else {
        0int
    };
    1 + named + (if ends_with(l, ".sh"@) || ends_with(l, ".run"@) {
        5int
    } else {
        0int
    })
}

fn score_executable(file_name: &Vec<char>, app: &Vec<char>, arch: &Vec<char>, path: &Vec<char>) -> (r:
    i32)
    ensures
        r == spec_score(file_name@, app@, arch@, path@),
{
    let l = to_lower(file_name);
    if ends_with_lit(&l, ".appimage") {
        return 136;
    }
    let al = to_lower(app);
    let us = replace_char_char(&al, '-', '_');
    let da = replace_char_char(&al, '_', '-');
    let mut score: i32 = 1;
    if al.len() > 0 {
        if eq_chars(&l, &al) || eq_chars(&l, &us) || eq_chars(&l, &da) {
            score = score + 100;
        }
        if arch.len() > 0 {
            let mut dash_form = copy_chars(&da);
            dash_form.push('-');
            append_chars(&mut dash_form, arch);
            let mut us_form = copy_chars(&us);
            us_form.push('_');
            append_chars(&mut us_form, arch);
            assert(dash_form@ =~= da@ + seq!['-'] + arch@);
            assert(us_form@ =~= us@ + seq!['_'] + arch@);
            if eq_chars(&l, &dash_form) || eq_chars(&l, &us_form) {
                score = score + 85;
            }
        }
        if starts_with_chars(&l, &al) || starts_with_chars(&l, &us) || starts_with_chars(&l, &da) {
            score = score + 45;
        }
        if has_component_ignore_case(path, "bin") {
            score = score + 15;
        }
    }
    if ends_with_lit(&l, ".sh") || ends_with_lit(&l, ".run") {
        score = score + 5;
    }
    score
}

/// `explain_score`: the reason shown for a candidate.
pub open spec fn spec_explain(file_name: Seq<char>, app: Seq<char>, arch: Seq<char>, score: int) -> Seq<
    char,
> {
    if app.len() > 0 && lower(file_name) == lower(app) {
        "exact filename matches guessed app name"@
    } else if is_appimage(file_name) {
        "AppImage bundle"@
    } else if app.len() > 0 && arch.len() > 0 && contains_seq(lower(file_name), lower(arch)) {
        "filename contains guessed app and architecture pattern"@
    } else if score >= 45 {
        "filename starts with guessed app name"@
    } else {
        "executable file"@
    }
}

fn explain_score(file_name: &Vec<char>, app: &Vec<char>, arch: &Vec<char>, score: i32) -> (r: String)
    ensures
        r@ == spec_explain(file_name@, app@, arch@, score as int),
{
    if app.len() > 0 && eq_ignore_case(file_name, app) {
        String::from_str("exact filename matches guessed app name")
    } else if ends_with_lit(&to_lower(file_name), ".appimage") {
        String::from_str("AppImage bundle")
    } else if app.len() > 0 && arch.len() > 0 && contains_chars(&to_lower(file_name), &to_lower(arch)) {
        String::from_str("filename contains guessed app and architecture pattern")
    } else if score >= 45 {
        String::from_str("filename starts with guessed app name")
    } else {
        String::from_str("executable file")
    }
}

/// The text of a file name, or the empty text.
pub open spec fn name_or_empty(p: Seq<char>) -> Seq<char> {
    match file_name(p) {
        Some(n) => n,
        None => Seq::empty(),
    }
}

/// The candidate an entry gives, if any.
pub open spec fn entry_candidate(e: EntryView, app: Seq<char>, arch: Seq<char>) -> Option<
    (Seq<char>, int, Seq<char>),
> {
    let name = name_or_empty(e.path);
    if !e.is_file || !e.executable || e.unsafe_reason.is_some() || spec_library_or_helper(name) {
        None
    } else {
        let score = spec_score(name, app, arch, e.path);
        if score > 0 {
            Some((e.path, score, spec_explain(name, app, arch, score)))
        } else {
            None
        }
    }
}

/// The candidates of the entries, in entry order.
pub open spec fn raw_candidates(es: Seq<EntryView>, app: Seq<char>, arch: Seq<char>) -> Seq<
    (Seq<char>, int, Seq<char>),
>
    decreases es.len(),
{
    if es.len() == 0 {
        Seq::empty()
    } else {
        let prev = raw_candidates(es.drop_last(), app, arch);
        match entry_candidate(es.last(), app, arch) {
            Some(c) => prev.push(c),
            None => prev,
        }
    }
}

/// Order of path components: root, `.`, `..`, then names by text.
pub open spec fn comp_rank(c: Seq<char>) -> int {
    if c == slash() {
        1
    } else if c == dot() {
        2
    } else if c == dotdot() {
        3
    } else {
        4
    }
}

pub open spec fn comp_lt(a: Seq<char>, b: Seq<char>) -> bool {
    comp_rank(a) < comp_rank(b) || (comp_rank(a) == 4 && comp_rank(b) == 4 && seq_lt(a, b))
}

/// Lexicographic order of component lists.
pub open spec fn comps_lt(a: Seq<Seq<char>>, b: Seq<Seq<char>>) -> bool
    decreases a.len(),
{
    if a.len() == 0 {
        b.len() > 0
    } else if b.len() == 0 {
        false
    } else if comp_lt(a[0], b[0]) {
        true
    } else if a[0] == b[0] {
        comps_lt(a.drop_first(), b.drop_first())
    } else {
        false
    }
}

/// The order of `Path`: by components.
pub open spec fn path_lt(a: Seq<char>, b: Seq<char>) -> bool {
    comps_lt(components(a), components(b))
}

/// Candidate `a` is listed strictly before `b`: higher score first, then by path.
pub open spec fn ranks_before(a: (Seq<char>, int, Seq<char>), b: (Seq<char>, int, Seq<char>)) -> bool {
    a.1 > b.1 || (a.1 == b.1 && path_lt(a.0, b.0))
}

/// No candidate is listed after one that ranks after it.
pub open spec fn ranked(cs: Seq<(Seq<char>, int, Seq<char>)>) -> bool {
    forall|i: int, j: int| 0 <= i < j < cs.len() ==> !ranks_before(#[trigger] cs[j], #[trigger] cs[i])
}

proof fn lemma_comp_lt(a: Seq<char>, b: Seq<char>, c: Seq<char>)
    ensures
        !comp_lt(a, a),
        comp_lt(a, b) && comp_lt(b, c) ==> comp_lt(a, c),
        comp_lt(a, b) ==> a != b,
        comp_lt(a, b) || comp_lt(b, a) || a == b,
{
    lemma_seq_lt_irreflexive(a);
    if seq_lt(a, b) && seq_lt(b, c) {
        lemma_seq_lt_transitive(a, b, c);
    }
    lemma_seq_lt_trichotomy(a, b);
}

proof fn lemma_comps_lt(a: Seq<Seq<char>>, b: Seq<Seq<char>>, c: Seq<Seq<char>>)
    ensures
        !comps_lt(a, a),
        comps_lt(a, b) && comps_lt(b, c) ==> comps_lt(a, c),
    decreases a.len(),
{
    if a.len() > 0 {
        lemma_comp_lt(a[0], a[0], a[0]);
        if b.len() > 0 && c.len() > 0 {
            lemma_comp_lt(a[0], b[0], c[0]);
            lemma_comp_lt(b[0], c[0], a[0]);
            lemma_comp_lt(a[0], c[0], b[0]);
            lemma_comps_lt(a.drop_first(), b.drop_first(), c.drop_first());
        } else {
            lemma_comps_lt(a.drop_first(), a.drop_first(), a.drop_first());
        }
    }
}

proof fn lemma_ranks_before(
    a: (Seq<char>, int, Seq<char>),
    b: (Seq<char>, int, Seq<char>),
    c: (Seq<char>, int, Seq<char>),
)
    ensures
        !ranks_before(a, a),
        ranks_before(a, b) && ranks_before(b, c) ==> ranks_before(a, c),
{
    lemma_comps_lt(components(a.0), components(b.0), components(c.0));
    lemma_comps_lt(components(a.0), components(a.0), components(a.0));
}

fn comp_rank_exec(c: &Vec<char>) -> (r: u8)
    ensures
        r as int == comp_rank(c@),
{
    let is_slash = c.len() == 1 && c[0] == '/';
    let is_dot = c.len() == 1 && c[0] == '.';
    let is_dotdot = c.len() == 2 && c[0] == '.' && c[1] == '.';
    proof {
        if c@ == slash() {
            assert(c@[0] == '/');
        }
        if c@ == dot() {
            assert(c@[0] == '.');
        }
        if c@ == dotdot() {
            assert(c@[0] == '.' && c@[1] == '.');
        }
        if is_slash {
            assert(c@ =~= slash());
        }
        if is_dot {
            assert(c@ =~= dot());
        }
        if is_dotdot {
            assert(c@ =~= dotdot());
        }
    }
    if is_slash {
        1
    } else if is_dot {
        2
    } else if is_dotdot {
        3
    } else {
        4
    }
}

fn comp_lt_exec(a: &Vec<char>, b: &Vec<char>) -> (r: bool)
    ensures
        r == comp_lt(a@, b@),
{
    let ra = comp_rank_exec(a);
    let rb = comp_rank_exec(b);
    ra < rb || (ra == 4 && rb == 4 && chars_lt(a, b))
}

/// Whether path `a` sorts before path `b` (`Path` order).
fn path_lt_exec(a: &Vec<char>, b: &Vec<char>) -> (r: bool)
    ensures
        r == path_lt(a@, b@),
{
    let ca = path_components(a);
    let cb = path_components(b);
    let ghost va = ca.deep_view();
    let ghost vb = cb.deep_view();
    let mut i: usize = 0;
    assert(va.skip(0) =~= va);
    assert(vb.skip(0) =~= vb);
    while i < ca.len() && i < cb.len()
        invariant
            i <= ca.len(),
            i <= cb.len(),
            va == ca.deep_view(),
            vb == cb.deep_view(),
            va == components(a@),
            vb == components(b@),
            comps_lt(va, vb) == comps_lt(va.skip(i as int), vb.skip(i as int)),
        decreases ca.len() - i,
    {
        proof {
            lemma_chars_deep_view(&ca@[i as int]);
            lemma_chars_deep_view(&cb@[i as int]);
            assert(va.skip(i as int)[0] == va[i as int]);
            assert(vb.skip(i as int)[0] == vb[i as int]);
            assert(va.skip(i as int).drop_first() =~= va.skip(i + 1));
            assert(vb.skip(i as int).drop_first() =~= vb.skip(i + 1));
        }
        if comp_lt_exec(&ca[i], &cb[i]) {
            return true;
        }
        if !eq_chars(&ca[i], &cb[i]) {
            return false;
        }
        i = i + 1;
    }
    i == ca.len() && i < cb.len()
}

fn ranks_before_exec(a: &ExecutableCandidate, b: &ExecutableCandidate) -> (r: bool)
    ensures
        r == ranks_before(a@, b@),
{
    if a.score > b.score {
        true
    } else if a.score == b.score {
        path_lt_exec(&chars_of(a.path.as_str()), &chars_of(b.path.as_str()))
    } else {
        false
    }
}

/// `executable_candidates`: executable regular files with a safe path that are
/// not libraries or helpers, scored against the guessed app name and
/// architecture; listed by falling score, then by path.
pub fn executable_candidates(entries: &Vec<ArchiveEntry>, guess: &FilenameGuess) -> (r: Vec<
    ExecutableCandidate,
>)
    ensures
        ranked(candidate_views(r@)),
        candidate_views(r@).to_multiset() == raw_candidates(
            entry_views(entries@),
            match guess@.app {
                Some(a) => a,
                None => Seq::empty(),
            },
            match guess@.architecture {
                Some(a) => a,
                None => Seq::empty(),
            },
        ).to_multiset(),
{
    let app: Vec<char> = match &guess.app {
        Some(a) => chars_of(a.as_str()),
        None => Vec::new(),
    };
    let arch: Vec<char> = match &guess.architecture {
        Some(a) => chars_of(a.as_str()),
        None => Vec::new(),
    };
    assert(app@ == match guess@.app {
        Some(a) => a,
        None => Seq::<char>::empty(),
    });
    assert(arch@ == match guess@.architecture {
        Some(a) => a,
        None => Seq::<char>::empty(),
    });
    let ghost es = entry_views(entries@);
    let mut out: Vec<ExecutableCandidate> = Vec::new();
    let mut i: usize = 0;
    proof {
        assert(candidate_views(out@) =~= Seq::<(Seq<char>, int, Seq<char>)>::empty());
        assert(es.take(0) =~= Seq::<EntryView>::empty());
    }
    while i < entries.len()
        invariant
            i <= entries.len(),
            es == entry_views(entries@),
            ranked(candidate_views(out@)),
            candidate_views(out@).to_multiset() == raw_candidates(es.take(i as int), app@, arch@).to_multiset(),
        decreases entries.len() - i,
    {
        let e = &entries[i];
        let ghost ev = es[i as int];
        assert(ev == e@);
        proof {
            assert(es.take(i + 1).drop_last() =~= es.take(i as int));
            assert(es.take(i + 1).last() == ev);
        }
        let p = chars_of(e.path.as_str());
        let name = file_name_or_empty(&p);
        if !e.is_file || !e.executable || e.unsafe_reason.is_some() || looks_like_library_or_helper(
            &name,
        ) {
            i = i + 1;
            continue;
        }
        let score = score_executable(&name, &app, &arch, &p);
        if score <= 0 {
            i = i + 1;
            continue;
        }
        let reason = explain_score(&name, &app, &arch, score);
        let cand = ExecutableCandidate { path: e.path.clone(), score, reason };
        let ghost cv = cand@;
        assert(entry_candidate(ev, app@, arch@) == Some(cv));
        let ghost before = candidate_views(out@);
        let mut k: usize = 0;
        while k < out.len() && !ranks_before_exec(&cand, &out[k])
            invariant
                k <= out.len(),
                before == candidate_views(out@),
                cv == cand@,
                forall|m: int| 0 <= m < k ==> !ranks_before(cv, #[trigger] before[m]),
            decreases out.len() - k,
        {
            k = k + 1;
        }
        out.insert(k, cand);
        proof {
            let after = candidate_views(out@);
            assert(after =~= before.insert(k as int, cv));
            vstd::seq_lib::to_multiset_insert(before, k as int, cv);
            vstd::seq_lib::to_multiset_build(raw_candidates(es.take(i as int), app@, arch@), cv);
            assert forall|a: int, b: int| 0 <= a < b < after.len() implies !ranks_before(
                #[trigger] after[b],
                #[trigger] after[a],
            ) by {
                if b < k {
                    assert(after[a] == before[a] && after[b] == before[b]);
                } else if b == k {
                    assert(after[a] == before[a]);
                } else if a == k {
                    assert(after[b] == before[b - 1]);
                    assert(ranks_before(cv, before[k as int]));
                    if b - 1 > k {
                        assert(!ranks_before(before[b - 1], before[k as int]));
                    }
                    lemma_ranks_before(before[b - 1], cv, before[k as int]);
                    lemma_ranks_before(cv, cv, cv);
                } else if a < k {
                    assert(after[a] == before[a] && after[b] == before[b - 1]);
                } else {
                    assert(after[a] == before[a - 1] && after[b] == before[b - 1]);
                }
            }
        }
        i = i + 1;
    }
    assert(es.take(entries.len() as int) =~= es);
    out
}

// ---------------------------------------------------------------------------
// Icons, desktop entries and manifests
// ---------------------------------------------------------------------------

/// `is_icon_path`: a PNG, SVG or XPM file whose name mentions an icon or logo,
/// or that sits in an `icons` directory.
pub open spec fn spec_is_icon_path(p: Seq<char>) -> bool {
    let ext = lower(
        match extension(p) {
            Some(e) => e,
            None => Seq::empty(),
        },
    );
    let name = lower(name_or_empty(p));
    &&& (ext == "png"@ || ext == "svg"@ || ext == "xpm"@)
    &&& (contains_seq(name, "icon"@) || contains_seq(name, "logo"@) || has_component_ci(
        p,
        "icons"@,
    ))
}

fn is_icon_path(p: &Vec<char>) -> (r: bool)
    ensures
        r == spec_is_icon_path(p@),
{
    let ext = match path_extension(p) {
        Some(e) => to_lower(&e),
        None => Vec::new(),
    };
    assert(ext@ == lower(
        match extension(p@) {
            Some(e) => e,
            None => Seq::<char>::empty(),
        },
    ));
    if !(eq_lit(&ext, "png") || eq_lit(&ext, "svg") || eq_lit(&ext, "xpm")) {
        return false;
    }
    let name = to_lower(&file_name_or_empty(p));
    contains_lit(&name, "icon") || contains_lit(&name, "logo") || has_component_ignore_case(
        p,
        "icons",
    )
}

/// `is_manifest_path`: a recipe file embedded in the archive.
pub open spec fn spec_is_manifest_path(p: Seq<char>) -> bool {
    let n = lower(name_or_empty(p));
    ||| n == "tarapp.yml"@
    ||| n == "tarapp.yaml"@
    ||| n == ".tarapp.yml"@
    ||| n == ".tarapp.yaml"@
    ||| n == "manifest.yml"@
    ||| n == "manifest.yaml"@
}

fn is_manifest_path(p: &Vec<char>) -> (r: bool)
    ensures
        r == spec_is_manifest_path(p@),
{
    let n = to_lower(&file_name_or_empty(p));
    eq_lit(&n, "tarapp.yml") || eq_lit(&n, "tarapp.yaml") || eq_lit(&n, ".tarapp.yml") || eq_lit(
        &n,
        ".tarapp.yaml",
    ) || eq_lit(&n, "manifest.yml") || eq_lit(&n, "manifest.yaml")
}

/// A desktop entry file.
pub open spec fn spec_is_desktop_path(p: Seq<char>) -> bool {
    extension(p) == Some("desktop"@)
}

fn is_desktop_path(p: &Vec<char>) -> (r: bool)
    ensures
        r == spec_is_desktop_path(p@),
{
    match path_extension(p) {
        Some(e) => eq_lit(&e, "desktop"),
        None => false,
    }
}

/// Which kind of file a path list collects.
pub open spec fn file_kind_matches(kind: u8, p: Seq<char>) -> bool {
    if kind == 0 {
        spec_is_icon_path(p)
    } else if kind == 1 {
        spec_is_desktop_path(p)
    } else {
        spec_is_manifest_path(p)
    }
}

/// The paths of the regular files that match `kind`, in entry order.
pub open spec fn files_matching(es: Seq<EntryView>, kind: u8) -> Seq<Seq<char>>
    decreases es.len(),
{
    if es.len() == 0 {
        Seq::empty()
    } else {
        let prev = files_matching(es.drop_last(), kind);
        if es.last().is_file && file_kind_matches(kind, es.last().path) {
            prev.push(es.last().path)
        } else {
            prev
        }
    }
}

fn collect_files(entries: &Vec<ArchiveEntry>, kind: u8) -> (r: Vec<String>)
    ensures
        r.deep_view() == files_matching(entry_views(entries@), kind),
{
    let ghost es = entry_views(entries@);
    let mut out: Vec<String> = Vec::new();
    let mut i: usize = 0;
    assert(out.deep_view() =~= Seq::<Seq<char>>::empty());
    while i < entries.len()
        invariant
            i <= entries.len(),
            es == entry_views(entries@),
            out.deep_view() == files_matching(es.take(i as int), kind),
        decreases entries.len() - i,
    {
        assert(es.take(i + 1).drop_last() =~= es.take(i as int));
        assert(es.take(i + 1).last() == entries@[i as int]@);
        let p = chars_of(entries[i].path.as_str());
        let m = if kind == 0 {
            is_icon_path(&p)
        } else if kind == 1 {
            is_desktop_path(&p)
        } else {
            is_manifest_path(&p)
        };
        if entries[i].is_file && m {
            let ghost before = out.deep_view();
            out.push(entries[i].path.clone());
            assert(out.deep_view() =~= before.push(p@));
        }
        i = i + 1;
    }
    assert(es.take(entries.len() as int) =~= es);
    out
}

// ---------------------------------------------------------------------------
// Inspection
// ---------------------------------------------------------------------------

/// What was found in an archive.
#[derive(Debug)]
pub struct ArchiveInspection {
    pub archive_path: String,
    pub filename_guess: FilenameGuess,
    pub safe: bool,
    pub entries_count: usize,
    pub common_root: Option<String>,
    pub executable_candidates: Vec<ExecutableCandidate>,
    pub icon_candidates: Vec<String>,
    pub desktop_candidates: Vec<String>,
    pub manifest_candidates: Vec<String>,
    pub unsafe_entries: Vec<ArchiveEntry>,
    pub notes: Vec<String>,
}

/// The entries with an unsafe path, in order.
pub open spec fn unsafe_of(es: Seq<EntryView>) -> Seq<EntryView>
    decreases es.len(),
{
    if es.len() == 0 {
        Seq::empty()
    } else if es.last().unsafe_reason.is_some() {
        unsafe_of(es.drop_last()).push(es.last())
    } else {
        unsafe_of(es.drop_last())
    }
}

/// The entries, each with the unsafe reason that its path has.
pub open spec fn checked_views(es: Seq<EntryView>) -> Seq<EntryView> {
    es.map_values(|e: EntryView| EntryView { unsafe_reason: spec_unsafe_path_reason(e.path), ..e })
}

fn check_entries(entries: &Vec<ArchiveEntry>) -> (r: Vec<ArchiveEntry>)
    ensures
        entry_views(r@) == checked_views(entry_views(entries@)),
{
    let mut out: Vec<ArchiveEntry> = Vec::new();
    let mut i: usize = 0;
    while i < entries.len()
        invariant
            i <= entries.len(),
            out.len() == i,
            forall|k: int| 0 <= k < i ==> #[trigger] out@[k]@ == checked_views(entry_views(entries@))[k],
        decreases entries.len() - i,
    {
        let e = &entries[i];
        out.push(
            ArchiveEntry {
                path: e.path.clone(),
                is_file: e.is_file,
                is_dir: e.is_dir,
                is_symlink: e.is_symlink,
                executable: e.executable,
                size: e.size,
                unsafe_reason: unsafe_path_reason(e.path.as_str()),
            },
        );
        i = i + 1;
    }
    assert(entry_views(out@) =~= checked_views(entry_views(entries@)));
    out
}

/// The inspection of the archive at `archive_path` whose entries are `entries`,
/// each with the unsafe reason of its path (whatever reason it came with): it
/// is safe when no entry has an unsafe path; the notes are those of the file
/// name guess, then one for an unsafe archive and one when no executable was
/// found.
pub fn inspect_archive(archive_path: &str, entries: &Vec<ArchiveEntry>) -> (r: ArchiveInspection)
    ensures
        r.archive_path@ == archive_path@,
        r.filename_guess@ == spec_guess_from_filename(archive_path@),
        r.entries_count == entries.len(),
        r.unsafe_entries@.map_values(|e: ArchiveEntry| e@) == unsafe_of(checked_views(entry_views(entries@))),
        r.safe == (unsafe_of(checked_views(entry_views(entries@))).len() == 0),
        opt_seq(r.common_root) == spec_common_root(checked_views(entry_views(entries@))),
        ranked(candidate_views(r.executable_candidates@)),
        candidate_views(r.executable_candidates@).to_multiset() == raw_candidates(
            checked_views(entry_views(entries@)),
            match r.filename_guess@.app {
                Some(a) => a,
                None => Seq::empty(),
            },
            match r.filename_guess@.architecture {
                Some(a) => a,
                None => Seq::empty(),
            },
        ).to_multiset(),
        r.icon_candidates.deep_view() == files_matching(checked_views(entry_views(entries@)), 0),
        r.desktop_candidates.deep_view() == files_matching(checked_views(entry_views(entries@)), 1),
        r.manifest_candidates.deep_view() == files_matching(checked_views(entry_views(entries@)), 2),
        r.notes.deep_view() == r.filename_guess@.notes + (if r.safe {
            Seq::<Seq<char>>::empty()
        } else {
            seq!["archive contains unsafe paths and must not be extracted directly"@]
        }) + (if r.executable_candidates.len() == 0 {
            seq!["no executable candidate was confidently detected"@]
        } else {
            Seq::<Seq<char>>::empty()
        }),
{
    let guess = guess_from_filename(archive_path);
    let checked = check_entries(entries);
    let entries = &checked;
    let ghost es = entry_views(entries@);
    let mut unsafe_entries: Vec<ArchiveEntry> = Vec::new();
    let mut i: usize = 0;
    assert(unsafe_entries@.map_values(|e: ArchiveEntry| e@) =~= Seq::<EntryView>::empty());
    while i < entries.len()
        invariant
            i <= entries.len(),
            es == entry_views(entries@),
            unsafe_entries@.map_values(|e: ArchiveEntry| e@) == unsafe_of(es.take(i as int)),
        decreases entries.len() - i,
    {
        assert(es.take(i + 1).drop_last() =~= es.take(i as int));
        assert(es.take(i + 1).last() == entries@[i as int]@);
        if entries[i].unsafe_reason.is_some() {
            let ghost before = unsafe_entries@.map_values(|e: ArchiveEntry| e@);
            unsafe_entries.push(entries[i].duplicate());
            assert(unsafe_entries@.map_values(|e: ArchiveEntry| e@) =~= before.push(entries@[i as int]@));
        }
        i = i + 1;
    }
    assert(es.take(entries.len() as int) =~= es);
    let safe = unsafe_entries.len() == 0;
    let root = common_root(entries);
    let candidates = executable_candidates(entries, &guess);
    let icons = collect_files(entries, 0);
    let desktops = collect_files(entries, 1);
    let manifests = collect_files(entries, 2);
    let mut notes = clone_strings(&guess.notes);
    let ghost n0 = notes.deep_view();
    if !safe {
        notes.push(String::from_str("archive contains unsafe paths and must not be extracted directly"));
    }
    let ghost n1 = notes.deep_view();
    assert(n1 =~= n0 + (if safe {
        Seq::<Seq<char>>::empty()
    } else {
        seq!["archive contains unsafe paths and must not be extracted directly"@]
    }));
    if candidates.len() == 0 {
        notes.push(String::from_str("no executable candidate was confidently detected"));
    }
    assert(notes.deep_view() =~= n1 + (if candidates.len() == 0 {
        seq!["no executable candidate was confidently detected"@]
    } else {
        Seq::<Seq<char>>::empty()
    }));
    ArchiveInspection {
        archive_path: String::from_str(archive_path),
        filename_guess: guess,
        safe,
        entries_count: entries.len(),
        common_root: root,
        executable_candidates: candidates,
        icon_candidates: icons,
        desktop_candidates: desktops,
        manifest_candidates: manifests,
        unsafe_entries,
        notes,
    }
}

// ---------------------------------------------------------------------------
// Compression
// ---------------------------------------------------------------------------

/// How an archive file is compressed.
#[derive(Clone, Copy, Debug, PartialEq, Eq, Structural)]
pub enum Compression {
    Xz,
    Gzip,
    Bzip2,
    Plain,
}

/// `open_tar_reader`'s choice of decoder, by the lower-cased file name.
pub open spec fn spec_compression(path: Seq<char>) -> Option<Compression> {
    let n = lower(name_or_empty(path));
    if ends_with(n, ".tar.xz"@) || ends_with(n, ".txz"@) {
        Some(Compression::Xz)
    } else if ends_with(n, ".tar.gz"@) || ends_with(n, ".tgz"@) {
        Some(Compression::Gzip)
    } else if ends_with(n, ".tar.bz2"@) || ends_with(n, ".tbz2"@) {
        Some(Compression::Bzip2)
    } else if ends_with(n, ".tar"@) {
        Some(Compression::Plain)
    } else {
        None
    }
}

/// The decoder that an archive at `path` needs, or the error for an
/// unsupported extension.
pub fn compression_for(path: &str) -> (r: Result<Compression, String>)
    ensures
        match r {
            Ok(c) => spec_compression(path@) == Some(c),
            Err(m) => spec_compression(path@).is_none()
                && m@ == "unsupported archive extension; supported: .tar.xz, .txz, .tar.gz, .tgz, .tar.bz2, .tbz2, .tar"@,
        },
{
    let n = to_lower(&file_name_or_empty(&chars_of(path)));
    if ends_with_lit(&n, ".tar.xz") || ends_with_lit(&n, ".txz") {
        Ok(Compression::Xz)
    } else if ends_with_lit(&n, ".tar.gz") || ends_with_lit(&n, ".tgz") {
        Ok(Compression::Gzip)
    } else if ends_with_lit(&n, ".tar.bz2") || ends_with_lit(&n, ".tbz2") {
        Ok(Compression::Bzip2)
    } else if ends_with_lit(&n, ".tar") {
        Ok(Compression::Plain)
    } else {
        Err(
            String::from_str(
                "unsupported archive extension; supported: .tar.xz, .txz, .tar.gz, .tgz, .tar.bz2, .tbz2, .tar",
            ),
        )
    }
}

} // verus!
