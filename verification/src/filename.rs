//! Guessing app name, version, OS and architecture from an archive's file name.
use vstd::prelude::*;
use crate::pathstr::{file_name, file_name_or_empty, file_stem, path_file_name, stem_of_name};
use crate::regex_ops::{
    regex_find, regex_find_text, regex_is_match, regex_split, regex_split_text, regex_test,
};
use crate::text::{
    chars_of, chars_of_all, contains_char, copy_chars, drop_empty, ends_with, ends_with_lit,
    eq_ignore_case_lit, eq_lit, is_ascii_digit, join, join_chars, lemma_chars_deep_view, lower,
    slice_chars, split_nonempty, split_pieces, string_of, strip_v, strip_v_prefix, to_lower,
    trim_chars, trim_set,
};

verus! {

/// Separators between the dash-delimited parts of a file name stem.
pub const SEPARATOR_PATTERN: &'static str = "[-\\s]+";

/// A version embedded in a dotted part, such as `1.2.3` in `myapp.1.2.3.linux`.
pub const DOTTED_VERSION_PATTERN: &'static str = "(?i)v?\\d+(?:\\.\\d+){1,3}(?:[-+][A-Za-z0-9._+-]+)?";

/// A whole token that starts a version: at least one dot, optional `v` prefix.
pub const VERSION_START_PATTERN: &'static str = "(?i)^v?\\d+\\.\\d+(?:\\.\\d+){0,3}(?:[-+][A-Za-z0-9._-]+)?$";

/// A token that may continue a version (`dev`, `906+gabcdef`, ...).
pub const VERSION_SUFFIX_PATTERN: &'static str = "^[A-Za-z0-9][A-Za-z0-9._+]*$";

// ---------------------------------------------------------------------------
// Token tables
// ---------------------------------------------------------------------------

/// Architecture tokens, compared after ASCII lower-casing.
pub open spec fn is_arch_token(s: Seq<char>) -> bool {
    ||| s == "x64"@
    ||| s == "x86_64"@
    ||| s == "amd64"@
    ||| s == "x86"@
    ||| s == "386"@
    ||| s == "i386"@
    ||| s == "i486"@
    ||| s == "i586"@
    ||| s == "i686"@
    ||| s == "arm64"@
    ||| s == "aarch64"@
    ||| s == "arm"@
    ||| s == "armv6"@
    ||| s == "armv6l"@
    ||| s == "armv7"@
    ||| s == "armv7l"@
    ||| s == "armv8"@
    ||| s == "armhf"@
    ||| s == "armel"@
    ||| s == "ppc"@
    ||| s == "ppc64"@
    ||| s == "ppc64le"@
    ||| s == "s390x"@
    ||| s == "mips"@
    ||| s == "mipsel"@
    ||| s == "mips64"@
    ||| s == "mips64el"@
    ||| s == "riscv64"@
    ||| s == "riscv32"@
    ||| s == "sparc64"@
    ||| s == "loongarch64"@
    ||| s == "universal"@
    ||| s == "universal2"@
    ||| s == "wasm32"@
    ||| s == "noarch"@
}

/// The canonical OS for an (already lower-cased) file name token.
pub open spec fn os_alias(s: Seq<char>) -> Option<Seq<char>> {
    if s == "linux"@ || s == "gnu-linux"@ || s == "linux64"@ || s == "linux-x64"@ || s
        == "linux-x86_64"@ || s == "linux-amd64"@ || s == "ubuntu"@ || s == "debian"@ || s
        == "fedora"@ || s == "rhel"@ || s == "centos"@ || s == "opensuse"@ || s == "suse"@ || s
        == "musl"@ {
        Some("linux"@)
    } else if s == "macos"@ || s == "darwin"@ || s == "osx"@ || s == "mac"@ {
        Some("macos"@)
    } else if s == "windows"@ || s == "win"@ || s == "win32"@ || s == "win64"@ || s == "mingw"@
        || s == "msvc"@ {
        Some("windows"@)
    } else if s == "freebsd"@ {
        Some("freebsd"@)
    } else if s == "openbsd"@ {
        Some("openbsd"@)
    } else if s == "netbsd"@ {
        Some("netbsd"@)
    } else if s == "solaris"@ || s == "sunos"@ || s == "illumos"@ {
        Some("solaris"@)
    } else if s == "aix"@ {
        Some("aix"@)
    } else if s == "android"@ {
        Some("android"@)
    } else if s == "ios"@ || s == "iphoneos"@ {
        Some("ios"@)
    } else {
        None
    }
}

/// `normalize_os`: the canonical OS name of `value`, ignoring ASCII case.
pub open spec fn spec_normalize_os(value: Seq<char>) -> Option<Seq<char>> {
    os_alias(lower(value))
}

/// `normalize_arch`: the canonical architecture name of `value`, ignoring ASCII case.
pub open spec fn spec_normalize_arch(value: Seq<char>) -> Seq<char> {
    let l = lower(value);
    if l == "x64"@ || l == "x86_64"@ || l == "amd64"@ {
        "x86_64"@
    } else if l == "arm64"@ || l == "aarch64"@ {
        "aarch64"@
    } else if l == "386"@ || l == "i386"@ || l == "i486"@ || l == "i586"@ || l == "i686"@ || l
        == "x86"@ {
        "x86"@
    } else {
        l
    }
}

fn arch_token(s: &Vec<char>) -> (r: bool)
    ensures
        r == is_arch_token(s@),
{
    eq_lit(s, "x64") || eq_lit(s, "x86_64") || eq_lit(s, "amd64") || eq_lit(s, "x86") || eq_lit(
        s,
        "386",
    ) || eq_lit(s, "i386") || eq_lit(s, "i486") || eq_lit(s, "i586") || eq_lit(s, "i686")
        || eq_lit(s, "arm64") || eq_lit(s, "aarch64") || eq_lit(s, "arm") || eq_lit(s, "armv6")
        || eq_lit(s, "armv6l") || eq_lit(s, "armv7") || eq_lit(s, "armv7l") || eq_lit(s, "armv8")
        || eq_lit(s, "armhf") || eq_lit(s, "armel") || eq_lit(s, "ppc") || eq_lit(s, "ppc64")
        || eq_lit(s, "ppc64le") || eq_lit(s, "s390x") || eq_lit(s, "mips") || eq_lit(
        s,
        "mipsel",
    ) || eq_lit(s, "mips64") || eq_lit(s, "mips64el") || eq_lit(s, "riscv64") || eq_lit(
        s,
        "riscv32",
    ) || eq_lit(s, "sparc64") || eq_lit(s, "loongarch64") || eq_lit(s, "universal") || eq_lit(
        s,
        "universal2",
    ) || eq_lit(s, "wasm32") || eq_lit(s, "noarch")
}

fn os_of(s: &Vec<char>) -> (r: Option<&'static str>)
    ensures
        match r {
            Some(c) => os_alias(s@) == Some(c@),
            None => os_alias(s@).is_none(),
        },
{
    if eq_lit(s, "linux") || eq_lit(s, "gnu-linux") || eq_lit(s, "linux64") || eq_lit(
        s,
        "linux-x64",
    ) || eq_lit(s, "linux-x86_64") || eq_lit(s, "linux-amd64") || eq_lit(s, "ubuntu") || eq_lit(
        s,
        "debian",
    ) || eq_lit(s, "fedora") || eq_lit(s, "rhel") || eq_lit(s, "centos") || eq_lit(
        s,
        "opensuse",
    ) || eq_lit(s, "suse") || eq_lit(s, "musl") {
        Some("linux")
    } else if eq_lit(s, "macos") || eq_lit(s, "darwin") || eq_lit(s, "osx") || eq_lit(s, "mac") {
        Some("macos")
    } else if eq_lit(s, "windows") || eq_lit(s, "win") || eq_lit(s, "win32") || eq_lit(s, "win64")
        || eq_lit(s, "mingw") || eq_lit(s, "msvc") {
        Some("windows")
    } else if eq_lit(s, "freebsd") {
        Some("freebsd")
    } else if eq_lit(s, "openbsd") {
        Some("openbsd")
    } else if eq_lit(s, "netbsd") {
        Some("netbsd")
    } else if eq_lit(s, "solaris") || eq_lit(s, "sunos") || eq_lit(s, "illumos") {
        Some("solaris")
    } else if eq_lit(s, "aix") {
        Some("aix")
    } else if eq_lit(s, "android") {
        Some("android")
    } else if eq_lit(s, "ios") || eq_lit(s, "iphoneos") {
        Some("ios")
    } else {
        None
    }
}

/// Canonical OS name of `value` as characters.
fn normalize_os_chars(value: &Vec<char>) -> (r: Option<Vec<char>>)
    ensures
        match r {
            Some(c) => spec_normalize_os(value@) == Some(c@),
            None => spec_normalize_os(value@).is_none(),
        },
{
    let l = to_lower(value);
    match os_of(&l) {
        Some(c) => Some(chars_of(c)),
        None => None,
    }
}

/// Whether `value` names an OS, ignoring ASCII case.
fn is_os_chars(value: &Vec<char>) -> (r: bool)
    ensures
        r == spec_normalize_os(value@).is_some(),
{
    let l = to_lower(value);
    os_of(&l).is_some()
}

fn normalize_arch_chars(value: &Vec<char>) -> (r: Vec<char>)
    ensures
        r@ == spec_normalize_arch(value@),
{
    let l = to_lower(value);
    if eq_lit(&l, "x64") || eq_lit(&l, "x86_64") || eq_lit(&l, "amd64") {
        chars_of("x86_64")
    } else if eq_lit(&l, "arm64") || eq_lit(&l, "aarch64") {
        chars_of("aarch64")
    } else if eq_lit(&l, "386") || eq_lit(&l, "i386") || eq_lit(&l, "i486") || eq_lit(&l, "i586")
        || eq_lit(&l, "i686") || eq_lit(&l, "x86") {
        chars_of("x86")
    } else {
        l
    }
}

/// The canonical architecture name of `value`: `x86_64`, `aarch64` and `x86`
/// stand for their aliases; any other value is returned lower-cased.
pub fn normalize_arch(value: &str) -> (r: String)
    ensures
        r@ == spec_normalize_arch(value@),
{
    let v = chars_of(value);
    string_of(&normalize_arch_chars(&v))
}

/// The canonical OS name of `value`, or `None` when it names no known OS.
pub fn normalize_os(value: &str) -> (r: Option<String>)
    ensures
        match r {
            Some(c) => spec_normalize_os(value@) == Some(c@),
            None => spec_normalize_os(value@).is_none(),
        },
{
    let v = chars_of(value);
    match normalize_os_chars(&v) {
        Some(c) => Some(string_of(&c)),
        None => None,
    }
}

// ---------------------------------------------------------------------------
// Archive extensions
// ---------------------------------------------------------------------------

/// `name` without its last `ext.len()` characters.
pub open spec fn cut_end(name: Seq<char>, ext: Seq<char>) -> Seq<char> {
    name.take(name.len() - ext.len())
}

/// The file name stem: known archive extensions are removed whole, in the order
/// listed, matching without regard to ASCII case; otherwise the path's file
/// stem, or `name` itself when it has none.
pub open spec fn spec_strip_archive_extensions(name: Seq<char>) -> Seq<char> {
    let l = lower(name);
    if ends_with(l, ".tar.xz"@) {
        cut_end(name, ".tar.xz"@)
    } else if ends_with(l, ".tar.gz"@) {
        cut_end(name, ".tar.gz"@)
    } else if ends_with(l, ".tar.bz2"@) {
        cut_end(name, ".tar.bz2"@)
    } else if ends_with(l, ".tar.zst"@) {
        cut_end(name, ".tar.zst"@)
    } else if ends_with(l, ".tgz"@) {
        cut_end(name, ".tgz"@)
    } else if ends_with(l, ".txz"@) {
        cut_end(name, ".txz"@)
    } else if ends_with(l, ".tbz2"@) {
        cut_end(name, ".tbz2"@)
    } else if ends_with(l, ".tar"@) {
        cut_end(name, ".tar"@)
    } else {
        match file_stem(name) {
            Some(s) => s,
            None => name,
        }
    }
}

/// `name` with `ext` removed from its end, when its lower-cased form ends with it.
fn cut_ext(name: &Vec<char>, low: &Vec<char>, ext: &str) -> (r: Option<Vec<char>>)
    requires
        low@ == lower(name@),
    ensures
        match r {
            Some(v) => ends_with(low@, ext@) && v@ == cut_end(name@, ext@),
            None => !ends_with(low@, ext@),
        },
{
    if ends_with_lit(low, ext) {
        let e = chars_of(ext);
        Some(slice_chars(name, 0, name.len() - e.len()))
    } else {
        None
    }
}

fn strip_archive_extensions_chars(n: &Vec<char>) -> (r: Vec<char>)
    ensures
        r@ == spec_strip_archive_extensions(n@),
{
    let low = to_lower(n);
    if let Some(v) = cut_ext(n, &low, ".tar.xz") {
        return v;
    }
    if let Some(v) = cut_ext(n, &low, ".tar.gz") {
        return v;
    }
    if let Some(v) = cut_ext(n, &low, ".tar.bz2") {
        return v;
    }
    if let Some(v) = cut_ext(n, &low, ".tar.zst") {
        return v;
    }
    if let Some(v) = cut_ext(n, &low, ".tgz") {
        return v;
    }
    if let Some(v) = cut_ext(n, &low, ".txz") {
        return v;
    }
    if let Some(v) = cut_ext(n, &low, ".tbz2") {
        return v;
    }
    if let Some(v) = cut_ext(n, &low, ".tar") {
        return v;
    }
    match path_file_name(n) {
        Some(f) => stem_of_name(&f),
        None => copy_chars(n),
    }
}

/// The stem of an archive file name: `.tar.xz`, `.tar.gz`, `.tar.bz2`,
/// `.tar.zst`, `.tgz`, `.txz`, `.tbz2` or `.tar` removed, else the file stem.
pub fn strip_archive_extensions(name: &str) -> (r: String)
    ensures
        r@ == spec_strip_archive_extensions(name@),
{
    let n = chars_of(name);
    string_of(&strip_archive_extensions_chars(&n))
}

// ---------------------------------------------------------------------------
// Tokenizing
// ---------------------------------------------------------------------------

/// `v` or `V` followed by digits only, such as `v1`: a version without a dot.
pub open spec fn is_v_number(t: Seq<char>) -> bool {
    &&& t.len() >= 2
    &&& (t[0] == 'v' || t[0] == 'V')
    &&& forall|i: int| 1 <= i < t.len() ==> is_ascii_digit(#[trigger] t[i])
}

/// A token that, taken whole, starts a version: a match of the dotted version
/// pattern, or a `v` number such as `v1`.
pub open spec fn spec_is_version_start(t: Seq<char>) -> bool {
    regex_is_match(VERSION_START_PATTERN@, t) == Some(true) || is_v_number(t)
}

/// A token that names an OS or an architecture.
pub open spec fn is_os_or_arch(t: Seq<char>) -> bool {
    is_arch_token(lower(t)) || spec_normalize_os(lower(t)).is_some()
}

/// A token that is already a recognized field and is never split further.
pub open spec fn spec_is_whole_known_field(t: Seq<char>) -> bool {
    is_arch_token(lower(t)) || spec_normalize_os(lower(t)).is_some() || spec_is_version_start(t)
}

/// Underscore pieces with `x86` followed by `64` merged back into `x86_64`.
pub open spec fn merge_x86(ps: Seq<Seq<char>>) -> Seq<Seq<char>>
    decreases ps.len(),
{
    if ps.len() == 0 {
        Seq::empty()
    } else if ps.len() >= 2 && lower(ps[0]) == lower("x86"@) && lower(ps[1]) == lower("64"@) {
        seq!["x86_64"@] + merge_x86(ps.skip(2))
    } else {
        seq![ps[0]] + merge_x86(ps.drop_first())
    }
}

/// `split_on_underscore`.
pub open spec fn spec_split_on_underscore(part: Seq<char>) -> Seq<Seq<char>> {
    merge_x86(split_nonempty(part, seq!['_']))
}

/// How a piece without dots is expanded.
pub open spec fn expand_plain(p: Seq<char>) -> Seq<Seq<char>> {
    if spec_is_whole_known_field(p) {
        seq![p]
    } else if p.contains('_') && !p.contains('.') {
        spec_split_on_underscore(p)
    } else {
        seq![p]
    }
}

/// The expansions of `ps`, concatenated in order.
pub open spec fn expand_plain_all(ps: Seq<Seq<char>>) -> Seq<Seq<char>>
    decreases ps.len(),
{
    if ps.len() == 0 {
        Seq::empty()
    } else {
        expand_plain_all(ps.drop_last()) + expand_plain(ps.last())
    }
}

/// `split_dotted`. Pieces that come from splitting on `.` hold no dot, so
/// expanding them is `expand_plain`. A pattern that does not compile counts as
/// no version match.
pub open spec fn spec_split_dotted(part: Seq<char>) -> Option<Seq<Seq<char>>> {
    match regex_find(DOTTED_VERSION_PATTERN@, part) {
        Some(Some((pre, m, post))) => Some(
            expand_plain_all(split_nonempty(trim_set(pre, seq!['.', '-']), seq!['.']))
                + seq![m] + expand_plain_all(
                split_nonempty(trim_set(post, seq!['.', '-']), seq!['.']),
            ),
        ),
        _ => {
            let pieces = split_nonempty(part, seq!['.']);
            if pieces.len() > 1 && (exists|i: int|
                0 <= i < pieces.len() && #[trigger] is_os_or_arch(pieces[i])) {
                Some(expand_plain_all(pieces))
            } else {
                None
            }
        },
    }
}

/// `expand_part`: the tokens one dash-delimited part stands for.
pub open spec fn spec_expand_part(part: Seq<char>) -> Seq<Seq<char>> {
    if spec_is_whole_known_field(part) {
        seq![part]
    } else if part.contains('_') && !part.contains('.') {
        spec_split_on_underscore(part)
    } else if part.contains('.') {
        match spec_split_dotted(part) {
            Some(v) => v,
            None => seq![part],
        }
    } else {
        seq![part]
    }
}

/// The expansions of all parts, concatenated in order.
pub open spec fn expand_parts(ps: Seq<Seq<char>>) -> Seq<Seq<char>>
    decreases ps.len(),
{
    if ps.len() == 0 {
        Seq::empty()
    } else {
        expand_parts(ps.drop_last()) + spec_expand_part(ps.last())
    }
}

/// `tokenize_filename_stem`: the non-empty pieces between separator runs,
/// each expanded. A pattern that does not compile gives no tokens.
pub open spec fn spec_tokenize(stem: Seq<char>) -> Seq<Seq<char>> {
    match regex_split(SEPARATOR_PATTERN@, stem) {
        Some(parts) => expand_parts(drop_empty(parts)),
        None => Seq::empty(),
    }
}

fn is_v_number_chars(t: &Vec<char>) -> (r: bool)
    ensures
        r == is_v_number(t@),
{
    if t.len() < 2 || !(t[0] == 'v' || t[0] == 'V') {
        return false;
    }
    let mut i: usize = 1;
    while i < t.len()
        invariant
            1 <= i <= t.len(),
            forall|k: int| 1 <= k < i ==> is_ascii_digit(#[trigger] t@[k]),
        decreases t.len() - i,
    {
        if !('0' <= t[i] && t[i] <= '9') {
            return false;
        }
        i = i + 1;
    }
    true
}

fn is_version_start_chars(t: &Vec<char>) -> (r: bool)
    ensures
        r == spec_is_version_start(t@),
{
    let s = string_of(t);
    let matched = match regex_test(VERSION_START_PATTERN, s.as_str()) {
        Some(b) => b,
        None => false,
    };
    matched || is_v_number_chars(t)
}

fn is_os_or_arch_chars(t: &Vec<char>) -> (r: bool)
    ensures
        r == is_os_or_arch(t@),
{
    let l = to_lower(t);
    arch_token(&l) || is_os_chars(&l)
}

fn is_whole_known_field(t: &Vec<char>) -> (r: bool)
    ensures
        r == spec_is_whole_known_field(t@),
{
    let l = to_lower(t);
    arch_token(&l) || is_os_chars(&l) || is_version_start_chars(t)
}

proof fn lemma_merge_x86_step(ps: Seq<Seq<char>>, i: int)
    requires
        0 <= i <= ps.len(),
    ensures
        i < ps.len() ==> merge_x86(ps.skip(i)) == (if i + 1 < ps.len() && lower(ps[i]) == lower(
            "x86"@,
        ) && lower(ps[i + 1]) == lower("64"@) {
            seq!["x86_64"@] + merge_x86(ps.skip(i + 2))
        } else {
            seq![ps[i]] + merge_x86(ps.skip(i + 1))
        }),
{
    if i < ps.len() {
        let t = ps.skip(i);
        assert(t[0] == ps[i]);
        if t.len() >= 2 {
            assert(t[1] == ps[i + 1]);
            assert(t.skip(2) =~= ps.skip(i + 2));
        }
        assert(t.drop_first() =~= ps.skip(i + 1));
    }
}

fn split_on_underscore(part: &Vec<char>) -> (r: Vec<Vec<char>>)
    ensures
        r.deep_view() == spec_split_on_underscore(part@),
{
    let mut seps: Vec<char> = Vec::new();
    seps.push('_');
    assert(seps@ =~= seq!['_']);
    let pieces = split_pieces(part, &seps);
    let ghost ps = pieces.deep_view();
    let mut out: Vec<Vec<char>> = Vec::new();
    let mut i: usize = 0;
    assert(ps.skip(0) =~= ps);
    while i < pieces.len()
        invariant
            i <= pieces.len(),
            ps == pieces.deep_view(),
            ps == split_nonempty(part@, seq!['_']),
            out.deep_view() + merge_x86(ps.skip(i as int)) == merge_x86(ps),
        decreases pieces.len() - i,
    {
        proof {
            lemma_merge_x86_step(ps, i as int);
            lemma_chars_deep_view(&pieces@[i as int]);
            if i + 1 < pieces.len() {
                lemma_chars_deep_view(&pieces@[i + 1]);
            }
        }
        let ghost before = out.deep_view();
        if i + 1 < pieces.len() && eq_ignore_case_lit(&pieces[i], "x86") && eq_ignore_case_lit(
            &pieces[i + 1],
            "64",
        ) {
            let m = chars_of("x86_64");
            proof {
                lemma_chars_deep_view(&m);
            }
            out.push(m);
            assert(out.deep_view() =~= before.push("x86_64"@));
            assert(before + (seq!["x86_64"@] + merge_x86(ps.skip(i + 2))) =~= before.push(
                "x86_64"@,
            ) + merge_x86(ps.skip(i + 2)));
            i = i + 2;
        } else {
            let c = copy_chars(&pieces[i]);
            proof {
                lemma_chars_deep_view(&c);
            }
            out.push(c);
            assert(out.deep_view() =~= before.push(ps[i as int]));
            assert(before + (seq![ps[i as int]] + merge_x86(ps.skip(i + 1))) =~= before.push(
                ps[i as int],
            ) + merge_x86(ps.skip(i + 1)));
            i = i + 1;
        }
    }
    proof {
        assert(ps.skip(pieces.len() as int) =~= Seq::<Seq<char>>::empty());
        assert(merge_x86(ps.skip(pieces.len() as int)) =~= Seq::<Seq<char>>::empty());
        assert(out.deep_view() + Seq::<Seq<char>>::empty() =~= out.deep_view());
    }
    out
}

/// Appends the elements of `b` to `a`.
fn extend_tokens(a: &mut Vec<Vec<char>>, b: Vec<Vec<char>>)
    ensures
        final(a).deep_view() == old(a).deep_view() + b.deep_view(),
{
    let ghost a0 = a.deep_view();
    let mut i: usize = 0;
    while i < b.len()
        invariant
            i <= b.len(),
            a.deep_view() == a0 + b.deep_view().take(i as int),
        decreases b.len() - i,
    {
        let c = copy_chars(&b[i]);
        proof {
            lemma_chars_deep_view(&c);
            lemma_chars_deep_view(&b@[i as int]);
        }
        let ghost before = a.deep_view();
        a.push(c);
        assert(a.deep_view() =~= before.push(b@[i as int]@));
        assert(b.deep_view().take(i + 1) =~= b.deep_view().take(i as int).push(b@[i as int]@));
        i = i + 1;
    }
    assert(b.deep_view().take(b.len() as int) =~= b.deep_view());
}

/// A vector holding just `v`.
fn single_token(v: Vec<char>) -> (r: Vec<Vec<char>>)
    ensures
        r.deep_view() == seq![v@],
{
    proof {
        lemma_chars_deep_view(&v);
    }
    let mut r: Vec<Vec<char>> = Vec::new();
    r.push(v);
    assert(r.deep_view() =~= seq![v@]);
    r
}

fn expand_plain_exec(p: &Vec<char>) -> (r: Vec<Vec<char>>)
    ensures
        r.deep_view() == expand_plain(p@),
{
    if is_whole_known_field(p) {
        single_token(copy_chars(p))
    } else if contains_char(p, '_') && !contains_char(p, '.') {
        split_on_underscore(p)
    } else {
        single_token(copy_chars(p))
    }
}

fn expand_plain_all_exec(ps: &Vec<Vec<char>>) -> (r: Vec<Vec<char>>)
    ensures
        r.deep_view() == expand_plain_all(ps.deep_view()),
{
    let mut out: Vec<Vec<char>> = Vec::new();
    let mut i: usize = 0;
    while i < ps.len()
        invariant
            i <= ps.len(),
            out.deep_view() == expand_plain_all(ps.deep_view().take(i as int)),
        decreases ps.len() - i,
    {
        proof {
            lemma_chars_deep_view(&ps@[i as int]);
        }
        let e = expand_plain_exec(&ps[i]);
        extend_tokens(&mut out, e);
        assert(ps.deep_view().take(i + 1).drop_last() =~= ps.deep_view().take(i as int));
        i = i + 1;
    }
    assert(ps.deep_view().take(ps.len() as int) =~= ps.deep_view());
    out
}

fn dot_dash() -> (r: Vec<char>)
    ensures
        r@ == seq!['.', '-'],
{
    let mut r: Vec<char> = Vec::new();
    r.push('.');
    r.push('-');
    assert(r@ =~= seq!['.', '-']);
    r
}

fn dot_only() -> (r: Vec<char>)
    ensures
        r@ == seq!['.'],
{
    let mut r: Vec<char> = Vec::new();
    r.push('.');
    assert(r@ =~= seq!['.']);
    r
}

fn split_dotted(part: &Vec<char>) -> (r: Option<Vec<Vec<char>>>)
    ensures
        match r {
            Some(v) => spec_split_dotted(part@) == Some(v.deep_view()),
            None => spec_split_dotted(part@).is_none(),
        },
{
    let text = string_of(part);
    let found = regex_find_text(DOTTED_VERSION_PATTERN, text.as_str());
    let dots = dot_only();
    match found {
        Some(Some((pre, m, post))) => {
            let dd = dot_dash();
            let pre_c = trim_chars(&chars_of(pre.as_str()), &dd);
            let post_c = trim_chars(&chars_of(post.as_str()), &dd);
            let mut out = expand_plain_all_exec(&split_pieces(&pre_c, &dots));
            let mut mid: Vec<Vec<char>> = Vec::new();
            let mc = chars_of(m.as_str());
            proof {
                lemma_chars_deep_view(&mc);
            }
            mid.push(mc);
            assert(mid.deep_view() =~= seq![m@]);
            extend_tokens(&mut out, mid);
            let tail = expand_plain_all_exec(&split_pieces(&post_c, &dots));
            extend_tokens(&mut out, tail);
            Some(out)
        },
        _ => {
            let pieces = split_pieces(part, &dots);
            let mut any = false;
            let mut i: usize = 0;
            while i < pieces.len()
                invariant
                    i <= pieces.len(),
                    any == (exists|k: int| 0 <= k < i && #[trigger] is_os_or_arch(pieces.deep_view()[k])),
                decreases pieces.len() - i,
            {
                proof {
                    lemma_chars_deep_view(&pieces@[i as int]);
                }
                let hit = is_os_or_arch_chars(&pieces[i]);
                proof {
                    assert(pieces.deep_view()[i as int] == pieces@[i as int]@);
                    if hit {
                        assert(is_os_or_arch(pieces.deep_view()[i as int]));
                    }
                }
                if hit {
                    any = true;
                }
                i = i + 1;
            }
            if pieces.len() > 1 && any {
                Some(expand_plain_all_exec(&pieces))
            } else {
                None
            }
        },
    }
}

fn expand_part(part: &Vec<char>) -> (r: Vec<Vec<char>>)
    ensures
        r.deep_view() == spec_expand_part(part@),
{
    if is_whole_known_field(part) {
        return single_token(copy_chars(part));
    }
    if contains_char(part, '_') && !contains_char(part, '.') {
        return split_on_underscore(part);
    }
    if contains_char(part, '.') {
        if let Some(split) = split_dotted(part) {
            return split;
        }
    }
    single_token(copy_chars(part))
}

/// The tokens of a file name stem.
pub fn tokenize_filename_stem(stem: &str) -> (r: Vec<String>)
    ensures
        r.deep_view() == spec_tokenize(stem@),
{
    let parts = match regex_split_text(SEPARATOR_PATTERN, stem) {
        Some(p) => p,
        None => {
            let empty: Vec<String> = Vec::new();
            assert(empty.deep_view() =~= Seq::<Seq<char>>::empty());
            return empty;
        },
    };
    tokens_from_parts(&parts)
}

/// The tokens that the pieces of a stem, as split at separator runs, stand
/// for: empty pieces dropped, each other piece expanded (underscore splits
/// with `x86` `64` merged back, dotted splits around a version, or the piece
/// whole).
pub fn tokens_from_parts(parts: &Vec<String>) -> (r: Vec<String>)
    ensures
        r.deep_view() == expand_parts(drop_empty(parts.deep_view())),
{
    let pc = chars_of_all(&parts);
    let mut ne: Vec<Vec<char>> = Vec::new();
    let mut i: usize = 0;
    while i < pc.len()
        invariant
            i <= pc.len(),
            ne.deep_view() == drop_empty(pc.deep_view().take(i as int)),
        decreases pc.len() - i,
    {
        proof {
            lemma_chars_deep_view(&pc@[i as int]);
        }
        assert(pc.deep_view().take(i + 1).drop_last() =~= pc.deep_view().take(i as int));
        if pc[i].len() > 0 {
            let c = copy_chars(&pc[i]);
            proof {
                lemma_chars_deep_view(&c);
            }
            let ghost before = ne.deep_view();
            ne.push(c);
            assert(ne.deep_view() =~= before.push(pc@[i as int]@));
        }
        i = i + 1;
    }
    assert(pc.deep_view().take(pc.len() as int) =~= pc.deep_view());
    let mut out: Vec<Vec<char>> = Vec::new();
    let mut j: usize = 0;
    while j < ne.len()
        invariant
            j <= ne.len(),
            out.deep_view() == expand_parts(ne.deep_view().take(j as int)),
        decreases ne.len() - j,
    {
        proof {
            lemma_chars_deep_view(&ne@[j as int]);
        }
        let e = expand_part(&ne[j]);
        extend_tokens(&mut out, e);
        assert(ne.deep_view().take(j + 1).drop_last() =~= ne.deep_view().take(j as int));
        j = j + 1;
    }
    assert(ne.deep_view().take(ne.len() as int) =~= ne.deep_view());
    crate::text::strings_of(&out)
}

// ---------------------------------------------------------------------------
// Guessing
// ---------------------------------------------------------------------------

/// Packaging words that never continue a version.
pub open spec fn is_packaging_word(l: Seq<char>) -> bool {
    ||| l == "portable"@
    ||| l == "installer"@
    ||| l == "setup"@
    ||| l == "standalone"@
    ||| l == "full"@
    ||| l == "lite"@
    ||| l == "release"@
    ||| l == "debug"@
    ||| l == "final"@
}

/// `looks_like_version_suffix`: a token that may continue a version started
/// before it.
pub open spec fn spec_version_suffix(t: Seq<char>) -> bool {
    let l = lower(t);
    &&& l.len() > 0
    &&& !is_os_or_arch(t)
    &&& !is_packaging_word(l)
    &&& regex_is_match(VERSION_SUFFIX_PATTERN@, t) == Some(true)
}

/// A token of a file name together with what the version grammar says of it.
pub struct FilenameToken {
    pub text: String,
    /// The token, taken whole, starts a version.
    pub version_start: bool,
    /// The token may continue a version.
    pub version_suffix: bool,
}

impl View for FilenameToken {
    type V = (Seq<char>, bool, bool);

    open spec fn view(&self) -> (Seq<char>, bool, bool) {
        (self.text@, self.version_start, self.version_suffix)
    }
}

pub open spec fn token_views(ts: Seq<FilenameToken>) -> Seq<(Seq<char>, bool, bool)> {
    ts.map_values(|t: FilenameToken| t@)
}

/// Each token with the version grammar applied to it.
pub open spec fn classify(ts: Seq<Seq<char>>) -> Seq<(Seq<char>, bool, bool)> {
    ts.map_values(|t: Seq<char>| (t, spec_is_version_start(t), spec_version_suffix(t)))
}

/// What `guess_from_filename` found, as values.
pub ghost struct GuessView {
    pub raw_stem: Seq<char>,
    pub app: Option<Seq<char>>,
    pub version: Option<Seq<char>>,
    pub os: Option<Seq<char>>,
    pub architecture: Option<Seq<char>>,
    pub confidence_percent: nat,
    pub notes: Seq<Seq<char>>,
}

/// Metadata guessed from an archive file name. The confidence is kept in
/// hundredths (`45` for an app name, `20` for a version, `15` each for OS and
/// architecture).
#[derive(Clone, Debug)]
pub struct FilenameGuess {
    pub raw_stem: String,
    pub app: Option<String>,
    pub version: Option<String>,
    pub os: Option<String>,
    pub architecture: Option<String>,
    pub confidence_percent: u32,
    pub notes: Vec<String>,
}

pub open spec fn opt_seq(o: Option<String>) -> Option<Seq<char>> {
    match o {
        Some(s) => Some(s@),
        None => None,
    }
}

impl View for FilenameGuess {
    type V = GuessView;

    open spec fn view(&self) -> GuessView {
        GuessView {
            raw_stem: self.raw_stem@,
            app: opt_seq(self.app),
            version: opt_seq(self.version),
            os: opt_seq(self.os),
            architecture: opt_seq(self.architecture),
            confidence_percent: self.confidence_percent as nat,
            notes: self.notes.deep_view(),
        }
    }
}

/// Index of the first token that names an OS.
pub open spec fn first_os_index(ts: Seq<(Seq<char>, bool, bool)>) -> Option<int>
    decreases ts.len(),
{
    if ts.len() == 0 {
        None
    } else {
        match first_os_index(ts.drop_last()) {
            Some(i) => Some(i),
            None => if spec_normalize_os(lower(ts.last().0)).is_some() {
                Some(ts.len() - 1)
            } else {
                None
            },
        }
    }
}

/// Index of the first token that names an architecture.
pub open spec fn first_arch_index(ts: Seq<(Seq<char>, bool, bool)>) -> Option<int>
    decreases ts.len(),
{
    if ts.len() == 0 {
        None
    } else {
        match first_arch_index(ts.drop_last()) {
            Some(i) => Some(i),
            None => if is_arch_token(lower(ts.last().0)) {
                Some(ts.len() - 1)
            } else {
                None
            },
        }
    }
}

/// Index of the first token that starts a version.
pub open spec fn first_version_index(ts: Seq<(Seq<char>, bool, bool)>) -> Option<int>
    decreases ts.len(),
{
    if ts.len() == 0 {
        None
    } else {
        match first_version_index(ts.drop_last()) {
            Some(i) => Some(i),
            None => if ts.last().1 {
                Some(ts.len() - 1)
            } else {
                None
            },
        }
    }
}

pub proof fn lemma_first_version_index(ts: Seq<(Seq<char>, bool, bool)>)
    ensures
        match first_version_index(ts) {
            Some(i) => 0 <= i < ts.len() && ts[i].1 && forall|k: int| 0 <= k < i ==> !ts[k].1,
            None => forall|k: int| 0 <= k < ts.len() ==> !ts[k].1,
        },
    decreases ts.len(),
{
    if ts.len() > 0 {
        let p = ts.drop_last();
        lemma_first_version_index(p);
        assert forall|k: int| 0 <= k < p.len() implies p[k] == ts[k] by {}
    }
}

/// Number of tokens from `j` on that continue a version: each neither names an
/// OS or architecture nor fails the suffix test.
pub open spec fn suffix_run(ts: Seq<(Seq<char>, bool, bool)>, j: int) -> nat
    decreases ts.len() - j,
{
    if 0 <= j < ts.len() && !is_os_or_arch(ts[j].0) && ts[j].2 {
        1 + suffix_run(ts, j + 1)
    } else {
        0
    }
}

pub open spec fn texts(ts: Seq<(Seq<char>, bool, bool)>) -> Seq<Seq<char>> {
    ts.map_values(|t: (Seq<char>, bool, bool)| t.0)
}

/// The version that starts at token `i`: the token without its `v` prefix and
/// the suffix tokens after it, joined with `-`.
pub open spec fn version_at(ts: Seq<(Seq<char>, bool, bool)>, i: int) -> Seq<char> {
    join(
        seq![strip_v(ts[i].0)] + texts(ts).subrange(i + 1, i + 1 + suffix_run(ts, i + 1)),
        seq!['-'],
    )
}

pub open spec fn opt_min(a: Option<int>, b: Option<int>) -> Option<int> {
    match (a, b) {
        (Some(x), Some(y)) => Some(if x <= y {
            x
        } else {
            y
        }),
        (Some(x), None) => Some(x),
        (None, Some(y)) => Some(y),
        (None, None) => None,
    }
}

/// Where the app name ends: the first of the version, OS and architecture
/// tokens, or the end.
pub open spec fn cutoff(ts: Seq<(Seq<char>, bool, bool)>) -> int {
    match opt_min(opt_min(first_version_index(ts), first_os_index(ts)), first_arch_index(ts)) {
        Some(c) => c,
        None => ts.len() as int,
    }
}

pub open spec fn note_if(notes: Seq<Seq<char>>, missing: bool, note: Seq<char>) -> Seq<Seq<char>> {
    if missing {
        notes.push(note)
    } else {
        notes
    }
}

/// `guess_from_filename` once the stem is split into classified tokens.
pub open spec fn spec_guess(stem: Seq<char>, ts: Seq<(Seq<char>, bool, bool)>) -> GuessView {
    let c = cutoff(ts);
    let app = if c > 0 {
        Some(join(texts(ts).take(c), seq!['-']))
    } else {
        None
    };
    let version = match first_version_index(ts) {
        Some(i) => Some(version_at(ts, i)),
        None => None,
    };
    let os = match first_os_index(ts) {
        Some(i) => spec_normalize_os(lower(ts[i].0)),
        None => None,
    };
    let arch = match first_arch_index(ts) {
        Some(i) => Some(spec_normalize_arch(lower(ts[i].0))),
        None => None,
    };
    let confidence = (if app.is_some() {
        45nat
    } else {
        0nat
    }) + (if version.is_some() {
        20nat
    } else {
        0nat
    }) + (if os.is_some() {
        15nat
    } else {
        0nat
    }) + (if arch.is_some() {
        15nat
    } else {
        0nat
    });
    let n1 = note_if(
        Seq::empty(),
        app.is_none(),
        "filename did not contain a reliable app name"@,
    );
    let n2 = note_if(n1, version.is_none(), "version was not found in filename"@);
    let n3 = note_if(n2, os.is_none(), "OS was not found in filename"@);
    let n4 = note_if(n3, arch.is_none(), "architecture was not found in filename"@);
    GuessView {
        raw_stem: stem,
        app,
        version,
        os,
        architecture: arch,
        confidence_percent: confidence,
        notes: n4,
    }
}

/// `guess_from_filename` of a path.
pub open spec fn spec_guess_from_filename(path: Seq<char>) -> GuessView {
    let name = match file_name(path) {
        Some(n) => n,
        None => Seq::empty(),
    };
    let stem = spec_strip_archive_extensions(name);
    spec_guess(stem, classify(spec_tokenize(stem)))
}

fn looks_like_version_suffix(t: &Vec<char>) -> (r: bool)
    ensures
        r == spec_version_suffix(t@),
{
    let l = to_lower(t);
    if l.len() == 0 {
        return false;
    }
    if is_os_chars(&l) || arch_token(&l) {
        return false;
    }
    if eq_lit(&l, "portable") || eq_lit(&l, "installer") || eq_lit(&l, "setup") || eq_lit(
        &l,
        "standalone",
    ) || eq_lit(&l, "full") || eq_lit(&l, "lite") || eq_lit(&l, "release") || eq_lit(&l, "debug")
        || eq_lit(&l, "final") {
        return false;
    }
    let s = string_of(t);
    match regex_test(VERSION_SUFFIX_PATTERN, s.as_str()) {
        Some(b) => b,
        None => false,
    }
}

/// Applies the version grammar to each token.
pub fn classify_tokens(tokens: &Vec<String>) -> (r: Vec<FilenameToken>)
    ensures
        token_views(r@) == classify(tokens.deep_view()),
{
    let mut out: Vec<FilenameToken> = Vec::new();
    let mut i: usize = 0;
    while i < tokens.len()
        invariant
            i <= tokens.len(),
            out.len() == i,
            forall|k: int|
                0 <= k < i ==> #[trigger] out@[k]@ == classify(tokens.deep_view())[k],
        decreases tokens.len() - i,
    {
        let t = chars_of(tokens[i].as_str());
        let start = is_version_start_chars(&t);
        let suffix = looks_like_version_suffix(&t);
        out.push(FilenameToken { text: string_of(&t), version_start: start, version_suffix: suffix });
        i = i + 1;
    }
    assert(token_views(out@) =~= classify(tokens.deep_view()));
    out
}

proof fn lemma_take_step<T>(s: Seq<T>, i: int)
    requires
        0 <= i < s.len(),
    ensures
        s.take(i + 1).drop_last() == s.take(i),
        s.take(i + 1).last() == s[i],
{
    assert(s.take(i + 1).drop_last() =~= s.take(i));
}

pub open spec fn opt_usize(o: Option<usize>) -> Option<int> {
    match o {
        Some(x) => Some(x as int),
        None => None,
    }
}

fn min_index(a: Option<usize>, b: Option<usize>) -> (r: Option<usize>)
    ensures
        opt_usize(r) == opt_min(opt_usize(a), opt_usize(b)),
{
    match (a, b) {
        (Some(x), Some(y)) => Some(if x <= y { x } else { y }),
        (Some(x), None) => Some(x),
        (None, Some(y)) => Some(y),
        (None, None) => None,
    }
}

fn string_lit(s: &str) -> (r: String)
    ensures
        r@ == s@,
{
    let c = chars_of(s);
    string_of(&c)
}

/// The first OS, architecture and version tokens of `tokens`, with the
/// canonical OS and architecture names.
fn scan_tokens(tokens: &Vec<FilenameToken>) -> (r: (
    Option<Vec<char>>,
    Option<usize>,
    Option<Vec<char>>,
    Option<usize>,
    Option<usize>,
))
    ensures
        opt_usize(r.1) == first_os_index(token_views(tokens@)),
        opt_usize(r.3) == first_arch_index(token_views(tokens@)),
        opt_usize(r.4) == first_version_index(token_views(tokens@)),
        match r.1 {
            Some(k) => k < tokens.len() && r.0 is Some && spec_normalize_os(
                lower(token_views(tokens@)[k as int].0),
            ) == Some(r.0->0@),
            None => r.0 is None,
        },
        match r.3 {
            Some(k) => k < tokens.len() && r.2 is Some && spec_normalize_arch(
                lower(token_views(tokens@)[k as int].0),
            ) == r.2->0@,
            None => r.2 is None,
        },
{
    let ghost ts = token_views(tokens@);
    let mut os: Option<Vec<char>> = None;
    let mut os_index: Option<usize> = None;
    let mut arch: Option<Vec<char>> = None;
    let mut arch_index: Option<usize> = None;
    let mut version_index: Option<usize> = None;
    let mut i: usize = 0;
    while i < tokens.len()
        invariant
            i <= tokens.len(),
            ts == token_views(tokens@),
            opt_usize(os_index) == first_os_index(ts.take(i as int)),
            opt_usize(arch_index) == first_arch_index(ts.take(i as int)),
            opt_usize(version_index) == first_version_index(ts.take(i as int)),
            match os_index {
                Some(k) => k < i && os is Some && spec_normalize_os(lower(ts[k as int].0)) == Some(
                    os->0@,
                ),
                None => os is None,
            },
            match arch_index {
                Some(k) => k < i && arch is Some && spec_normalize_arch(lower(ts[k as int].0))
                    == arch->0@,
                None => arch is None,
            },
        decreases tokens.len() - i,
    {
        proof {
            lemma_take_step(ts, i as int);
        }
        let text = chars_of(tokens[i].text.as_str());
        let low = to_lower(&text);
        assert(ts[i as int].0 == text@);
        if os.is_none() {
            if let Some(n) = normalize_os_chars(&low) {
                os = Some(n);
                os_index = Some(i);
            }
        }
        if arch.is_none() {
            if arch_token(&low) {
                arch = Some(normalize_arch_chars(&low));
                arch_index = Some(i);
            }
        }
        if version_index.is_none() && tokens[i].version_start {
            version_index = Some(i);
        }
        i = i + 1;
    }
    assert(ts.take(tokens.len() as int) =~= ts);
    (os, os_index, arch, arch_index, version_index)
}

fn dash() -> (r: Vec<char>)
    ensures
        r@ == seq!['-'],
{
    let mut d: Vec<char> = Vec::new();
    d.push('-');
    assert(d@ =~= seq!['-']);
    d
}

/// The version that starts at token `vi`.
fn version_from(tokens: &Vec<FilenameToken>, vi: usize) -> (r: Vec<char>)
    requires
        vi < tokens.len(),
    ensures
        r@ == version_at(token_views(tokens@), vi as int),
{
    let ghost ts = token_views(tokens@);
    let first = strip_v_prefix(&chars_of(tokens[vi].text.as_str()));
    let mut parts: Vec<Vec<char>> = single_token(first);
    let mut j: usize = vi + 1;
    let mut done = false;
    proof {
        assert(texts(ts).subrange(vi + 1, vi + 1) =~= Seq::<Seq<char>>::empty());
        assert(parts.deep_view() =~= seq![strip_v(ts[vi as int].0)] + texts(ts).subrange(
            vi + 1,
            j as int,
        ));
    }
    while !done && j < tokens.len()
        invariant
            vi < tokens.len(),
            vi + 1 <= j <= tokens.len(),
            ts == token_views(tokens@),
            parts.deep_view() == seq![strip_v(ts[vi as int].0)] + texts(ts).subrange(
                vi + 1,
                j as int,
            ),
            suffix_run(ts, vi + 1) == (j - (vi + 1)) + suffix_run(ts, j as int),
            done ==> suffix_run(ts, j as int) == 0,
        decreases tokens.len() - j, (if done { 0int } else { 1int }),
    {
        let t = chars_of(tokens[j].text.as_str());
        assert(ts[j as int].0 == t@);
        if is_os_or_arch_chars(&t) || !tokens[j].version_suffix {
            done = true;
        } else {
            let ghost before = parts.deep_view();
            let c = copy_chars(&t);
            proof {
                lemma_chars_deep_view(&c);
            }
            parts.push(c);
            proof {
                assert(parts.deep_view() =~= before.push(t@));
                assert(texts(ts).subrange(vi + 1, j + 1) =~= texts(ts).subrange(
                    vi + 1,
                    j as int,
                ).push(texts(ts)[j as int]));
            }
            j = j + 1;
        }
    }
    join_chars(&parts, &dash())
}

/// The first `cut` tokens joined with `-`.
fn app_from(tokens: &Vec<FilenameToken>, cut: usize) -> (r: Vec<char>)
    requires
        cut <= tokens.len(),
    ensures
        r@ == join(texts(token_views(tokens@)).take(cut as int), seq!['-']),
{
    let ghost ts = token_views(tokens@);
    let mut head: Vec<Vec<char>> = Vec::new();
    let mut k: usize = 0;
    while k < cut
        invariant
            k <= cut <= tokens.len(),
            ts == token_views(tokens@),
            head.deep_view() == texts(ts).take(k as int),
        decreases cut - k,
    {
        let c = chars_of(tokens[k].text.as_str());
        proof {
            lemma_chars_deep_view(&c);
        }
        let ghost before = head.deep_view();
        head.push(c);
        assert(head.deep_view() =~= before.push(texts(ts)[k as int]));
        assert(texts(ts).take(k + 1) =~= texts(ts).take(k as int).push(texts(ts)[k as int]));
        k = k + 1;
    }
    join_chars(&head, &dash())
}

/// The notes for the fields that were not found.
fn guess_notes(no_app: bool, no_version: bool, no_os: bool, no_arch: bool) -> (r: Vec<String>)
    ensures
        r.deep_view() == note_if(
            note_if(
                note_if(
                    note_if(
                        Seq::empty(),
                        no_app,
                        "filename did not contain a reliable app name"@,
                    ),
                    no_version,
                    "version was not found in filename"@,
                ),
                no_os,
                "OS was not found in filename"@,
            ),
            no_arch,
            "architecture was not found in filename"@,
        ),
{
    let mut notes: Vec<String> = Vec::new();
    let ghost n0 = notes.deep_view();
    assert(n0 =~= Seq::<Seq<char>>::empty());
    if no_app {
        notes.push(string_lit("filename did not contain a reliable app name"));
    }
    let ghost n1 = notes.deep_view();
    assert(n1 =~= note_if(n0, no_app, "filename did not contain a reliable app name"@));
    if no_version {
        notes.push(string_lit("version was not found in filename"));
    }
    let ghost n2 = notes.deep_view();
    assert(n2 =~= note_if(n1, no_version, "version was not found in filename"@));
    if no_os {
        notes.push(string_lit("OS was not found in filename"));
    }
    let ghost n3 = notes.deep_view();
    assert(n3 =~= note_if(n2, no_os, "OS was not found in filename"@));
    if no_arch {
        notes.push(string_lit("architecture was not found in filename"));
    }
    assert(notes.deep_view() =~= note_if(n3, no_arch, "architecture was not found in filename"@));
    notes
}

fn opt_string(o: Option<Vec<char>>) -> (r: Option<String>)
    ensures
        opt_seq(r) == match o {
            Some(v) => Some(v@),
            None => None::<Seq<char>>,
        },
{
    match o {
        Some(v) => Some(string_of(&v)),
        None => None,
    }
}

/// The guess once the stem is split into classified tokens: the first OS token,
/// the first architecture token, the version that starts at the first version
/// token, and the tokens before all of these as the app name.
pub fn guess_from_tokens(stem: &str, tokens: &Vec<FilenameToken>) -> (g: FilenameGuess)
    ensures
        g@ == spec_guess(stem@, token_views(tokens@)),
{
    let ghost ts = token_views(tokens@);
    let (os, os_index, arch, arch_index, version_index) = scan_tokens(tokens);
    let version: Option<Vec<char>> = match version_index {
        Some(vi) => {
            proof {
                lemma_first_version_index(ts);
            }
            Some(version_from(tokens, vi))
        },
        None => None,
    };
    let cut: usize = match min_index(min_index(version_index, os_index), arch_index) {
        Some(c) => c,
        None => tokens.len(),
    };
    let app: Option<Vec<char>> = if cut > 0 {
        Some(app_from(tokens, cut))
    } else {
        None
    };
    let mut confidence: u32 = 0;
    if app.is_some() {
        confidence = confidence + 45;
    }
    if version.is_some() {
        confidence = confidence + 20;
    }
    if os.is_some() {
        confidence = confidence + 15;
    }
    if arch.is_some() {
        confidence = confidence + 15;
    }
    let notes = guess_notes(app.is_none(), version.is_none(), os.is_none(), arch.is_none());
    FilenameGuess {
        raw_stem: string_lit(stem),
        app: opt_string(app),
        version: opt_string(version),
        os: opt_string(os),
        architecture: opt_string(arch),
        confidence_percent: confidence,
        notes,
    }
}

/// Guesses app name, version, OS and architecture from the file name of `path`.
pub fn guess_from_filename(path: &str) -> (g: FilenameGuess)
    ensures
        g@ == spec_guess_from_filename(path@),
{
    let p = chars_of(path);
    let name = file_name_or_empty(&p);
    let stem = string_of(&strip_archive_extensions_chars(&name));
    let tokens = tokenize_filename_stem(stem.as_str());
    let classified = classify_tokens(&tokens);
    guess_from_tokens(stem.as_str(), &classified)
}

} // verus!
