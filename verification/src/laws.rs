//! Properties that span several functions of the library: what an install
//! plan guarantees, what extraction keeps out, and how the record of an
//! install relates to its later removal.
use vstd::prelude::*;
use crate::archive::{
    checked_views, components_reason, is_appimage, spec_score, spec_unsafe_path_reason, unsafe_of,
    ArchiveInspection, EntryView,
};
use crate::install::{
    error_text, installed_view, normalize_components, spec_doctor_lines, spec_extract_refusal,
    inside_dir, spec_make_plan, spec_normalize_relative_path, EntryKind, InstallError, PlanView,
};
use crate::pathstr::{components, dotdot, has_component_ci, has_root, parent, path_join, slash};
use crate::paths::{names_own_dir, spec_targets, spec_targets_error, InstallScope, PathEnv, PathsError};
use crate::recipe::{
    is_sanitized, lemma_sanitize_idempotent, lemma_sanitize_shape, spec_display_name, spec_sanitize,
    AppRecipe, InstallInput,
};
use crate::state::AppView;
use crate::desktop::{spec_categories, spec_escape_value};
use crate::filename::{
    cutoff, first_arch_index, first_os_index, first_version_index, is_arch_token,
    lemma_first_version_index, spec_guess, spec_normalize_arch, spec_normalize_os,
    spec_strip_archive_extensions, texts,
};
use crate::text::{
    contains_seq, ends_with, join, lemma_lower_idempotent, lower, replace_char, starts_with, strip_v,
    trim_space, trim_start_set,
};
use crate::install_run::{spec_run_step, EventView, RunView};
use crate::version::{
    all_candidates, best_of, decide, json_string_field, line_candidates, line_score,
    metadata_rel, needles, pick, spec_clean_version, spec_json_version, DetectEvent,
    VersionDetection,
};

verus! {

// ---------------------------------------------------------------------------
// Extraction safety
// ---------------------------------------------------------------------------

proof fn lemma_no_unsafe_component(cs: Seq<Seq<char>>)
    requires
        components_reason(cs).is_none(),
    ensures
        forall|i: int| 0 <= i < cs.len() ==> #[trigger] cs[i] != dotdot() && cs[i] != slash(),
    decreases cs.len(),
{
    if cs.len() > 0 {
        lemma_no_unsafe_component(cs.drop_first());
        assert forall|i: int| 0 <= i < cs.len() implies #[trigger] cs[i] != dotdot() && cs[i]
            != slash() by {
            if i > 0 {
                assert(cs[i] == cs.drop_first()[i - 1]);
            }
        }
    }
}

proof fn lemma_names_normalize(cs: Seq<Seq<char>>)
    requires
        forall|i: int| 0 <= i < cs.len() ==> #[trigger] cs[i] != dotdot() && cs[i] != slash(),
    ensures
        normalize_components(cs).is_some(),
    decreases cs.len(),
{
    if cs.len() > 0 {
        let p = cs.drop_last();
        assert forall|i: int| 0 <= i < p.len() implies #[trigger] p[i] != dotdot() && p[i]
            != slash() by {
            assert(p[i] == cs[i]);
        }
        lemma_names_normalize(p);
        assert(cs.last() == cs[cs.len() - 1]);
    }
}

/// A path that passes the safety check (`unsafe_path_reason` gives `None`)
/// resolves component by component without ever climbing above the directory
/// it is extracted into.
pub proof fn law_safe_path_stays_inside(p: Seq<char>)
    requires
        spec_unsafe_path_reason(p).is_none(),
    ensures
        spec_normalize_relative_path(p).is_some(),
{
    lemma_no_unsafe_component(components(p));
    lemma_names_normalize(components(p));
}

/// Extraction refuses every hard link, and accepts a symlink only when its
/// target is relative and, resolved from the link's directory, names a path
/// inside the extracted tree; when the entries share a top-level directory,
/// which becomes the app directory, the target resolves below it.
pub proof fn law_links_stay_inside(raw: Seq<char>, link: Option<Seq<char>>, root: Option<Seq<char>>)
    ensures
        spec_extract_refusal(raw, EntryKind::HardLink, link, root).is_some(),
        spec_extract_refusal(raw, EntryKind::Symlink, link, root).is_none() ==> ({
            let target = link.unwrap();
            let base = match parent(raw) {
                Some(b) => b,
                None => Seq::empty(),
            };
            let resolved = spec_normalize_relative_path(path_join(base, target));
            &&& link.is_some()
            &&& !has_root(target)
            &&& resolved.is_some()
            &&& resolved.unwrap().len() > 0
            &&& (root matches Some(app) ==> inside_dir(resolved.unwrap(), app))
        }),
{
}

proof fn lemma_unsafe_of_nonempty(es: Seq<EntryView>, i: int)
    requires
        0 <= i < es.len(),
        es[i].unsafe_reason.is_some(),
    ensures
        unsafe_of(es).len() > 0,
    decreases es.len(),
{
    if i < es.len() - 1 {
        assert(es.drop_last()[i] == es[i]);
        lemma_unsafe_of_nonempty(es.drop_last(), i);
    }
}

/// An archive with an entry whose path is unsafe (absolute, or with a `..` or
/// root component) is never planned for install, whatever the caller asks,
/// `force` included, and whatever unsafe reasons its entries came with.
pub proof fn law_unsafe_archive_refused(
    archive: Seq<char>,
    scope: InstallScope,
    input: InstallInput,
    insp: ArchiveInspection,
    entries: Seq<EntryView>,
    i: int,
    embedded: Option<AppRecipe>,
    os: Seq<char>,
    arch: Seq<char>,
    env: PathEnv,
)
    requires
        insp.safe == (unsafe_of(checked_views(entries)).len() == 0),
        0 <= i < entries.len(),
        spec_unsafe_path_reason(entries[i].path).is_some(),
    ensures
        spec_make_plan(archive, scope, input, insp, embedded, os, arch, env) == Err::<
            PlanView,
            Seq<char>,
        >(error_text(InstallError::UnsafeArchive)),
{
    lemma_unsafe_of_nonempty(checked_views(entries), i);
}

// ---------------------------------------------------------------------------
// Planning
// ---------------------------------------------------------------------------

/// With `force`, the running system's OS and architecture play no part in the
/// plan.
pub proof fn law_force_ignores_platform(
    archive: Seq<char>,
    scope: InstallScope,
    input: InstallInput,
    insp: ArchiveInspection,
    embedded: Option<AppRecipe>,
    os1: Seq<char>,
    arch1: Seq<char>,
    os2: Seq<char>,
    arch2: Seq<char>,
    env: PathEnv,
)
    requires
        input.force,
    ensures
        spec_make_plan(archive, scope, input, insp, embedded, os1, arch1, env) == spec_make_plan(
            archive,
            scope,
            input,
            insp,
            embedded,
            os2,
            arch2,
            env,
        ),
{
}

/// A recipe given by the caller replaces the one embedded in the archive: the
/// embedded recipe plays no part in the plan.
pub proof fn law_caller_recipe_wins(
    archive: Seq<char>,
    scope: InstallScope,
    input: InstallInput,
    insp: ArchiveInspection,
    embedded1: Option<AppRecipe>,
    embedded2: Option<AppRecipe>,
    os: Seq<char>,
    arch: Seq<char>,
    env: PathEnv,
)
    requires
        input.recipe.is_some(),
    ensures
        spec_make_plan(archive, scope, input, insp, embedded1, os, arch, env) == spec_make_plan(
            archive,
            scope,
            input,
            insp,
            embedded2,
            os,
            arch,
            env,
        ),
{
}

/// A recipe embedded in the archive, when the caller gives none, plans the
/// install exactly as if the caller had given it.
pub proof fn law_embedded_recipe_acts_as_given(
    archive: Seq<char>,
    scope: InstallScope,
    input: InstallInput,
    insp: ArchiveInspection,
    embedded: AppRecipe,
    os: Seq<char>,
    arch: Seq<char>,
    env: PathEnv,
)
    requires
        input.recipe.is_none(),
    ensures
        spec_make_plan(archive, scope, input, insp, Some(embedded), os, arch, env) == spec_make_plan(
            archive,
            scope,
            InstallInput { recipe: Some(embedded), ..input },
            insp,
            None,
            os,
            arch,
            env,
        ),
{
}

/// The version of a plan is the caller's when given; else the version of the
/// recipe the plan follows (the caller's recipe, else the embedded one) when it
/// gives one, whatever the file name says; only when neither gives one is it
/// the version guessed from the file name.
pub proof fn law_plan_version_precedence(
    archive: Seq<char>,
    scope: InstallScope,
    input: InstallInput,
    insp: ArchiveInspection,
    embedded: Option<AppRecipe>,
    os: Seq<char>,
    arch: Seq<char>,
    env: PathEnv,
    plan: PlanView,
)
    requires
        spec_make_plan(archive, scope, input, insp, embedded, os, arch, env) == Ok::<
            PlanView,
            Seq<char>,
        >(plan),
    ensures
        ({
            let recipe = if input.recipe.is_some() {
                input.recipe
            } else {
                embedded
            };
            let recipe_version = match recipe {
                Some(r) => match r.version {
                    Some(rv) => Some(rv@),
                    None => None,
                },
                None => None,
            };
            &&& input.version matches Some(v) ==> plan.version == Some(v@)
            &&& input.version is None ==> (recipe_version matches Some(rv) ==> plan.version == Some(
                rv,
            ))
            &&& (input.version is None && recipe_version is None) ==> plan.version
                == insp.filename_guess@.version
        }),
{
}

/// The other values of a plan come from the caller first, then from the recipe
/// the plan follows: its name (else a display name made from the id), whether
/// to probe the version (else yes), its executable, its command name (else the
/// id made a command name) and its icon.
pub proof fn law_plan_values_caller_then_recipe(
    archive: Seq<char>,
    scope: InstallScope,
    input: InstallInput,
    insp: ArchiveInspection,
    embedded: Option<AppRecipe>,
    os: Seq<char>,
    arch: Seq<char>,
    env: PathEnv,
    plan: PlanView,
)
    requires
        spec_make_plan(archive, scope, input, insp, embedded, os, arch, env) == Ok::<
            PlanView,
            Seq<char>,
        >(plan),
    ensures
        ({
            let recipe = if input.recipe.is_some() {
                input.recipe
            } else {
                embedded
            };
            let r_name = match recipe {
                Some(r) => match r.name {
                    Some(x) => Some(x@),
                    None => None,
                },
                None => None,
            };
            let r_probe = match recipe {
                Some(r) => r.probe_version,
                None => None,
            };
            let r_exec = match recipe {
                Some(r) => match r.exec_path {
                    Some(x) => Some(x@),
                    None => None,
                },
                None => None,
            };
            let r_command = match recipe {
                Some(r) => match r.command {
                    Some(x) => Some(x@),
                    None => None,
                },
                None => None,
            };
            let r_icon = match recipe {
                Some(r) => match r.icon {
                    Some(x) => Some(x@),
                    None => None,
                },
                None => None,
            };
            &&& input.name matches Some(n) ==> plan.app_name == n@
            &&& input.name is None ==> (r_name matches Some(n) ==> plan.app_name == n)
            &&& (input.name is None && r_name is None) ==> plan.app_name == spec_display_name(
                plan.app_id,
            )
            &&& input.probe_version matches Some(b) ==> plan.probe_version == b
            &&& input.probe_version is None ==> (r_probe matches Some(b) ==> plan.probe_version
                == b)
            &&& (input.probe_version is None && r_probe is None) ==> plan.probe_version
            &&& input.exec_path matches Some(e) ==> plan.exec_path_inside_app == e@
            &&& input.exec_path is None ==> (r_exec matches Some(e) ==> plan.exec_path_inside_app
                == e)
            &&& input.command matches Some(c) ==> plan.command_name == c@
            &&& input.command is None ==> (r_command matches Some(c) ==> plan.command_name == c)
            &&& (input.command is None && r_command is None) ==> plan.command_name == spec_sanitize(
                plan.app_id,
                true,
            )
            &&& input.icon matches Some(i) ==> plan.icon_path_inside_app == Some(i@)
            &&& input.icon is None ==> (r_icon matches Some(i) ==> plan.icon_path_inside_app
                == Some(i))
        }),
{
}

/// The app id of a plan is a non-empty sanitized id, and it is the id its
/// install locations are made from; sanitizing it again changes nothing.
pub proof fn law_plan_id_is_sanitized(
    archive: Seq<char>,
    scope: InstallScope,
    input: InstallInput,
    insp: ArchiveInspection,
    embedded: Option<AppRecipe>,
    os: Seq<char>,
    arch: Seq<char>,
    env: PathEnv,
    plan: PlanView,
)
    requires
        spec_make_plan(archive, scope, input, insp, embedded, os, arch, env) == Ok::<
            PlanView,
            Seq<char>,
        >(plan),
    ensures
        plan.app_id.len() > 0,
        is_sanitized(plan.app_id, false),
        spec_sanitize(plan.app_id, false) == plan.app_id,
        plan.targets.app_id == plan.app_id,
{
    let guess = insp.filename_guess@;
    let recipe = crate::install::effective_recipe(input, embedded);
    let id_src = crate::install::or_seq(
        crate::install::or_seq(crate::filename::opt_seq(input.id), crate::install::recipe_id(recipe)),
        guess.app,
    );
    lemma_sanitize_idempotent(id_src.unwrap(), false);
    lemma_sanitize_shape(id_src.unwrap(), false);
}

// ---------------------------------------------------------------------------
// The record of installed apps
// ---------------------------------------------------------------------------

/// Recording an install and then removing the app by the id of its plan (as
/// `remove_app` does, which sanitizes the id it is given) finds the record that
/// was written, reports it first in a check, and takes exactly it back out,
/// leaving the other apps as they were.
pub proof fn law_installed_app_is_removable(
    archive: Seq<char>,
    scope: InstallScope,
    input: InstallInput,
    insp: ArchiveInspection,
    embedded: Option<AppRecipe>,
    os: Seq<char>,
    arch: Seq<char>,
    env: PathEnv,
    plan: PlanView,
    db: Map<Seq<char>, AppView>,
    icon_paths: Seq<Seq<char>>,
    source: Seq<char>,
    sha256: Option<Seq<char>>,
    exists: Seq<bool>,
)
    requires
        spec_make_plan(archive, scope, input, insp, embedded, os, arch, env) == Ok::<
            PlanView,
            Seq<char>,
        >(plan),
    ensures
        ({
            let app = installed_view(plan, icon_paths, source, sha256);
            let after = db.insert(plan.app_id, app);
            let key = spec_sanitize(plan.app_id, false);
            &&& after.contains_key(key)
            &&& after[key] == app
            &&& spec_doctor_lines(after[key], exists)[0] == "id: "@ + plan.app_id
            &&& after.remove(key) == db.remove(plan.app_id)
        }),
{
    law_plan_id_is_sanitized(archive, scope, input, insp, embedded, os, arch, env, plan);
    let app = installed_view(plan, icon_paths, source, sha256);
    let after = db.insert(plan.app_id, app);
    assert(after.remove(plan.app_id) =~= db.remove(plan.app_id));
}

/// Every app of a scope keeps its record in the same state file: the state path
/// does not depend on the app id or the command name, and whether there are
/// install locations at all depends on them only through their validity.
/// Listing, removing and checking apps rely on this to find the record before
/// they know the app.
pub proof fn law_state_path_shared(
    scope: InstallScope,
    id1: Seq<char>,
    command1: Seq<char>,
    id2: Seq<char>,
    command2: Seq<char>,
    home: Option<Seq<char>>,
    data_home: Option<Seq<char>>,
    state_home: Option<Seq<char>>,
)
    ensures
        ({
            let t1 = spec_targets(scope, id1, command1, home, data_home, state_home);
            let t2 = spec_targets(scope, id2, command2, home, data_home, state_home);
            &&& (t1.is_some() && t2.is_some()) ==> t1.unwrap().state_path == t2.unwrap().state_path
            &&& (spec_targets_error(scope, id1, command1, home) is None || spec_targets_error(
                scope,
                id1,
                command1,
                home,
            ) == Some(PathsError::HomeNotSet)) && (spec_targets_error(scope, id2, command2, home) is None
                || spec_targets_error(scope, id2, command2, home) == Some(PathsError::HomeNotSet))
                ==> t1.is_some() == t2.is_some()
        }),
{
}

/// Each app gets a directory of its own: its app directory is the apps
/// directory of the scope joined with its id, a single path component that is
/// neither empty nor `.` nor `..`. Replacing or removing it cannot touch
/// another app's files.
pub proof fn law_app_dir_is_own(
    scope: InstallScope,
    id: Seq<char>,
    command: Seq<char>,
    home: Option<Seq<char>>,
    data_home: Option<Seq<char>>,
    state_home: Option<Seq<char>>,
)
    ensures
        spec_targets(scope, id, command, home, data_home, state_home) matches Some(t) ==> ({
            let apps = match scope {
                InstallScope::System => "/opt"@,
                InstallScope::User => path_join(
                    match data_home {
                        Some(d) => d,
                        None => path_join(home.unwrap(), ".local/share"@),
                    },
                    "tarapp/apps"@,
                ),
            };
            &&& names_own_dir(t.app_id)
            &&& forall|i: int| 0 <= i < t.app_id.len() ==> t.app_id[i] != '/'
            &&& t.app_dir == path_join(apps, t.app_id)
        }),
{
    lemma_sanitize_shape(id, false);
    let sid = spec_sanitize(id, false);
    assert forall|i: int| 0 <= i < sid.len() implies sid[i] != '/' by {
        assert(crate::recipe::keeps(sid[i], false) || sid[i] == '-');
    }
}

// ---------------------------------------------------------------------------
// Desktop entries
// ---------------------------------------------------------------------------

proof fn lemma_replace_removes(s: Seq<char>, c: char, to: Seq<char>)
    requires
        !to.contains(c),
    ensures
        !replace_char(s, c, to).contains(c),
    decreases s.len(),
{
    if s.len() > 0 {
        lemma_replace_removes(s.drop_last(), c, to);
        let prev = replace_char(s.drop_last(), c, to);
        let tail = if s.last() == c {
            to
        } else {
            seq![s.last()]
        };
        let r = prev + tail;
        assert(r == replace_char(s, c, to));
        assert forall|i: int| 0 <= i < r.len() implies r[i] != c by {
            if i < prev.len() {
                assert(r[i] == prev[i]);
                assert(!prev.contains(c));
            } else {
                assert(r[i] == tail[i - prev.len()]);
                if s.last() == c {
                    assert(!to.contains(c));
                }
            }
        }
    }
}

/// An escaped desktop-entry value holds no line break, so a name, comment or
/// icon name can never add a line of its own to the entry.
pub proof fn law_escaped_value_is_one_line(v: Seq<char>)
    ensures
        !spec_escape_value(v).contains('\n'),
{
    let nl = seq!['\\', 'n'];
    assert(!nl.contains('\n')) by {
        assert forall|i: int| 0 <= i < nl.len() implies nl[i] != '\n' by {}
    }
    lemma_replace_removes(replace_char(v, '\\', seq!['\\', '\\']), '\n', nl);
}

/// The `Categories` value always ends with `;`, as the desktop entry format
/// asks of a list.
pub proof fn law_categories_end_with_separator(cats: Seq<Seq<char>>)
    ensures
        spec_categories(cats).len() > 0,
        spec_categories(cats).last() == ';',
{
    reveal_strlit("Utility;");
    if cats.len() > 0 {
        let joined = join(cats, seq![';']);
        if ends_with(joined, seq![';']) {
            assert(joined.skip(joined.len() - 1)[0] == joined.last());
        }
    }
}

// ---------------------------------------------------------------------------
// Platform names
// ---------------------------------------------------------------------------

proof fn lemma_reveal_os_names()
    ensures
        "linux"@ =~= seq!['l', 'i', 'n', 'u', 'x'],
        "gnu-linux"@ =~= seq!['g', 'n', 'u', '-', 'l', 'i', 'n', 'u', 'x'],
        "linux64"@ =~= seq!['l', 'i', 'n', 'u', 'x', '6', '4'],
        "linux-x64"@ =~= seq!['l', 'i', 'n', 'u', 'x', '-', 'x', '6', '4'],
        "linux-x86_64"@ =~= seq!['l', 'i', 'n', 'u', 'x', '-', 'x', '8', '6', '_', '6', '4'],
        "linux-amd64"@ =~= seq!['l', 'i', 'n', 'u', 'x', '-', 'a', 'm', 'd', '6', '4'],
        "ubuntu"@ =~= seq!['u', 'b', 'u', 'n', 't', 'u'],
        "debian"@ =~= seq!['d', 'e', 'b', 'i', 'a', 'n'],
        "fedora"@ =~= seq!['f', 'e', 'd', 'o', 'r', 'a'],
        "rhel"@ =~= seq!['r', 'h', 'e', 'l'],
        "centos"@ =~= seq!['c', 'e', 'n', 't', 'o', 's'],
        "opensuse"@ =~= seq!['o', 'p', 'e', 'n', 's', 'u', 's', 'e'],
        "suse"@ =~= seq!['s', 'u', 's', 'e'],
        "musl"@ =~= seq!['m', 'u', 's', 'l'],
        "macos"@ =~= seq!['m', 'a', 'c', 'o', 's'],
        "darwin"@ =~= seq!['d', 'a', 'r', 'w', 'i', 'n'],
        "osx"@ =~= seq!['o', 's', 'x'],
        "mac"@ =~= seq!['m', 'a', 'c'],
        "windows"@ =~= seq!['w', 'i', 'n', 'd', 'o', 'w', 's'],
        "win"@ =~= seq!['w', 'i', 'n'],
        "win32"@ =~= seq!['w', 'i', 'n', '3', '2'],
        "win64"@ =~= seq!['w', 'i', 'n', '6', '4'],
        "mingw"@ =~= seq!['m', 'i', 'n', 'g', 'w'],
        "msvc"@ =~= seq!['m', 's', 'v', 'c'],
        "freebsd"@ =~= seq!['f', 'r', 'e', 'e', 'b', 's', 'd'],
        "openbsd"@ =~= seq!['o', 'p', 'e', 'n', 'b', 's', 'd'],
        "netbsd"@ =~= seq!['n', 'e', 't', 'b', 's', 'd'],
        "solaris"@ =~= seq!['s', 'o', 'l', 'a', 'r', 'i', 's'],
        "sunos"@ =~= seq!['s', 'u', 'n', 'o', 's'],
        "illumos"@ =~= seq!['i', 'l', 'l', 'u', 'm', 'o', 's'],
        "aix"@ =~= seq!['a', 'i', 'x'],
        "android"@ =~= seq!['a', 'n', 'd', 'r', 'o', 'i', 'd'],
        "ios"@ =~= seq!['i', 'o', 's'],
        "iphoneos"@ =~= seq!['i', 'p', 'h', 'o', 'n', 'e', 'o', 's'],
{
    reveal_strlit("linux");
    reveal_strlit("gnu-linux");
    reveal_strlit("linux64");
    reveal_strlit("linux-x64");
    reveal_strlit("linux-x86_64");
    reveal_strlit("linux-amd64");
    reveal_strlit("ubuntu");
    reveal_strlit("debian");
    reveal_strlit("fedora");
    reveal_strlit("rhel");
    reveal_strlit("centos");
    reveal_strlit("opensuse");
    reveal_strlit("suse");
    reveal_strlit("musl");
    reveal_strlit("macos");
    reveal_strlit("darwin");
    reveal_strlit("osx");
    reveal_strlit("mac");
    reveal_strlit("windows");
    reveal_strlit("win");
    reveal_strlit("win32");
    reveal_strlit("win64");
    reveal_strlit("mingw");
    reveal_strlit("msvc");
    reveal_strlit("freebsd");
    reveal_strlit("openbsd");
    reveal_strlit("netbsd");
    reveal_strlit("solaris");
    reveal_strlit("sunos");
    reveal_strlit("illumos");
    reveal_strlit("aix");
    reveal_strlit("android");
    reveal_strlit("ios");
    reveal_strlit("iphoneos");
}

proof fn lemma_reveal_arch_names()
    ensures
        "x64"@ =~= seq!['x', '6', '4'],
        "x86_64"@ =~= seq!['x', '8', '6', '_', '6', '4'],
        "amd64"@ =~= seq!['a', 'm', 'd', '6', '4'],
        "arm64"@ =~= seq!['a', 'r', 'm', '6', '4'],
        "aarch64"@ =~= seq!['a', 'a', 'r', 'c', 'h', '6', '4'],
        "386"@ =~= seq!['3', '8', '6'],
        "i386"@ =~= seq!['i', '3', '8', '6'],
        "i486"@ =~= seq!['i', '4', '8', '6'],
        "i586"@ =~= seq!['i', '5', '8', '6'],
        "i686"@ =~= seq!['i', '6', '8', '6'],
        "x86"@ =~= seq!['x', '8', '6'],
{
    reveal_strlit("x64");
    reveal_strlit("x86_64");
    reveal_strlit("amd64");
    reveal_strlit("arm64");
    reveal_strlit("aarch64");
    reveal_strlit("386");
    reveal_strlit("i386");
    reveal_strlit("i486");
    reveal_strlit("i586");
    reveal_strlit("i686");
    reveal_strlit("x86");
}

/// A canonical OS name normalizes to itself: normalizing an OS name twice
/// gives what normalizing it once gave.
pub proof fn law_normalize_os_idempotent(v: Seq<char>)
    requires
        spec_normalize_os(v).is_some(),
    ensures
        spec_normalize_os(spec_normalize_os(v).unwrap()) == spec_normalize_os(v),
{
    lemma_reveal_os_names();
    let c = spec_normalize_os(v).unwrap();
    assert(lower(c) =~= c);
}

/// Normalizing an architecture name twice gives what normalizing it once gave.
pub proof fn law_normalize_arch_idempotent(v: Seq<char>)
    ensures
        spec_normalize_arch(spec_normalize_arch(v)) == spec_normalize_arch(v),
{
    lemma_reveal_arch_names();
    let n = spec_normalize_arch(v);
    lemma_lower_idempotent(v);
    assert(lower(n) =~= n);
}

// ---------------------------------------------------------------------------
// Archive file names
// ---------------------------------------------------------------------------

/// The extensions that `strip_archive_extensions` removes whole.
pub open spec fn is_archive_extension(e: Seq<char>) -> bool {
    ||| e == ".tar.xz"@
    ||| e == ".tar.gz"@
    ||| e == ".tar.bz2"@
    ||| e == ".tar.zst"@
    ||| e == ".tgz"@
    ||| e == ".txz"@
    ||| e == ".tbz2"@
    ||| e == ".tar"@
}

proof fn lemma_suffix_mismatch(l: Seq<char>, ext: Seq<char>, other: Seq<char>, k: int)
    requires
        ends_with(l, ext),
        1 <= k <= ext.len(),
        k <= other.len(),
        ext[ext.len() - k] != other[other.len() - k],
    ensures
        !ends_with(l, other),
{
    assert(l[l.len() - k] == l.skip(l.len() - ext.len())[ext.len() - k]);
    if ends_with(l, other) {
        assert(l[l.len() - k] == l.skip(l.len() - other.len())[other.len() - k]);
    }
}

/// Removing a known archive extension from `stem + ext` gives `stem` back,
/// whatever the stem.
pub proof fn law_strip_known_extension(stem: Seq<char>, ext: Seq<char>)
    requires
        is_archive_extension(ext),
    ensures
        spec_strip_archive_extensions(stem + ext) == stem,
{
    reveal_strlit(".tar.xz");
    reveal_strlit(".tar.gz");
    reveal_strlit(".tar.bz2");
    reveal_strlit(".tar.zst");
    reveal_strlit(".tgz");
    reveal_strlit(".txz");
    reveal_strlit(".tbz2");
    reveal_strlit(".tar");
    let x = stem + ext;
    assert(lower(ext) =~= ext);
    let l = lower(x);
    assert(l =~= lower(stem) + ext);
    assert(ends_with(l, ext)) by {
        assert(l.skip(l.len() - ext.len()) =~= ext);
    }
    if ext == ".tar.xz"@ {
    } else if ext == ".tar.gz"@ {
        lemma_suffix_mismatch(l, ext, ".tar.xz"@, 2);
    } else if ext == ".tar.bz2"@ {
        lemma_suffix_mismatch(l, ext, ".tar.xz"@, 1);
        lemma_suffix_mismatch(l, ext, ".tar.gz"@, 1);
    } else if ext == ".tar.zst"@ {
        lemma_suffix_mismatch(l, ext, ".tar.xz"@, 1);
        lemma_suffix_mismatch(l, ext, ".tar.gz"@, 1);
        lemma_suffix_mismatch(l, ext, ".tar.bz2"@, 1);
    } else if ext == ".tgz"@ {
        lemma_suffix_mismatch(l, ext, ".tar.xz"@, 2);
        lemma_suffix_mismatch(l, ext, ".tar.gz"@, 3);
        lemma_suffix_mismatch(l, ext, ".tar.bz2"@, 1);
        lemma_suffix_mismatch(l, ext, ".tar.zst"@, 1);
    } else if ext == ".txz"@ {
        lemma_suffix_mismatch(l, ext, ".tar.xz"@, 3);
        lemma_suffix_mismatch(l, ext, ".tar.gz"@, 2);
        lemma_suffix_mismatch(l, ext, ".tar.bz2"@, 1);
        lemma_suffix_mismatch(l, ext, ".tar.zst"@, 1);
        lemma_suffix_mismatch(l, ext, ".tgz"@, 2);
    } else if ext == ".tbz2"@ {
        lemma_suffix_mismatch(l, ext, ".tar.xz"@, 1);
        lemma_suffix_mismatch(l, ext, ".tar.gz"@, 1);
        lemma_suffix_mismatch(l, ext, ".tar.bz2"@, 4);
        lemma_suffix_mismatch(l, ext, ".tar.zst"@, 1);
        lemma_suffix_mismatch(l, ext, ".tgz"@, 1);
        lemma_suffix_mismatch(l, ext, ".txz"@, 1);
    } else if ext == ".tar"@ {
        lemma_suffix_mismatch(l, ext, ".tar.xz"@, 1);
        lemma_suffix_mismatch(l, ext, ".tar.gz"@, 1);
        lemma_suffix_mismatch(l, ext, ".tar.bz2"@, 1);
        lemma_suffix_mismatch(l, ext, ".tar.zst"@, 1);
        lemma_suffix_mismatch(l, ext, ".tgz"@, 1);
        lemma_suffix_mismatch(l, ext, ".txz"@, 1);
        lemma_suffix_mismatch(l, ext, ".tbz2"@, 1);
    }
    assert(x.take(x.len() - ext.len()) =~= stem);
}

// ---------------------------------------------------------------------------
// Versions found in program output
// ---------------------------------------------------------------------------

proof fn lemma_trim_start_head(s: Seq<char>, set: Seq<char>)
    ensures
        trim_start_set(s, set).len() > 0 ==> !set.contains(trim_start_set(s, set)[0]),
    decreases s.len(),
{
    if s.len() > 0 && set.contains(s[0]) {
        lemma_trim_start_head(s.drop_first(), set);
    }
}

/// No `v` or `V` at the start of a version.
pub open spec fn no_v_head(v: Seq<char>) -> bool {
    v.len() > 0 ==> v[0] != 'v' && v[0] != 'V'
}

proof fn lemma_strip_v_head(s: Seq<char>)
    ensures
        no_v_head(strip_v(s)),
{
    lemma_trim_start_head(s, seq!['v', 'V']);
    let t = strip_v(s);
    if t.len() > 0 && (t[0] == 'v' || t[0] == 'V') {
        assert(seq!['v', 'V'][0] == 'v' && seq!['v', 'V'][1] == 'V');
        assert(seq!['v', 'V'].contains(t[0]));
    }
}

proof fn lemma_line_candidates_no_v(
    i: int,
    line: Seq<char>,
    caps: Seq<Option<Seq<char>>>,
    ns: Seq<Seq<char>>,
)
    ensures
        forall|k: int|
            0 <= k < line_candidates(i, line, caps, ns).len() ==> no_v_head(
                (#[trigger] line_candidates(i, line, caps, ns)[k]).1,
            ),
    decreases caps.len(),
{
    if caps.len() > 0 {
        lemma_line_candidates_no_v(i, line, caps.drop_last(), ns);
        let prev = line_candidates(i, line, caps.drop_last(), ns);
        let r = line_candidates(i, line, caps, ns);
        match caps.last() {
            Some(raw) => lemma_strip_v_head(raw),
            None => {},
        }
        assert forall|k: int| 0 <= k < r.len() implies no_v_head(#[trigger] r[k].1) by {
            if k < prev.len() {
                assert(r[k] == prev[k]);
            }
        }
    }
}

proof fn lemma_all_candidates_no_v(
    lines: Seq<Seq<char>>,
    caps: Seq<Seq<Option<Seq<char>>>>,
    ns: Seq<Seq<char>>,
)
    ensures
        forall|k: int|
            0 <= k < all_candidates(lines, caps, ns).len() ==> no_v_head(
                (#[trigger] all_candidates(lines, caps, ns)[k]).1,
            ),
    decreases lines.len(),
{
    if lines.len() > 0 {
        lemma_all_candidates_no_v(lines.drop_last(), caps.drop_last(), ns);
        lemma_line_candidates_no_v(lines.len() - 1, lines.last(), caps[lines.len() - 1], ns);
        let a = all_candidates(lines.drop_last(), caps.drop_last(), ns);
        let b = line_candidates(lines.len() - 1, lines.last(), caps[lines.len() - 1], ns);
        assert forall|k: int| 0 <= k < (a + b).len() implies no_v_head(#[trigger] (a + b)[k].1) by {
            if k < a.len() {
                assert((a + b)[k] == a[k]);
            } else {
                assert((a + b)[k] == b[k - a.len()]);
            }
        }
    }
}

/// The candidate that `best_of` picks: one of the highest score, the first of
/// those.
pub proof fn law_best_is_first_highest(cands: Seq<(int, Seq<char>)>)
    ensures
        cands.len() == 0 <==> best_of(cands).is_none(),
        best_of(cands).is_some() ==> exists|i: int|
            0 <= i < cands.len() && cands[i] == best_of(cands).unwrap() && (forall|j: int|
                0 <= j < i ==> (#[trigger] cands[j]).0 < cands[i].0),
        best_of(cands).is_some() ==> forall|j: int|
            0 <= j < cands.len() ==> (#[trigger] cands[j]).0 <= best_of(cands).unwrap().0,
    decreases cands.len(),
{
    if cands.len() > 0 {
        let p = cands.drop_last();
        law_best_is_first_highest(p);
        let last = cands.len() - 1;
        match best_of(p) {
            Some(b) => {
                let i = choose|i: int|
                    0 <= i < p.len() && p[i] == b && (forall|j: int|
                        0 <= j < i ==> (#[trigger] p[j]).0 < p[i].0);
                assert(cands[i] == p[i]);
                if b.0 >= cands.last().0 {
                    assert forall|j: int| 0 <= j < i implies (#[trigger] cands[j]).0 < cands[i].0 by {
                        assert(cands[j] == p[j]);
                    }
                    assert forall|j: int| 0 <= j < cands.len() implies (#[trigger] cands[j]).0
                        <= b.0 by {
                        if j < last {
                            assert(cands[j] == p[j]);
                        }
                    }
                } else {
                    assert forall|j: int| 0 <= j < last implies (#[trigger] cands[j]).0
                        < cands[last].0 by {
                        assert(cands[j] == p[j]);
                    }
                    assert forall|j: int| 0 <= j < cands.len() implies (#[trigger] cands[j]).0
                        <= cands[last].0 by {
                        if j < last {
                            assert(cands[j] == p[j]);
                        }
                    }
                }
            },
            None => {
                assert(p.len() == 0);
                assert forall|j: int| 0 <= j < cands.len() implies (#[trigger] cands[j]).0
                    <= cands[last].0 by {}
            },
        }
    }
}

/// A version found in program output never keeps a leading `v` or `V`.
pub proof fn law_found_version_has_no_v_prefix(
    lines: Seq<Seq<char>>,
    caps: Seq<Seq<Option<Seq<char>>>>,
    command_name: Seq<char>,
    app_id: Seq<char>,
    app_name: Seq<char>,
)
    ensures
        pick(lines, caps, command_name, app_id, app_name) matches Some(v) ==> no_v_head(v),
{
    let ns = needles(command_name, app_id, app_name);
    let c = all_candidates(lines, caps, ns);
    lemma_all_candidates_no_v(lines, caps, ns);
    law_best_is_first_highest(c);
}

// ---------------------------------------------------------------------------
// Install runs
// ---------------------------------------------------------------------------

/// A step of an install run never goes back to an earlier stage, and never
/// changes where the install goes: the app id, the install locations, the
/// executable inside the app, the archive and the `force` flag stay those the
/// run was started with.
pub proof fn law_run_moves_forward_in_place(r: RunView, e: EventView)
    requires
        0 <= r.stage <= 13,
    ensures
        ({
            let next = spec_run_step(r, e).0;
            &&& r.stage <= next.stage <= 13
            &&& next.plan.app_id == r.plan.app_id
            &&& next.plan.targets == r.plan.targets
            &&& next.plan.exec_path_inside_app == r.plan.exec_path_inside_app
            &&& next.archive == r.archive
            &&& next.force == r.force
        }),
{
}

// ---------------------------------------------------------------------------
// Executable detection
// ---------------------------------------------------------------------------

/// The documented detection order, for files outside `bin` directories that
/// are not `.sh` or `.run` scripts: the app name itself (146) ranks above an
/// AppImage bundle (136), which ranks above `<app>-<arch>` or `<app>_<arch>`
/// (131), above other names starting with the app name (46), above the rest
/// (1); under a `bin` directory the rest rank at 16.
pub proof fn law_detection_order(name: Seq<char>, app: Seq<char>, arch: Seq<char>, path: Seq<char>)
    requires
        app.len() > 0,
        arch.len() > 0,
        !ends_with(lower(name), ".sh"@),
        !ends_with(lower(name), ".run"@),
    ensures
        ({
            let l = lower(name);
            let al = lower(app);
            let us = replace_char(al, '-', seq!['_']);
            let da = replace_char(al, '_', seq!['-']);
            let exact = l == al || l == us || l == da;
            let arch_form = l == da + seq!['-'] + arch || l == us + seq!['_'] + arch;
            let prefixed = starts_with(l, al) || starts_with(l, us) || starts_with(l, da);
            let bin = has_component_ci(path, "bin"@);
            &&& is_appimage(name) ==> spec_score(name, app, arch, path) == 136
            &&& (!is_appimage(name) && !bin && exact) ==> spec_score(name, app, arch, path) == 146
            &&& (!is_appimage(name) && !bin && arch_form) ==> spec_score(name, app, arch, path) == 131
            &&& (!is_appimage(name) && !bin && !exact && !arch_form && prefixed) ==> spec_score(
                name,
                app,
                arch,
                path,
            ) == 46
            &&& (!is_appimage(name) && !exact && !arch_form && !prefixed) ==> spec_score(
                name,
                app,
                arch,
                path,
            ) == (if bin {
                16int
            } else {
                1int
            })
        }),
{
    let l = lower(name);
    let al = lower(app);
    let us = replace_char(al, '-', seq!['_']);
    let da = replace_char(al, '_', seq!['-']);
    lemma_replace_single_len(al, '-', '_');
    lemma_replace_single_len(al, '_', '-');
    if l == al || l == us || l == da {
        assert(l.take(l.len() as int) =~= l);
    }
    if l == da + seq!['-'] + arch {
        assert(l.take(da.len() as int) =~= da);
        assert(l != al && l != us && l != da);
    }
    if l == us + seq!['_'] + arch {
        assert(l.take(us.len() as int) =~= us);
        assert(l != al && l != us && l != da);
    }
}

proof fn lemma_replace_single_len(s: Seq<char>, from: char, to: char)
    ensures
        replace_char(s, from, seq![to]).len() == s.len(),
    decreases s.len(),
{
    if s.len() > 0 {
        lemma_replace_single_len(s.drop_last(), from, to);
    }
}

// ---------------------------------------------------------------------------
// Versions from metadata files
// ---------------------------------------------------------------------------

/// A JSON metadata file whose top-level string `version` cleans to a version
/// gives that version, attributed to the file itself, whatever else the file
/// holds: a `buildNumber` beside it plays no part.
pub proof fn law_json_version_field_wins(rel: Seq<char>, text: Seq<char>, s: Seq<char>, v: Seq<char>)
    requires
        trim_space(text).len() > 0,
        json_string_field(text, "version"@) == Some(Some(s)),
        spec_clean_version(s) == Some(v),
    ensures
        spec_json_version(rel, text) == Some((v, rel)),
{
}

/// `buildNumber` is consulted only when `version` is absent, not a string, or
/// cleans to nothing: then a `buildNumber` that cleans to a version gives it,
/// attributed to the file's `buildNumber`, and without one there is no version.
pub proof fn law_json_build_number_fallback(rel: Seq<char>, text: Seq<char>)
    requires
        trim_space(text).len() > 0,
        json_string_field(text, "version"@) matches Some(f) && match f {
            Some(s) => spec_clean_version(s).is_none(),
            None => true,
        },
    ensures
        match json_string_field(text, "buildNumber"@) {
            Some(Some(b)) => match spec_clean_version(b) {
                Some(w) => spec_json_version(rel, text) == Some((w, rel + ":buildNumber"@)),
                None => spec_json_version(rel, text).is_none(),
            },
            _ => spec_json_version(rel, text).is_none(),
        },
{
}

/// During detection, a JSON metadata file whose `version` cleans to a version
/// ends the detection with that version and the file's name, before any other
/// file is read and before the executable is ever run.
pub proof fn law_metadata_version_ends_detection(
    d: VersionDetection,
    stage: int,
    t: String,
    s: Seq<char>,
    v: Seq<char>,
)
    requires
        0 <= stage < 4,
        trim_space(t@).len() > 0,
        json_string_field(t@, "version"@) == Some(Some(s)),
        spec_clean_version(s) == Some(v),
    ensures
        decide(d, stage, DetectEvent::Text(t)) == Some(
            Ok::<Option<(Seq<char>, Seq<char>)>, Seq<char>>(Some((v, metadata_rel(stage)))),
        ),
{
    law_json_version_field_wins(metadata_rel(stage), t@, s, v);
}

/// Text that is blank or not JSON gives no version.
pub proof fn law_json_unreadable_gives_nothing(rel: Seq<char>, text: Seq<char>)
    requires
        trim_space(text).len() == 0 || json_string_field(text, "version"@).is_none(),
    ensures
        spec_json_version(rel, text).is_none(),
{
}

// ---------------------------------------------------------------------------
// App names from file names
// ---------------------------------------------------------------------------

/// A token that ends the app name: it starts a version, names an OS or names
/// an architecture.
pub open spec fn ends_app_name(t: (Seq<char>, bool, bool)) -> bool {
    t.1 || spec_normalize_os(lower(t.0)).is_some() || is_arch_token(lower(t.0))
}

proof fn lemma_first_os_index(ts: Seq<(Seq<char>, bool, bool)>)
    ensures
        match first_os_index(ts) {
            Some(i) => 0 <= i < ts.len() && spec_normalize_os(lower(ts[i].0)).is_some() && forall|
                k: int,
            | 0 <= k < i ==> spec_normalize_os(lower(#[trigger] ts[k].0)).is_none(),
            None => forall|k: int|
                0 <= k < ts.len() ==> spec_normalize_os(lower(#[trigger] ts[k].0)).is_none(),
        },
    decreases ts.len(),
{
    if ts.len() > 0 {
        let p = ts.drop_last();
        lemma_first_os_index(p);
        assert forall|k: int| 0 <= k < p.len() implies p[k] == ts[k] by {}
    }
}

proof fn lemma_first_arch_index(ts: Seq<(Seq<char>, bool, bool)>)
    ensures
        match first_arch_index(ts) {
            Some(i) => 0 <= i < ts.len() && is_arch_token(lower(ts[i].0)) && forall|k: int|
                0 <= k < i ==> !is_arch_token(lower(#[trigger] ts[k].0)),
            None => forall|k: int| 0 <= k < ts.len() ==> !is_arch_token(lower(#[trigger] ts[k].0)),
        },
    decreases ts.len(),
{
    if ts.len() > 0 {
        let p = ts.drop_last();
        lemma_first_arch_index(p);
        assert forall|k: int| 0 <= k < p.len() implies p[k] == ts[k] by {}
    }
}

/// The guessed app name is exactly the tokens before the first token that
/// starts a version, names an OS or names an architecture, joined with `-`;
/// when the first token already is such a token there is no app name. So no
/// architecture, OS or version token ever is part of the app name.
pub proof fn law_app_name_stops_at_first_field(
    stem: Seq<char>,
    ts: Seq<(Seq<char>, bool, bool)>,
    c: int,
)
    requires
        0 <= c <= ts.len(),
        forall|k: int| 0 <= k < c ==> !ends_app_name(#[trigger] ts[k]),
        c < ts.len() ==> ends_app_name(ts[c]),
    ensures
        spec_guess(stem, ts).app == (if c > 0 {
            Some(join(ts.take(c).map_values(|t: (Seq<char>, bool, bool)| t.0), seq!['-']))
        } else {
            None::<Seq<char>>
        }),
{
    lemma_first_version_index(ts);
    lemma_first_os_index(ts);
    lemma_first_arch_index(ts);
    let fv = first_version_index(ts);
    let fo = first_os_index(ts);
    let fa = first_arch_index(ts);
    if let Some(i) = fv {
        assert(!(i < c)) by {
            if i < c {
                assert(!ends_app_name(ts[i]));
            }
        }
    }
    if let Some(i) = fo {
        assert(!(i < c)) by {
            if i < c {
                assert(!ends_app_name(ts[i]));
            }
        }
    }
    if let Some(i) = fa {
        assert(!(i < c)) by {
            if i < c {
                assert(!ends_app_name(ts[i]));
            }
        }
    }
    if c < ts.len() {
        assert(ends_app_name(ts[c]));
        if ts[c].1 {
            assert(fv == Some(c));
        } else if spec_normalize_os(lower(ts[c].0)).is_some() {
            assert(fo == Some(c));
        } else {
            assert(fa == Some(c));
        }
    } else {
        assert(fv.is_none());
        assert(fo.is_none());
        assert(fa.is_none());
    }
    assert(cutoff(ts) == c);
    assert(texts(ts).take(c) =~= ts.take(c).map_values(|t: (Seq<char>, bool, bool)| t.0));
}

/// The guessed OS is the first token that names an OS, normalized, and the
/// guessed architecture the first token that names an architecture,
/// normalized; without such a token there is none.
pub proof fn law_guess_os_and_arch_from_first_token(stem: Seq<char>, ts: Seq<(Seq<char>, bool, bool)>)
    ensures
        (forall|k: int| 0 <= k < ts.len() ==> spec_normalize_os(lower(#[trigger] ts[k].0)).is_none())
            ==> spec_guess(stem, ts).os.is_none(),
        forall|i: int|
            0 <= i < ts.len() && spec_normalize_os(lower(ts[i].0)).is_some() && (forall|k: int|
                0 <= k < i ==> spec_normalize_os(lower(#[trigger] ts[k].0)).is_none())
                ==> spec_guess(stem, ts).os == spec_normalize_os(lower(#[trigger] ts[i].0)),
        (forall|k: int| 0 <= k < ts.len() ==> !is_arch_token(lower(#[trigger] ts[k].0)))
            ==> spec_guess(stem, ts).architecture.is_none(),
        forall|i: int|
            0 <= i < ts.len() && is_arch_token(lower(ts[i].0)) && (forall|k: int|
                0 <= k < i ==> !is_arch_token(lower(#[trigger] ts[k].0)))
                ==> spec_guess(stem, ts).architecture == Some(
                spec_normalize_arch(lower(#[trigger] ts[i].0)),
            ),
{
    lemma_first_os_index(ts);
    lemma_first_arch_index(ts);
    assert forall|i: int|
        0 <= i < ts.len() && spec_normalize_os(lower(ts[i].0)).is_some() && (forall|k: int|
            0 <= k < i ==> spec_normalize_os(lower(#[trigger] ts[k].0)).is_none())
        implies spec_guess(stem, ts).os == spec_normalize_os(lower(#[trigger] ts[i].0)) by {
        let j = first_os_index(ts).unwrap();
        if j < i {
            assert(spec_normalize_os(lower(ts[j].0)).is_none());
        }
        if i < j {
            assert(spec_normalize_os(lower(ts[i].0)).is_none());
        }
    }
    assert forall|i: int|
        0 <= i < ts.len() && is_arch_token(lower(ts[i].0)) && (forall|k: int|
            0 <= k < i ==> !is_arch_token(lower(#[trigger] ts[k].0)))
        implies spec_guess(stem, ts).architecture == Some(
        spec_normalize_arch(lower(#[trigger] ts[i].0)),
    ) by {
        let j = first_arch_index(ts).unwrap();
        if j < i {
            assert(!is_arch_token(lower(ts[j].0)));
        }
        if i < j {
            assert(!is_arch_token(lower(ts[i].0)));
        }
    }
    if forall|k: int| 0 <= k < ts.len() ==> spec_normalize_os(lower(#[trigger] ts[k].0)).is_none() {
        if let Some(j) = first_os_index(ts) {
            assert(spec_normalize_os(lower(ts[j].0)).is_none());
        }
    }
    if forall|k: int| 0 <= k < ts.len() ==> !is_arch_token(lower(#[trigger] ts[k].0)) {
        if let Some(j) = first_arch_index(ts) {
            assert(!is_arch_token(lower(ts[j].0)));
        }
    }
}

// ---------------------------------------------------------------------------
// Scoring version candidates
// ---------------------------------------------------------------------------

/// A line that mentions one of the app's names scores exactly 80 more than the
/// same line would if the app had no names; a line that mentions none scores
/// the same.
pub proof fn law_mention_bonus(i: int, line_lower: Seq<char>, ns: Seq<Seq<char>>)
    ensures
        line_score(i, line_lower, ns) == line_score(i, line_lower, Seq::<Seq<char>>::empty()) + (if exists|
            k: int,
        | 0 <= k < ns.len() && contains_seq(line_lower, #[trigger] ns[k]) {
            80int
        } else {
            0int
        }),
{
}

/// The names a line is searched for are the lower-cased command name, app id
/// and app name, each when it is not blank, and nothing else.
pub proof fn law_needles_are_the_app_names(
    command_name: Seq<char>,
    app_id: Seq<char>,
    app_name: Seq<char>,
)
    ensures
        trim_space(command_name).len() > 0 ==> needles(command_name, app_id, app_name).contains(
            lower(command_name),
        ),
        trim_space(app_id).len() > 0 ==> needles(command_name, app_id, app_name).contains(
            lower(app_id),
        ),
        trim_space(app_name).len() > 0 ==> needles(command_name, app_id, app_name).contains(
            lower(app_name),
        ),
        forall|k: int|
            0 <= k < needles(command_name, app_id, app_name).len() ==> {
                let n = #[trigger] needles(command_name, app_id, app_name)[k];
                ||| (n == lower(command_name) && trim_space(command_name).len() > 0)
                ||| (n == lower(app_id) && trim_space(app_id).len() > 0)
                ||| (n == lower(app_name) && trim_space(app_name).len() > 0)
            },
{
    let a = if trim_space(command_name).len() > 0 {
        seq![lower(command_name)]
    } else {
        Seq::<Seq<char>>::empty()
    };
    let b = if trim_space(app_id).len() > 0 {
        seq![lower(app_id)]
    } else {
        Seq::<Seq<char>>::empty()
    };
    let c = if trim_space(app_name).len() > 0 {
        seq![lower(app_name)]
    } else {
        Seq::<Seq<char>>::empty()
    };
    let ns = needles(command_name, app_id, app_name);
    assert(ns == a + b + c);
    if trim_space(command_name).len() > 0 {
        assert(ns[0] == lower(command_name));
    }
    if trim_space(app_id).len() > 0 {
        assert(ns[a.len() as int] == lower(app_id));
    }
    if trim_space(app_name).len() > 0 {
        assert(ns[(a.len() + b.len()) as int] == lower(app_name));
    }
}

/// A line on which the lower-cased, non-blank command name, app id or app name
/// occurs scores 80 more than the same line would with no names to look for.
pub proof fn law_line_naming_the_app_scores_more(
    i: int,
    line_lower: Seq<char>,
    command_name: Seq<char>,
    app_id: Seq<char>,
    app_name: Seq<char>,
)
    requires
        (trim_space(command_name).len() > 0 && contains_seq(line_lower, lower(command_name)))
            || (trim_space(app_id).len() > 0 && contains_seq(line_lower, lower(app_id))) || (
        trim_space(app_name).len() > 0 && contains_seq(line_lower, lower(app_name))),
    ensures
        line_score(i, line_lower, needles(command_name, app_id, app_name)) == line_score(
            i,
            line_lower,
            Seq::<Seq<char>>::empty(),
        ) + 80,
{
    let ns = needles(command_name, app_id, app_name);
    law_needles_are_the_app_names(command_name, app_id, app_name);
    law_mention_bonus(i, line_lower, ns);
    if trim_space(command_name).len() > 0 && contains_seq(line_lower, lower(command_name)) {
        let k = ns.index_of(lower(command_name));
        assert(contains_seq(line_lower, ns[k]));
    } else if trim_space(app_id).len() > 0 && contains_seq(line_lower, lower(app_id)) {
        let k = ns.index_of(lower(app_id));
        assert(contains_seq(line_lower, ns[k]));
    } else {
        let k = ns.index_of(lower(app_name));
        assert(contains_seq(line_lower, ns[k]));
    }
}

// ---------------------------------------------------------------------------
// Desktop entries
// ---------------------------------------------------------------------------

/// In every scope the desktop entry is the scope's applications directory
/// joined with the sanitized app id followed by `.desktop`; the command name
/// plays no part in it.
pub proof fn law_desktop_entry_named_by_id(
    scope: InstallScope,
    id: Seq<char>,
    command: Seq<char>,
    home: Option<Seq<char>>,
    data_home: Option<Seq<char>>,
    state_home: Option<Seq<char>>,
)
    ensures
        spec_targets(scope, id, command, home, data_home, state_home) matches Some(t) ==> t.desktop_path
            == path_join(
            match scope {
                InstallScope::System => "/usr/share/applications"@,
                InstallScope::User => path_join(
                    match data_home {
                        Some(d) => d,
                        None => path_join(home.unwrap(), ".local/share"@),
                    },
                    "applications"@,
                ),
            },
            spec_sanitize(id, false) + ".desktop"@,
        ),
{
}

/// The command is the scope's command directory joined with the sanitized
/// command name; the app id plays no part in where it goes.
pub proof fn law_command_path_named_by_command(
    scope: InstallScope,
    id: Seq<char>,
    command: Seq<char>,
    home: Option<Seq<char>>,
    data_home: Option<Seq<char>>,
    state_home: Option<Seq<char>>,
)
    ensures
        spec_targets(scope, id, command, home, data_home, state_home) matches Some(t) ==> t.command_path
            == path_join(
            match scope {
                InstallScope::System => "/usr/local/bin"@,
                InstallScope::User => path_join(home.unwrap(), ".local/bin"@),
            },
            spec_sanitize(command, true),
        ),
{
}

/// Two commands for the same app id get the same desktop entry, app directory
/// and icon directory.
pub proof fn law_command_does_not_move_app_files(
    scope: InstallScope,
    id: Seq<char>,
    command1: Seq<char>,
    command2: Seq<char>,
    home: Option<Seq<char>>,
    data_home: Option<Seq<char>>,
    state_home: Option<Seq<char>>,
)
    requires
        spec_targets(scope, id, command1, home, data_home, state_home).is_some(),
        spec_targets(scope, id, command2, home, data_home, state_home).is_some(),
    ensures
        ({
            let t1 = spec_targets(scope, id, command1, home, data_home, state_home).unwrap();
            let t2 = spec_targets(scope, id, command2, home, data_home, state_home).unwrap();
            &&& t1.desktop_path == t2.desktop_path
            &&& t1.app_dir == t2.app_dir
            &&& t1.icon_dir == t2.icon_dir
        }),
{
}

} // verus!
