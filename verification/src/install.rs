//! Planning an install, the safety rules of extraction, the files an install
//! writes, and the record of installed apps.
use vstd::prelude::*;
use crate::archive::{spec_unsafe_path_reason, unsafe_path_reason, ArchiveInspection};
use crate::filename::{
    normalize_arch, normalize_os, opt_seq, spec_normalize_arch, spec_normalize_os, FilenameGuess,
    GuessView,
};
use crate::pathstr::{
    components, dot, dotdot, extension, has_root, join_path, join_path_str, parent, path_components,
    path_extension, path_join, path_parent, path_strip_prefix, slash, strip_prefix,
};
use crate::paths::{
    names_own_dir, names_own_directory, opt_chars, spec_targets, targets, InstallScope, InstallTargets, PathEnv, PathsError,
    TargetsView,
};
use crate::recipe::{
    display_name_from_id, sanitize_command, sanitize_id, spec_display_name, spec_sanitize,
    AppRecipe, InstallInput,
};
use crate::state::{clone_strings, AppView, InstalledApp, StateDb};
use crate::text::{
    append_chars, append_str, chars_of, copy_chars, eq_chars, join, join_chars,
    lemma_chars_deep_view, replace_char, replace_char_with, starts_with, starts_with_chars,
    string_of,
};
use crate::version::VersionProbeResult;
use crate::desktop::opt_str;

verus! {

// ---------------------------------------------------------------------------
// Errors
// ---------------------------------------------------------------------------

/// Why an install, removal or check did not go ahead.
#[derive(Debug)]
pub enum InstallError {
    UnsafeArchive,
    IncompatiblePlatform(String),
    NoAppId,
    NoExecutable,
    NoCommand,
    HomeNotSet,
    NotInstalled(InstallScope, String),
    AlreadyExists(String),
    MissingExecutable(String),
    UnsafeEntry(String, String),
    AbsoluteSymlink(String, String),
    EscapingSymlink(String, String),
    EmptySymlink(String, String),
    OutsideAppSymlink(String, String),
    SymlinkWithoutTarget(String),
    HardLink(String),
    /// A file operation failed; the message says which and why.
    Io(String),
}

pub open spec fn scope_name(s: InstallScope) -> Seq<char> {
    match s {
        InstallScope::User => "User"@,
        InstallScope::System => "System"@,
    }
}

pub open spec fn symlink_text(link: Seq<char>, target: Seq<char>, why: Seq<char>) -> Seq<char> {
    "unsafe symlink target in archive: "@ + link + " -> "@ + target + " ("@ + why + ")"@
}

/// The message of an error.
pub open spec fn error_text(e: InstallError) -> Seq<char> {
    match e {
        InstallError::UnsafeArchive => "archive contains unsafe paths; run `tarminal inspect` for details"@,
        InstallError::IncompatiblePlatform(reason) => reason@ + " (use --force to override)"@,
        InstallError::NoAppId => "cannot determine app id; use --id or --config"@,
        InstallError::NoExecutable => "cannot determine executable; use --exec or --config"@,
        InstallError::NoCommand => "cannot determine command name; use --command or --config"@,
        InstallError::HomeNotSet => "HOME is not set; cannot resolve user install directories"@,
        InstallError::NotInstalled(scope, id) => "app is not installed in "@ + scope_name(scope)
            + " scope: "@ + id@,
        InstallError::AlreadyExists(dir) => "install directory already exists: "@ + dir@
            + " (use --force to overwrite)"@,
        InstallError::MissingExecutable(p) => "resolved executable does not exist after extraction: "@
            + p@,
        InstallError::UnsafeEntry(p, reason) => "unsafe path in archive: "@ + p@ + " ("@ + reason@
            + ")"@,
        InstallError::AbsoluteSymlink(l, t) => symlink_text(l@, t@, "absolute target"@),
        InstallError::EscapingSymlink(l, t) => symlink_text(l@, t@, "escapes archive root"@),
        InstallError::EmptySymlink(l, t) => symlink_text(l@, t@, "empty target"@),
        InstallError::OutsideAppSymlink(l, t) => symlink_text(l@, t@, "escapes app directory"@),
        InstallError::SymlinkWithoutTarget(p) => "symlink entry has no target: "@ + p@,
        InstallError::HardLink(p) => "hard link entries are not supported yet: "@ + p@,
        InstallError::Io(m) => m@,
    }
}

fn symlink_message(link: &String, target: &String, why: &str) -> (r: Vec<char>)
    ensures
        r@ == symlink_text(link@, target@, why@),
{
    let mut m = chars_of("unsafe symlink target in archive: ");
    append_str(&mut m, link.as_str());
    append_str(&mut m, " -> ");
    append_str(&mut m, target.as_str());
    append_str(&mut m, " (");
    append_str(&mut m, why);
    append_str(&mut m, ")");
    m
}

impl InstallError {
    /// The message shown for the error.
    pub fn message(&self) -> (r: String)
        ensures
            r@ == error_text(*self),
    {
        let mut m: Vec<char> = Vec::new();
        match self {
            InstallError::UnsafeArchive => {
                append_str(&mut m, "archive contains unsafe paths; run `tarminal inspect` for details");
            },
            InstallError::IncompatiblePlatform(reason) => {
                append_str(&mut m, reason.as_str());
                append_str(&mut m, " (use --force to override)");
            },
            InstallError::NoAppId => {
                append_str(&mut m, "cannot determine app id; use --id or --config");
            },
            InstallError::NoExecutable => {
                append_str(&mut m, "cannot determine executable; use --exec or --config");
            },
            InstallError::NoCommand => {
                append_str(&mut m, "cannot determine command name; use --command or --config");
            },
            InstallError::HomeNotSet => {
                append_str(&mut m, "HOME is not set; cannot resolve user install directories");
            },
            InstallError::NotInstalled(scope, id) => {
                append_str(&mut m, "app is not installed in ");
                match scope {
                    InstallScope::User => append_str(&mut m, "User"),
                    InstallScope::System => append_str(&mut m, "System"),
                }
                append_str(&mut m, " scope: ");
                append_str(&mut m, id.as_str());
            },
            InstallError::AlreadyExists(dir) => {
                append_str(&mut m, "install directory already exists: ");
                append_str(&mut m, dir.as_str());
                append_str(&mut m, " (use --force to overwrite)");
            },
            InstallError::MissingExecutable(p) => {
                append_str(&mut m, "resolved executable does not exist after extraction: ");
                append_str(&mut m, p.as_str());
            },
            InstallError::UnsafeEntry(p, reason) => {
                append_str(&mut m, "unsafe path in archive: ");
                append_str(&mut m, p.as_str());
                append_str(&mut m, " (");
                append_str(&mut m, reason.as_str());
                append_str(&mut m, ")");
            },
            InstallError::AbsoluteSymlink(l, t) => {
                m = symlink_message(l, t, "absolute target");
            },
            InstallError::EscapingSymlink(l, t) => {
                m = symlink_message(l, t, "escapes archive root");
            },
            InstallError::EmptySymlink(l, t) => {
                m = symlink_message(l, t, "empty target");
            },
            InstallError::OutsideAppSymlink(l, t) => {
                m = symlink_message(l, t, "escapes app directory");
            },
            InstallError::SymlinkWithoutTarget(p) => {
                append_str(&mut m, "symlink entry has no target: ");
                append_str(&mut m, p.as_str());
            },
            InstallError::HardLink(p) => {
                append_str(&mut m, "hard link entries are not supported yet: ");
                append_str(&mut m, p.as_str());
            },
            InstallError::Io(message) => {
                append_str(&mut m, message.as_str());
            },
        }
        string_of(&m)
    }
}

// ---------------------------------------------------------------------------
// Plans
// ---------------------------------------------------------------------------

/// Everything an install will do, resolved before any file is written.
#[derive(Debug)]
pub struct InstallPlan {
    pub archive: String,
    pub scope: InstallScope,
    pub app_id: String,
    pub app_name: String,
    pub version: Option<String>,
    pub probe_version: bool,
    pub exec_path_inside_app: String,
    pub command_name: String,
    pub icon_path_inside_app: Option<String>,
    pub targets: InstallTargets,
    pub categories: Vec<String>,
    pub terminal: bool,
    pub notes: Vec<String>,
}

#[verifier::ext_equal]
pub ghost struct PlanView {
    pub archive: Seq<char>,
    pub scope: InstallScope,
    pub app_id: Seq<char>,
    pub app_name: Seq<char>,
    pub version: Option<Seq<char>>,
    pub probe_version: bool,
    pub exec_path_inside_app: Seq<char>,
    pub command_name: Seq<char>,
    pub icon_path_inside_app: Option<Seq<char>>,
    pub targets: TargetsView,
    pub categories: Seq<Seq<char>>,
    pub terminal: bool,
    pub notes: Seq<Seq<char>>,
}

impl View for InstallPlan {
    type V = PlanView;

    open spec fn view(&self) -> PlanView {
        PlanView {
            archive: self.archive@,
            scope: self.scope,
            app_id: self.app_id@,
            app_name: self.app_name@,
            version: opt_seq(self.version),
            probe_version: self.probe_version,
            exec_path_inside_app: self.exec_path_inside_app@,
            command_name: self.command_name@,
            icon_path_inside_app: opt_seq(self.icon_path_inside_app),
            targets: self.targets@,
            categories: self.categories.deep_view(),
            terminal: self.terminal,
            notes: self.notes.deep_view(),
        }
    }
}

/// The plan of a finished install and what was recorded for it.
#[derive(Debug)]
pub struct InstallReport {
    pub plan: InstallPlan,
    pub installed: InstalledApp,
}

/// What a removal took away.
#[derive(Debug)]
pub struct RemoveReport {
    pub id: String,
    pub removed_paths: Vec<String>,
}

/// Progress of an install, for a user interface.
#[derive(Debug)]
pub enum InstallProgress {
    Planning,
    Extracting { current: u64, total: u64, path: String },
    Copying { current: u64, total: u64, path: String },
    Integrating { step: &'static str },
    Finished,
}

/// `incompatible_platform_reason`: the archive names an OS, or else an
/// architecture, other than the running system's.
pub open spec fn spec_platform_reason(guess: GuessView, os: Seq<char>, arch: Seq<char>) -> Option<
    Seq<char>,
> {
    let cur_os = match spec_normalize_os(os) {
        Some(c) => c,
        None => os,
    };
    let cur_arch = spec_normalize_arch(arch);
    if guess.os.is_some() && guess.os.unwrap() != cur_os {
        Some("archive appears to be for "@ + guess.os.unwrap() + ", but this system is "@ + cur_os)
    } else if guess.architecture.is_some() && guess.architecture.unwrap() != cur_arch {
        Some(
            "archive appears to be for "@ + guess.architecture.unwrap()
                + " architecture, but this system is "@ + cur_arch,
        )
    } else {
        None
    }
}

/// Why an archive whose file name gave `guess` does not suit a system running
/// `current_os` on `current_arch`, if it does not.
pub fn incompatible_platform_reason(guess: &FilenameGuess, current_os: &str, current_arch: &str) -> (r:
    Option<String>)
    ensures
        opt_seq(r) == spec_platform_reason(guess@, current_os@, current_arch@),
{
    if let Some(archive_os) = &guess.os {
        let cur = match normalize_os(current_os) {
            Some(c) => c,
            None => String::from_str(current_os),
        };
        let a = chars_of(archive_os.as_str());
        let c = chars_of(cur.as_str());
        if !eq_chars(&a, &c) {
            let mut m = chars_of("archive appears to be for ");
            append_chars(&mut m, &a);
            append_str(&mut m, ", but this system is ");
            append_chars(&mut m, &c);
            return Some(string_of(&m));
        }
    }
    if let Some(archive_arch) = &guess.architecture {
        let cur = normalize_arch(current_arch);
        let a = chars_of(archive_arch.as_str());
        let c = chars_of(cur.as_str());
        if !eq_chars(&a, &c) {
            let mut m = chars_of("archive appears to be for ");
            append_chars(&mut m, &a);
            append_str(&mut m, " architecture, but this system is ");
            append_chars(&mut m, &c);
            return Some(string_of(&m));
        }
    }
    None
}

/// `strip_common_root`: the path inside the common root directory.
pub open spec fn spec_strip_common_root(p: Seq<char>, root: Option<Seq<char>>) -> Seq<char> {
    match root {
        Some(r) => match strip_prefix(p, r) {
            Some(q) => q,
            None => p,
        },
        None => p,
    }
}

pub fn strip_common_root(p: &str, root: &Option<String>) -> (r: String)
    ensures
        r@ == spec_strip_common_root(p@, opt_seq(*root)),
{
    let pc = chars_of(p);
    match root {
        Some(rt) => match path_strip_prefix(&pc, &chars_of(rt.as_str())) {
            Some(q) => string_of(&q),
            None => String::from_str(p),
        },
        None => String::from_str(p),
    }
}

pub open spec fn or_seq(a: Option<Seq<char>>, b: Option<Seq<char>>) -> Option<Seq<char>> {
    if a.is_some() {
        a
    } else {
        b
    }
}

/// The recipe a plan follows: the caller's, else the one embedded in the archive.
pub open spec fn effective_recipe(input: InstallInput, embedded: Option<AppRecipe>) -> Option<
    AppRecipe,
> {
    if input.recipe.is_some() {
        input.recipe
    } else {
        embedded
    }
}

pub open spec fn recipe_id(r: Option<AppRecipe>) -> Option<Seq<char>> {
    match r {
        Some(x) => opt_seq(x.id),
        None => None,
    }
}

pub open spec fn recipe_name(r: Option<AppRecipe>) -> Option<Seq<char>> {
    match r {
        Some(x) => opt_seq(x.name),
        None => None,
    }
}

pub open spec fn recipe_version(r: Option<AppRecipe>) -> Option<Seq<char>> {
    match r {
        Some(x) => opt_seq(x.version),
        None => None,
    }
}

pub open spec fn recipe_exec(r: Option<AppRecipe>) -> Option<Seq<char>> {
    match r {
        Some(x) => opt_seq(x.exec_path),
        None => None,
    }
}

pub open spec fn recipe_command(r: Option<AppRecipe>) -> Option<Seq<char>> {
    match r {
        Some(x) => opt_seq(x.command),
        None => None,
    }
}

pub open spec fn recipe_icon(r: Option<AppRecipe>) -> Option<Seq<char>> {
    match r {
        Some(x) => opt_seq(x.icon),
        None => None,
    }
}

pub open spec fn recipe_probe(r: Option<AppRecipe>) -> Option<bool> {
    match r {
        Some(x) => x.probe_version,
        None => None,
    }
}

pub open spec fn recipe_categories(r: Option<AppRecipe>) -> Option<Seq<Seq<char>>> {
    match r {
        Some(x) => match x.desktop {
            Some(d) => match d.categories {
                Some(c) => Some(c.deep_view()),
                None => None,
            },
            None => None,
        },
        None => None,
    }
}

pub open spec fn recipe_terminal(r: Option<AppRecipe>) -> Option<bool> {
    match r {
        Some(x) => match x.desktop {
            Some(d) => d.terminal,
            None => None,
        },
        None => None,
    }
}

/// `make_plan` once the archive is inspected: the caller's values win, then the
/// recipe's (the caller's recipe, else the embedded one), then what was
/// detected. Unsafe archives and, unless forced, archives for another platform
/// are refused; an id that once sanitized names no directory of its own
/// (empty, `.` or `..`), a missing executable, a command name that is empty
/// once sanitized and a missing `HOME` are errors, in this order.
pub open spec fn spec_make_plan(
    archive: Seq<char>,
    scope: InstallScope,
    input: InstallInput,
    insp: ArchiveInspection,
    embedded: Option<AppRecipe>,
    os: Seq<char>,
    arch: Seq<char>,
    env: PathEnv,
) -> Result<PlanView, Seq<char>> {
    let guess = insp.filename_guess@;
    let recipe = effective_recipe(input, embedded);
    let id_src = or_seq(or_seq(opt_seq(input.id), recipe_id(recipe)), guess.app);
    let id = spec_sanitize(id_src.unwrap(), false);
    let exec_src = or_seq(opt_seq(input.exec_path), recipe_exec(recipe));
    let detected_exec = if insp.executable_candidates.len() > 0 {
        Some(
            spec_strip_common_root(
                insp.executable_candidates@[0].path@,
                opt_seq(insp.common_root),
            ),
        )
    } else {
        None
    };
    let exec = or_seq(exec_src, detected_exec);
    let cmd = match or_seq(opt_seq(input.command), recipe_command(recipe)) {
        Some(c) => c,
        None => spec_sanitize(id, true),
    };
    let tv = spec_targets(
        scope,
        id,
        cmd,
        opt_chars(env.home),
        opt_chars(env.xdg_data_home),
        opt_chars(env.xdg_state_home),
    );
    if !insp.safe {
        Err(error_text(InstallError::UnsafeArchive))
    } else if !input.force && spec_platform_reason(guess, os, arch).is_some() {
        Err(spec_platform_reason(guess, os, arch).unwrap() + " (use --force to override)"@)
    } else if id_src.is_none() || !names_own_dir(id) {
        Err(error_text(InstallError::NoAppId))
    } else if exec.is_none() {
        Err(error_text(InstallError::NoExecutable))
    } else if spec_sanitize(cmd, true).len() == 0 {
        Err(error_text(InstallError::NoCommand))
    } else if tv.is_none() {
        Err(error_text(InstallError::HomeNotSet))
    } else {
        Ok(
            PlanView {
                archive,
                scope,
                app_id: id,
                app_name: match or_seq(opt_seq(input.name), recipe_name(recipe)) {
                    Some(n) => n,
                    None => spec_display_name(id),
                },
                version: or_seq(or_seq(opt_seq(input.version), recipe_version(recipe)), guess.version),
                probe_version: match input.probe_version {
                    Some(b) => b,
                    None => match recipe_probe(recipe) {
                        Some(b) => b,
                        None => true,
                    },
                },
                exec_path_inside_app: exec.unwrap(),
                command_name: cmd,
                icon_path_inside_app: or_seq(
                    or_seq(opt_seq(input.icon), recipe_icon(recipe)),
                    if insp.icon_candidates.len() > 0 {
                        Some(
                            spec_strip_common_root(
                                insp.icon_candidates@[0]@,
                                opt_seq(insp.common_root),
                            ),
                        )
                    } else {
                        None
                    },
                ),
                targets: tv.unwrap(),
                categories: match recipe_categories(recipe) {
                    Some(c) => c,
                    None => seq!["Utility"@],
                },
                terminal: match recipe_terminal(recipe) {
                    Some(t) => t,
                    None => false,
                },
                notes: insp.notes.deep_view(),
            },
        )
    }
}

fn clone_opt(o: &Option<String>) -> (r: Option<String>)
    ensures
        opt_seq(r) == opt_seq(*o),
{
    match o {
        Some(s) => Some(s.clone()),
        None => None,
    }
}

fn pick(a: &Option<String>, b: &Option<String>) -> (r: Option<String>)
    ensures
        opt_seq(r) == or_seq(opt_seq(*a), opt_seq(*b)),
{
    match a {
        Some(s) => Some(s.clone()),
        None => clone_opt(b),
    }
}

/// The recipe a plan follows.
fn recipe_ref<'a>(input: &'a InstallInput, embedded: &'a Option<AppRecipe>) -> (r: Option<
    &'a AppRecipe,
>)
    ensures
        match r {
            Some(x) => effective_recipe(*input, *embedded) == Some(*x),
            None => effective_recipe(*input, *embedded).is_none(),
        },
{
    match &input.recipe {
        Some(x) => Some(x),
        None => match embedded {
            Some(x) => Some(x),
            None => None,
        },
    }
}

fn field_of(r: Option<&AppRecipe>, which: u8) -> (f: Option<String>)
    ensures
        opt_seq(f) == (if which == 0 {
            recipe_id(opt_copy(r))
        } else if which == 1 {
            recipe_name(opt_copy(r))
        } else if which == 2 {
            recipe_version(opt_copy(r))
        } else if which == 3 {
            recipe_exec(opt_copy(r))
        } else if which == 4 {
            recipe_command(opt_copy(r))
        } else {
            recipe_icon(opt_copy(r))
        }),
{
    match r {
        Some(x) => {
            if which == 0 {
                clone_opt(&x.id)
            } else if which == 1 {
                clone_opt(&x.name)
            } else if which == 2 {
                clone_opt(&x.version)
            } else if which == 3 {
                clone_opt(&x.exec_path)
            } else if which == 4 {
                clone_opt(&x.command)
            } else {
                clone_opt(&x.icon)
            }
        },
        None => None,
    }
}

pub open spec fn opt_copy(r: Option<&AppRecipe>) -> Option<AppRecipe> {
    match r {
        Some(x) => Some(*x),
        None => None,
    }
}

/// The install plan for an archive at `archive_path`, given its inspection, the
/// recipe embedded in it (when the caller gave none), the running system's OS and
/// architecture, and the environment. The inspection is handed back.
pub fn make_plan(
    archive_path: &str,
    scope: InstallScope,
    input: &InstallInput,
    inspection: ArchiveInspection,
    embedded_recipe: Option<AppRecipe>,
    current_os: &str,
    current_arch: &str,
    env: &PathEnv,
) -> (r: Result<(InstallPlan, ArchiveInspection), InstallError>)
    ensures
        match r {
            Ok((plan, insp)) => spec_make_plan(
                archive_path@,
                scope,
                *input,
                inspection,
                embedded_recipe,
                current_os@,
                current_arch@,
                *env,
            ) == Ok::<PlanView, Seq<char>>(plan@) && insp == inspection,
            Err(e) => spec_make_plan(
                archive_path@,
                scope,
                *input,
                inspection,
                embedded_recipe,
                current_os@,
                current_arch@,
                *env,
            ) == Err::<PlanView, Seq<char>>(error_text(e)),
        },
{
    if !inspection.safe {
        return Err(InstallError::UnsafeArchive);
    }
    if !input.force {
        if let Some(reason) = incompatible_platform_reason(
            &inspection.filename_guess,
            current_os,
            current_arch,
        ) {
            return Err(InstallError::IncompatiblePlatform(reason));
        }
    }
    let recipe = recipe_ref(input, &embedded_recipe);
    let id_src = pick(&pick(&input.id, &field_of(recipe, 0)), &inspection.filename_guess.app);
    let app_id = match &id_src {
        Some(s) => sanitize_id(s.as_str()),
        None => {
            return Err(InstallError::NoAppId);
        },
    };
    if !names_own_directory(app_id.as_str()) {
        return Err(InstallError::NoAppId);
    }
    let app_name = match pick(&input.name, &field_of(recipe, 1)) {
        Some(n) => n,
        None => display_name_from_id(app_id.as_str()),
    };
    let version = pick(&pick(&input.version, &field_of(recipe, 2)), &inspection.filename_guess.version);
    let probe_version = match input.probe_version {
        Some(b) => b,
        None => match recipe {
            Some(x) => match x.probe_version {
                Some(b) => b,
                None => true,
            },
            None => true,
        },
    };
    let exec_path_inside_app = match pick(&input.exec_path, &field_of(recipe, 3)) {
        Some(e) => e,
        None => {
            if inspection.executable_candidates.len() > 0 {
                strip_common_root(
                    inspection.executable_candidates[0].path.as_str(),
                    &inspection.common_root,
                )
            } else {
                return Err(InstallError::NoExecutable);
            }
        },
    };
    let command_name = match pick(&input.command, &field_of(recipe, 4)) {
        Some(c) => c,
        None => sanitize_command(app_id.as_str()),
    };
    let icon_path_inside_app = match pick(&input.icon, &field_of(recipe, 5)) {
        Some(i) => Some(i),
        None => {
            if inspection.icon_candidates.len() > 0 {
                Some(strip_common_root(inspection.icon_candidates[0].as_str(), &inspection.common_root))
            } else {
                None
            }
        },
    };
    proof {
        assert(spec_sanitize(app_id@, true) == spec_sanitize(
            spec_sanitize(id_src.unwrap()@, false),
            true,
        ));
        crate::recipe::lemma_sanitize_idempotent(id_src.unwrap()@, false);
    }
    if sanitize_command(command_name.as_str()).as_str().unicode_len() == 0 {
        return Err(InstallError::NoCommand);
    }
    let t = match targets(scope, app_id.as_str(), command_name.as_str(), env) {
        Ok(t) => t,
        Err(PathsError::HomeNotSet) => {
            return Err(InstallError::HomeNotSet);
        },
        Err(PathsError::BadAppId) => {
            return Err(InstallError::NoAppId);
        },
        Err(PathsError::BadCommandName) => {
            return Err(InstallError::NoCommand);
        },
    };
    let categories: Vec<String> = match recipe {
        Some(x) => match &x.desktop {
            Some(d) => match &d.categories {
                Some(c) => clone_strings(c),
                None => {
                    let mut v: Vec<String> = Vec::new();
                    v.push(String::from_str("Utility"));
                    assert(v.deep_view() =~= seq!["Utility"@]);
                    v
                },
            },
            None => {
                let mut v: Vec<String> = Vec::new();
                v.push(String::from_str("Utility"));
                assert(v.deep_view() =~= seq!["Utility"@]);
                v
            },
        },
        None => {
            let mut v: Vec<String> = Vec::new();
            v.push(String::from_str("Utility"));
            assert(v.deep_view() =~= seq!["Utility"@]);
            v
        },
    };
    let terminal = match recipe {
        Some(x) => match &x.desktop {
            Some(d) => match d.terminal {
                Some(b) => b,
                None => false,
            },
            None => false,
        },
        None => false,
    };
    let notes = clone_strings(&inspection.notes);
    let plan = InstallPlan {
        archive: String::from_str(archive_path),
        scope,
        app_id,
        app_name,
        version,
        probe_version,
        exec_path_inside_app,
        command_name,
        icon_path_inside_app,
        targets: t,
        categories,
        terminal,
        notes,
    };
    Ok((plan, inspection))
}

/// An embedded recipe larger than this many bytes is not read.
pub const MAX_EMBEDDED_RECIPE_BYTES: u64 = 65536;

/// The embedded manifest to read for a plan: the first manifest candidate, when
/// the caller gave no recipe.
pub fn embedded_manifest_to_read(input: &InstallInput, inspection: &ArchiveInspection) -> (r: Option<
    String,
>)
    ensures
        match r {
            Some(p) => input.recipe.is_none() && inspection.manifest_candidates.len() > 0 && p@
                == inspection.manifest_candidates@[0]@,
            None => input.recipe.is_some() || inspection.manifest_candidates.len() == 0,
        },
{
    if input.recipe.is_none() && inspection.manifest_candidates.len() > 0 {
        Some(inspection.manifest_candidates[0].clone())
    } else {
        None
    }
}

// ---------------------------------------------------------------------------
// Extraction rules
// ---------------------------------------------------------------------------

/// `normalize_relative_path` over components: names are pushed, `.` is skipped,
/// `..` pops a name (and fails at the top), and a root fails.
pub open spec fn normalize_components(cs: Seq<Seq<char>>) -> Option<Seq<Seq<char>>>
    decreases cs.len(),
{
    if cs.len() == 0 {
        Some(Seq::empty())
    } else {
        match normalize_components(cs.drop_last()) {
            None => None,
            Some(st) => {
                let c = cs.last();
                if c == slash() {
                    None
                } else if c == dot() {
                    Some(st)
                } else if c == dotdot() {
                    if st.len() == 0 {
                        None
                    } else {
                        Some(st.drop_last())
                    }
                } else {
                    Some(st.push(c))
                }
            },
        }
    }
}

/// `normalize_relative_path`: the path with `.` and `..` resolved, or `None`
/// when it is absolute or climbs above its start.
pub open spec fn spec_normalize_relative_path(p: Seq<char>) -> Option<Seq<char>> {
    match normalize_components(components(p)) {
        Some(st) => Some(join(st, slash())),
        None => None,
    }
}

pub fn normalize_relative_path(p: &str) -> (r: Option<String>)
    ensures
        opt_seq(r) == spec_normalize_relative_path(p@),
{
    let pc = chars_of(p);
    let cs = path_components(&pc);
    let ghost cv = cs.deep_view();
    let mut stack: Vec<Vec<char>> = Vec::new();
    let mut i: usize = 0;
    assert(cv.take(0) =~= Seq::<Seq<char>>::empty());
    assert(stack.deep_view() =~= Seq::<Seq<char>>::empty());
    while i < cs.len()
        invariant
            i <= cs.len(),
            cv == cs.deep_view(),
            cv == components(p@),
            normalize_components(cv.take(i as int)) == Some(stack.deep_view()),
        decreases cs.len() - i,
    {
        proof {
            lemma_chars_deep_view(&cs@[i as int]);
            assert(cv.take(i + 1).drop_last() =~= cv.take(i as int));
            assert(cv.take(i + 1).last() == cv[i as int]);
        }
        let c = &cs[i];
        let is_slash = c.len() == 1 && c[0] == '/';
        let is_dot = c.len() == 1 && c[0] == '.';
        let is_dotdot = c.len() == 2 && c[0] == '.' && c[1] == '.';
        proof {
            if c@ == slash() {
                assert(c@[0] == '/');
            }
            if c@ == dot() {
                assert(c@[0] == '.');
            }
            if c@ == dotdot() {
                assert(c@[0] == '.' && c@[1] == '.');
            }
            if is_slash {
                assert(c@ =~= slash());
            }
            if is_dot {
                assert(c@ =~= dot());
            }
            if is_dotdot {
                assert(c@ =~= dotdot());
            }
        }
        if is_slash {
            proof {
                assert(normalize_components(cv.take(i + 1)).is_none());
                lemma_normalize_none_prefix(cv, i + 1);
            }
            return None;
        } else if is_dot {
        } else if is_dotdot {
            if stack.len() == 0 {
                proof {
                    lemma_normalize_none_prefix(cv, i + 1);
                }
                return None;
            }
            let ghost before = stack.deep_view();
            stack.pop();
            assert(stack.deep_view() =~= before.drop_last());
        } else {
            let piece = copy_chars(c);
            proof {
                lemma_chars_deep_view(&piece);
            }
            let ghost before = stack.deep_view();
            stack.push(piece);
            assert(stack.deep_view() =~= before.push(c@));
        }
        i = i + 1;
    }
    assert(cv.take(cs.len() as int) =~= cv);
    let mut sep: Vec<char> = Vec::new();
    sep.push('/');
    assert(sep@ =~= slash());
    Some(string_of(&join_chars(&stack, &sep)))
}

proof fn lemma_normalize_none_prefix(cs: Seq<Seq<char>>, i: int)
    requires
        0 <= i <= cs.len(),
        normalize_components(cs.take(i)).is_none(),
    ensures
        normalize_components(cs).is_none(),
    decreases cs.len() - i,
{
    if i < cs.len() {
        assert(cs.take(i + 1).drop_last() =~= cs.take(i));
        lemma_normalize_none_prefix(cs, i + 1);
    } else {
        assert(cs.take(i) =~= cs);
    }
}

/// `validate_safe_symlink`: a symlink target must be relative, and resolved
/// from the link's directory it must stay inside the archive and not be
/// empty. When the entries share a top-level directory `root`, which becomes
/// the app directory, it must also stay strictly inside `root`.
pub open spec fn spec_symlink_check(link: Seq<char>, target: Seq<char>, root: Option<Seq<char>>) -> Option<u8> {
    let base = match parent(link) {
        Some(b) => b,
        None => Seq::empty(),
    };
    if has_root(target) {
        Some(0)
    } else {
        match spec_normalize_relative_path(path_join(base, target)) {
            None => Some(1),
            Some(r) => if r.len() == 0 {
                Some(2)
            } else {
                match root {
                    None => None,
                    Some(app) => if inside_dir(r, app) {
                        None
                    } else if r == app {
                        Some(2)
                    } else {
                        Some(3)
                    },
                }
            },
        }
    }
}

/// The normalized relative path `r` names something below the directory `dir`.
pub open spec fn inside_dir(r: Seq<char>, dir: Seq<char>) -> bool {
    r.len() > dir.len() + 1 && starts_with(r, dir.push('/'))
}

/// What the kinds of `spec_symlink_check` are called in messages.
pub open spec fn symlink_reason(k: u8) -> Seq<char> {
    if k == 0 {
        "absolute target"@
    } else if k == 1 {
        "escapes archive root"@
    } else if k == 2 {
        "empty target"@
    } else {
        "escapes app directory"@
    }
}

pub fn validate_safe_symlink(link_path: &str, target: &str, root: Option<&str>) -> (r: Result<
    (),
    InstallError,
>)
    ensures
        match r {
            Ok(()) => spec_symlink_check(link_path@, target@, opt_str(root)).is_none(),
            Err(e) => match spec_symlink_check(link_path@, target@, opt_str(root)) {
                Some(k) => error_text(e) == symlink_text(link_path@, target@, symlink_reason(k)),
                None => false,
            },
        },
{
    let t = chars_of(target);
    if t.len() > 0 && t[0] == '/' {
        return Err(InstallError::AbsoluteSymlink(String::from_str(link_path), String::from_str(target)));
    }
    let l = chars_of(link_path);
    let base = match path_parent(&l) {
        Some(b) => b,
        None => Vec::new(),
    };
    let joined = string_of(&join_path(&base, &t));
    match normalize_relative_path(joined.as_str()) {
        None => Err(InstallError::EscapingSymlink(String::from_str(link_path), String::from_str(target))),
        Some(r) => {
            if r.as_str().unicode_len() == 0 {
                return Err(InstallError::EmptySymlink(String::from_str(link_path), String::from_str(target)));
            }
            match root {
                None => Ok(()),
                Some(app) => {
                    let rc = chars_of(r.as_str());
                    let mut prefix = chars_of(app);
                    prefix.push('/');
                    if rc.len() > prefix.len() && starts_with_chars(&rc, &prefix) {
                        Ok(())
                    } else if eq_chars(&rc, &chars_of(app)) {
                        Err(InstallError::EmptySymlink(String::from_str(link_path), String::from_str(target)))
                    } else {
                        Err(InstallError::OutsideAppSymlink(String::from_str(link_path), String::from_str(target)))
                    }
                },
            }
        },
    }
}

/// The kinds of archive entries that extraction tells apart.
#[derive(Clone, Copy, Debug, PartialEq, Eq, Structural)]
pub enum EntryKind {
    Directory,
    File,
    Symlink,
    HardLink,
    Other,
}

/// What to do with one archive entry during extraction.
#[derive(Debug)]
pub enum ExtractAction {
    CreateDir(String),
    WriteFile(String, u32),
    CreateSymlink(String, String),
    Skip,
}

/// Why extraction refuses an entry at `raw`, as the message of the refusal:
/// an unsafe path first, then a symlink without a safe target, or a hard link.
pub open spec fn spec_extract_refusal(
    raw: Seq<char>,
    kind: EntryKind,
    link: Option<Seq<char>>,
    root: Option<Seq<char>>,
) -> Option<Seq<char>> {
    match spec_unsafe_path_reason(raw) {
        Some(reason) => Some("unsafe path in archive: "@ + raw + " ("@ + reason + ")"@),
        None => match kind {
            EntryKind::Symlink => match link {
                None => Some("symlink entry has no target: "@ + raw),
                Some(t) => match spec_symlink_check(raw, t, root) {
                    Some(k) => Some(symlink_text(raw, t, symlink_reason(k))),
                    None => None,
                },
            },
            EntryKind::HardLink => Some("hard link entries are not supported yet: "@ + raw),
            _ => None,
        },
    }
}

/// The extraction step for one entry at `raw_path` under `dest`, in an archive
/// whose entries share the top-level directory `root`, if any: unsafe paths,
/// symlinks without a safe target (one that stays inside `root`) and hard
/// links are refused; files keep the permission bits of their mode.
pub fn extract_action(
    dest: &str,
    raw_path: &str,
    kind: EntryKind,
    mode: u32,
    link_target: Option<&str>,
    root: Option<&str>,
) -> (r: Result<ExtractAction, InstallError>)
    ensures
        match r {
            Ok(ExtractAction::CreateDir(p)) => kind == EntryKind::Directory && p@ == path_join(
                dest@,
                raw_path@,
            ),
            Ok(ExtractAction::WriteFile(p, m)) => kind == EntryKind::File && p@ == path_join(
                dest@,
                raw_path@,
            ) && m == mode & 0o777,
            Ok(ExtractAction::CreateSymlink(p, t)) => kind == EntryKind::Symlink && p@ == path_join(
                dest@,
                raw_path@,
            ) && link_target.is_some() && t@ == link_target.unwrap()@,
            Ok(ExtractAction::Skip) => kind == EntryKind::Other,
            Err(e) => spec_extract_refusal(raw_path@, kind, opt_str(link_target), opt_str(root)) == Some(
                error_text(e),
            ),
        },
        r is Ok <==> spec_extract_refusal(raw_path@, kind, opt_str(link_target), opt_str(root)).is_none(),
{
    if let Some(reason) = unsafe_path_reason(raw_path) {
        return Err(InstallError::UnsafeEntry(String::from_str(raw_path), reason));
    }
    let out = string_of(&join_path(&chars_of(dest), &chars_of(raw_path)));
    match kind {
        EntryKind::Directory => Ok(ExtractAction::CreateDir(out)),
        EntryKind::File => Ok(ExtractAction::WriteFile(out, mode & 0o777)),
        EntryKind::Symlink => match link_target {
            None => Err(InstallError::SymlinkWithoutTarget(String::from_str(raw_path))),
            Some(t) => {
                match validate_safe_symlink(raw_path, t, root) {
                    Ok(()) => Ok(ExtractAction::CreateSymlink(out, String::from_str(t))),
                    Err(e) => Err(e),
                }
            },
        },
        EntryKind::HardLink => Err(InstallError::HardLink(String::from_str(raw_path))),
        EntryKind::Other => Ok(ExtractAction::Skip),
    }
}

/// Where an entry found at `entry` while walking the tree at `src_root` is
/// copied under `dst`: `None` when `entry` is not inside `src_root`, `Some(None)`
/// for `src_root` itself (nothing to copy), else its path relative to
/// `src_root` and its destination.
pub fn copy_destination(src_root: &str, dst: &str, entry: &str) -> (r: Option<Option<(String, String)>>)
    ensures
        match r {
            None => strip_prefix(entry@, src_root@).is_none(),
            Some(None) => strip_prefix(entry@, src_root@) == Some(Seq::<char>::empty()),
            Some(Some((rel, to))) => strip_prefix(entry@, src_root@) == Some(rel@) && rel@.len() > 0
                && to@ == path_join(dst@, rel@),
        },
{
    match path_strip_prefix(&chars_of(entry), &chars_of(src_root)) {
        None => None,
        Some(rel) => {
            if rel.len() == 0 {
                assert(rel@ =~= Seq::<char>::empty());
                Some(None)
            } else {
                let to = join_path(&chars_of(dst), &rel);
                Some(Some((string_of(&rel), string_of(&to))))
            }
        },
    }
}

/// The mode that makes a file executable, when it is not yet: `mode | 0o755`
/// when no execute bit is set.
pub fn executable_mode(mode: u32) -> (r: Option<u32>)
    ensures
        match r {
            Some(m) => (mode & 0o111) == 0 && m == (mode | 0o755),
            None => (mode & 0o111) != 0,
        },
{
    if (mode & 0o111) == 0 {
        Some(mode | 0o755)
    } else {
        None
    }
}

// ---------------------------------------------------------------------------
// Files an install writes
// ---------------------------------------------------------------------------

/// `shell_quote`: single quotes around `s`, each `'` inside written as `'"'"'`.
pub open spec fn spec_shell_quote(s: Seq<char>) -> Seq<char> {
    seq!['\''] + replace_char(s, '\'', "'\"'\"'"@) + seq!['\'']
}

pub fn shell_quote(s: &str) -> (r: String)
    ensures
        r@ == spec_shell_quote(s@),
{
    let c = chars_of(s);
    let rep = chars_of("'\"'\"'");
    let mut out: Vec<char> = Vec::new();
    out.push('\'');
    append_chars(&mut out, &replace_char_with(&c, '\'', &rep));
    out.push('\'');
    assert(out@ =~= seq!['\''] + replace_char(s@, '\'', "'\"'\"'"@) + seq!['\'']);
    string_of(&out)
}

/// The command wrapper script: it enters the app directory and runs the
/// executable with the caller's arguments.
pub open spec fn spec_wrapper_script(app_dir: Seq<char>, exec_abs: Seq<char>) -> Seq<char> {
    "#!/usr/bin/env bash\nset -e\nAPPDIR="@ + spec_shell_quote(app_dir) + "\ncd \"$APPDIR\"\nexec "@
        + spec_shell_quote(exec_abs) + " \"$@\"\n"@
}

pub fn wrapper_script(app_dir: &str, exec_abs: &str) -> (r: String)
    ensures
        r@ == spec_wrapper_script(app_dir@, exec_abs@),
{
    let mut t = chars_of("#!/usr/bin/env bash\nset -e\nAPPDIR=");
    append_str(&mut t, shell_quote(app_dir).as_str());
    append_str(&mut t, "\ncd \"$APPDIR\"\nexec ");
    append_str(&mut t, shell_quote(exec_abs).as_str());
    append_str(&mut t, " \"$@\"\n");
    string_of(&t)
}

/// The absolute path of the plan's executable.
pub fn executable_path(plan: &InstallPlan) -> (r: String)
    ensures
        r@ == path_join(plan.targets.app_dir@, plan.exec_path_inside_app@),
{
    string_of(
        &join_path(
            &chars_of(plan.targets.app_dir.as_str()),
            &chars_of(plan.exec_path_inside_app.as_str()),
        ),
    )
}

/// Where an icon inside the app is copied from and to: the icon directory, as
/// `<app id>.<extension>` (`png` when it has none).
pub fn icon_destination(plan: &InstallPlan, icon_inside: &str) -> (r: (String, String))
    ensures
        r.0@ == path_join(plan.targets.app_dir@, icon_inside@),
        r.1@ == path_join(
            plan.targets.icon_dir@,
            plan.app_id@ + seq!['.'] + match extension(path_join(plan.targets.app_dir@, icon_inside@)) {
                Some(e) => e,
                None => "png"@,
            },
        ),
{
    let src = join_path(&chars_of(plan.targets.app_dir.as_str()), &chars_of(icon_inside));
    let ext = match path_extension(&src) {
        Some(e) => e,
        None => chars_of("png"),
    };
    let mut name = chars_of(plan.app_id.as_str());
    name.push('.');
    append_chars(&mut name, &ext);
    let dest = join_path(&chars_of(plan.targets.icon_dir.as_str()), &name);
    (string_of(&src), string_of(&dest))
}

/// Whether a plan still needs its version probed.
pub fn needs_version_probe(plan: &InstallPlan) -> (r: bool)
    ensures
        r == (plan.version.is_none() && plan.probe_version),
{
    plan.version.is_none() && plan.probe_version
}

/// What probing the version gave.
#[derive(Debug)]
pub enum VersionOutcome {
    Found(VersionProbeResult),
    NotFound,
    Failed(String),
}

/// The plan after a version probe: a found version is taken and its source
/// noted; otherwise a note says why there is none.
pub fn apply_version_outcome(plan: &mut InstallPlan, outcome: VersionOutcome)
    ensures
        final(plan).version == match outcome {
            VersionOutcome::Found(p) => Some(p.version),
            _ => old(plan).version,
        },
        final(plan).notes.deep_view() == old(plan).notes.deep_view().push(
            match outcome {
                VersionOutcome::Found(p) => "version detected from "@ + p.source@,
                VersionOutcome::NotFound => "version could not be detected from metadata or command probes"@,
                VersionOutcome::Failed(m) => "version probe failed: "@ + m@,
            },
        ),
        final(plan).app_id == old(plan).app_id,
        final(plan).app_name == old(plan).app_name,
        final(plan).targets == old(plan).targets,
        final(plan).scope == old(plan).scope,
        final(plan).command_name == old(plan).command_name,
        final(plan).exec_path_inside_app == old(plan).exec_path_inside_app,
        final(plan).icon_path_inside_app == old(plan).icon_path_inside_app,
        final(plan).categories == old(plan).categories,
        final(plan).terminal == old(plan).terminal,
        final(plan).probe_version == old(plan).probe_version,
        final(plan).archive == old(plan).archive,
{
    let ghost before = plan.notes.deep_view();
    match outcome {
        VersionOutcome::Found(p) => {
            let mut n = chars_of("version detected from ");
            append_str(&mut n, p.source.as_str());
            plan.notes.push(string_of(&n));
            plan.version = Some(p.version);
        },
        VersionOutcome::NotFound => {
            plan.notes.push(
                String::from_str("version could not be detected from metadata or command probes"),
            );
        },
        VersionOutcome::Failed(m) => {
            let mut n = chars_of("version probe failed: ");
            append_str(&mut n, m.as_str());
            plan.notes.push(string_of(&n));
        },
    }
    assert(plan.notes.deep_view() =~= before.push(
        match outcome {
            VersionOutcome::Found(p) => "version detected from "@ + p.source@,
            VersionOutcome::NotFound => "version could not be detected from metadata or command probes"@,
            VersionOutcome::Failed(m) => "version probe failed: "@ + m@,
        },
    ));
}

/// The refusal to install over an existing app directory unless forced.
pub fn check_install_dir(plan: &InstallPlan, app_dir_exists: bool, force: bool) -> (r: Result<
    (),
    InstallError,
>)
    ensures
        r is Err <==> (app_dir_exists && !force),
        r matches Err(e) ==> error_text(e) == "install directory already exists: "@
            + plan.targets.app_dir@ + " (use --force to overwrite)"@,
{
    if app_dir_exists && !force {
        Err(InstallError::AlreadyExists(plan.targets.app_dir.clone()))
    } else {
        Ok(())
    }
}

/// The desktop entry of a plan's app: it runs the command wrapper and uses the
/// app id as icon name.
pub fn desktop_entry_for(plan: &InstallPlan) -> (r: String)
    ensures
        r@ == crate::desktop::spec_desktop_entry_text(
            plan.app_name@,
            None,
            Some("Installed from a Linux tarball by Tarminal"@),
            plan.targets.command_path@,
            plan.app_id@,
            plan.categories@.map_values(|s: String| s@),
            plan.terminal,
        ),
{
    let input = crate::desktop::DesktopEntryInput {
        name: plan.app_name.as_str(),
        generic_name: None,
        comment: Some("Installed from a Linux tarball by Tarminal"),
        exec_path: plan.targets.command_path.as_str(),
        icon_name: plan.app_id.as_str(),
        categories: plan.categories.as_slice(),
        terminal: plan.terminal,
    };
    crate::desktop::desktop_entry_text(&input)
}

// ---------------------------------------------------------------------------
// The record of installed apps
// ---------------------------------------------------------------------------

/// The record of an app installed by `plan`.
pub open spec fn installed_view(
    plan: PlanView,
    icon_paths: Seq<Seq<char>>,
    source_archive: Seq<char>,
    sha256: Option<Seq<char>>,
) -> AppView {
    AppView {
        id: plan.app_id,
        name: plan.app_name,
        version: plan.version,
        scope: plan.scope,
        install_dir: plan.targets.app_dir,
        command_name: plan.command_name,
        command_path: plan.targets.command_path,
        desktop_path: plan.targets.desktop_path,
        icon_paths,
        source_archive: Some(source_archive),
        source_sha256: sha256,
    }
}

/// Records the app installed by `plan` under its id and reports the install.
pub fn record_install(
    db: &mut StateDb,
    plan: InstallPlan,
    icon_paths: Vec<String>,
    archive_path: &str,
    sha256: Option<String>,
) -> (r: InstallReport)
    requires
        old(db).wf(),
    ensures
        final(db).wf(),
        r.installed@ == installed_view(plan@, icon_paths.deep_view(), archive_path@, opt_seq(sha256)),
        r.plan@ == plan@,
        final(db)@ == old(db)@.insert(plan@.app_id, r.installed@),
{
    let installed = InstalledApp {
        id: plan.app_id.clone(),
        name: plan.app_name.clone(),
        version: clone_opt(&plan.version),
        scope: plan.scope,
        install_dir: plan.targets.app_dir.clone(),
        command_name: plan.command_name.clone(),
        command_path: plan.targets.command_path.clone(),
        desktop_path: plan.targets.desktop_path.clone(),
        icon_paths,
        source_archive: Some(String::from_str(archive_path)),
        source_sha256: sha256,
    };
    let _ = db.insert(installed.id.clone(), installed.duplicate());
    InstallReport { plan, installed }
}

/// The record of `app_id` (sanitized) in `db`, or the error that it is not
/// installed in `scope`.
pub fn find_installed<'a>(db: &'a StateDb, scope: InstallScope, app_id: &str) -> (r: Result<
    &'a InstalledApp,
    InstallError,
>)
    requires
        db.wf(),
    ensures
        match r {
            Ok(a) => db@.contains_key(spec_sanitize(app_id@, false)) && db@[spec_sanitize(
                app_id@,
                false,
            )] == a@,
            Err(e) => !db@.contains_key(spec_sanitize(app_id@, false)) && error_text(e) == (
            "app is not installed in "@ + scope_name(scope) + " scope: "@ + spec_sanitize(
                app_id@,
                false,
            )),
        },
{
    let id = sanitize_id(app_id);
    match db.get(id.as_str()) {
        Some(a) => Ok(a),
        None => Err(InstallError::NotInstalled(scope, id)),
    }
}

/// Removes the record of `app_id` (sanitized) from `db` and returns the id and
/// the removed record.
pub fn remove_app(db: &mut StateDb, scope: InstallScope, app_id: &str) -> (r: Result<
    (String, InstalledApp),
    InstallError,
>)
    requires
        old(db).wf(),
    ensures
        final(db).wf(),
        final(db)@ == old(db)@.remove(spec_sanitize(app_id@, false)),
        match r {
            Ok((id, a)) => id@ == spec_sanitize(app_id@, false) && old(db)@.contains_key(id@)
                && old(db)@[id@] == a@,
            Err(e) => !old(db)@.contains_key(spec_sanitize(app_id@, false)) && error_text(e) == (
            "app is not installed in "@ + scope_name(scope) + " scope: "@ + spec_sanitize(
                app_id@,
                false,
            )),
        },
{
    let id = sanitize_id(app_id);
    match db.remove(id.as_str()) {
        Some(a) => Ok((id, a)),
        None => Err(InstallError::NotInstalled(scope, id)),
    }
}

/// The paths a removal deletes, in order: the app directory, the command, the
/// desktop entry, then the icons.
pub fn removal_paths(app: &InstalledApp) -> (r: Vec<String>)
    ensures
        r.deep_view() == seq![app.install_dir@, app.command_path@, app.desktop_path@]
            + app.icon_paths.deep_view(),
{
    let mut r: Vec<String> = Vec::new();
    r.push(app.install_dir.clone());
    r.push(app.command_path.clone());
    r.push(app.desktop_path.clone());
    let ghost head = r.deep_view();
    assert(head =~= seq![app.install_dir@, app.command_path@, app.desktop_path@]);
    let mut i: usize = 0;
    while i < app.icon_paths.len()
        invariant
            i <= app.icon_paths.len(),
            r.deep_view() == head + app.icon_paths.deep_view().take(i as int),
        decreases app.icon_paths.len() - i,
    {
        let ghost before = r.deep_view();
        r.push(app.icon_paths[i].clone());
        assert(r.deep_view() =~= before.push(app.icon_paths@[i as int]@));
        assert(app.icon_paths.deep_view().take(i + 1) =~= app.icon_paths.deep_view().take(
            i as int,
        ).push(app.icon_paths@[i as int]@));
        i = i + 1;
    }
    assert(app.icon_paths.deep_view().take(app.icon_paths.len() as int) =~= app.icon_paths.deep_view());
    r
}

/// `exists_text`.
pub open spec fn spec_exists_text(exists: bool) -> Seq<char> {
    if exists {
        "ok"@
    } else {
        "missing"@
    }
}

pub fn exists_text(exists: bool) -> (r: &'static str)
    ensures
        r@ == spec_exists_text(exists),
{
    if exists {
        "ok"
    } else {
        "missing"
    }
}

pub open spec fn status_line(label: Seq<char>, path: Seq<char>, exists: bool) -> Seq<char> {
    label + path + " ["@ + spec_exists_text(exists) + "]"@
}

/// Whether the `k`-th checked path exists; paths not given count as missing.
pub open spec fn exists_at(exists: Seq<bool>, k: int) -> bool {
    0 <= k < exists.len() && exists[k]
}

/// The report lines for an installed app, given whether each of its
/// `removal_paths` exists.
pub open spec fn spec_doctor_lines(app: AppView, exists: Seq<bool>) -> Seq<Seq<char>> {
    seq![
        "id: "@ + app.id,
        "name: "@ + app.name,
        status_line("install dir: "@, app.install_dir, exists_at(exists, 0)),
        status_line("command: "@, app.command_path, exists_at(exists, 1)),
        status_line("desktop: "@, app.desktop_path, exists_at(exists, 2)),
    ] + Seq::new(
        app.icon_paths.len(),
        |k: int| status_line("icon: "@, app.icon_paths[k], exists_at(exists, k + 3)),
    )
}

fn status_line_exec(label: &str, path: &String, exists: bool) -> (r: String)
    ensures
        r@ == status_line(label@, path@, exists),
{
    let mut t = chars_of(label);
    append_str(&mut t, path.as_str());
    append_str(&mut t, " [");
    append_str(&mut t, exists_text(exists));
    append_str(&mut t, "]");
    string_of(&t)
}

fn exists_get(exists: &Vec<bool>, k: usize) -> (r: bool)
    ensures
        r == exists_at(exists@, k as int),
{
    k < exists.len() && exists[k]
}

fn exists_after_three(exists: &Vec<bool>, k: usize) -> (r: bool)
    ensures
        r == exists_at(exists@, k + 3),
{
    exists.len() >= 3 && k < exists.len() - 3 && exists[k + 3]
}

/// `doctor_app`: the report on an installed app, given whether each of its
/// `removal_paths` exists.
pub fn doctor_app(db: &StateDb, scope: InstallScope, app_id: &str, exists: &Vec<bool>) -> (r: Result<
    Vec<String>,
    InstallError,
>)
    requires
        db.wf(),
    ensures
        match r {
            Ok(lines) => db@.contains_key(spec_sanitize(app_id@, false)) && lines.deep_view()
                == spec_doctor_lines(db@[spec_sanitize(app_id@, false)], exists@),
            Err(e) => !db@.contains_key(spec_sanitize(app_id@, false)) && error_text(e) == (
            "app is not installed in "@ + scope_name(scope) + " scope: "@ + spec_sanitize(
                app_id@,
                false,
            )),
        },
{
    let app = match find_installed(db, scope, app_id) {
        Ok(a) => a,
        Err(e) => {
            return Err(e);
        },
    };
    let mut lines: Vec<String> = Vec::new();
    let mut t = chars_of("id: ");
    append_str(&mut t, app.id.as_str());
    lines.push(string_of(&t));
    let mut t = chars_of("name: ");
    append_str(&mut t, app.name.as_str());
    lines.push(string_of(&t));
    lines.push(status_line_exec("install dir: ", &app.install_dir, exists_get(exists, 0)));
    lines.push(status_line_exec("command: ", &app.command_path, exists_get(exists, 1)));
    lines.push(status_line_exec("desktop: ", &app.desktop_path, exists_get(exists, 2)));
    let ghost av = app@;
    let ghost head = lines.deep_view();
    assert(head =~= seq![
        "id: "@ + av.id,
        "name: "@ + av.name,
        status_line("install dir: "@, av.install_dir, exists_at(exists@, 0)),
        status_line("command: "@, av.command_path, exists_at(exists@, 1)),
        status_line("desktop: "@, av.desktop_path, exists_at(exists@, 2)),
    ]);
    let ghost icons = Seq::new(
        av.icon_paths.len(),
        |k: int| status_line("icon: "@, av.icon_paths[k], exists_at(exists@, k + 3)),
    );
    let mut i: usize = 0;
    while i < app.icon_paths.len()
        invariant
            i <= app.icon_paths.len(),
            av == app@,
            icons == Seq::new(
                av.icon_paths.len(),
                |k: int| status_line("icon: "@, av.icon_paths[k], exists_at(exists@, k + 3)),
            ),
            lines.deep_view() == head + icons.take(i as int),
        decreases app.icon_paths.len() - i,
    {
        let line = status_line_exec("icon: ", &app.icon_paths[i], exists_after_three(exists, i));
        let ghost before = lines.deep_view();
        lines.push(line);
        assert(lines.deep_view() =~= before.push(icons[i as int]));
        assert(icons.take(i + 1) =~= icons.take(i as int).push(icons[i as int]));
        i = i + 1;
    }
    assert(icons.take(app.icon_paths.len() as int) =~= icons);
    Ok(lines)
}

/// `list_apps`: the installed apps in order of their ids.
pub fn list_apps(db: &StateDb) -> (r: Vec<InstalledApp>)
    requires
        db.wf(),
    ensures
        r@.map_values(|a: InstalledApp| a@) == db.listing().map_values(
            |e: (Seq<char>, AppView)| e.1,
        ),
{
    db.values()
}

} // verus!
