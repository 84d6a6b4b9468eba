//! Where an install puts its files, for the user and the system scope.
use vstd::prelude::*;
use crate::pathstr::{join_path, join_path_str, path_join};
use crate::recipe::{sanitize_command, sanitize_id, spec_sanitize};
use crate::text::{append_str, chars_of, eq_lit, string_of};
use crate::desktop::opt_str;

verus! {

#[derive(Clone, Copy, Debug, PartialEq, Eq, Structural)]
pub enum InstallScope {
    User,
    System,
}

/// The locations of one install.
#[derive(Clone, Debug)]
pub struct InstallTargets {
    pub scope: InstallScope,
    pub app_id: String,
    pub command_name: String,
    pub app_dir: String,
    pub command_path: String,
    pub desktop_path: String,
    pub icon_dir: String,
    pub state_path: String,
}

pub ghost struct TargetsView {
    pub scope: InstallScope,
    pub app_id: Seq<char>,
    pub command_name: Seq<char>,
    pub app_dir: Seq<char>,
    pub command_path: Seq<char>,
    pub desktop_path: Seq<char>,
    pub icon_dir: Seq<char>,
    pub state_path: Seq<char>,
}

impl View for InstallTargets {
    type V = TargetsView;

    open spec fn view(&self) -> TargetsView {
        TargetsView {
            scope: self.scope,
            app_id: self.app_id@,
            command_name: self.command_name@,
            app_dir: self.app_dir@,
            command_path: self.command_path@,
            desktop_path: self.desktop_path@,
            icon_dir: self.icon_dir@,
            state_path: self.state_path@,
        }
    }
}

/// The environment variables that user installs depend on: `HOME`,
/// `XDG_DATA_HOME` and `XDG_STATE_HOME`, each when set.
#[derive(Clone, Debug)]
pub struct PathEnv {
    pub home: Option<String>,
    pub xdg_data_home: Option<String>,
    pub xdg_state_home: Option<String>,
}

/// Why the install locations could not be resolved.
#[derive(Clone, Copy, Debug, PartialEq, Eq, Structural)]
pub enum PathsError {
    /// The app id, sanitized, is empty, `.` or `..`, which name no directory
    /// of the app's own.
    BadAppId,
    /// The command name, sanitized, is empty.
    BadCommandName,
    HomeNotSet,
}

pub open spec fn paths_error_text(e: PathsError) -> Seq<char> {
    match e {
        PathsError::BadAppId => "app id does not name a directory of its own"@,
        PathsError::BadCommandName => "command name is empty"@,
        PathsError::HomeNotSet => "HOME is not set; cannot resolve user install directories"@,
    }
}

impl PathsError {
    pub fn message(&self) -> (r: String)
        ensures
            r@ == paths_error_text(*self),
    {
        match self {
            PathsError::BadAppId => String::from_str("app id does not name a directory of its own"),
            PathsError::BadCommandName => String::from_str("command name is empty"),
            PathsError::HomeNotSet => String::from_str(
                "HOME is not set; cannot resolve user install directories",
            ),
        }
    }
}

/// A sanitized app id that names a directory of the app's own: not empty, not
/// `.` and not `..`.
pub open spec fn names_own_dir(id: Seq<char>) -> bool {
    id.len() > 0 && id != seq!['.'] && id != seq!['.', '.']
}

/// Whether a sanitized app id names a directory of the app's own.
pub fn names_own_directory(id: &str) -> (r: bool)
    ensures
        r == names_own_dir(id@),
{
    let c = chars_of(id);
    let one_dot = c.len() == 1 && c[0] == '.';
    let two_dots = c.len() == 2 && c[0] == '.' && c[1] == '.';
    proof {
        if one_dot {
            assert(c@ =~= seq!['.']);
        }
        if two_dots {
            assert(c@ =~= seq!['.', '.']);
        }
        if c@ == seq!['.'] {
            assert(c@[0] == '.');
        }
        if c@ == seq!['.', '.'] {
            assert(c@[0] == '.' && c@[1] == '.');
        }
    }
    c.len() > 0 && !one_dot && !two_dots
}

/// Why no install locations can be made, in the order checked: the id, the
/// command name, then `HOME` for a user install.
pub open spec fn spec_targets_error(
    scope: InstallScope,
    app_id: Seq<char>,
    command_name: Seq<char>,
    home: Option<Seq<char>>,
) -> Option<PathsError> {
    if !names_own_dir(spec_sanitize(app_id, false)) {
        Some(PathsError::BadAppId)
    } else if spec_sanitize(command_name, true).len() == 0 {
        Some(PathsError::BadCommandName)
    } else if scope == InstallScope::User && home.is_none() {
        Some(PathsError::HomeNotSet)
    } else {
        None
    }
}

/// The install locations for the id and command name, each sanitized first.
/// A user install needs `HOME` (even where the XDG variables are set); the
/// XDG directories default to `~/.local/share` and `~/.local/state`.
pub open spec fn spec_targets(
    scope: InstallScope,
    app_id: Seq<char>,
    command_name: Seq<char>,
    home: Option<Seq<char>>,
    xdg_data_home: Option<Seq<char>>,
    xdg_state_home: Option<Seq<char>>,
) -> Option<TargetsView> {
    let id = spec_sanitize(app_id, false);
    let cmd = spec_sanitize(command_name, true);
    if spec_targets_error(scope, app_id, command_name, home).is_some() {
        None
    } else {
        match scope {
            InstallScope::User => {
                let h = home.unwrap();
                let data = match xdg_data_home {
                    Some(d) => d,
                    None => path_join(h, ".local/share"@),
                };
                let state = match xdg_state_home {
                    Some(s) => s,
                    None => path_join(h, ".local/state"@),
                };
                Some(
                    TargetsView {
                        scope,
                        app_id: id,
                        command_name: cmd,
                        app_dir: path_join(path_join(data, "tarapp/apps"@), id),
                        command_path: path_join(path_join(h, ".local/bin"@), cmd),
                        desktop_path: path_join(path_join(data, "applications"@), id + ".desktop"@),
                        icon_dir: path_join(data, "icons/hicolor/256x256/apps"@),
                        state_path: path_join(state, "tarapp/apps.json"@),
                    },
                )
            },
            InstallScope::System => Some(
                TargetsView {
                    scope,
                    app_id: id,
                    command_name: cmd,
                    app_dir: path_join("/opt"@, id),
                    command_path: path_join("/usr/local/bin"@, cmd),
                    desktop_path: path_join("/usr/share/applications"@, id + ".desktop"@),
                    icon_dir: "/usr/share/icons/hicolor/256x256/apps"@,
                    state_path: "/var/lib/tarapp/apps.json"@,
                },
            ),
        }
    }
}

pub open spec fn opt_chars(o: Option<String>) -> Option<Seq<char>> {
    match o {
        Some(s) => Some(s@),
        None => None,
    }
}

/// The install locations of an app, or why there are none.
pub fn targets(scope: InstallScope, app_id: &str, command_name: &str, env: &PathEnv) -> (r: Result<
    InstallTargets,
    PathsError,
>)
    ensures
        match r {
            Ok(t) => spec_targets(
                scope,
                app_id@,
                command_name@,
                opt_chars(env.home),
                opt_chars(env.xdg_data_home),
                opt_chars(env.xdg_state_home),
            ) == Some(t@),
            Err(e) => spec_targets_error(scope, app_id@, command_name@, opt_chars(env.home)) == Some(
                e,
            ),
        },
{
    let cleaned_id = sanitize_id(app_id);
    let cleaned_cmd = sanitize_command(command_name);
    let id = chars_of(cleaned_id.as_str());
    let cmd = chars_of(cleaned_cmd.as_str());
    if !names_own_directory(cleaned_id.as_str()) {
        return Err(PathsError::BadAppId);
    }
    if cmd.len() == 0 {
        return Err(PathsError::BadCommandName);
    }
    let mut desktop_name = chars_of(cleaned_id.as_str());
    append_str(&mut desktop_name, ".desktop");
    match scope {
        InstallScope::User => {
            let home = match &env.home {
                Some(h) => chars_of(h.as_str()),
                None => {
                    return Err(PathsError::HomeNotSet);
                },
            };
            let data = match &env.xdg_data_home {
                Some(d) => chars_of(d.as_str()),
                None => join_path_str(&home, ".local/share"),
            };
            let state = match &env.xdg_state_home {
                Some(s) => chars_of(s.as_str()),
                None => join_path_str(&home, ".local/state"),
            };
            let app_dir = join_path(&join_path_str(&data, "tarapp/apps"), &id);
            let command_path = join_path(&join_path_str(&home, ".local/bin"), &cmd);
            let desktop_path = join_path(&join_path_str(&data, "applications"), &desktop_name);
            let icon_dir = join_path_str(&data, "icons/hicolor/256x256/apps");
            let state_path = join_path_str(&state, "tarapp/apps.json");
            Ok(
                InstallTargets {
                    scope,
                    app_id: cleaned_id,
                    command_name: cleaned_cmd,
                    app_dir: string_of(&app_dir),
                    command_path: string_of(&command_path),
                    desktop_path: string_of(&desktop_path),
                    icon_dir: string_of(&icon_dir),
                    state_path: string_of(&state_path),
                },
            )
        },
        InstallScope::System => {
            let app_dir = join_path(&chars_of("/opt"), &id);
            let command_path = join_path(&chars_of("/usr/local/bin"), &cmd);
            let desktop_path = join_path(&chars_of("/usr/share/applications"), &desktop_name);
            Ok(
                InstallTargets {
                    scope,
                    app_id: cleaned_id,
                    command_name: cleaned_cmd,
                    app_dir: string_of(&app_dir),
                    command_path: string_of(&command_path),
                    desktop_path: string_of(&desktop_path),
                    icon_dir: String::from_str("/usr/share/icons/hicolor/256x256/apps"),
                    state_path: String::from_str("/var/lib/tarapp/apps.json"),
                },
            )
        },
    }
}

/// What `format!("{:?}", s)` gives for a string `s` (`<str as Debug>::fmt`).
pub uninterp spec fn str_debug(s: Seq<char>) -> Seq<char>;

/// `<str as Debug>::fmt` on `s`, through `format!("{:?}", s)`. Claims only that
/// the result is the named one.
#[verifier::external_body]
fn debug_text(s: &str) -> (r: String)
    ensures
        r@ == str_debug(s@),
{
    format!("{:?}", s)
}

/// The scope that a request names: `user` (also when it names none) or
/// `system`; any other name is refused with a message that quotes it.
pub open spec fn spec_parse_scope(value: Option<Seq<char>>) -> Result<InstallScope, Seq<char>> {
    let v = match value {
        Some(v) => v,
        None => "user"@,
    };
    if v == "user"@ {
        Ok(InstallScope::User)
    } else if v == "system"@ {
        Ok(InstallScope::System)
    } else {
        Err("scope must be 'user' or 'system', got "@ + str_debug(v))
    }
}

pub fn parse_scope(value: Option<&str>) -> (r: Result<InstallScope, String>)
    ensures
        match r {
            Ok(s) => spec_parse_scope(opt_str(value)) == Ok::<InstallScope, Seq<char>>(s),
            Err(m) => spec_parse_scope(opt_str(value)) == Err::<InstallScope, Seq<char>>(m@),
        },
{
    let v = match value {
        Some(v) => v,
        None => "user",
    };
    let c = chars_of(v);
    if eq_lit(&c, "user") {
        Ok(InstallScope::User)
    } else if eq_lit(&c, "system") {
        Ok(InstallScope::System)
    } else {
        let mut m = chars_of("scope must be 'user' or 'system', got ");
        append_str(&mut m, debug_text(v).as_str());
        Err(string_of(&m))
    }
}

} // verus!
