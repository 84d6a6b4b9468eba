//! The values offered when the user configures an install by hand, and the
//! install input made of the answers.
use vstd::prelude::*;
use crate::archive::ArchiveInspection;
use crate::filename::opt_seq;
use crate::install::InstallPlan;
use crate::recipe::InstallInput;
use crate::text::{chars_of, trim_space, trim_whitespace};

verus! {

/// One value for each question: app id, menu name, version, executable path
/// inside the app, command name and icon path inside the app.
#[derive(Debug)]
pub struct ConfigValues {
    pub id: String,
    pub name: String,
    pub version: String,
    pub exec_path: String,
    pub command: String,
    pub icon: String,
}

pub ghost struct ValuesView {
    pub id: Seq<char>,
    pub name: Seq<char>,
    pub version: Seq<char>,
    pub exec_path: Seq<char>,
    pub command: Seq<char>,
    pub icon: Seq<char>,
}

impl View for ConfigValues {
    type V = ValuesView;

    open spec fn view(&self) -> ValuesView {
        ValuesView {
            id: self.id@,
            name: self.name@,
            version: self.version@,
            exec_path: self.exec_path@,
            command: self.command@,
            icon: self.icon@,
        }
    }
}

/// The text of an optional value, empty when there is none.
pub open spec fn or_empty(o: Option<Seq<char>>) -> Seq<char> {
    match o {
        Some(s) => s,
        None => Seq::empty(),
    }
}

fn text_or_empty(o: &Option<String>) -> (r: String)
    ensures
        r@ == or_empty(opt_seq(*o)),
{
    match o {
        Some(s) => s.clone(),
        None => String::new(),
    }
}

/// The values that a plan offers.
pub fn values_from_plan(plan: &InstallPlan) -> (r: ConfigValues)
    ensures
        r@ == (ValuesView {
            id: plan.app_id@,
            name: plan.app_name@,
            version: or_empty(opt_seq(plan.version)),
            exec_path: plan.exec_path_inside_app@,
            command: plan.command_name@,
            icon: or_empty(opt_seq(plan.icon_path_inside_app)),
        }),
{
    ConfigValues {
        id: plan.app_id.clone(),
        name: plan.app_name.clone(),
        version: text_or_empty(&plan.version),
        exec_path: plan.exec_path_inside_app.clone(),
        command: plan.command_name.clone(),
        icon: text_or_empty(&plan.icon_path_inside_app),
    }
}

/// The values that an inspection offers when no plan could be made: the
/// guessed app name (`myapp` when there is none) as id, name and command, the
/// guessed version, and the first executable and icon candidates as they are
/// in the archive.
pub fn values_from_inspection(insp: &ArchiveInspection) -> (r: ConfigValues)
    ensures
        ({
            let app = match opt_seq(insp.filename_guess.app) {
                Some(a) => a,
                None => "myapp"@,
            };
            r@ == ValuesView {
                id: app,
                name: app,
                version: or_empty(opt_seq(insp.filename_guess.version)),
                exec_path: if insp.executable_candidates.len() > 0 {
                    insp.executable_candidates@[0].path@
                } else {
                    Seq::empty()
                },
                command: app,
                icon: if insp.icon_candidates.len() > 0 {
                    insp.icon_candidates@[0]@
                } else {
                    Seq::empty()
                },
            }
        }),
{
    let app = match &insp.filename_guess.app {
        Some(a) => a.clone(),
        None => String::from_str("myapp"),
    };
    let exec_path = if insp.executable_candidates.len() > 0 {
        insp.executable_candidates[0].path.clone()
    } else {
        String::new()
    };
    let icon = if insp.icon_candidates.len() > 0 {
        insp.icon_candidates[0].clone()
    } else {
        String::new()
    };
    ConfigValues {
        id: app.clone(),
        name: app.clone(),
        version: text_or_empty(&insp.filename_guess.version),
        exec_path,
        command: app,
        icon,
    }
}

fn given_or(given: &Option<String>, fallback: String) -> (r: String)
    ensures
        r@ == match opt_seq(*given) {
            Some(g) => g,
            None => fallback@,
        },
{
    match given {
        Some(g) => g.clone(),
        None => fallback,
    }
}

/// The values to offer: the caller's own where it gave them, else `defaults`.
pub fn offered_values(input: &InstallInput, defaults: ConfigValues) -> (r: ConfigValues)
    ensures
        r@.id == or_default(opt_seq(input.id), defaults@.id),
        r@.name == or_default(opt_seq(input.name), defaults@.name),
        r@.version == or_default(opt_seq(input.version), defaults@.version),
        r@.exec_path == or_default(opt_seq(input.exec_path), defaults@.exec_path),
        r@.command == or_default(opt_seq(input.command), defaults@.command),
        r@.icon == or_default(opt_seq(input.icon), defaults@.icon),
{
    ConfigValues {
        id: given_or(&input.id, defaults.id),
        name: given_or(&input.name, defaults.name),
        version: given_or(&input.version, defaults.version),
        exec_path: given_or(&input.exec_path, defaults.exec_path),
        command: given_or(&input.command, defaults.command),
        icon: given_or(&input.icon, defaults.icon),
    }
}

pub open spec fn or_default(given: Option<Seq<char>>, fallback: Seq<char>) -> Seq<char> {
    match given {
        Some(g) => g,
        None => fallback,
    }
}

/// An answer kept as given, or nothing when it is only white space.
pub open spec fn unless_blank(answer: Seq<char>) -> Option<Seq<char>> {
    if trim_space(answer).len() == 0 {
        None
    } else {
        Some(answer)
    }
}

fn answer_unless_blank(answer: String) -> (r: Option<String>)
    ensures
        opt_seq(r) == unless_blank(answer@),
{
    if trim_whitespace(&chars_of(answer.as_str())).len() == 0 {
        None
    } else {
        Some(answer)
    }
}

/// The install input after the user answered: every answer is taken, but a
/// blank version or icon leaves it unset; the rest of `input` is kept.
pub fn apply_answers(input: InstallInput, answers: ConfigValues) -> (r: InstallInput)
    ensures
        opt_seq(r.id) == Some(answers@.id),
        opt_seq(r.name) == Some(answers@.name),
        opt_seq(r.version) == unless_blank(answers@.version),
        opt_seq(r.exec_path) == Some(answers@.exec_path),
        opt_seq(r.command) == Some(answers@.command),
        opt_seq(r.icon) == unless_blank(answers@.icon),
        r.probe_version == input.probe_version,
        r.recipe == input.recipe,
        r.force == input.force,
        r.interactive_config == input.interactive_config,
{
    let ConfigValues { id, name, version, exec_path, command, icon } = answers;
    InstallInput {
        id: Some(id),
        name: Some(name),
        version: answer_unless_blank(version),
        probe_version: input.probe_version,
        exec_path: Some(exec_path),
        command: Some(command),
        icon: answer_unless_blank(icon),
        recipe: input.recipe,
        force: input.force,
        interactive_config: input.interactive_config,
    }
}

} // verus!
