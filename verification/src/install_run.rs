//! The course of an install once its plan is made, one step at a time: the
//! library decides what happens next and the caller does the file work and
//! answers with what came of it.
use vstd::prelude::*;
use crate::desktop::spec_desktop_entry_text;
use crate::filename::opt_seq;
use crate::install::{
    apply_version_outcome, desktop_entry_for, error_text, executable_mode, executable_path,
    icon_destination, installed_view, needs_version_probe, record_install, spec_wrapper_script,
    wrapper_script, InstallError, InstallPlan, InstallReport, PlanView, VersionOutcome,
};
use crate::pathstr::{extension, join_path, path_join};
use crate::state::StateDb;
use crate::text::{chars_of, string_of};
use crate::version::{opt_probe, VersionProbeResult};

verus! {

/// What the caller is asked to do next.
#[derive(Debug)]
pub enum InstallAction {
    /// Tell whether this path exists (`Exists`).
    CheckPath(String),
    /// Extract the archive into a fresh staging directory, refusing entries as
    /// `extract_action` says with the entries' common top-level directory
    /// given here (`Extracted` with the staging directory).
    Extract(Option<String>),
    /// Remove this directory tree (`Completed`).
    RemoveTree(String),
    /// Create the parent of `to`, then copy the tree at `from` to `to` (`Completed`).
    CopyTree { from: String, to: String },
    /// Read the permission bits of this file (`Mode`, `None` when it does not exist).
    ReadMode(String),
    /// Set the permission bits of this file (`Completed`).
    SetMode(String, u32),
    /// Run version detection (`detect_installed_version`) with the app
    /// directory, the executable inside it, the command name, the app id and
    /// the app name (`Version`).
    DetectVersion { app_dir: String, exec_path_inside_app: String, command_name: String, app_id: String, app_name: String },
    /// Write this command wrapper and make it executable with mode `0o755` (`Completed`).
    WriteWrapper { path: String, content: String },
    /// Copy the icon from the first path to the second one, when there is an
    /// icon (`IconInstalled`).
    InstallIcon(Option<(String, String)>),
    /// Write this desktop entry (`Completed`).
    WriteDesktop { path: String, content: String },
    /// Load the state file, hand it to `InstallRun::record`, and save it.
    SaveState(String),
    /// The install failed.
    Fail(InstallError),
    /// Nothing more to do.
    Over,
}

/// The answer to the last action.
#[derive(Debug)]
pub enum InstallEvent {
    Exists(bool),
    Extracted(String),
    Completed,
    Mode(Option<u32>),
    Version(Result<Option<VersionProbeResult>, String>),
    IconInstalled(bool),
    Failed(String),
}

pub ghost enum StepView {
    CheckPath(Seq<char>),
    Extract(Option<Seq<char>>),
    RemoveTree(Seq<char>),
    CopyTree(Seq<char>, Seq<char>),
    ReadMode(Seq<char>),
    SetMode(Seq<char>, u32),
    DetectVersion(Seq<char>, Seq<char>, Seq<char>, Seq<char>, Seq<char>),
    WriteWrapper(Seq<char>, Seq<char>),
    InstallIcon(Option<(Seq<char>, Seq<char>)>),
    WriteDesktop(Seq<char>, Seq<char>),
    SaveState(Seq<char>),
    Fail(Seq<char>),
    Over,
}

pub ghost enum EventView {
    Exists(bool),
    Extracted(Seq<char>),
    Completed,
    Mode(Option<u32>),
    Version(Result<Option<(Seq<char>, Seq<char>)>, Seq<char>>),
    IconInstalled(bool),
    Failed(Seq<char>),
}

pub open spec fn opt_pair(o: Option<(String, String)>) -> Option<(Seq<char>, Seq<char>)> {
    match o {
        Some(p) => Some((p.0@, p.1@)),
        None => None,
    }
}

impl View for InstallAction {
    type V = StepView;

    open spec fn view(&self) -> StepView {
        match self {
            InstallAction::CheckPath(p) => StepView::CheckPath(p@),
            InstallAction::Extract(root) => StepView::Extract(opt_seq(*root)),
            InstallAction::RemoveTree(p) => StepView::RemoveTree(p@),
            InstallAction::CopyTree { from, to } => StepView::CopyTree(from@, to@),
            InstallAction::ReadMode(p) => StepView::ReadMode(p@),
            InstallAction::SetMode(p, m) => StepView::SetMode(p@, *m),
            InstallAction::DetectVersion {
                app_dir,
                exec_path_inside_app,
                command_name,
                app_id,
                app_name,
            } => StepView::DetectVersion(
                app_dir@,
                exec_path_inside_app@,
                command_name@,
                app_id@,
                app_name@,
            ),
            InstallAction::WriteWrapper { path, content } => StepView::WriteWrapper(path@, content@),
            InstallAction::InstallIcon(o) => StepView::InstallIcon(opt_pair(*o)),
            InstallAction::WriteDesktop { path, content } => StepView::WriteDesktop(path@, content@),
            InstallAction::SaveState(p) => StepView::SaveState(p@),
            InstallAction::Fail(e) => StepView::Fail(error_text(*e)),
            InstallAction::Over => StepView::Over,
        }
    }
}

impl View for InstallEvent {
    type V = EventView;

    open spec fn view(&self) -> EventView {
        match self {
            InstallEvent::Exists(b) => EventView::Exists(*b),
            InstallEvent::Extracted(s) => EventView::Extracted(s@),
            InstallEvent::Completed => EventView::Completed,
            InstallEvent::Mode(m) => EventView::Mode(*m),
            InstallEvent::Version(r) => EventView::Version(
                match r {
                    Ok(o) => Ok(opt_probe(*o)),
                    Err(m) => Err(m@),
                },
            ),
            InstallEvent::IconInstalled(b) => EventView::IconInstalled(*b),
            InstallEvent::Failed(m) => EventView::Failed(m@),
        }
    }
}

/// An install in progress. Its stages: 0 checks the app directory, 1 extracts,
/// 2 checks the archive's root directory in the staging directory, 3 checks
/// the app directory again, 4 removes the previous install, 5 copies, 6 reads
/// the executable's mode, 7 sets it, 8 detects the version, 9 writes the
/// command wrapper, 10 installs the icon, 11 writes the desktop entry, 12
/// waits for the state to be recorded, and 13 is over.
pub struct InstallRun {
    stage: u8,
    plan: InstallPlan,
    archive: String,
    force: bool,
    common_root: Option<String>,
    staging: String,
    source_root: String,
    mode: u32,
    icon_paths: Vec<String>,
}

#[verifier::ext_equal]
pub ghost struct RunView {
    pub stage: int,
    pub plan: PlanView,
    pub archive: Seq<char>,
    pub force: bool,
    pub common_root: Option<Seq<char>>,
    pub staging: Seq<char>,
    pub source_root: Seq<char>,
    pub mode: u32,
    pub icon_paths: Seq<Seq<char>>,
}

impl View for InstallRun {
    type V = RunView;

    closed spec fn view(&self) -> RunView {
        RunView {
            stage: self.stage as int,
            plan: self.plan@,
            archive: self.archive@,
            force: self.force,
            common_root: opt_seq(self.common_root),
            staging: self.staging@,
            source_root: self.source_root@,
            mode: self.mode,
            icon_paths: self.icon_paths.deep_view(),
        }
    }
}

/// The absolute path of the plan's executable.
pub open spec fn exec_abs(p: PlanView) -> Seq<char> {
    path_join(p.targets.app_dir, p.exec_path_inside_app)
}

/// Where the plan's icon is copied from and to, when it has one.
pub open spec fn icon_move(p: PlanView) -> Option<(Seq<char>, Seq<char>)> {
    match p.icon_path_inside_app {
        Some(icon) => {
            let from = path_join(p.targets.app_dir, icon);
            Some(
                (
                    from,
                    path_join(
                        p.targets.icon_dir,
                        p.app_id + seq!['.'] + match extension(from) {
                            Some(e) => e,
                            None => "png"@,
                        },
                    ),
                ),
            )
        },
        None => None,
    }
}

/// The desktop entry written for the plan.
pub open spec fn plan_desktop_text(p: PlanView) -> Seq<char> {
    spec_desktop_entry_text(
        p.app_name,
        None,
        Some("Installed from a Linux tarball by Tarminal"@),
        p.targets.command_path,
        p.app_id,
        p.categories,
        p.terminal,
    )
}

/// The action that a run at its stage asks for.
pub open spec fn action_of(r: RunView) -> StepView {
    let p = r.plan;
    if r.stage == 0 || r.stage == 3 {
        StepView::CheckPath(p.targets.app_dir)
    } else if r.stage == 1 {
        StepView::Extract(r.common_root)
    } else if r.stage == 2 {
        match r.common_root {
            Some(root) => StepView::CheckPath(path_join(r.staging, root)),
            None => StepView::Over,
        }
    } else if r.stage == 4 {
        StepView::RemoveTree(p.targets.app_dir)
    } else if r.stage == 5 {
        StepView::CopyTree(r.source_root, p.targets.app_dir)
    } else if r.stage == 6 {
        StepView::ReadMode(exec_abs(p))
    } else if r.stage == 7 {
        StepView::SetMode(exec_abs(p), r.mode)
    } else if r.stage == 8 {
        StepView::DetectVersion(
            p.targets.app_dir,
            p.exec_path_inside_app,
            p.command_name,
            p.app_id,
            p.app_name,
        )
    } else if r.stage == 9 {
        StepView::WriteWrapper(
            p.targets.command_path,
            spec_wrapper_script(p.targets.app_dir, exec_abs(p)),
        )
    } else if r.stage == 10 {
        StepView::InstallIcon(icon_move(p))
    } else if r.stage == 11 {
        StepView::WriteDesktop(p.targets.desktop_path, plan_desktop_text(p))
    } else if r.stage == 12 {
        StepView::SaveState(p.targets.state_path)
    } else {
        StepView::Over
    }
}

/// The stage after the executable is ready: version detection when the plan
/// has no version and may probe, else the command wrapper.
pub open spec fn after_executable(p: PlanView) -> int {
    if p.version.is_none() && p.probe_version {
        8
    } else {
        9
    }
}

/// The note and version that a version detection result gives a plan.
pub open spec fn plan_after_detection(
    p: PlanView,
    r: Result<Option<(Seq<char>, Seq<char>)>, Seq<char>>,
) -> PlanView {
    PlanView {
        version: match r {
            Ok(Some(found)) => Some(found.0),
            _ => p.version,
        },
        notes: p.notes.push(
            match r {
                Ok(Some(found)) => "version detected from "@ + found.1,
                Ok(None) => "version could not be detected from metadata or command probes"@,
                Err(m) => "version probe failed: "@ + m,
            },
        ),
        ..p
    }
}

pub open spec fn at_stage(r: RunView, stage: int) -> RunView {
    RunView { stage, ..r }
}

/// A failed run, with the action that reports the failure.
pub open spec fn failed(r: RunView, message: Seq<char>) -> (RunView, StepView) {
    (at_stage(r, 13), StepView::Fail(message))
}

/// A run that goes on at `next`, with that stage's action.
pub open spec fn moved(next: RunView) -> (RunView, StepView) {
    (next, action_of(next))
}

/// One step of a run: the answer `e` to the action of `r`'s stage gives the
/// next run and its action. A failure reported by the caller ends the run
/// (except while installing the icon, which is optional); an answer that does
/// not fit the stage leaves the run as it is and asks again.
pub open spec fn spec_run_step(r: RunView, e: EventView) -> (RunView, StepView) {
    let p = r.plan;
    if r.stage >= 12 {
        (at_stage(r, 13), StepView::Over)
    } else if r.stage != 10 && e is Failed {
        match e {
            EventView::Failed(m) => failed(r, m),
            _ => moved(r),
        }
    } else if r.stage == 0 {
        match e {
            EventView::Exists(b) => if b && !r.force {
                failed(
                    r,
                    "install directory already exists: "@ + p.targets.app_dir
                        + " (use --force to overwrite)"@,
                )
            } else {
                moved(at_stage(r, 1))
            },
            _ => moved(r),
        }
    } else if r.stage == 1 {
        match e {
            EventView::Extracted(s) => if r.common_root.is_some() {
                moved(RunView { stage: 2, staging: s, ..r })
            } else {
                moved(RunView { stage: 3, staging: s, source_root: s, ..r })
            },
            _ => moved(r),
        }
    } else if r.stage == 2 {
        match e {
            EventView::Exists(b) => moved(
                RunView {
                    stage: 3,
                    source_root: match r.common_root {
                        Some(root) if b => path_join(r.staging, root),
                        _ => r.staging,
                    },
                    ..r
                },
            ),
            _ => moved(r),
        }
    } else if r.stage == 3 {
        match e {
            EventView::Exists(b) => moved(
                at_stage(
                    r,
                    if b {
                        4
                    } else {
                        5
                    },
                ),
            ),
            _ => moved(r),
        }
    } else if r.stage == 4 || r.stage == 5 || r.stage == 9 || r.stage == 11 {
        match e {
            EventView::Completed => moved(at_stage(r, r.stage + 1)),
            _ => moved(r),
        }
    } else if r.stage == 6 {
        match e {
            EventView::Mode(None) => failed(
                r,
                "resolved executable does not exist after extraction: "@ + exec_abs(p),
            ),
            EventView::Mode(Some(m)) => if m & 0o111 == 0 {
                moved(RunView { stage: 7, mode: m | 0o755, ..r })
            } else {
                moved(at_stage(r, after_executable(p)))
            },
            _ => moved(r),
        }
    } else if r.stage == 7 {
        match e {
            EventView::Completed => moved(at_stage(r, after_executable(p))),
            _ => moved(r),
        }
    } else if r.stage == 8 {
        match e {
            EventView::Version(v) => moved(
                RunView { stage: 9, plan: plan_after_detection(p, v), ..r },
            ),
            _ => moved(r),
        }
    } else {
        // stage 10: the icon is optional, so a failure leaves it out
        match e {
            EventView::IconInstalled(b) => moved(
                RunView {
                    stage: 11,
                    icon_paths: if b && icon_move(p).is_some() {
                        seq![icon_move(p).unwrap().1]
                    } else {
                        Seq::empty()
                    },
                    ..r
                },
            ),
            EventView::Failed(_) => moved(RunView { stage: 11, icon_paths: Seq::empty(), ..r }),
            _ => moved(r),
        }
    }
}

fn clone_root(o: &Option<String>) -> (r: Option<String>)
    ensures
        opt_seq(r) == opt_seq(*o),
{
    match o {
        Some(s) => Some(s.clone()),
        None => None,
    }
}

impl InstallRun {
    /// The stage of the run.
    pub fn stage(&self) -> (r: u8)
        ensures
            r == self@.stage,
    {
        self.stage
    }

    /// The plan being carried out.
    pub fn plan(&self) -> (r: &InstallPlan)
        ensures
            r@ == self@.plan,
    {
        &self.plan
    }

    /// The action of the current stage.
    fn action(&self) -> (r: InstallAction)
        ensures
            r@ == action_of(self@),
    {
        let p = &self.plan;
        if self.stage == 0 || self.stage == 3 {
            InstallAction::CheckPath(p.targets.app_dir.clone())
        } else if self.stage == 1 {
            InstallAction::Extract(clone_root(&self.common_root))
        } else if self.stage == 2 {
            let root = match &self.common_root {
                Some(r) => r,
                None => {
                    return InstallAction::Over;
                },
            };
            let c = join_path(&chars_of(self.staging.as_str()), &chars_of(root.as_str()));
            InstallAction::CheckPath(string_of(&c))
        } else if self.stage == 4 {
            InstallAction::RemoveTree(p.targets.app_dir.clone())
        } else if self.stage == 5 {
            InstallAction::CopyTree { from: self.source_root.clone(), to: p.targets.app_dir.clone() }
        } else if self.stage == 6 {
            InstallAction::ReadMode(executable_path(p))
        } else if self.stage == 7 {
            InstallAction::SetMode(executable_path(p), self.mode)
        } else if self.stage == 8 {
            InstallAction::DetectVersion {
                app_dir: p.targets.app_dir.clone(),
                exec_path_inside_app: p.exec_path_inside_app.clone(),
                command_name: p.command_name.clone(),
                app_id: p.app_id.clone(),
                app_name: p.app_name.clone(),
            }
        } else if self.stage == 9 {
            let exec = executable_path(p);
            InstallAction::WriteWrapper {
                path: p.targets.command_path.clone(),
                content: wrapper_script(p.targets.app_dir.as_str(), exec.as_str()),
            }
        } else if self.stage == 10 {
            match &p.icon_path_inside_app {
                Some(icon) => InstallAction::InstallIcon(Some(icon_destination(p, icon.as_str()))),
                None => InstallAction::InstallIcon(None),
            }
        } else if self.stage == 11 {
            let content = desktop_entry_for(p);
            assert(p.categories@.map_values(|s: String| s@) =~= p.categories.deep_view());
            InstallAction::WriteDesktop { path: p.targets.desktop_path.clone(), content }
        } else if self.stage == 12 {
            InstallAction::SaveState(p.targets.state_path.clone())
        } else {
            InstallAction::Over
        }
    }

    /// Starts carrying out `plan`, made for the archive at `archive_path` whose
    /// entries share `common_root`; `force` allows an existing install to be
    /// replaced. Returns the run and its first action: checking the app
    /// directory.
    pub fn start(plan: InstallPlan, common_root: Option<String>, archive_path: &str, force: bool) -> (r: (
        InstallRun,
        InstallAction,
    ))
        ensures
            r.0@ == (RunView {
                stage: 0,
                plan: plan@,
                archive: archive_path@,
                force,
                common_root: opt_seq(common_root),
                staging: Seq::empty(),
                source_root: Seq::empty(),
                mode: 0,
                icon_paths: Seq::empty(),
            }),
            r.1@ == action_of(r.0@),
    {
        let run = InstallRun {
            stage: 0,
            plan,
            archive: String::from_str(archive_path),
            force,
            common_root,
            staging: String::new(),
            source_root: String::new(),
            mode: 0,
            icon_paths: Vec::new(),
        };
        assert(run.icon_paths.deep_view() =~= Seq::<Seq<char>>::empty());
        let a = run.action();
        (run, a)
    }

    /// Takes the answer to the last action and returns the next action.
    pub fn step(&mut self, event: InstallEvent) -> (r: InstallAction)
        ensures
            (final(self)@, r@) == spec_run_step(old(self)@, event@),
    {
        let stage = self.stage;
        if stage >= 12 {
            self.stage = 13;
            return InstallAction::Over;
        }
        if stage != 10 {
            if let InstallEvent::Failed(m) = &event {
                self.stage = 13;
                return InstallAction::Fail(InstallError::Io(m.clone()));
            }
        }
        if stage == 0 {
            if let InstallEvent::Exists(b) = event {
                if b && !self.force {
                    self.stage = 13;
                    return InstallAction::Fail(InstallError::AlreadyExists(self.plan.targets.app_dir.clone()));
                }
                self.stage = 1;
            }
        } else if stage == 1 {
            if let InstallEvent::Extracted(s) = event {
                if self.common_root.is_some() {
                    self.staging = s;
                    self.stage = 2;
                } else {
                    self.source_root = s.clone();
                    self.staging = s;
                    self.stage = 3;
                }
            }
        } else if stage == 2 {
            if let InstallEvent::Exists(b) = event {
                self.source_root = match &self.common_root {
                    Some(root) if b => string_of(
                        &join_path(&chars_of(self.staging.as_str()), &chars_of(root.as_str())),
                    ),
                    _ => self.staging.clone(),
                };
                self.stage = 3;
            }
        } else if stage == 3 {
            if let InstallEvent::Exists(b) = event {
                self.stage = if b {
                    4
                } else {
                    5
                };
            }
        } else if stage == 4 || stage == 5 || stage == 9 || stage == 11 {
            if let InstallEvent::Completed = event {
                self.stage = stage + 1;
            }
        } else if stage == 6 {
            match event {
                InstallEvent::Mode(None) => {
                    self.stage = 13;
                    return InstallAction::Fail(InstallError::MissingExecutable(executable_path(&self.plan)));
                },
                InstallEvent::Mode(Some(m)) => {
                    match executable_mode(m) {
                        Some(nm) => {
                            self.mode = nm;
                            self.stage = 7;
                        },
                        None => {
                            self.stage = if needs_version_probe(&self.plan) {
                                8
                            } else {
                                9
                            };
                        },
                    }
                },
                _ => {},
            }
        } else if stage == 7 {
            if let InstallEvent::Completed = event {
                self.stage = if needs_version_probe(&self.plan) {
                    8
                } else {
                    9
                };
            }
        } else if stage == 8 {
            if let InstallEvent::Version(v) = event {
                let outcome = match v {
                    Ok(Some(found)) => VersionOutcome::Found(found),
                    Ok(None) => VersionOutcome::NotFound,
                    Err(m) => VersionOutcome::Failed(m),
                };
                apply_version_outcome(&mut self.plan, outcome);
                self.stage = 9;
            }
        } else {
            let copied = match event {
                InstallEvent::IconInstalled(b) => Some(b),
                InstallEvent::Failed(_) => Some(false),
                _ => None,
            };
            if let Some(b) = copied {
                let mut icons: Vec<String> = Vec::new();
                if b {
                    if let Some(icon) = &self.plan.icon_path_inside_app {
                        let (_, dest) = icon_destination(&self.plan, icon.as_str());
                        icons.push(dest);
                    }
                }
                self.icon_paths = icons;
                self.stage = 11;
            }
        }
        self.action()
    }

    /// Records the finished install in `db`, with the archive's checksum when
    /// it could be read, and reports it. Only a run waiting for its state to
    /// be recorded (stage 12) records anything; any other run leaves `db` as it
    /// is and gives `None`.
    pub fn record(self, db: &mut StateDb, sha256: Option<String>) -> (r: Option<InstallReport>)
        requires
            old(db).wf(),
        ensures
            final(db).wf(),
            match r {
                Some(rep) => self@.stage == 12 && rep.plan@ == self@.plan && rep.installed@
                    == installed_view(self@.plan, self@.icon_paths, self@.archive, opt_seq(sha256))
                    && final(db)@ == old(db)@.insert(self@.plan.app_id, rep.installed@),
                None => self@.stage != 12 && final(db)@ == old(db)@,
            },
    {
        if self.stage != 12 {
            return None;
        }
        let InstallRun { stage: _, plan, archive, force: _, common_root: _, staging: _, source_root: _, mode: _, icon_paths } = self;
        Some(record_install(db, plan, icon_paths, archive.as_str(), sha256))
    }
}

/// The progress step that a user interface shows for an action, if any.
pub fn progress_step(a: &InstallAction) -> (r: Option<&'static str>)
    ensures
        r matches Some(s) ==> (match a@ {
            StepView::RemoveTree(_) => s@ == "removing previous install"@,
            StepView::DetectVersion(_, _, _, _, _) => s@ == "detecting version"@,
            StepView::WriteWrapper(_, _) => s@ == "writing command wrapper"@,
            StepView::InstallIcon(_) => s@ == "installing icon"@,
            StepView::WriteDesktop(_, _) => s@ == "writing desktop entry"@,
            StepView::SaveState(_) => s@ == "saving state"@,
            _ => false,
        }),
        r is None <==> !(a@ is RemoveTree || a@ is DetectVersion || a@ is WriteWrapper
            || a@ is InstallIcon || a@ is WriteDesktop || a@ is SaveState),
{
    match a {
        InstallAction::RemoveTree(_) => Some("removing previous install"),
        InstallAction::DetectVersion { .. } => Some("detecting version"),
        InstallAction::WriteWrapper { .. } => Some("writing command wrapper"),
        InstallAction::InstallIcon(_) => Some("installing icon"),
        InstallAction::WriteDesktop { .. } => Some("writing desktop entry"),
        InstallAction::SaveState(_) => Some("saving state"),
        _ => None,
    }
}

} // verus!
