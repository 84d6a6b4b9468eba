use tar_install::archive::{archive_entry, inspect_archive};
use tar_install::install::{copy_destination, make_plan, wrapper_script, InstallPlan};
use tar_install::install_run::{progress_step, InstallAction, InstallEvent, InstallRun};
use tar_install::paths::{parse_scope, InstallScope, PathEnv};
use tar_install::state::StateDb;
use tar_install::version::{combined_output, VersionProbeResult};

const APP_DIR: &str = "/home/u/.local/share/tarapp/apps/myapp";

fn planned(archive: &str, force: bool) -> (InstallPlan, Option<String>) {
    let entries = vec![
        archive_entry("myapp-1.2.0/myapp".to_string(), true, false, false, 0o644, 1),
        archive_entry("myapp-1.2.0/icons/myapp.png".to_string(), true, false, false, 0o644, 1),
    ];
    let insp = inspect_archive(archive, &entries);
    let env = PathEnv { home: Some("/home/u".to_string()), xdg_data_home: None, xdg_state_home: None };
    let input = tar_install::recipe::InstallInput {
        force,
        exec_path: Some("myapp".to_string()),
        ..Default::default()
    };
    let (plan, insp) = make_plan(archive, InstallScope::User, &input, insp, None, "linux", "x86_64", &env)
        .ok()
        .expect("plan");
    (plan, insp.common_root)
}

fn fail_message(a: InstallAction) -> String {
    match a {
        InstallAction::Fail(e) => e.message(),
        other => panic!("expected a failure, got {:?}", other),
    }
}

#[test]
fn a_full_install_runs_every_step_in_order() {
    let archive = "myapp-1.2.0-linux-x64.tar.xz";
    let (plan, root) = planned(archive, false);
    let (mut run, a) = InstallRun::start(plan, root, archive, false);
    assert!(matches!(&a, InstallAction::CheckPath(p) if p == APP_DIR));
    let a = run.step(InstallEvent::Exists(false));
    assert!(matches!(&a, InstallAction::Extract(Some(r)) if r == "myapp-1.2.0"));
    let a = run.step(InstallEvent::Extracted("/tmp/stage".to_string()));
    assert!(matches!(&a, InstallAction::CheckPath(p) if p == "/tmp/stage/myapp-1.2.0"));
    let a = run.step(InstallEvent::Exists(true));
    assert!(matches!(&a, InstallAction::CheckPath(p) if p == APP_DIR));
    let a = run.step(InstallEvent::Exists(false));
    match &a {
        InstallAction::CopyTree { from, to } => {
            assert_eq!(from, "/tmp/stage/myapp-1.2.0");
            assert_eq!(to, APP_DIR);
        }
        other => panic!("unexpected {:?}", other),
    }
    let a = run.step(InstallEvent::Completed);
    assert!(matches!(&a, InstallAction::ReadMode(p) if p == "/home/u/.local/share/tarapp/apps/myapp/myapp"));
    let a = run.step(InstallEvent::Mode(Some(0o644)));
    assert!(matches!(&a, InstallAction::SetMode(p, 0o755) if p.ends_with("/myapp/myapp")));
    let a = run.step(InstallEvent::Completed);
    match &a {
        InstallAction::WriteWrapper { path, content } => {
            assert_eq!(path, "/home/u/.local/bin/myapp");
            assert_eq!(content, &wrapper_script(APP_DIR, "/home/u/.local/share/tarapp/apps/myapp/myapp"));
        }
        other => panic!("unexpected {:?}", other),
    }
    assert_eq!(progress_step(&a), Some("writing command wrapper"));
    let a = run.step(InstallEvent::Completed);
    let icon_dest = "/home/u/.local/share/icons/hicolor/256x256/apps/myapp.png".to_string();
    match &a {
        InstallAction::InstallIcon(Some((from, to))) => {
            assert_eq!(from, "/home/u/.local/share/tarapp/apps/myapp/icons/myapp.png");
            assert_eq!(to, &icon_dest);
        }
        other => panic!("unexpected {:?}", other),
    }
    let a = run.step(InstallEvent::IconInstalled(true));
    match &a {
        InstallAction::WriteDesktop { path, content } => {
            assert_eq!(path, "/home/u/.local/share/applications/myapp.desktop");
            assert!(content.contains("\nExec=/home/u/.local/bin/myapp %U\n"));
        }
        other => panic!("unexpected {:?}", other),
    }
    let a = run.step(InstallEvent::Completed);
    assert!(matches!(&a, InstallAction::SaveState(p) if p == "/home/u/.local/state/tarapp/apps.json"));
    assert_eq!(progress_step(&a), Some("saving state"));
    assert_eq!(run.stage(), 12);
    let mut db = StateDb::new();
    let report = run.record(&mut db, Some("00ff".to_string())).expect("recorded");
    assert_eq!(report.installed.icon_paths, vec![icon_dest]);
    assert_eq!(report.installed.source_archive.as_deref(), Some(archive));
    assert_eq!(report.installed.source_sha256.as_deref(), Some("00ff"));
    assert_eq!(report.plan.app_id, "myapp");
    assert!(db.get("myapp").is_some());
}

#[test]
fn existing_install_is_refused_without_force_and_replaced_with_it() {
    let archive = "myapp-1.2.0-linux-x64.tar.xz";
    let (plan, root) = planned(archive, false);
    let (mut run, _) = InstallRun::start(plan, root, archive, false);
    assert_eq!(
        fail_message(run.step(InstallEvent::Exists(true))),
        "install directory already exists: /home/u/.local/share/tarapp/apps/myapp (use --force to overwrite)"
    );
    assert!(matches!(run.step(InstallEvent::Completed), InstallAction::Over));

    let (plan, root) = planned(archive, true);
    let (mut run, _) = InstallRun::start(plan, root, archive, true);
    assert!(matches!(run.step(InstallEvent::Exists(true)), InstallAction::Extract(_)));
    run.step(InstallEvent::Extracted("/tmp/s".to_string()));
    let a = run.step(InstallEvent::Exists(false));
    assert!(matches!(&a, InstallAction::CheckPath(p) if p == APP_DIR));
    let a = run.step(InstallEvent::Exists(true));
    assert!(matches!(&a, InstallAction::RemoveTree(p) if p == APP_DIR));
    assert_eq!(progress_step(&a), Some("removing previous install"));
    match run.step(InstallEvent::Completed) {
        InstallAction::CopyTree { from, .. } => assert_eq!(from, "/tmp/s"),
        other => panic!("unexpected {:?}", other),
    }
}

#[test]
fn missing_executable_and_file_errors_end_the_run() {
    let archive = "myapp-1.2.0-linux-x64.tar.xz";
    let (plan, root) = planned(archive, false);
    let (mut run, _) = InstallRun::start(plan, root, archive, false);
    run.step(InstallEvent::Exists(false));
    run.step(InstallEvent::Extracted("/tmp/s".to_string()));
    run.step(InstallEvent::Exists(true));
    run.step(InstallEvent::Exists(false));
    run.step(InstallEvent::Completed);
    assert_eq!(
        fail_message(run.step(InstallEvent::Mode(None))),
        "resolved executable does not exist after extraction: /home/u/.local/share/tarapp/apps/myapp/myapp"
    );

    let (plan, root) = planned(archive, false);
    let (mut run, _) = InstallRun::start(plan, root, archive, false);
    run.step(InstallEvent::Exists(false));
    assert_eq!(fail_message(run.step(InstallEvent::Failed("disk full".to_string()))), "disk full");
    let mut db = StateDb::new();
    assert!(run.record(&mut db, None).is_none());
    assert!(db.values().is_empty());
}

#[test]
fn version_is_probed_when_unknown_and_icon_failures_are_tolerated() {
    let archive = "myapp-linux-x64.tar.xz";
    let (plan, root) = planned(archive, false);
    assert_eq!(plan.version, None);
    let (mut run, _) = InstallRun::start(plan, root, archive, false);
    run.step(InstallEvent::Exists(false));
    run.step(InstallEvent::Extracted("/tmp/s".to_string()));
    run.step(InstallEvent::Exists(true));
    run.step(InstallEvent::Exists(false));
    run.step(InstallEvent::Completed);
    let a = run.step(InstallEvent::Mode(Some(0o755)));
    match &a {
        InstallAction::DetectVersion { app_dir, exec_path_inside_app, command_name, app_id, app_name } => {
            assert_eq!(app_dir, APP_DIR);
            assert_eq!(exec_path_inside_app, "myapp");
            assert_eq!(command_name, "myapp");
            assert_eq!(app_id, "myapp");
            assert_eq!(app_name, "Myapp");
        }
        other => panic!("unexpected {:?}", other),
    }
    assert_eq!(progress_step(&a), Some("detecting version"));
    let a = run.step(InstallEvent::Version(Ok(Some(VersionProbeResult {
        version: "1.9.0".to_string(),
        source: "VERSION".to_string(),
    }))));
    assert!(matches!(a, InstallAction::WriteWrapper { .. }));
    assert_eq!(run.plan().version.as_deref(), Some("1.9.0"));
    assert_eq!(run.plan().notes.last().map(|s| s.as_str()), Some("version detected from VERSION"));
    run.step(InstallEvent::Completed);
    let a = run.step(InstallEvent::Failed("no such file".to_string()));
    assert!(matches!(a, InstallAction::WriteDesktop { .. }));
    run.step(InstallEvent::Completed);
    let mut db = StateDb::new();
    let report = run.record(&mut db, None).expect("recorded");
    assert!(report.installed.icon_paths.is_empty());
    assert_eq!(report.installed.version.as_deref(), Some("1.9.0"));
}

#[test]
fn scope_names_are_parsed() {
    assert_eq!(parse_scope(None), Ok(InstallScope::User));
    assert_eq!(parse_scope(Some("user")), Ok(InstallScope::User));
    assert_eq!(parse_scope(Some("system")), Ok(InstallScope::System));
    assert_eq!(parse_scope(Some("admin")), Err("scope must be 'user' or 'system', got \"admin\"".to_string()));
    assert_eq!(parse_scope(Some("a\"b")), Err("scope must be 'user' or 'system', got \"a\\\"b\"".to_string()));
}

#[test]
fn copied_entries_keep_their_relative_paths() {
    assert_eq!(copy_destination("/tmp/s/app", "/opt/app", "/tmp/s/app"), Some(None));
    assert_eq!(
        copy_destination("/tmp/s/app", "/opt/app", "/tmp/s/app/bin/tool"),
        Some(Some(("bin/tool".to_string(), "/opt/app/bin/tool".to_string())))
    );
    assert_eq!(copy_destination("/tmp/s/app", "/opt/app", "/tmp/other/x"), None);
}

#[test]
fn probe_output_joins_stdout_and_stderr() {
    assert_eq!(combined_output(Some("out".to_string()), Some("err".to_string())), "out\nerr");
    assert_eq!(combined_output(Some("out\n".to_string()), Some("err".to_string())), "out\nerr");
    assert_eq!(combined_output(Some(String::new()), Some("err".to_string())), "err");
    assert_eq!(combined_output(None, Some("err".to_string())), "err");
    assert_eq!(combined_output(Some("out".to_string()), None), "out");
}
