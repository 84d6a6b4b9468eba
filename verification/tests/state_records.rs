use tar_install::archive::{archive_entry, inspect_archive};
use tar_install::install::{
    doctor_app, find_installed, list_apps, make_plan, record_install, remove_app, removal_paths, InstallPlan,
};
use tar_install::paths::{targets, InstallScope, PathEnv};
use tar_install::recipe::InstallInput;
use tar_install::state::{InstalledApp, StateDb};

fn env() -> PathEnv {
    PathEnv { home: Some("/home/u".to_string()), xdg_data_home: None, xdg_state_home: None }
}

fn plan_for(archive: &str, id: Option<&str>) -> InstallPlan {
    let entries = vec![
        archive_entry("pkg/app".to_string(), true, false, false, 0o755, 1),
        archive_entry("pkg/share/icons/app.png".to_string(), true, false, false, 0o644, 1),
    ];
    let insp = inspect_archive(archive, &entries);
    let input = InstallInput {
        id: id.map(|s| s.to_string()),
        exec_path: Some("app".to_string()),
        ..InstallInput::default()
    };
    make_plan(archive, InstallScope::User, &input, insp, None, "linux", "x86_64", &env())
        .ok()
        .expect("plan")
        .0
}

fn record(db: &mut StateDb, plan: InstallPlan) -> InstalledApp {
    let icon = format!("{}/myapp.png", plan.targets.icon_dir);
    let report = record_install(db, plan, vec![icon], "/downloads/myapp.tar.xz", Some("abc123".to_string()));
    report.installed
}

#[test]
fn recorded_install_can_be_found_checked_and_removed() {
    let mut db = StateDb::new();
    let plan = plan_for("myapp-1.0-linux-x64.tar.gz", None);
    let installed = record(&mut db, plan);
    assert_eq!(installed.id, "myapp");
    assert_eq!(installed.name, "Myapp");
    assert_eq!(installed.version.as_deref(), Some("1.0"));
    assert_eq!(installed.scope, InstallScope::User);
    assert_eq!(installed.install_dir, "/home/u/.local/share/tarapp/apps/myapp");
    assert_eq!(installed.command_name, "myapp");
    assert_eq!(installed.command_path, "/home/u/.local/bin/myapp");
    assert_eq!(installed.desktop_path, "/home/u/.local/share/applications/myapp.desktop");
    assert_eq!(installed.source_archive.as_deref(), Some("/downloads/myapp.tar.xz"));
    assert_eq!(installed.source_sha256.as_deref(), Some("abc123"));

    let found = find_installed(&db, InstallScope::User, "MyApp").ok().expect("found");
    assert_eq!(found.id, "myapp");

    let lines = doctor_app(&db, InstallScope::User, "myapp", &vec![true, false, true, true]).ok().expect("lines");
    assert_eq!(
        lines,
        vec![
            "id: myapp".to_string(),
            "name: Myapp".to_string(),
            "install dir: /home/u/.local/share/tarapp/apps/myapp [ok]".to_string(),
            "command: /home/u/.local/bin/myapp [missing]".to_string(),
            "desktop: /home/u/.local/share/applications/myapp.desktop [ok]".to_string(),
            "icon: /home/u/.local/share/icons/hicolor/256x256/apps/myapp.png [ok]".to_string(),
        ]
    );

    let (id, app) = remove_app(&mut db, InstallScope::User, " MyApp ").ok().expect("removed");
    assert_eq!(id, "myapp");
    assert_eq!(
        removal_paths(&app),
        vec![
            "/home/u/.local/share/tarapp/apps/myapp".to_string(),
            "/home/u/.local/bin/myapp".to_string(),
            "/home/u/.local/share/applications/myapp.desktop".to_string(),
            "/home/u/.local/share/icons/hicolor/256x256/apps/myapp.png".to_string(),
        ]
    );
    assert!(db.get("myapp").is_none());
    assert!(list_apps(&db).is_empty());
}

#[test]
fn unknown_app_is_not_installed() {
    let mut db = StateDb::new();
    match remove_app(&mut db, InstallScope::User, "Ghost App") {
        Ok(_) => panic!("nothing to remove"),
        Err(e) => assert_eq!(e.message(), "app is not installed in User scope: ghost-app"),
    }
    match doctor_app(&db, InstallScope::System, "ghost", &vec![]) {
        Ok(_) => panic!("nothing to check"),
        Err(e) => assert_eq!(e.message(), "app is not installed in System scope: ghost"),
    }
    assert!(find_installed(&db, InstallScope::User, "ghost").is_err());
}

#[test]
fn doctor_counts_paths_not_given_as_missing() {
    let mut db = StateDb::new();
    record(&mut db, plan_for("myapp-1.0-linux-x64.tar.gz", None));
    let lines = doctor_app(&db, InstallScope::User, "myapp", &vec![true]).ok().expect("lines");
    assert_eq!(lines[2], "install dir: /home/u/.local/share/tarapp/apps/myapp [ok]");
    assert_eq!(lines[3], "command: /home/u/.local/bin/myapp [missing]");
    assert_eq!(lines[5], "icon: /home/u/.local/share/icons/hicolor/256x256/apps/myapp.png [missing]");
}

#[test]
fn list_is_ordered_by_id_and_reinstall_replaces_the_record() {
    let mut db = StateDb::new();
    record(&mut db, plan_for("zeta-1.0-linux-x64.tar.gz", None));
    record(&mut db, plan_for("alpha-1.0-linux-x64.tar.gz", None));
    record(&mut db, plan_for("mid-1.0-linux-x64.tar.gz", None));
    record(&mut db, plan_for("alpha-2.0-linux-x64.tar.gz", None));
    let apps = list_apps(&db);
    let ids: Vec<&str> = apps.iter().map(|a| a.id.as_str()).collect();
    assert_eq!(ids, vec!["alpha", "mid", "zeta"]);
    assert_eq!(apps[0].version.as_deref(), Some("2.0"));
    let entries = db.entries();
    assert_eq!(entries.len(), 3);
    assert_eq!(entries[1].0, "mid");
}

#[test]
fn state_db_insert_get_remove() {
    let mut db = StateDb::new();
    let plan = plan_for("myapp-1.0-linux-x64.tar.gz", None);
    let app = record(&mut StateDb::new(), plan);
    assert!(db.insert("myapp".to_string(), app).is_none());
    assert_eq!(db.get("myapp").map(|a| a.id.clone()).as_deref(), Some("myapp"));
    assert!(db.get("other").is_none());
    let again = record(&mut StateDb::new(), plan_for("myapp-3.0-linux-x64.tar.gz", None));
    let replaced = db.insert("myapp".to_string(), again).expect("replaced");
    assert_eq!(replaced.version.as_deref(), Some("1.0"));
    assert_eq!(db.values().len(), 1);
    assert_eq!(db.values()[0].version.as_deref(), Some("3.0"));
    assert!(db.remove("other").is_none());
    assert!(db.remove("myapp").is_some());
    assert!(db.values().is_empty());
}

#[test]
fn every_app_of_a_scope_shares_the_state_file() {
    let a = targets(InstallScope::User, "first", "first", &env()).ok().expect("a");
    let b = targets(InstallScope::User, "Second App", "second", &env()).ok().expect("b");
    assert_eq!(a.state_path, b.state_path);
    assert_eq!(a.state_path, "/home/u/.local/state/tarapp/apps.json");
    let s1 = targets(InstallScope::System, "first", "first", &env()).ok().expect("s1");
    let s2 = targets(InstallScope::System, "dummy", "dummy", &env()).ok().expect("s2");
    assert_eq!(s1.state_path, s2.state_path);
}

#[test]
fn targets_sanitize_and_follow_xdg_directories() {
    let xdg = PathEnv {
        home: Some("/home/u".to_string()),
        xdg_data_home: Some("/data".to_string()),
        xdg_state_home: Some("/state/".to_string()),
    };
    let t = targets(InstallScope::User, "My App", "My App", &xdg).ok().expect("t");
    assert_eq!(t.app_id, "my-app");
    assert_eq!(t.command_name, "my-app");
    assert_eq!(t.app_dir, "/data/tarapp/apps/my-app");
    assert_eq!(t.command_path, "/home/u/.local/bin/my-app");
    assert_eq!(t.desktop_path, "/data/applications/my-app.desktop");
    assert_eq!(t.icon_dir, "/data/icons/hicolor/256x256/apps");
    assert_eq!(t.state_path, "/state/tarapp/apps.json");

    let sys = targets(InstallScope::System, "com.example.App", "App_Cmd", &xdg).ok().expect("sys");
    assert_eq!(sys.app_dir, "/opt/com.example.app");
    assert_eq!(sys.command_path, "/usr/local/bin/app_cmd");
    assert_eq!(sys.desktop_path, "/usr/share/applications/com.example.app.desktop");
    assert_eq!(sys.icon_dir, "/usr/share/icons/hicolor/256x256/apps");
    assert_eq!(sys.state_path, "/var/lib/tarapp/apps.json");

    let no_home = PathEnv { home: None, xdg_data_home: None, xdg_state_home: None };
    match targets(InstallScope::User, "a", "a", &no_home) {
        Ok(_) => panic!("HOME is required"),
        Err(e) => assert_eq!(e.message(), "HOME is not set; cannot resolve user install directories"),
    }
}

#[test]
fn targets_need_an_own_directory_and_a_command() {
    for id in ["..", ".", "", "  . "] {
        match targets(InstallScope::System, id, "cmd", &env()) {
            Ok(t) => panic!("{:?} gave {}", id, t.app_dir),
            Err(e) => assert_eq!(e.message(), "app id does not name a directory of its own"),
        }
    }
    match targets(InstallScope::User, "app", "...", &env()) {
        Ok(t) => panic!("gave {}", t.command_path),
        Err(e) => assert_eq!(e.message(), "command name is empty"),
    }
    let no_home = PathEnv { home: None, xdg_data_home: None, xdg_state_home: None };
    match targets(InstallScope::User, "..", "app", &no_home) {
        Ok(_) => panic!("refused"),
        Err(e) => assert_eq!(e.message(), "app id does not name a directory of its own"),
    }
}
