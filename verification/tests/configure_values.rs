use tar_install::archive::{archive_entry, inspect_archive};
use tar_install::configure::{apply_answers, offered_values, values_from_inspection, values_from_plan, ConfigValues};
use tar_install::install::make_plan;
use tar_install::paths::{InstallScope, PathEnv};
use tar_install::recipe::InstallInput;

fn values(v: &ConfigValues) -> [&str; 6] {
    [&v.id, &v.name, &v.version, &v.exec_path, &v.command, &v.icon]
}

#[test]
fn plan_values_are_offered() {
    let entries = vec![
        archive_entry("app-2.1/app".to_string(), true, false, false, 0o755, 1),
        archive_entry("app-2.1/app.png".to_string(), true, false, false, 0o644, 1),
    ];
    let archive = "app-2.1-linux-x64.tar.gz";
    let insp = inspect_archive(archive, &entries);
    let env = PathEnv { home: Some("/home/u".to_string()), xdg_data_home: None, xdg_state_home: None };
    let (plan, _) = make_plan(archive, InstallScope::User, &InstallInput::default(), insp, None, "linux", "x86_64", &env)
        .ok()
        .expect("plan");
    let v = values_from_plan(&plan);
    assert_eq!(values(&v), ["app", "App", "2.1", "app", "app", ""]);
}

#[test]
fn inspection_values_are_offered_when_no_plan_can_be_made() {
    let entries = vec![
        archive_entry("dist/bin/run".to_string(), true, false, false, 0o755, 1),
        archive_entry("dist/icons/logo.svg".to_string(), true, false, false, 0o644, 1),
    ];
    let insp = inspect_archive("tool-0.3-linux-x64.tar.gz", &entries);
    let v = values_from_inspection(&insp);
    assert_eq!(values(&v), ["tool", "tool", "0.3", "dist/bin/run", "tool", "dist/icons/logo.svg"]);

    let nameless = inspect_archive("1.0-linux-x64.tar.gz", &vec![]);
    let v = values_from_inspection(&nameless);
    assert_eq!(values(&v), ["myapp", "myapp", "1.0", "", "myapp", ""]);
}

#[test]
fn caller_values_are_offered_first_and_blank_answers_unset() {
    let input = InstallInput { id: Some("given".to_string()), icon: Some("i.png".to_string()), force: true, ..InstallInput::default() };
    let defaults = ConfigValues {
        id: "d-id".to_string(),
        name: "D".to_string(),
        version: "1".to_string(),
        exec_path: "bin/d".to_string(),
        command: "d".to_string(),
        icon: String::new(),
    };
    let offered = offered_values(&input, defaults);
    assert_eq!(values(&offered), ["given", "D", "1", "bin/d", "d", "i.png"]);

    let answers = ConfigValues {
        id: "x".to_string(),
        name: "X".to_string(),
        version: "   ".to_string(),
        exec_path: "bin/x".to_string(),
        command: "x".to_string(),
        icon: "x.svg".to_string(),
    };
    let done = apply_answers(input, answers);
    assert_eq!(done.id.as_deref(), Some("x"));
    assert_eq!(done.name.as_deref(), Some("X"));
    assert_eq!(done.version, None);
    assert_eq!(done.exec_path.as_deref(), Some("bin/x"));
    assert_eq!(done.command.as_deref(), Some("x"));
    assert_eq!(done.icon.as_deref(), Some("x.svg"));
    assert!(done.force);
}
