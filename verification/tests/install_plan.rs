use tar_install::archive::{archive_entry, inspect_archive, ArchiveEntry, ArchiveInspection};
use tar_install::install::{embedded_manifest_to_read, incompatible_platform_reason, make_plan, InstallError};
use tar_install::paths::{InstallScope, PathEnv};
use tar_install::recipe::{AppRecipe, InstallInput, RecipeDesktop};

fn file(path: &str, mode: u32) -> ArchiveEntry {
    archive_entry(path.to_string(), true, false, false, mode, 10)
}

fn dir(path: &str) -> ArchiveEntry {
    archive_entry(path.to_string(), false, true, false, 0o755, 0)
}

fn home_env() -> PathEnv {
    PathEnv { home: Some("/home/u".to_string()), xdg_data_home: None, xdg_state_home: None }
}

const ARCHIVE: &str = "myapp-1.2.0-linux-x64.tar.xz";

fn sample_entries() -> Vec<ArchiveEntry> {
    vec![
        dir("myapp-1.2.0/"),
        file("myapp-1.2.0/myapp", 0o755),
        file("myapp-1.2.0/lib/libfoo.so", 0o755),
        file("myapp-1.2.0/icons/myapp.png", 0o644),
        file("myapp-1.2.0/tarapp.yml", 0o644),
    ]
}

fn sample_inspection() -> ArchiveInspection {
    inspect_archive(ARCHIVE, &sample_entries())
}

fn plan_error(r: Result<(tar_install::install::InstallPlan, ArchiveInspection), InstallError>) -> String {
    match r {
        Ok(_) => panic!("expected the plan to be refused"),
        Err(e) => e.message(),
    }
}

#[test]
fn inspection_finds_root_executable_icon_and_manifest() {
    let insp = sample_inspection();
    assert!(insp.safe);
    assert_eq!(insp.entries_count, 5);
    assert_eq!(insp.common_root.as_deref(), Some("myapp-1.2.0"));
    assert_eq!(insp.executable_candidates.len(), 1);
    assert_eq!(insp.executable_candidates[0].path, "myapp-1.2.0/myapp");
    assert_eq!(insp.executable_candidates[0].score, 146);
    assert_eq!(insp.executable_candidates[0].reason, "exact filename matches guessed app name");
    assert_eq!(insp.icon_candidates, vec!["myapp-1.2.0/icons/myapp.png".to_string()]);
    assert_eq!(insp.manifest_candidates, vec!["myapp-1.2.0/tarapp.yml".to_string()]);
    assert!(insp.desktop_candidates.is_empty());
    assert!(insp.unsafe_entries.is_empty());
    assert!(insp.notes.is_empty());
    assert_eq!(insp.filename_guess.confidence_percent, 95);
}

#[test]
fn executable_candidates_are_ranked_by_score_then_path() {
    let entries = vec![
        file("tools/helper.sh", 0o755),
        file("myapp", 0o755),
        file("bin/myapp-x86_64", 0o755),
        file("myapp.so", 0o755),
        file("chrome-sandbox", 0o755),
        file("README", 0o644),
    ];
    let insp = inspect_archive("myapp-2.0-linux-amd64.tar.gz", &entries);
    let got: Vec<(String, i32, String)> = insp
        .executable_candidates
        .iter()
        .map(|c| (c.path.clone(), c.score, c.reason.clone()))
        .collect();
    assert_eq!(
        got,
        vec![
            (
                "bin/myapp-x86_64".to_string(),
                146,
                "filename contains guessed app and architecture pattern".to_string()
            ),
            ("myapp".to_string(), 146, "exact filename matches guessed app name".to_string()),
            ("tools/helper.sh".to_string(), 6, "executable file".to_string()),
        ]
    );
    assert_eq!(insp.common_root, None);
}

#[test]
fn unsafe_entries_are_reported_and_noted() {
    let entries = vec![file("app/run", 0o755), file("../evil", 0o644), file("/etc/passwd", 0o644)];
    let insp = inspect_archive("app.tar", &entries);
    assert!(!insp.safe);
    assert_eq!(insp.unsafe_entries.len(), 2);
    assert_eq!(insp.unsafe_entries[0].unsafe_reason.as_deref(), Some("path traversal using .."));
    assert_eq!(insp.unsafe_entries[1].unsafe_reason.as_deref(), Some("absolute path"));
    assert!(insp
        .notes
        .contains(&"archive contains unsafe paths and must not be extracted directly".to_string()));
}

#[test]
fn plan_from_detection_uses_user_locations() {
    let (plan, insp) =
        make_plan(ARCHIVE, InstallScope::User, &InstallInput::default(), sample_inspection(), None, "linux", "x86_64", &home_env())
            .ok()
            .expect("plan");
    assert_eq!(insp.entries_count, 5);
    assert_eq!(plan.archive, ARCHIVE);
    assert_eq!(plan.app_id, "myapp");
    assert_eq!(plan.app_name, "Myapp");
    assert_eq!(plan.version.as_deref(), Some("1.2.0"));
    assert!(plan.probe_version);
    assert_eq!(plan.exec_path_inside_app, "myapp");
    assert_eq!(plan.command_name, "myapp");
    assert_eq!(plan.icon_path_inside_app.as_deref(), Some("icons/myapp.png"));
    assert_eq!(plan.targets.app_dir, "/home/u/.local/share/tarapp/apps/myapp");
    assert_eq!(plan.targets.command_path, "/home/u/.local/bin/myapp");
    assert_eq!(plan.targets.desktop_path, "/home/u/.local/share/applications/myapp.desktop");
    assert_eq!(plan.targets.icon_dir, "/home/u/.local/share/icons/hicolor/256x256/apps");
    assert_eq!(plan.targets.state_path, "/home/u/.local/state/tarapp/apps.json");
    assert_eq!(plan.categories, vec!["Utility".to_string()]);
    assert!(!plan.terminal);
    assert!(plan.notes.is_empty());
}

#[test]
fn plan_for_system_scope_needs_no_home() {
    let env = PathEnv { home: None, xdg_data_home: None, xdg_state_home: None };
    let (plan, _) =
        make_plan(ARCHIVE, InstallScope::System, &InstallInput::default(), sample_inspection(), None, "linux", "x86_64", &env)
            .ok()
            .expect("plan");
    assert_eq!(plan.targets.app_dir, "/opt/myapp");
    assert_eq!(plan.targets.command_path, "/usr/local/bin/myapp");
    assert_eq!(plan.targets.desktop_path, "/usr/share/applications/myapp.desktop");
    assert_eq!(plan.targets.state_path, "/var/lib/tarapp/apps.json");
}

#[test]
fn caller_values_win_over_detection() {
    let input = InstallInput {
        id: Some("Com.Example/My App".to_string()),
        name: Some("My App".to_string()),
        version: Some("9.9".to_string()),
        probe_version: Some(false),
        exec_path: Some("bin/run".to_string()),
        command: Some("my-app".to_string()),
        icon: Some("share/logo.svg".to_string()),
        ..InstallInput::default()
    };
    let (plan, _) = make_plan(ARCHIVE, InstallScope::User, &input, sample_inspection(), None, "linux", "x86_64", &home_env())
        .ok()
        .expect("plan");
    assert_eq!(plan.app_id, "com.example-my-app");
    assert_eq!(plan.app_name, "My App");
    assert_eq!(plan.version.as_deref(), Some("9.9"));
    assert!(!plan.probe_version);
    assert_eq!(plan.exec_path_inside_app, "bin/run");
    assert_eq!(plan.command_name, "my-app");
    assert_eq!(plan.icon_path_inside_app.as_deref(), Some("share/logo.svg"));
    assert_eq!(plan.targets.app_dir, "/home/u/.local/share/tarapp/apps/com.example-my-app");
}

fn recipe(id: &str, categories: Vec<&str>, terminal: bool) -> AppRecipe {
    AppRecipe {
        id: Some(id.to_string()),
        name: Some("Recipe App".to_string()),
        exec_path: Some("bin/RecipeApp".to_string()),
        command: Some("recipeapp".to_string()),
        desktop: Some(RecipeDesktop {
            categories: Some(categories.into_iter().map(|c| c.to_string()).collect()),
            terminal: Some(terminal),
            ..RecipeDesktop::default()
        }),
        ..AppRecipe::default()
    }
}

#[test]
fn embedded_recipe_is_used_when_the_caller_gives_none() {
    let insp = sample_inspection();
    assert_eq!(
        embedded_manifest_to_read(&InstallInput::default(), &insp).as_deref(),
        Some("myapp-1.2.0/tarapp.yml")
    );
    let (plan, _) = make_plan(
        ARCHIVE,
        InstallScope::User,
        &InstallInput::default(),
        insp,
        Some(recipe("com.example.embedded", vec!["Development"], true)),
        "linux",
        "x86_64",
        &home_env(),
    )
    .ok()
    .expect("plan");
    assert_eq!(plan.app_id, "com.example.embedded");
    assert_eq!(plan.app_name, "Recipe App");
    assert_eq!(plan.exec_path_inside_app, "bin/RecipeApp");
    assert_eq!(plan.command_name, "recipeapp");
    assert_eq!(plan.categories, vec!["Development".to_string()]);
    assert!(plan.terminal);
    assert_eq!(plan.version.as_deref(), Some("1.2.0"));
}

#[test]
fn caller_recipe_hides_the_embedded_one() {
    let input = InstallInput {
        recipe: Some(recipe("com.example.given", vec!["Game"], false)),
        ..InstallInput::default()
    };
    let insp = sample_inspection();
    assert_eq!(embedded_manifest_to_read(&input, &insp), None);
    let (plan, _) = make_plan(
        ARCHIVE,
        InstallScope::User,
        &input,
        insp,
        Some(recipe("com.example.embedded", vec!["Development"], true)),
        "linux",
        "x86_64",
        &home_env(),
    )
    .ok()
    .expect("plan");
    assert_eq!(plan.app_id, "com.example.given");
    assert_eq!(plan.categories, vec!["Game".to_string()]);
    assert!(!plan.terminal);
}

#[test]
fn foreign_os_is_refused_unless_forced() {
    let msg = plan_error(make_plan(
        ARCHIVE,
        InstallScope::User,
        &InstallInput::default(),
        sample_inspection(),
        None,
        "macos",
        "x86_64",
        &home_env(),
    ));
    assert_eq!(msg, "archive appears to be for linux, but this system is macos (use --force to override)");

    let forced = InstallInput { force: true, ..InstallInput::default() };
    let r = make_plan(ARCHIVE, InstallScope::User, &forced, sample_inspection(), None, "macos", "aarch64", &home_env());
    assert!(r.is_ok());
}

#[test]
fn foreign_architecture_is_refused() {
    let msg = plan_error(make_plan(
        ARCHIVE,
        InstallScope::User,
        &InstallInput::default(),
        sample_inspection(),
        None,
        "linux",
        "aarch64",
        &home_env(),
    ));
    assert_eq!(
        msg,
        "archive appears to be for x86_64 architecture, but this system is aarch64 (use --force to override)"
    );
}

#[test]
fn platform_reason_normalizes_the_running_system() {
    let guess = tar_install::filename::guess_from_filename("tool-1.0-darwin-arm64.tar.gz");
    assert_eq!(incompatible_platform_reason(&guess, "macos", "aarch64"), None);
    assert_eq!(incompatible_platform_reason(&guess, "Darwin", "ARM64"), None);
    assert_eq!(
        incompatible_platform_reason(&guess, "plan9", "aarch64").as_deref(),
        Some("archive appears to be for macos, but this system is plan9")
    );
}

#[test]
fn unsafe_archive_is_refused_even_when_forced() {
    let entries = vec![file("myapp/myapp", 0o755), file("../evil", 0o644)];
    let insp = inspect_archive(ARCHIVE, &entries);
    let forced = InstallInput { force: true, ..InstallInput::default() };
    let msg = plan_error(make_plan(ARCHIVE, InstallScope::User, &forced, insp, None, "linux", "x86_64", &home_env()));
    assert_eq!(msg, "archive contains unsafe paths; run `tarminal inspect` for details");
}

#[test]
fn missing_app_id_is_an_error() {
    let entries = vec![file("bin/tool", 0o755)];
    let insp = inspect_archive("1.29.0-linux-amd64.tar.gz", &entries);
    let msg = plan_error(make_plan(
        "1.29.0-linux-amd64.tar.gz",
        InstallScope::User,
        &InstallInput::default(),
        insp,
        None,
        "linux",
        "x86_64",
        &home_env(),
    ));
    assert_eq!(msg, "cannot determine app id; use --id or --config");

    let blank = InstallInput { id: Some("!!!".to_string()), ..InstallInput::default() };
    let msg = plan_error(make_plan(ARCHIVE, InstallScope::User, &blank, sample_inspection(), None, "linux", "x86_64", &home_env()));
    assert_eq!(msg, "cannot determine app id; use --id or --config");
}

#[test]
fn missing_executable_is_an_error() {
    let entries = vec![file("myapp/README", 0o644)];
    let insp = inspect_archive(ARCHIVE, &entries);
    assert!(insp.notes.contains(&"no executable candidate was confidently detected".to_string()));
    let msg = plan_error(make_plan(ARCHIVE, InstallScope::User, &InstallInput::default(), insp, None, "linux", "x86_64", &home_env()));
    assert_eq!(msg, "cannot determine executable; use --exec or --config");
}

#[test]
fn user_scope_without_home_is_an_error() {
    let env = PathEnv { home: None, xdg_data_home: Some("/data".to_string()), xdg_state_home: None };
    let msg = plan_error(make_plan(ARCHIVE, InstallScope::User, &InstallInput::default(), sample_inspection(), None, "linux", "x86_64", &env));
    assert_eq!(msg, "HOME is not set; cannot resolve user install directories");
}

#[test]
fn embedded_recipe_names_are_recognized_in_any_case() {
    for name in ["tarapp.yml", "tarapp.yaml", ".tarapp.yml", ".tarapp.yaml", "manifest.yml", "Manifest.YAML"] {
        let entries = vec![file("app/run", 0o755), file(&format!("app/{}", name), 0o644)];
        let insp = inspect_archive("app.tar", &entries);
        assert_eq!(insp.manifest_candidates, vec![format!("app/{}", name)], "for {}", name);
    }
    let entries = vec![file("app/recipe.yml", 0o644), dir("app/tarapp.yml")];
    assert!(inspect_archive("app.tar", &entries).manifest_candidates.is_empty());
}

#[test]
fn icons_and_desktop_files_are_collected() {
    let entries = vec![
        file("app/share/icons/hicolor/app.png", 0o644),
        file("app/Logo.SVG", 0o644),
        file("app/icon.xpm", 0o644),
        file("app/photo.png", 0o644),
        file("app/icon.jpg", 0o644),
        file("app/share/applications/app.desktop", 0o644),
    ];
    let insp = inspect_archive("app.tar", &entries);
    assert_eq!(
        insp.icon_candidates,
        vec![
            "app/share/icons/hicolor/app.png".to_string(),
            "app/Logo.SVG".to_string(),
            "app/icon.xpm".to_string()
        ]
    );
    assert_eq!(insp.desktop_candidates, vec!["app/share/applications/app.desktop".to_string()]);
}

#[test]
fn appimage_bundles_rank_after_the_exact_name() {
    let entries = vec![
        file("tool", 0o755),
        file("foo-cli", 0o755),
        file("foo-x86_64", 0o755),
        file("Foo.AppImage", 0o755),
        file("foo", 0o755),
        file("bin/tool", 0o755),
    ];
    let insp = inspect_archive("foo-1.0-linux-x86_64.tar.gz", &entries);
    let got: Vec<(String, i32, String)> = insp
        .executable_candidates
        .iter()
        .map(|c| (c.path.clone(), c.score, c.reason.clone()))
        .collect();
    assert_eq!(
        got,
        vec![
            ("foo".to_string(), 146, "exact filename matches guessed app name".to_string()),
            ("Foo.AppImage".to_string(), 136, "AppImage bundle".to_string()),
            ("foo-x86_64".to_string(), 131, "filename contains guessed app and architecture pattern".to_string()),
            ("foo-cli".to_string(), 46, "filename starts with guessed app name".to_string()),
            ("bin/tool".to_string(), 16, "executable file".to_string()),
            ("tool".to_string(), 1, "executable file".to_string()),
        ]
    );
}

#[test]
fn entry_reasons_are_taken_from_the_paths() {
    let mut lying = file("../evil", 0o644);
    lying.unsafe_reason = None;
    let mut wrong = file("app/run", 0o755);
    wrong.unsafe_reason = Some("made up".to_string());
    let insp = inspect_archive("app.tar", &vec![wrong, lying]);
    assert!(!insp.safe);
    assert_eq!(insp.unsafe_entries.len(), 1);
    assert_eq!(insp.unsafe_entries[0].path, "../evil");
    assert_eq!(insp.unsafe_entries[0].unsafe_reason.as_deref(), Some("path traversal using .."));
    assert_eq!(insp.executable_candidates.len(), 1);
}

#[test]
fn ids_that_name_no_directory_and_empty_commands_are_refused() {
    for id in ["..", ".", " .. "] {
        let input = InstallInput { id: Some(id.to_string()), ..InstallInput::default() };
        let msg = plan_error(make_plan(ARCHIVE, InstallScope::System, &input, sample_inspection(), None, "linux", "x86_64", &home_env()));
        assert_eq!(msg, "cannot determine app id; use --id or --config", "for {:?}", id);
    }
    let input = InstallInput { command: Some("!!!".to_string()), ..InstallInput::default() };
    let msg = plan_error(make_plan(ARCHIVE, InstallScope::User, &input, sample_inspection(), None, "linux", "x86_64", &home_env()));
    assert_eq!(msg, "cannot determine command name; use --command or --config");
    let input = InstallInput { id: Some("...".to_string()), ..InstallInput::default() };
    let msg = plan_error(make_plan(ARCHIVE, InstallScope::System, &input, sample_inspection(), None, "linux", "x86_64", &home_env()));
    assert_eq!(msg, "cannot determine command name; use --command or --config");
    let input = InstallInput { id: Some("...".to_string()), command: Some("dots".to_string()), ..InstallInput::default() };
    let (plan, _) = make_plan(ARCHIVE, InstallScope::System, &input, sample_inspection(), None, "linux", "x86_64", &home_env())
        .ok()
        .expect("plan");
    assert_eq!(plan.targets.app_dir, "/opt/...");
}
