use tar_install::archive::{archive_entry, inspect_archive};
use tar_install::checksum::sha256_hex;
use tar_install::desktop::{desktop_entry_text, escape_value, quote_exec, DesktopEntryInput};
use tar_install::install::{
    apply_version_outcome, check_install_dir, desktop_entry_for, executable_path, icon_destination, make_plan,
    needs_version_probe, shell_quote, wrapper_script, InstallError, InstallPlan, VersionOutcome,
};
use tar_install::paths::{InstallScope, PathEnv};
use tar_install::recipe::{display_name_from_id, sanitize_command, sanitize_id, InstallInput};
use tar_install::version::VersionProbeResult;

fn text(v: Vec<char>) -> String {
    v.into_iter().collect()
}

fn plan() -> InstallPlan {
    let entries = vec![
        archive_entry("tool/tool".to_string(), true, false, false, 0o755, 1),
        archive_entry("tool/icon.svg".to_string(), true, false, false, 0o644, 1),
    ];
    let archive = "tool-linux-x64.tar.gz";
    let insp = inspect_archive(archive, &entries);
    let env = PathEnv { home: Some("/home/u".to_string()), xdg_data_home: None, xdg_state_home: None };
    make_plan(archive, InstallScope::User, &InstallInput::default(), insp, None, "linux", "x86_64", &env)
        .ok()
        .expect("plan")
        .0
}

#[test]
fn desktop_entry_has_every_line() {
    let cats = vec!["Development".to_string(), "IDE".to_string()];
    let input = DesktopEntryInput {
        name: "My\nApp",
        generic_name: Some("Editor"),
        comment: Some("C:\\tools"),
        exec_path: "/home/u/my bin/app",
        icon_name: "my-app",
        categories: &cats,
        terminal: true,
    };
    assert_eq!(
        desktop_entry_text(&input),
        "[Desktop Entry]\nType=Application\nName=My\\nApp\nGenericName=Editor\nComment=C:\\\\tools\n\
         Exec=\"/home/u/my bin/app\" %U\nIcon=my-app\nTerminal=true\nCategories=Development;IDE;\n\
         StartupNotify=true\n"
    );
}

#[test]
fn desktop_entry_defaults_to_utility() {
    let none: Vec<String> = Vec::new();
    let input = DesktopEntryInput {
        name: "App",
        generic_name: None,
        comment: None,
        exec_path: "/usr/local/bin/app",
        icon_name: "app",
        categories: &none,
        terminal: false,
    };
    assert_eq!(
        desktop_entry_text(&input),
        "[Desktop Entry]\nType=Application\nName=App\nExec=/usr/local/bin/app %U\nIcon=app\n\
         Terminal=false\nCategories=Utility;\nStartupNotify=true\n"
    );
    let with_separator = vec!["Game;".to_string()];
    let input = DesktopEntryInput { categories: &with_separator, ..input };
    assert!(desktop_entry_text(&input).contains("\nCategories=Game;\n"));
}

#[test]
fn escaped_values_stay_on_one_line() {
    assert_eq!(text(escape_value("a\nb\\c")), "a\\nb\\\\c");
    assert!(!text(escape_value("line one\nline two\n")).contains('\n'));
    assert_eq!(text(quote_exec("/opt/app/run")), "/opt/app/run");
    assert_eq!(text(quote_exec("/opt/my \"app\"/run")), "\"/opt/my \\\"app\\\"/run\"");
}

#[test]
fn wrapper_script_enters_the_app_dir_and_runs_the_executable() {
    assert_eq!(shell_quote("it's"), "'it'\"'\"'s'");
    assert_eq!(
        wrapper_script("/opt/my app", "/opt/my app/bin/it's"),
        "#!/usr/bin/env bash\nset -e\nAPPDIR='/opt/my app'\ncd \"$APPDIR\"\nexec '/opt/my app/bin/it'\"'\"'s' \"$@\"\n"
    );
}

#[test]
fn plan_paths_for_executable_icon_and_desktop_entry() {
    let p = plan();
    assert_eq!(p.app_name, "Tool");
    assert_eq!(executable_path(&p), "/home/u/.local/share/tarapp/apps/tool/tool");
    let (src, dest) = icon_destination(&p, "icon.svg");
    assert_eq!(src, "/home/u/.local/share/tarapp/apps/tool/icon.svg");
    assert_eq!(dest, "/home/u/.local/share/icons/hicolor/256x256/apps/tool.svg");
    let (_, dest) = icon_destination(&p, "share/icon");
    assert_eq!(dest, "/home/u/.local/share/icons/hicolor/256x256/apps/tool.png");
    assert_eq!(
        desktop_entry_for(&p),
        "[Desktop Entry]\nType=Application\nName=Tool\nComment=Installed from a Linux tarball by Tarminal\n\
         Exec=/home/u/.local/bin/tool %U\nIcon=tool\nTerminal=false\nCategories=Utility;\nStartupNotify=true\n"
    );
}

#[test]
fn existing_install_dir_needs_force() {
    let p = plan();
    assert!(check_install_dir(&p, false, false).is_ok());
    assert!(check_install_dir(&p, true, true).is_ok());
    match check_install_dir(&p, true, false) {
        Ok(()) => panic!("existing directory must be refused"),
        Err(e) => assert_eq!(
            e.message(),
            "install directory already exists: /home/u/.local/share/tarapp/apps/tool (use --force to overwrite)"
        ),
    }
}

#[test]
fn version_outcomes_update_the_plan() {
    let mut p = plan();
    assert_eq!(p.version, None);
    assert!(needs_version_probe(&p));
    apply_version_outcome(&mut p, VersionOutcome::NotFound);
    assert_eq!(p.version, None);
    apply_version_outcome(&mut p, VersionOutcome::Failed("permission denied".to_string()));
    apply_version_outcome(
        &mut p,
        VersionOutcome::Found(VersionProbeResult { version: "4.2.0".to_string(), source: "VERSION".to_string() }),
    );
    assert_eq!(p.version.as_deref(), Some("4.2.0"));
    assert!(!needs_version_probe(&p));
    let tail: Vec<&str> = p.notes.iter().rev().take(3).rev().map(|s| s.as_str()).collect();
    assert_eq!(
        tail,
        vec![
            "version could not be detected from metadata or command probes",
            "version probe failed: permission denied",
            "version detected from VERSION",
        ]
    );
}

#[test]
fn ids_and_command_names_are_sanitized() {
    assert_eq!(sanitize_id("  Com.Example/My App!! "), "com.example-my-app");
    assert_eq!(sanitize_id("My_App--Beta"), "my_app-beta");
    assert_eq!(sanitize_command("My_App--Beta"), "my_app--beta");
    assert_eq!(sanitize_command("Org.Tool"), "org-tool");
    assert_eq!(sanitize_id("---"), "");
    let once = sanitize_id("  Weird///Name__ ");
    assert_eq!(sanitize_id(&once), once);
    let once = sanitize_command("-A b-");
    assert_eq!(once, "a-b");
    assert_eq!(sanitize_command(&once), once);
}

#[test]
fn display_names_capitalize_each_word() {
    assert_eq!(display_name_from_id("com.example.my-app"), "Com Example My App");
    assert_eq!(display_name_from_id("__tool__"), "Tool");
    assert_eq!(display_name_from_id("ñandú_app"), "Ñandú App");
    assert_eq!(display_name_from_id("ß-x"), "SS X");
    assert_eq!(display_name_from_id(""), "");
}

#[test]
fn checksum_is_lowercase_hex_sha256() {
    assert_eq!(sha256_hex(b"abc"), "ba7816bf8f01cfea414140de5dae2223b00361a396177a9cb410ff61f20015ad");
    assert_eq!(sha256_hex(b""), "e3b0c44298fc1c149afbf4c8996fb92427ae41e4649b934ca495991b7852b855");
    assert_eq!(sha256_hex(&[0u8; 1000]).len(), 64);
}

#[test]
fn error_messages_name_the_problem() {
    assert_eq!(
        InstallError::MissingExecutable("/opt/app/run".to_string()).message(),
        "resolved executable does not exist after extraction: /opt/app/run"
    );
    assert_eq!(
        InstallError::IncompatiblePlatform("archive appears to be for macos, but this system is linux".to_string())
            .message(),
        "archive appears to be for macos, but this system is linux (use --force to override)"
    );
    assert_eq!(
        InstallError::NotInstalled(InstallScope::System, "app".to_string()).message(),
        "app is not installed in System scope: app"
    );
}
