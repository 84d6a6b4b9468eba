use tar_install::archive::unsafe_path_reason;
use tar_install::filename::{normalize_arch, normalize_os, strip_archive_extensions, tokenize_filename_stem};
use tar_install::install::normalize_relative_path;

#[test]
fn known_extensions_are_stripped_whole() {
    for ext in [".tar.xz", ".tar.gz", ".tar.bz2", ".tar.zst", ".tgz", ".txz", ".tbz2", ".tar"] {
        let name = format!("My.App-2.0{}", ext);
        assert_eq!(strip_archive_extensions(&name), "My.App-2.0", "for {}", ext);
        let upper = format!("tool{}", ext.to_uppercase());
        assert_eq!(strip_archive_extensions(&upper), "tool", "for {}", ext);
    }
    assert_eq!(strip_archive_extensions("x.tar.tar"), "x.tar");
    assert_eq!(strip_archive_extensions("App-1.0.zip"), "App-1.0");
    assert_eq!(strip_archive_extensions("README"), "README");
}

#[test]
fn normalized_platform_names_are_stable() {
    assert_eq!(normalize_os("Darwin").as_deref(), Some("macos"));
    assert_eq!(normalize_os("macos").as_deref(), Some("macos"));
    assert_eq!(normalize_os("UBUNTU").as_deref(), Some("linux"));
    assert_eq!(normalize_os("linux").as_deref(), Some("linux"));
    assert_eq!(normalize_os("iPhoneOS").as_deref(), Some("ios"));
    assert_eq!(normalize_os("plan9"), None);
    assert_eq!(normalize_arch("AMD64"), "x86_64");
    assert_eq!(normalize_arch("x86_64"), "x86_64");
    assert_eq!(normalize_arch("i686"), "x86");
    assert_eq!(normalize_arch("ARM64"), "aarch64");
    assert_eq!(normalize_arch("RISCV64"), "riscv64");
    for v in ["AMD64", "i386", "aarch64", "PPC64LE", "whatever"] {
        let once = normalize_arch(v);
        assert_eq!(normalize_arch(&once), once);
    }
}

#[test]
fn safe_entry_paths_resolve_inside() {
    for p in ["app/bin/tool", "./app/./lib", "a/b/c/", "app..tar"] {
        assert_eq!(unsafe_path_reason(p), None, "for {}", p);
        assert!(normalize_relative_path(p).is_some(), "for {}", p);
    }
    assert_eq!(unsafe_path_reason("app/../../x").as_deref(), Some("path traversal using .."));
}

#[test]
fn file_name_stems_split_into_tokens() {
    assert_eq!(tokenize_filename_stem("myapp_1.2.3_darwin_amd64"), vec!["myapp", "1.2.3", "darwin", "amd64"]);
    assert_eq!(tokenize_filename_stem("My App  1.2.3-linux"), vec!["My", "App", "1.2.3", "linux"]);
    assert_eq!(tokenize_filename_stem("app_x86_64"), vec!["app", "x86_64"]);
    assert_eq!(tokenize_filename_stem("my.app"), vec!["my.app"]);
    assert_eq!(tokenize_filename_stem("app.linux.x64"), vec!["app", "linux", "x64"]);
}

#[test]
fn v_numbers_without_a_dot_are_versions() {
    let g = tar_install::filename::guess_from_filename("myapp-v1-linux-x64.tar.gz");
    assert_eq!(g.app.as_deref(), Some("myapp"));
    assert_eq!(g.version.as_deref(), Some("1"));
    assert_eq!(g.os.as_deref(), Some("linux"));
    assert_eq!(g.architecture.as_deref(), Some("x86_64"));
    let g = tar_install::filename::guess_from_filename("tool-V12-linux-x64.tar.gz");
    assert_eq!(g.app.as_deref(), Some("tool"));
    assert_eq!(g.version.as_deref(), Some("12"));
    let g = tar_install::filename::guess_from_filename("myapp-1.2.0-beta-linux-x64.tar.xz");
    assert_eq!(g.app.as_deref(), Some("myapp"));
    assert_eq!(g.version.as_deref(), Some("1.2.0-beta"));
    // A bare number or a word starting with v is no version.
    let g = tar_install::filename::guess_from_filename("app-64-linux.tar.gz");
    assert_eq!(g.version, None);
    let g = tar_install::filename::guess_from_filename("viewer-linux-x64.tar.gz");
    assert_eq!(g.app.as_deref(), Some("viewer"));
    assert_eq!(g.version, None);
}

#[test]
fn split_pieces_expand_into_tokens() {
    let pieces: Vec<String> = ["", "myapp_x86_64", "", "app.2.0.linux", "my.app", "V1"].iter().map(|s| s.to_string()).collect();
    assert_eq!(
        tar_install::filename::tokens_from_parts(&pieces),
        vec!["myapp", "x86_64", "app", "2.0", "linux", "my.app", "V1"]
    );
    assert!(tar_install::filename::tokens_from_parts(&vec![String::new()]).is_empty());
}
