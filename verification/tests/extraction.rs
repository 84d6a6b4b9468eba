use tar_install::archive::{compression_for, unsafe_path_reason, Compression};
use tar_install::install::{
    executable_mode, extract_action, normalize_relative_path, validate_safe_symlink, EntryKind, ExtractAction,
    InstallError,
};

fn refusal(r: Result<ExtractAction, InstallError>) -> String {
    match r {
        Ok(a) => panic!("expected a refusal, got {:?}", a),
        Err(e) => e.message(),
    }
}

#[test]
fn directories_and_files_land_under_the_destination() {
    match extract_action("/tmp/stage", "app/share/", EntryKind::Directory, 0o755, None, None) {
        Ok(ExtractAction::CreateDir(p)) => assert_eq!(p, "/tmp/stage/app/share/"),
        other => panic!("unexpected {:?}", other),
    }
    match extract_action("/tmp/stage/", "app/bin/tool", EntryKind::File, 0o100755, None, None) {
        Ok(ExtractAction::WriteFile(p, mode)) => {
            assert_eq!(p, "/tmp/stage/app/bin/tool");
            assert_eq!(mode, 0o755);
        }
        other => panic!("unexpected {:?}", other),
    }
    match extract_action("/tmp/stage", "app/fifo", EntryKind::Other, 0, None, None) {
        Ok(ExtractAction::Skip) => {}
        other => panic!("unexpected {:?}", other),
    }
}

#[test]
fn relative_symlink_inside_the_tree_is_kept() {
    match extract_action("/tmp/stage", "app/lib/link", EntryKind::Symlink, 0o777, Some("../bin/tool"), None) {
        Ok(ExtractAction::CreateSymlink(p, t)) => {
            assert_eq!(p, "/tmp/stage/app/lib/link");
            assert_eq!(t, "../bin/tool");
        }
        other => panic!("unexpected {:?}", other),
    }
}

#[test]
fn unsafe_paths_are_refused() {
    assert_eq!(
        refusal(extract_action("/tmp/stage", "../escape", EntryKind::File, 0o644, None, None)),
        "unsafe path in archive: ../escape (path traversal using ..)"
    );
    assert_eq!(
        refusal(extract_action("/tmp/stage", "/etc/passwd", EntryKind::File, 0o644, None, None)),
        "unsafe path in archive: /etc/passwd (absolute path)"
    );
    assert_eq!(
        refusal(extract_action("/tmp/stage", "a/../../b", EntryKind::Directory, 0o755, None, None)),
        "unsafe path in archive: a/../../b (path traversal using ..)"
    );
    assert_eq!(unsafe_path_reason("app/./bin/tool"), None);
}

#[test]
fn escaping_absolute_and_empty_symlinks_are_refused() {
    assert_eq!(
        refusal(extract_action("/tmp/stage", "link", EntryKind::Symlink, 0o777, Some("../outside"), None)),
        "unsafe symlink target in archive: link -> ../outside (escapes archive root)"
    );
    assert_eq!(
        refusal(extract_action("/tmp/stage", "app/link", EntryKind::Symlink, 0o777, Some("/etc/passwd"), None)),
        "unsafe symlink target in archive: app/link -> /etc/passwd (absolute target)"
    );
    assert_eq!(
        refusal(extract_action("/tmp/stage", "app/link", EntryKind::Symlink, 0o777, Some(".."), None)),
        "unsafe symlink target in archive: app/link -> .. (empty target)"
    );
    assert_eq!(
        refusal(extract_action("/tmp/stage", "app/link", EntryKind::Symlink, 0o777, None, None)),
        "symlink entry has no target: app/link"
    );
    assert!(validate_safe_symlink("a/b/c", "../d", None).is_ok());
    assert!(validate_safe_symlink("a/b/c", "../d", Some("a")).is_ok());
}

#[test]
fn hard_links_are_refused() {
    assert_eq!(
        refusal(extract_action("/tmp/stage", "app/hard", EntryKind::HardLink, 0o644, None, None)),
        "hard link entries are not supported yet: app/hard"
    );
}

#[test]
fn relative_paths_normalize_without_climbing_out() {
    assert_eq!(normalize_relative_path("a/./b/../c").as_deref(), Some("a/c"));
    assert_eq!(normalize_relative_path("app/./bin/tool").as_deref(), Some("app/bin/tool"));
    assert_eq!(normalize_relative_path("a/..").as_deref(), Some(""));
    assert_eq!(normalize_relative_path("../a"), None);
    assert_eq!(normalize_relative_path("a/../../b"), None);
    assert_eq!(normalize_relative_path("/a"), None);
}

#[test]
fn files_without_execute_bits_are_made_executable() {
    assert_eq!(executable_mode(0o644), Some(0o755));
    assert_eq!(executable_mode(0o600), Some(0o755));
    assert_eq!(executable_mode(0o664), Some(0o775));
    assert_eq!(executable_mode(0o700), None);
    assert_eq!(executable_mode(0o645), None);
}

#[test]
fn decoder_follows_the_file_name() {
    assert_eq!(compression_for("/dl/App-1.0.TAR.XZ").ok(), Some(Compression::Xz));
    assert_eq!(compression_for("app.txz").ok(), Some(Compression::Xz));
    assert_eq!(compression_for("app.tar.gz").ok(), Some(Compression::Gzip));
    assert_eq!(compression_for("app.tgz").ok(), Some(Compression::Gzip));
    assert_eq!(compression_for("app.tar.bz2").ok(), Some(Compression::Bzip2));
    assert_eq!(compression_for("app.tbz2").ok(), Some(Compression::Bzip2));
    assert_eq!(compression_for("app.tar").ok(), Some(Compression::Plain));
    assert_eq!(
        compression_for("app.zip").err().as_deref(),
        Some("unsupported archive extension; supported: .tar.xz, .txz, .tar.gz, .tgz, .tar.bz2, .tbz2, .tar")
    );
}

#[test]
fn symlinks_must_stay_inside_the_app_directory() {
    assert_eq!(
        refusal(extract_action("/tmp/stage", "app/link", EntryKind::Symlink, 0o777, Some("../x"), Some("app"))),
        "unsafe symlink target in archive: app/link -> ../x (escapes app directory)"
    );
    assert_eq!(
        refusal(extract_action("/tmp/stage", "app/lib/link", EntryKind::Symlink, 0o777, Some(".."), Some("app"))),
        "unsafe symlink target in archive: app/lib/link -> .. (empty target)"
    );
    assert_eq!(
        refusal(extract_action("/tmp/stage", "app/lib/link", EntryKind::Symlink, 0o777, Some("../../apple/x"), Some("app"))),
        "unsafe symlink target in archive: app/lib/link -> ../../apple/x (escapes app directory)"
    );
    match extract_action("/tmp/stage", "app/lib/link", EntryKind::Symlink, 0o777, Some("../bin/tool"), Some("app")) {
        Ok(ExtractAction::CreateSymlink(p, t)) => {
            assert_eq!(p, "/tmp/stage/app/lib/link");
            assert_eq!(t, "../bin/tool");
        }
        other => panic!("unexpected {:?}", other),
    }
    // Without a shared top-level directory the archive root is the app directory.
    assert!(extract_action("/tmp/stage", "app/link", EntryKind::Symlink, 0o777, Some("../x"), None).is_ok());
}
