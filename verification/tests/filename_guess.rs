use tar_install::filename::guess_from_filename;

#[test]
fn parses_blender_version_without_splitting_dots() {
    let guess = guess_from_filename("blender-5.1.2-linux-x64.tar.xz");
    assert_eq!(guess.app.as_deref(), Some("blender"));
    assert_eq!(guess.version.as_deref(), Some("5.1.2"));
    assert_eq!(guess.os.as_deref(), Some("linux"));
    assert_eq!(guess.architecture.as_deref(), Some("x86_64"));
}

#[test]
fn parses_macos_arch_without_false_version() {
    let guess = guess_from_filename("nvim-macos-x86_64.tar.gz");
    assert_eq!(guess.app.as_deref(), Some("nvim"));
    assert_eq!(guess.version.as_deref(), None);
    assert_eq!(guess.os.as_deref(), Some("macos"));
    assert_eq!(guess.architecture.as_deref(), Some("x86_64"));
}

#[test]
fn parses_dev_version_suffix() {
    let guess = guess_from_filename("nvim-v0.13.0-dev-906+g44baf03f2a-linux-x86_64.tar.gz");
    assert_eq!(guess.app.as_deref(), Some("nvim"));
    assert_eq!(guess.version.as_deref(), Some("0.13.0-dev-906+g44baf03f2a"));
    assert_eq!(guess.os.as_deref(), Some("linux"));
    assert_eq!(guess.architecture.as_deref(), Some("x86_64"));
}

#[test]
fn detects_version_with_uppercase_v_prefix() {
    let guess = guess_from_filename("App-V1.2.3-windows-x64.zip");
    assert_eq!(guess.app.as_deref(), Some("App"));
    assert_eq!(guess.version.as_deref(), Some("1.2.3"));
    assert_eq!(guess.os.as_deref(), Some("windows"));
    assert_eq!(guess.architecture.as_deref(), Some("x86_64"));
}

#[test]
fn parses_dot_separated_filename_with_no_dashes() {
    let guess = guess_from_filename("myapp.2.5.0.windows.x64.zip");
    assert_eq!(guess.app.as_deref(), Some("myapp"));
    assert_eq!(guess.version.as_deref(), Some("2.5.0"));
    assert_eq!(guess.os.as_deref(), Some("windows"));
    assert_eq!(guess.architecture.as_deref(), Some("x86_64"));
}

#[test]
fn does_not_shred_a_plain_dotted_name_without_any_signal() {
    // No version/OS/arch tokens anywhere, so the dots are assumed to be
    // part of the app name rather than field separators.
    let guess = guess_from_filename("my.cool.app.zip");
    assert_eq!(guess.app.as_deref(), Some("my.cool.app"));
    assert_eq!(guess.version, None);
    assert_eq!(guess.os, None);
    assert_eq!(guess.architecture, None);
}

#[test]
fn recognizes_expanded_architecture_tokens() {
    for (filename, expected_arch) in [
        ("myapp-1.0.0-linux-riscv64.tar.gz", "riscv64"),
        ("myapp-1.0.0-linux-ppc64le.tar.gz", "ppc64le"),
        ("myapp-1.0.0-linux-s390x.tar.gz", "s390x"),
        ("myapp-1.4.0-macos-universal2.tar.gz", "universal2"),
        ("myapp-0.9.0-wasm32-unknown-unknown.tar.gz", "wasm32"),
        ("app-1.0-linux-i686.tar.gz", "x86"),
    ] {
        let guess = guess_from_filename(filename);
        assert_eq!(
            guess.architecture.as_deref(),
            Some(expected_arch),
            "arch mismatch for {filename}"
        );
    }
}

#[test]
fn recognizes_expanded_os_tokens() {
    for (filename, expected_os) in [
        ("myapp-2.0-freebsd-amd64.tar.gz", "freebsd"),
        ("myapp-3.2.1-android-arm64.zip", "android"),
        ("myapp-3.2.1-ios-arm64.zip", "ios"),
        (
            "ripgrep-13.0.0-x86_64-unknown-linux-musl.tar.gz",
            "linux",
        ),
    ] {
        let guess = guess_from_filename(filename);
        assert_eq!(
            guess.os.as_deref(),
            Some(expected_os),
            "os mismatch for {filename}"
        );
    }
}

#[test]
fn parses_rust_style_target_triples() {
    let msvc = guess_from_filename(
        "ripgrep-13.0.0-x86_64-pc-windows-msvc.zip",
    );
    assert_eq!(msvc.app.as_deref(), Some("ripgrep"));
    assert_eq!(msvc.version.as_deref(), Some("13.0.0"));
    assert_eq!(msvc.os.as_deref(), Some("windows"));
    assert_eq!(msvc.architecture.as_deref(), Some("x86_64"));

    let darwin = guess_from_filename(
        "ripgrep-13.0.0-aarch64-apple-darwin.tar.gz",
    );
    assert_eq!(darwin.app.as_deref(), Some("ripgrep"));
    assert_eq!(darwin.os.as_deref(), Some("macos"));
    assert_eq!(darwin.architecture.as_deref(), Some("aarch64"));
}

#[test]
fn installer_words_do_not_pollute_the_version() {
    let guess = guess_from_filename("app-1.2.3-setup.exe");
    assert_eq!(guess.version.as_deref(), Some("1.2.3"));
}

#[test]
fn handles_mixed_dot_and_underscore_separators() {
    let guess = guess_from_filename("my_app.1.2.3.linux_x86_64.tar.gz");
    assert_eq!(guess.app.as_deref(), Some("my-app"));
    assert_eq!(guess.version.as_deref(), Some("1.2.3"));
    assert_eq!(guess.os.as_deref(), Some("linux"));
    assert_eq!(guess.architecture.as_deref(), Some("x86_64"));
}

#[test]
fn handles_go_style_underscore_separators() {
    let guess = guess_from_filename("myapp_1.2.3_darwin_amd64.tar.gz");
    assert_eq!(guess.app.as_deref(), Some("myapp"));
    assert_eq!(guess.version.as_deref(), Some("1.2.3"));
    assert_eq!(guess.os.as_deref(), Some("macos"));
    assert_eq!(guess.architecture.as_deref(), Some("x86_64"));
}

#[test]
fn version_only_filename_has_no_app_name() {
    let guess = guess_from_filename("1.29.0-linux-amd64.tar.gz");
    assert_eq!(guess.app, None);
    assert_eq!(guess.version.as_deref(), Some("1.29.0"));
    assert_eq!(guess.os.as_deref(), Some("linux"));
    assert_eq!(guess.architecture.as_deref(), Some("x86_64"));
}

#[test]
fn handles_space_separated_filenames() {
    let guess = guess_from_filename("My App 1.2.3 Linux x64.zip");
    assert_eq!(guess.app.as_deref(), Some("My-App"));
    assert_eq!(guess.version.as_deref(), Some("1.2.3"));
    assert_eq!(guess.os.as_deref(), Some("linux"));
    assert_eq!(guess.architecture.as_deref(), Some("x86_64"));
}

