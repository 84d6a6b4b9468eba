use tar_install::version::parse_version_from_text;

#[test]
fn parses_nvim_dev_version() {
    let text = "NVIM v0.13.0-dev-915+g3b8c19ea46\nLuaJIT 2.1.1782726002";
    assert_eq!(
        parse_version_from_text(text, "nvim", "nvim", "Neovim").as_deref(),
        Some("0.13.0-dev-915+g3b8c19ea46")
    );
}

#[test]
fn parses_blender_version() {
    let text = "Blender 5.1.2\n\tbuild date: 2026-05-19";
    assert_eq!(
        parse_version_from_text(text, "blender", "blender", "Blender").as_deref(),
        Some("5.1.2")
    );
}

#[test]
fn parses_java_version() {
    let text = "openjdk version \"21.0.11\" 2026-04-21 LTS";
    assert_eq!(
        parse_version_from_text(text, "java", "java", "Java").as_deref(),
        Some("21.0.11")
    );
}

#[test]
fn parses_jetbrains_style_version() {
    let text = "2026.1.4";
    assert_eq!(
        parse_version_from_text(text, "idea", "idea", "IntelliJ IDEA").as_deref(),
        Some("2026.1.4")
    );
}

