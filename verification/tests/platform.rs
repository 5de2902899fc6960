use tldrx::platform::Platform;

#[test]
fn parse_known_names() {
    assert_eq!(Platform::parse("linux", Platform::Common), Platform::Linux);
    assert_eq!(Platform::parse("osx", Platform::Common), Platform::Osx);
    assert_eq!(Platform::parse("macos", Platform::Common), Platform::Osx);
    assert_eq!(Platform::parse("windows", Platform::Common), Platform::Windows);
    assert_eq!(Platform::parse("android", Platform::Common), Platform::Android);
    assert_eq!(Platform::parse("sunos", Platform::Common), Platform::Sunos);
}

#[test]
fn parse_trims_whitespace() {
    assert_eq!(Platform::parse("  linux  ", Platform::Common), Platform::Linux);
    // Unicode whitespace is trimmed too.
    assert_eq!(Platform::parse("\u{a0}linux\u{3000}", Platform::Common), Platform::Linux);
}

#[test]
fn parse_empty_takes_host_default() {
    assert_eq!(Platform::parse("", Platform::Linux), Platform::Linux);
    assert_eq!(Platform::parse("   ", Platform::Windows), Platform::Windows);
}

#[test]
fn parse_unknown_kept_verbatim() {
    assert_eq!(
        Platform::parse("freebsd", Platform::Common),
        Platform::Other("freebsd".to_string())
    );
}

#[test]
fn platform_names() {
    assert_eq!(Platform::Common.name(), "common");
    assert_eq!(Platform::Linux.name(), "linux");
    assert_eq!(Platform::Other("beos".to_string()).name(), "beos");
}

#[test]
fn host_default_mapping() {
    assert_eq!(Platform::host_default("linux"), Platform::Linux);
    assert_eq!(Platform::host_default("macos"), Platform::Osx);
    assert_eq!(Platform::host_default("ios"), Platform::Osx);
    assert_eq!(Platform::host_default("windows"), Platform::Windows);
    assert_eq!(Platform::host_default("android"), Platform::Android);
    // An unrecognized host falls back to the open variant holding the text
    // `common`, not to the Common variant itself.
    assert_eq!(Platform::host_default("freebsd"), Platform::Other("common".to_string()));
}
