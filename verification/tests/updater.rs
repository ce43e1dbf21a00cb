use mamacine::updater::{newer_than, plan, same_digest, sha256_hex, Plan, Release};

fn release() -> Release {
    Release {
        version: "0.2.0".into(),
        page_url: "https://github.com/fnune/mamacine/releases/tag/v0.2.0".into(),
        appimage_url: Some("https://example.test/MamaCine-x86_64.AppImage".into()),
        installer_url: Some("https://example.test/MamaCine-x64-setup.exe".into()),
        checksums_url: Some("https://example.test/checksums.txt".into()),
    }
}

#[test]
fn each_platform_gets_the_update_the_way_it_can_take_it() {
    let appimage = "/opt/MamaCine.AppImage";
    assert!(matches!(
        plan(&release(), "0.1.0", Some(appimage), false),
        Some(Plan::Replace { version, .. }) if version == "0.2.0"
    ));
    assert!(matches!(
        plan(&release(), "0.1.0", None, true),
        Some(Plan::RunInstaller { .. })
    ));
    assert!(
        matches!(
            plan(&release(), "0.1.0", None, false),
            Some(Plan::Open { .. })
        ),
        "neither an AppImage nor Windows: the release page"
    );
    assert!(plan(&release(), "0.2.0", Some(appimage), false).is_none());
    assert!(
        plan(&release(), "0.3.0", None, true).is_none(),
        "never downgrade"
    );
}

#[test]
fn the_plan_carries_what_the_release_page_said() {
    match plan(&release(), "0.1.9", Some("/opt/MamaCine.AppImage"), true) {
        Some(Plan::Replace {
            appimage_url,
            checksums_url,
            destination,
            ..
        }) => {
            assert_eq!(appimage_url, "https://example.test/MamaCine-x86_64.AppImage");
            assert_eq!(checksums_url.as_deref(), Some("https://example.test/checksums.txt"));
            assert_eq!(destination, "/opt/MamaCine.AppImage");
        }
        _ => panic!("an AppImage replaces itself"),
    }
    let bare = Release {
        appimage_url: None,
        installer_url: None,
        ..release()
    };
    match plan(&bare, "0.1.0", Some("/opt/MamaCine.AppImage"), true) {
        Some(Plan::Open { url, version }) => {
            assert_eq!(url, "https://github.com/fnune/mamacine/releases/tag/v0.2.0");
            assert_eq!(version, "0.2.0");
        }
        _ => panic!("nothing to install: the page"),
    }
}

#[test]
fn versions_are_compared_number_by_number() {
    assert!(newer_than("0.10.0", "0.9.3"));
    assert!(newer_than("1.0", "0.99.99"));
    assert!(!newer_than("0.2", "0.2.0"));
    assert!(newer_than("0.2.1", "0.2"));
    assert!(!newer_than("0.2.0", "0.2.0"));
    assert!(!newer_than("0.2.0-beta", "0.1.0"), "what is not a version is not newer");
    assert!(!newer_than("0.2.0", "garbage"));
}

#[test]
fn a_digest_is_written_as_checksum_files_write_it() {
    assert_eq!(
        sha256_hex(b"abc"),
        "ba7816bf8f01cfea414140de5dae2223b00361a396177a9cb410ff61f20015ad"
    );
    assert_eq!(
        sha256_hex(b""),
        "e3b0c44298fc1c149afbf4c8996fb92427ae41e4649b934ca495991b7852b855"
    );
}

#[test]
fn the_same_bytes_have_the_same_digest() {
    assert!(same_digest(b"version one", b"version one"));
    assert!(!same_digest(b"version one", b"version two"));
}
