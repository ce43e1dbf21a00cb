use mamacine::desktop_entry::entry_for;
use mamacine::paths::{join_path, parent_path, stable_home};

#[test]
fn the_bundled_entry_is_pointed_at_the_appimage() {
    let template = "[Desktop Entry]\nName=Mamá Cine\nExec=mamacine\nIcon=mamacine\nCategories=\nTerminal=false\n";
    let entry = entry_for(
        template,
        "/home/maría/Escritorio/Mamá Cine.AppImage",
        "/home/maría/.local/share/icons/mamacine.png",
    );
    assert_eq!(
        entry,
        "[Desktop Entry]\nName=Mamá Cine\nExec=\"/home/maría/Escritorio/Mamá Cine.AppImage\"\n\
         Icon=/home/maría/.local/share/icons/mamacine.png\nCategories=AudioVideo;Video;\n\
         Terminal=false\n"
    );
}

#[test]
fn a_windows_entry_reads_the_same() {
    let entry = entry_for("Exec=old\r\nIcon=old\r\n", "/a.AppImage", "/i.png");
    assert_eq!(entry, "Exec=\"/a.AppImage\"\nIcon=/i.png\n");
}

#[test]
fn the_adopted_appimage_lives_where_no_cleanup_reaches() {
    let home = stable_home("/home/maría/.local/share");
    assert!(home.starts_with("/home/maría/.local/share"));
    assert!(home.ends_with("Mamá Cine.AppImage"));
    assert!(home.contains("mamacine"));
}

#[test]
fn a_path_joined_and_taken_apart_again() {
    let joined = join_path("/home/maría", "mamacine.log");
    assert_eq!(parent_path(&joined).as_deref(), Some("/home/maría"));
    assert_eq!(parent_path("/").as_deref(), None);
}

#[test]
fn a_join_adds_a_separator_only_where_one_is_missing() {
    assert_eq!(join_path("", "mamacine.log"), "mamacine.log");
    assert_eq!(join_path("/tmp/x/", "mamacine.log"), "/tmp/x/mamacine.log");
    assert_eq!(join_path("/tmp/x", "mamacine.log"), "/tmp/x/mamacine.log");
    assert_eq!(stable_home("/d"), "/d/mamacine/Mamá Cine.AppImage");
}
