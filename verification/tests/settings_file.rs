use mamacine::json::Json;
use mamacine::settings_file::{
    apply, as_windows_writes_it, assemble, language_from_locale, migrate, name_from, news_of,
    newer_than_app, resolve_ui_language, tmdb_language_of, view_of, StoredIndexer,
    StoredSettings,
};
use mamacine::settings_file::{film_database_key, system_language, ui_language_of};
use mamacine::text::Lang;

fn sent(fields: Vec<(&str, Json)>) -> Json {
    Json::Record(
        fields
            .into_iter()
            .map(|(key, value)| (key.to_string(), value))
            .collect(),
    )
}

fn text(value: &str) -> Json {
    Json::Text(value.to_string())
}

#[test]
fn a_drive_letter_is_written_the_way_the_rest_of_windows_writes_it() {
    assert_eq!(
        as_windows_writes_it(r"\\?\C:\Users\María Esther\unrar.exe"),
        r"C:\Users\María Esther\unrar.exe"
    );
    assert_eq!(
        as_windows_writes_it(r"C:\Users\María Esther\unrar.exe"),
        r"C:\Users\María Esther\unrar.exe"
    );
    assert_eq!(
        as_windows_writes_it(r"\\?\UNC\casa\peliculas\unrar.exe"),
        r"\\?\UNC\casa\peliculas\unrar.exe",
        "a share named this way is left alone: the prefix is the only thing holding it up"
    );
    assert_eq!(as_windows_writes_it("/usr/bin/unrar"), "/usr/bin/unrar");
}

#[test]
fn a_port_typed_into_a_text_field_still_counts() {
    let mut stored = StoredSettings::default();
    apply(&mut stored, &sent(vec![("news_port", text("119"))]));
    assert_eq!(stored.news_port, 119);
    apply(&mut stored, &sent(vec![("news_port", Json::Whole(563))]));
    assert_eq!(stored.news_port, 563);
}

#[test]
fn the_connections_field_is_saved_rather_than_dropped() {
    let mut stored = StoredSettings::default();
    apply(&mut stored, &sent(vec![("news_connections", text("12"))]));
    assert_eq!(stored.news_connections, 12);
}

#[test]
fn a_blank_password_field_means_leave_it_alone() {
    let mut stored = StoredSettings {
        news_password: "kept".into(),
        ..StoredSettings::default()
    };
    apply(&mut stored, &sent(vec![("news_password", text(""))]));
    assert_eq!(stored.news_password, "kept");
    apply(&mut stored, &sent(vec![("news_password", text("nueva"))]));
    assert_eq!(stored.news_password, "nueva");
}

#[test]
fn what_the_window_did_not_mention_is_not_touched() {
    let mut stored = StoredSettings {
        news_host: "news.eweka.nl".into(),
        news_encrypted: false,
        ..StoredSettings::default()
    };
    apply(&mut stored, &sent(vec![("news_user", text("reader"))]));
    assert_eq!(stored.news_host, "news.eweka.nl");
    assert!(!stored.news_encrypted, "absent fields must not reset");
}

#[test]
fn the_fetched_languages_follow_the_computer_until_somebody_chooses() {
    let stored = StoredSettings::default();
    let settings = assemble(&stored, ".".to_string(), ".".to_string(), "de");
    assert_eq!(settings.subtitles.language, "de");
    assert_eq!(tmdb_language_of(&stored, "de-DE"), "de-DE");

    let mut stored = StoredSettings::default();
    apply(
        &mut stored,
        &sent(vec![
            ("subtitles_language", text("fr")),
            ("tmdb_language", text("fr-FR")),
        ]),
    );
    let settings = assemble(&stored, ".".to_string(), ".".to_string(), "de");
    assert_eq!(settings.subtitles.language, "fr");
    assert_eq!(tmdb_language_of(&stored, "de-DE"), "fr-FR");
}

#[test]
fn the_interface_language_follows_the_setting_then_the_computer_then_english() {
    assert_eq!(resolve_ui_language("", "es"), Lang::Es);
    assert_eq!(resolve_ui_language("", "en"), Lang::En);
    assert_eq!(
        resolve_ui_language("", "fr"),
        Lang::En,
        "unsupported computers read English"
    );
    assert_eq!(
        resolve_ui_language("es", "fr"),
        Lang::Es,
        "the setting wins"
    );
    assert_eq!(resolve_ui_language("en", "es"), Lang::En);
}

#[test]
fn a_locale_is_read_in_the_spellings_computers_actually_use() {
    assert_eq!(
        language_from_locale("es_ES.UTF-8"),
        Some(("es".into(), "es-ES".into()))
    );
    assert_eq!(
        language_from_locale("fr-FR"),
        Some(("fr".into(), "fr-FR".into()))
    );
    assert_eq!(language_from_locale("de"), Some(("de".into(), "de".into())));
    assert_eq!(language_from_locale("C"), None, "no language named");
    assert_eq!(language_from_locale("POSIX"), None);
    assert_eq!(language_from_locale(""), None);
}

#[test]
fn encryption_is_on_unless_somebody_turns_it_off() {
    let stored = StoredSettings::default();
    assert!(news_of(&stored).encrypted);
    let mut stored = StoredSettings::default();
    apply(&mut stored, &sent(vec![("news_encrypted", Json::Flag(false))]));
    assert!(!news_of(&stored).encrypted);
}

#[test]
fn the_tray_and_autostart_switches_are_stored_and_default_sensibly() {
    let stored = StoredSettings::default();
    assert!(
        stored.keep_running,
        "closing the window keeps downloads going"
    );
    assert!(
        !stored.autostart,
        "starting with the computer is opted into"
    );

    let mut stored = StoredSettings::default();
    apply(
        &mut stored,
        &sent(vec![
            ("autostart", Json::Flag(true)),
            ("keep_running", Json::Flag(false)),
        ]),
    );
    assert!(stored.autostart);
    assert!(!stored.keep_running);
}

#[test]
fn sensible_defaults_stand_in_for_what_nobody_typed() {
    let news = news_of(&StoredSettings::default());
    assert_eq!(news.port, 563);
    assert_eq!(news.connections, 8);
}

#[test]
fn a_newer_file_is_recognised_by_its_version() {
    let stating = |version: Json| Json::Record(vec![("version".to_string(), version)]);
    assert!(newer_than_app(&stating(Json::Whole(3))));
    assert!(!newer_than_app(&stating(Json::Whole(2))));
    assert!(!newer_than_app(&stating(Json::OtherNumber)));
    assert!(!newer_than_app(&stating(Json::Text("3".to_string()))));
    assert!(!newer_than_app(&Json::Record(vec![(
        "news_host".to_string(),
        Json::Text("old file without a version".to_string())
    )])));
    assert!(!newer_than_app(&Json::List(vec![stating(Json::Whole(3))])));
}

#[test]
fn sending_the_same_thing_twice_is_sending_it_once() {
    let incoming = sent(vec![
        ("news_host", text("news.eweka.nl")),
        ("news_port", text("119")),
        ("autostart", Json::Flag(true)),
    ]);
    let mut once = StoredSettings::default();
    apply(&mut once, &incoming);
    let mut twice = StoredSettings::default();
    apply(&mut twice, &incoming);
    apply(&mut twice, &incoming);
    assert_eq!(once.news_host, twice.news_host);
    assert_eq!(once.news_port, twice.news_port);
    assert_eq!(once.autostart, twice.autostart);
    assert_eq!(twice.news_host, "news.eweka.nl");
}

#[test]
fn an_indexer_without_a_name_is_named_after_its_host() {
    assert_eq!(name_from("https://api.nzbgeek.info/api"), "nzbgeek.info");
    assert_eq!(name_from("not an address"), "Buscador");
}

#[test]
fn an_old_single_indexer_becomes_the_first_of_the_list() {
    let mut stored = StoredSettings {
        indexer_key: "la-clave".into(),
        ..StoredSettings::default()
    };
    migrate(&mut stored);
    assert_eq!(stored.indexers.len(), 1);
    assert_eq!(stored.indexers[0].key, "la-clave");
    assert_eq!(stored.indexers[0].url, "https://api.nzbgeek.info");
    assert!(stored.indexers[0].enabled);
}

#[test]
fn the_settings_screen_is_ready_only_with_an_indexer_and_a_server() {
    let mut stored = StoredSettings::default();
    let view = view_of(&stored, "s".into(), "l".into(), Lang::Es);
    assert!(!view.ready);
    assert_eq!(view.app_language, "es");
    stored.indexers.push(StoredIndexer {
        name: String::new(),
        url: "https://api.nzbgeek.info".into(),
        key: "k".into(),
        enabled: true,
    });
    stored.news_host = "news.eweka.nl".into();
    stored.news_password = "secreto".into();
    let view = view_of(&stored, "s".into(), "l".into(), Lang::En);
    assert!(view.ready);
    assert!(view.news_password_set);
    assert_eq!(view.news_port, 563);
    assert_eq!(view.app_language, "en");
}

#[test]
fn what_is_written_is_stamped_with_this_version() {
    let mut stored = StoredSettings::default();
    mamacine::settings_file::stamp(&mut stored);
    assert_eq!(stored.version, mamacine::settings_file::SETTINGS_VERSION);
    assert_eq!(stored.version, 2);
}

#[test]
fn the_computer_language_is_the_first_locale_setting_that_says_anything() {
    assert_eq!(
        system_language(&["", "fr_FR.UTF-8", "de_DE.UTF-8"]),
        ("fr".to_string(), "fr-FR".to_string())
    );
    assert_eq!(
        system_language(&["C", "fr_FR.UTF-8"]),
        ("es".to_string(), "es-ES".to_string()),
        "a setting that names no language is still the one that is read"
    );
    assert_eq!(system_language(&[]), ("es".to_string(), "es-ES".to_string()));
    let mut stored = StoredSettings::default();
    assert_eq!(ui_language_of(&stored, "en"), Lang::En);
    stored.ui_language = "es".into();
    assert_eq!(ui_language_of(&stored, "en"), Lang::Es);
}

#[test]
fn without_a_film_database_key_titles_are_looked_up_without_one() {
    let mut stored = StoredSettings::default();
    assert_eq!(film_database_key(&stored), None);
    stored.tmdb_key = "   ".into();
    assert_eq!(film_database_key(&stored), None);
    stored.tmdb_key = "  abc123 ".into();
    assert_eq!(film_database_key(&stored), Some("abc123".to_string()));
}
