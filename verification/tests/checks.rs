use mamacine::checks::{indexers_to_ask, report, Answer, ServerAnswer, SubtitlesAnswer};
use mamacine::settings_file::{StoredIndexer, StoredSettings};
use mamacine::text::Lang;

fn indexer(name: &str, url: &str, enabled: bool) -> StoredIndexer {
    StoredIndexer {
        name: name.into(),
        url: url.into(),
        key: "k".into(),
        enabled,
    }
}

#[test]
fn nothing_configured_says_what_is_missing() {
    let stored = StoredSettings::default();
    assert!(indexers_to_ask(&stored).is_empty());
    let said = report(
        &stored,
        Lang::Es,
        &Vec::new(),
        &None,
        &None,
        &SubtitlesAnswer::Unconfigured,
    );
    assert_eq!(
        said,
        format!(
            "{}\n{}\n{}",
            Lang::Es.check_no_indexer(),
            Lang::Es.check_news_missing_host(),
            Lang::Es.check_subtitles_unconfigured()
        )
    );
}

#[test]
fn each_thing_she_configured_gets_its_own_line() {
    let mut stored = StoredSettings::default();
    stored.indexers = vec![
        indexer("", "https://api.nzbgeek.info", true),
        indexer("Off", "https://off.test", false),
        indexer("Blank", "  ", true),
        indexer("Drunken", "https://drunken.test", true),
    ];
    stored.news_host = "news.eweka.nl".into();
    stored.tmdb_key = "tmdb".into();
    assert_eq!(indexers_to_ask(&stored), vec![0, 3]);
    let said = report(
        &stored,
        Lang::Es,
        &vec![Answer::Works, Answer::Failed("No contesta".into())],
        &Some(ServerAnswer::Refused),
        &Some(Answer::Works),
        &SubtitlesAnswer::Checked(Answer::Failed("Clave rechazada".into())),
    );
    let lines: Vec<&str> = said.lines().collect();
    assert_eq!(lines.len(), 5, "{said}");
    assert_eq!(lines[0], Lang::Es.check_works(Lang::Es.check_indexer_fallback_name()));
    assert_eq!(lines[1], "Drunken: No contesta");
    assert_eq!(lines[2], Lang::Es.check_news_refused());
    assert_eq!(lines[3], Lang::Es.check_metadata_works());
    assert_eq!(lines[4], Lang::Es.check_subtitles_prefix("Clave rechazada"));
}

#[test]
fn a_missing_downloader_is_said_beside_the_news_server() {
    let mut stored = StoredSettings::default();
    stored.news_host = "news.eweka.nl".into();
    let said = report(
        &stored,
        Lang::En,
        &Vec::new(),
        &Some(ServerAnswer::NoDownloader("It did not start".into())),
        &None,
        &SubtitlesAnswer::NoAccount,
    );
    assert!(said.contains(&Lang::En.check_news_prefix("It did not start")), "{said}");
    assert!(said.ends_with(Lang::En.check_subtitles_no_account()), "{said}");
}
