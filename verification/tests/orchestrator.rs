use mamacine::orchestrator::{
    abandoned_deliberately, candidates_from, definition_of, host_of, language_of, shortened,
    tray_report_of, tray_tooltip, voice_of, Tag, TRAY_TITLE_LIMIT, TRAY_TOOLTIP_LIMIT,
};

#[test]
fn a_tooltip_windows_would_cut_off_lists_fewer_films_and_counts_the_rest() {
    let items: Vec<String> = (1..=6)
        .map(|number| format!("Una película con un título larguísimo {number} · 50 %"))
        .collect();
    let tooltip = tray_tooltip("Mamá Cine · 5 MB/s", &items);
    assert!(tooltip.chars().count() <= TRAY_TOOLTIP_LIMIT, "{tooltip}");
    assert!(tooltip.contains("Una película"), "{tooltip}");
    assert!(tooltip.contains("más"), "{tooltip}");
}

#[test]
fn a_title_too_long_for_the_tray_is_cut_rather_than_pushing_the_rest_out() {
    assert_eq!(shortened("Das Boot", 34), "Das Boot");
    let cut = shortened("El discreto encanto de la burguesía y algo más", 20);
    assert_eq!(cut.chars().count(), 20);
    assert!(cut.ends_with('…'), "{cut}");
}

#[test]
fn a_tooltip_that_fits_lists_every_film() {
    let items = vec!["Das Boot · 40 %".to_string(), "El Sur · 10 %".to_string()];
    assert_eq!(
        tray_tooltip("Mamá Cine", &items),
        "Mamá Cine\nDas Boot · 40 %\nEl Sur · 10 %"
    );
    assert_eq!(tray_tooltip("Mamá Cine", &[].to_vec()), "Mamá Cine");
}

#[test]
fn the_tooltip_counts_exactly_the_films_it_left_out() {
    let items: Vec<String> = (1..=6)
        .map(|number| format!("Una película con un título larguísimo {number} · 50 %"))
        .collect();
    let tooltip = tray_tooltip("Mamá Cine · 5 MB/s", &items);
    let listed = tooltip.lines().filter(|line| line.starts_with("Una película")).count();
    assert!(tooltip.ends_with(&format!("y {} más", 6 - listed)), "{tooltip}");
}

#[test]
fn a_cut_title_loses_the_spaces_before_the_ellipsis() {
    assert_eq!(shortened("Lo que el viento se llevó", 8), "Lo que…");
    assert_eq!(shortened("Das Boot", 0), "…");
    assert_eq!(TRAY_TITLE_LIMIT, 34);
}

#[test]
fn the_tray_says_nothing_is_coming_down_or_that_it_cannot_tell() {
    let unknown = tray_report_of(None, "");
    assert_eq!(unknown.tooltip, "Mamá Cine");
    assert_eq!(unknown.summary, "Mamá Cine");
    let idle = tray_report_of(Some(Vec::new()), "");
    assert_eq!(idle.tooltip, "Mamá Cine · No se está descargando nada");
    assert_eq!(idle.summary, "No se está descargando nada");
}

#[test]
fn the_tray_summary_counts_downloads_and_says_the_speed() {
    let one = tray_report_of(Some(vec!["Das Boot · 40 %".to_string()]), "5 MB/s");
    assert_eq!(one.summary, "Das Boot · 40 %");
    assert_eq!(one.tooltip, "Mamá Cine · 5 MB/s\nDas Boot · 40 %");
    let two = vec!["Das Boot · 40 %".to_string(), "El Sur · Casi lista".to_string()];
    let quiet = tray_report_of(Some(two.clone()), "");
    assert_eq!(quiet.summary, "2 descargas en marcha");
    assert_eq!(quiet.tooltip, "Mamá Cine\nDas Boot · 40 %\nEl Sur · Casi lista");
    let busy = tray_report_of(Some(two), "5 MB/s");
    assert_eq!(busy.summary, "2 descargas · 5 MB/s");
}

#[test]
fn the_fall_through_keeps_her_language_before_it_keeps_the_ranking() {
    // the original, Spanish, another original and another Spanish copy, the Spanish one picked
    let ranked = ["original", "es", "original", "es"];
    assert_eq!(candidates_from(&ranked, Some(1)), vec![1, 3, 0, 2]);
    let voices = ["es", "original", "latino", "es", "original", "es"];
    assert_eq!(candidates_from(&voices, Some(3)), vec![3, 0, 5, 1, 2, 4]);
    assert_eq!(candidates_from(&voices, None), vec![0, 3, 5, 1, 2, 4]);
    assert_eq!(
        candidates_from(&voices, Some(9)),
        vec![0, 1, 2, 3, 4, 5],
        "a choice that is gone leaves the ranking alone"
    );
    assert!(candidates_from(&[], None).is_empty());
}

#[test]
fn a_copy_is_described_by_what_its_name_says() {
    assert_eq!(definition_of("Das.Boot.1981.2160p.UHD"), "4K");
    assert_eq!(definition_of("Das Boot 4K HDR"), "4K");
    assert_eq!(definition_of("Das.Boot.1981.1080p.BluRay"), "Alta definición (1080p)");
    assert_eq!(definition_of("Das.Boot.1981.720P.WEB"), "Buena calidad (720p)");
    assert_eq!(definition_of("Das.Boot.1981.DVDRip"), "Calidad normal");
}

#[test]
fn dual_counts_as_spanish_unless_it_says_otherwise() {
    assert_eq!(voice_of(&[Tag::Spanish]), "es");
    assert_eq!(voice_of(&[Tag::Dual]), "es");
    assert_eq!(voice_of(&[Tag::Dual, Tag::Latino]), "latino");
    assert_eq!(voice_of(&[Tag::Dual, Tag::OtherLanguage]), "original");
    assert_eq!(voice_of(&[Tag::Subbed]), "original");
    assert_eq!(voice_of(&[]), "original");
}

#[test]
fn a_copy_says_which_language_it_speaks() {
    assert_eq!(language_of(&[Tag::Latino, Tag::Spanish]), "Español");
    assert_eq!(language_of(&[Tag::Latino]), "Español latino");
    assert_eq!(language_of(&[Tag::Dual]), "Dos idiomas");
    assert_eq!(language_of(&[Tag::Subbed, Tag::Other]), "Original con subtítulos");
    assert_eq!(language_of(&[Tag::Other]), "Versión original");
}

#[test]
fn only_a_deliberate_end_is_not_a_dead_copy() {
    assert!(abandoned_deliberately("DELETED/MANUAL"));
    assert!(abandoned_deliberately("DELETED/COPY"));
    assert!(!abandoned_deliberately("FAILURE/HEALTH"));
    assert!(!abandoned_deliberately("SUCCESS/ALL"));
}

#[test]
fn an_address_names_its_host_in_small_letters() {
    assert_eq!(
        host_of("https://API.NzbGeek.info/api?t=search"),
        Some("api.nzbgeek.info".to_string())
    );
    assert_eq!(host_of("https://indexer.test"), Some("indexer.test".to_string()));
    assert_eq!(host_of("indexer.test/api"), None);
}

use mamacine::orchestrator::{episode_label, episode_row, season_span, Named};
use mamacine::orchestrator::{film_question, FilmQuestion, Identified};
use mamacine::text::Lang;

#[test]
fn a_season_folder_is_labelled_as_she_counts_its_episodes() {
    assert_eq!(episode_label(Some((1, 1)), false, 0, Lang::Es), "Episodio 1");
    assert_eq!(
        episode_label(Some((2, 3)), true, 4, Lang::Es),
        "Temporada 2 · Episodio 3"
    );
    assert_eq!(
        episode_label(None, false, 2, Lang::Es),
        "Vídeo 3",
        "an unplaceable file is still reachable, by its place"
    );
    assert_eq!(episode_label(Some((1, 5)), false, 0, Lang::En), "Episode 5");
}

#[test]
fn the_seasons_a_folder_holds_are_read_from_its_files() {
    assert_eq!(
        season_span(&[Some((3, 1)), None, Some((1, 4)), Some((2, 2))]),
        Some((1, 3))
    );
    assert_eq!(season_span(&[None, None]), None);
    assert_eq!(season_span(&[]), None);
}

#[test]
fn an_episode_is_named_from_the_show_database_and_never_named_by_guess() {
    let named = [
        Named {
            season: 1,
            number: 1,
            title: Some("Episodio 1 de la 1".into()),
            overview: Some("Lo que pasa en el 1.".into()),
        },
        Named {
            season: 1,
            number: 2,
            title: Some("Episodio 2 de la 1".into()),
            overview: None,
        },
    ];
    let first = episode_row("Episodio 1".into(), Some((1, 1)), true, &named);
    assert_eq!(first.title.as_deref(), Some("Episodio 1 de la 1"));
    assert_eq!(first.overview.as_deref(), Some("Lo que pasa en el 1."));
    assert!(first.subtitles);
    assert_eq!(first.number, Some(1));
    let unknown = episode_row("Episodio 7".into(), Some((1, 7)), false, &named);
    assert_eq!(unknown.title, None, "and is never given a name nobody said");
    assert_eq!(unknown.season, Some(1));
    let loose = episode_row("Vídeo 3".into(), None, false, &named);
    assert_eq!(loose.title, None);
    assert_eq!(loose.number, None);
}

fn identified(series: bool, query: &str) -> Identified {
    Identified {
        series,
        query: query.to_string(),
    }
}

#[test]
fn the_film_asked_for_is_what_the_lookup_named_first() {
    let film_then_series = vec![identified(false, "tt0082096"), identified(true, "tt0083399")];
    assert_eq!(film_question(&film_then_series, false), FilmQuestion::Named(0));
    let series_then_film = vec![identified(true, "tt0083399"), identified(false, "tt0082096")];
    assert_eq!(film_question(&series_then_film, false), FilmQuestion::Named(1));
    assert_eq!(film_question(&[], false), FilmQuestion::Hers);
    assert_eq!(
        film_question(&[identified(true, "tt0083399")], false),
        FilmQuestion::Nothing,
        "a series and no film says there is no film"
    );
    assert_eq!(film_question(&film_then_series, true), FilmQuestion::Nothing);
}
