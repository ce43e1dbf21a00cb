use mamacine::text::{language_noun, Lang};

#[test]
fn the_interface_speaks_the_codes_it_claims() {
    assert_eq!(Lang::from_code("es"), Some(Lang::Es));
    assert_eq!(Lang::from_code("en"), Some(Lang::En));
    assert_eq!(Lang::from_code("fr"), None);
    assert_eq!(Lang::Es.code(), "es");
}

#[test]
fn every_claimed_language_code_has_a_noun_in_every_language() {
    for code in [
        "es", "es-419", "en", "it", "fr", "de", "nl", "pl", "cs", "hu", "ru", "tr", "hi", "ko",
        "ja", "pt", "nordic",
    ] {
        for lang in [Lang::Es, Lang::En] {
            assert!(language_noun(lang, code).is_some(), "{lang:?} {code}");
        }
    }
}

#[test]
fn a_season_is_labelled_in_the_language_of_the_screen() {
    assert_eq!(Lang::Es.season_label(1, 1), "Temporada 1");
    assert_eq!(Lang::Es.season_label(1, 3), "Temporadas 1 a 3");
    assert_eq!(Lang::En.season_label(1, 1), "Season 1");
    assert_eq!(Lang::En.season_label(1, 3), "Seasons 1 to 3");
}

#[test]
fn episode_lists_read_as_prose_in_both_languages() {
    assert_eq!(Lang::Es.of_episodes(&[4]), "del episodio 4");
    assert_eq!(Lang::Es.of_episodes(&[4, 7]), "de los episodios 4 y 7");
    assert_eq!(
        Lang::Es.of_episodes(&[4, 7, 9]),
        "de los episodios 4, 7 y 9"
    );
    assert_eq!(Lang::En.of_episodes(&[4]), "episode 4");
    assert_eq!(Lang::En.of_episodes(&[4, 7]), "episodes 4 and 7");
    assert_eq!(Lang::En.of_episodes(&[4, 7, 9]), "episodes 4, 7 and 9");
}

#[test]
fn each_language_answers_to_its_own_code() {
    for lang in [Lang::Es, Lang::En] {
        assert_eq!(Lang::from_code(lang.code()), Some(lang));
    }
}

#[test]
fn a_language_noun_is_found_whatever_the_capitals() {
    assert_eq!(language_noun(Lang::Es, "ES-419"), Some("español latinoamericano"));
    assert_eq!(language_noun(Lang::En, "pt-BR"), Some("Brazilian Portuguese"));
    assert_eq!(language_noun(Lang::En, "xx"), None);
}

#[test]
fn who_failed_is_named_in_her_words() {
    assert_eq!(Lang::Es.role("nzbget"), "el descargador");
    assert_eq!(Lang::En.role("the indexer"), "the indexer");
    assert_eq!(Lang::Es.role("api.example.test"), "internet");
}

#[test]
fn the_tray_says_what_a_download_is_doing_in_her_language() {
    assert_eq!(Lang::Es.tray_status("paused", "40"), "En pausa (40 %)");
    assert_eq!(Lang::En.tray_status("paused", "40"), "Paused (40 %)");
    assert_eq!(Lang::Es.tray_status("unpacking", "100"), "Casi lista");
    assert_eq!(Lang::En.tray_status("queued", "0"), "Starting the download");
    assert_eq!(Lang::Es.tray_status("finishing", "99"), "Últimos detalles");
}

#[test]
fn giving_up_says_how_many_copies_were_tried_and_how_many_are_left() {
    assert_eq!(
        Lang::Es.gave_up(false, 1, 0),
        "No he podido conseguir esta película: la única copia que había estaba estropeada. \
         Vuelve a probar dentro de unos días."
    );
    assert_eq!(
        Lang::Es.gave_up(true, 3, 0),
        "No he podido conseguir esta temporada: he probado las 3 copias que había y todas \
         estaban estropeadas. Vuelve a probar dentro de unos días."
    );
    assert_eq!(
        Lang::En.gave_up(false, 3, 4),
        "I could not get this film: I tried 3 copies and every one was broken; 4 remain \
         untried. Try again in a few days."
    );
    assert_eq!(
        Lang::En.gave_up(true, 0, 0),
        "I could not get this season: the only copy there was arrived broken. Try again in a \
         few days."
    );
}

#[test]
fn counted_messages_carry_their_numbers() {
    assert_eq!(Lang::Es.subtitles_added(1), "Subtítulos en español añadidos");
    assert_eq!(
        Lang::Es.subtitles_added(4),
        "Subtítulos en español añadidos a 4 episodios"
    );
    assert_eq!(Lang::En.subtitles_added(2), "Subtitles added to 2 episodes");
    assert_eq!(
        Lang::Es.subtitles_missing_for_all(6),
        "Faltan los subtítulos de los 6 episodios"
    );
    assert_eq!(
        Lang::En.subtitles_missing_count(2, 8),
        "Subtitles are missing for 2 of 8 episodes"
    );
    assert_eq!(
        Lang::Es.subtitles_missing_for(&[3, 5]),
        "Faltan los subtítulos de los episodios 3 y 5"
    );
    assert_eq!(Lang::Es.the_episodes(&[4]), "el episodio 4");
    assert_eq!(Lang::Es.the_episodes(&[4, 7]), "los episodios 4 y 7");
    assert_eq!(Lang::Es.of_count_episodes(9), "de 9 episodios");
    assert_eq!(Lang::En.count_episodes(9), "9 episodes");
    assert_eq!(Lang::Es.downloads_running(3), "3 descargas en marcha");
    assert_eq!(Lang::En.downloads_at(2, "3,1 MB/s"), "2 downloads · 3,1 MB/s");
    assert_eq!(Lang::Es.and_more(5), "y 5 más");
    assert_eq!(Lang::En.about_minutes(12), "About 12 minutes");
    assert_eq!(Lang::Es.video_label(2), "Vídeo 2");
    assert_eq!(
        Lang::En.season_episode_label(2, 5),
        "Season 2 · Episode 5"
    );
    assert_eq!(Lang::Es.episode_label(5), "Episodio 5");
    assert_eq!(
        Lang::Es.could_not_open_it(-3),
        "El ordenador no ha podido abrirlo (error -3)."
    );
}

#[test]
fn messages_put_what_they_are_given_in_its_place() {
    assert_eq!(
        Lang::Es.subtitles_fetched_and_missing("del episodio 1", "episodios 2 y 3"),
        "Ya están los subtítulos del episodio 1. Todavía faltan los episodios 2 y 3."
    );
    assert_eq!(
        Lang::En.allowance_gone_try_tomorrow(),
        "The subtitle service allows no more downloads today. It can be tried again tomorrow."
    );
    assert_eq!(
        Lang::Es.no_subtitles_found_for("el episodio 4"),
        "No hay subtítulos en español para el episodio 4. Puede que aparezcan más adelante."
    );
    assert_eq!(
        Lang::Es.download_starts(false, "2,0 GB"),
        "Empieza la descarga de otra copia (2,0 GB)."
    );
    assert_eq!(
        Lang::En.copy_discarded_for_space("60,0 GB"),
        "A 60,0 GB copy does not fit on the disk, so I set it aside."
    );
    assert_eq!(
        Lang::Es.cannot_reach("el buscador"),
        "No consigo conectarme con el buscador. Comprueba que internet funciona."
    );
    assert_eq!(
        Lang::En.rejected_the_key("TMDB"),
        "TMDB rejected the key. The settings need looking at."
    );
    assert_eq!(Lang::Es.with_subtitles("Inglés"), "Inglés, con subtítulos");
    assert_eq!(
        Lang::En.saved_but("no indexer"),
        "Saved, but there is a problem: no indexer"
    );
    assert_eq!(
        Lang::Es.update_available_title("1.4.0"),
        "Mamá Cine 1.4.0 ya está disponible"
    );
}
