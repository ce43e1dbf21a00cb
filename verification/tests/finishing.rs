use mamacine::finishing::{
    all_videos, changed, has_suffix, largest_video, subtitle_name, subtitles_in, summarise, wanted_for,
    FileFound, Fetched, Saving, Verdict,
    Look, Outcome, Subtitles,
};
use mamacine::text::Lang;

fn look(episode: u32, subtitles: Subtitles) -> Look {
    Look {
        episode: Some(episode),
        subtitles,
        spent: false,
    }
}

#[test]
fn a_season_says_which_episodes_are_missing_rather_than_how_many() {
    let all_fine = vec![
        look(1, Subtitles::Already),
        look(2, Subtitles::Fetched),
        look(3, Subtitles::Already),
    ];
    assert_eq!(
        summarise(&all_fine, true, Lang::Es),
        "Subtítulos en español en todos los episodios"
    );

    let one_missing = vec![
        look(1, Subtitles::Already),
        look(2, Subtitles::Missing("No hay subtítulos".into())),
        look(3, Subtitles::Already),
    ];
    assert_eq!(
        summarise(&one_missing, true, Lang::Es),
        "Faltan los subtítulos del episodio 2"
    );

    let two_missing = vec![
        look(1, Subtitles::Missing("No hay subtítulos".into())),
        look(2, Subtitles::Already),
        look(3, Subtitles::Missing("No hay subtítulos".into())),
    ];
    assert_eq!(
        summarise(&two_missing, true, Lang::Es),
        "Faltan los subtítulos de los episodios 1 y 3"
    );
}

#[test]
fn a_season_missing_more_than_a_handful_is_counted_instead() {
    let missing = || Subtitles::Missing("No hay subtítulos".into());
    let many: Vec<Look> = (1..=5).map(|number| look(number, missing())).collect();
    assert_eq!(
        summarise(&many, true, Lang::Es),
        "Faltan los subtítulos de los 5 episodios"
    );

    let unnamed = vec![
        look(1, missing()),
        Look {
            episode: None,
            subtitles: missing(),
            spent: false,
        },
    ];
    assert_eq!(
        summarise(&unnamed, true, Lang::Es),
        "Faltan los subtítulos de los 2 episodios"
    );
}

#[test]
fn a_film_says_what_happened_to_its_own_subtitles() {
    let refused = vec![Look {
        episode: None,
        subtitles: Subtitles::Missing(
            "Hay subtítulos, pero ahora mismo no se han podido descargar".into(),
        ),
        spent: false,
    }];
    assert_eq!(
        summarise(&refused, false, Lang::Es),
        "Hay subtítulos, pero ahora mismo no se han podido descargar"
    );
    let fine = vec![Look {
        episode: None,
        subtitles: Subtitles::Already,
        spent: false,
    }];
    assert_eq!(
        summarise(&fine, false, Lang::Es),
        "Subtítulos en español listos"
    );
}

#[test]
fn the_button_answers_with_what_it_changed() {
    let missing = || Subtitles::Missing("No hay subtítulos".into());
    assert_eq!(
        changed(
            &[look(1, Subtitles::Already), look(2, Subtitles::Already)],
            true,
            Lang::Es
        ),
        "Ya estaban todos los subtítulos."
    );
    assert_eq!(
        changed(
            &[look(1, Subtitles::Already), look(2, Subtitles::Fetched)],
            true,
            Lang::Es
        ),
        "Ya están todos los subtítulos."
    );
    assert_eq!(
        changed(
            &[
                look(1, Subtitles::Fetched),
                look(2, missing()),
                look(3, Subtitles::Already)
            ],
            true,
            Lang::Es
        ),
        "Ya están los subtítulos del episodio 1. Todavía faltan los del episodio 2."
    );
    assert_eq!(
        changed(
            &[look(1, Subtitles::Already), look(2, missing())],
            true,
            Lang::Es
        ),
        "No hay subtítulos en español para el episodio 2. Puede que aparezcan más adelante."
    );
}

#[test]
fn a_spent_allowance_is_said_as_itself_and_not_as_an_absence() {
    let spent = Look {
        episode: Some(2),
        subtitles: Subtitles::Missing(Lang::Es.allowance_gone().to_string()),
        spent: true,
    };
    assert_eq!(
        changed(&[look(1, Subtitles::Already), spent], true, Lang::Es),
        "El servicio de subtítulos no deja descargar más por hoy. \
         Mañana se puede volver a intentar."
    );
}

#[test]
fn nothing_to_look_at_says_nothing() {
    assert_eq!(summarise(&[], true, Lang::Es), "");
}

#[test]
fn a_film_whose_subtitles_were_there_says_so_when_asked_again() {
    assert_eq!(
        changed(&[look(1, Subtitles::Already)], false, Lang::Es),
        Lang::Es.subtitles_were_already_there()
    );
    assert_eq!(
        changed(&[look(1, Subtitles::Fetched)], false, Lang::Es),
        Lang::Es.subtitles_already_there()
    );
    assert_eq!(
        changed(&[look(1, Subtitles::Missing("No hay subtítulos".into()))], false, Lang::Es),
        "No hay subtítulos."
    );
}

#[test]
fn a_search_for_subtitles_is_described_by_what_matters_most() {
    let saved = Outcome {
        saved: 3,
        spent: true,
        ..Outcome::default()
    };
    assert_eq!(
        saved.describe(Lang::Es),
        "Subtítulos en español añadidos a 3 episodios"
    );
    let spent = Outcome {
        saved: 0,
        mistimed: 2,
        refused: vec!["429".into()],
        spent: true,
    };
    assert_eq!(spent.describe(Lang::Es), Lang::Es.allowance_gone());
    let refused = Outcome {
        saved: 0,
        mistimed: 2,
        refused: vec!["429".into()],
        spent: false,
    };
    assert_eq!(refused.describe(Lang::Es), Lang::Es.subtitles_refused());
    let mistimed = Outcome {
        mistimed: 1,
        ..Outcome::default()
    };
    assert_eq!(mistimed.describe(Lang::Es), Lang::Es.subtitles_mistimed());
    assert_eq!(
        Outcome::default().describe(Lang::Es),
        Lang::Es.no_subtitles_for_this_copy()
    );
}

#[test]
fn each_alternative_subtitle_lands_in_its_own_file() {
    assert_eq!(subtitle_name("Das.Boot.1981", "es", 1), "Das.Boot.1981.es.srt");
    assert_eq!(subtitle_name("Das.Boot.1981", "es", 2), "Das.Boot.1981.es.2.srt");
    assert_eq!(subtitle_name("film", "en", 12), "film.en.12.srt");
}

use mamacine::finishing::{allowance_gone, to_settle};
use mamacine::library::{Entry, Library};
use mamacine::messages::Failure;
use mamacine::progress::Ended;

fn ended(id: i64, succeeded: bool) -> Ended {
    Ended {
        id,
        name: "El Sur".into(),
        status: if succeeded { "SUCCESS/ALL".into() } else { "FAILURE/PAR".into() },
        succeeded,
    }
}

#[test]
fn a_record_she_has_finished_with_is_never_settled_again() {
    let mut library = Library::new();
    library.put(
        1,
        Entry {
            title: "The red virgin".into(),
            retired: true,
            ..Entry::default()
        },
    );
    library.put(
        2,
        Entry {
            settled: true,
            ..Entry::default()
        },
    );
    assert_eq!(
        to_settle(&[ended(1, true), ended(2, true), ended(3, true), ended(4, false)], &library),
        vec![3]
    );
}

#[test]
fn a_spent_allowance_is_recognised_in_every_form_it_takes() {
    let refused = |status| Failure::Refused {
        what: "opensubtitles".into(),
        status,
        message: "no".into(),
    };
    assert!(allowance_gone(&refused(406)));
    assert!(allowance_gone(&refused(429)));
    assert!(!allowance_gone(&refused(401)));
    assert!(allowance_gone(&Failure::Setup("daily allowance used".into())));
    assert!(!allowance_gone(&Failure::Io("disk full".into())));
}

fn found(path: &str, size: u64) -> FileFound {
    FileFound {
        path: path.to_string(),
        name: path.rsplit(['/', '\\']).next().unwrap_or(path).to_string(),
        size,
    }
}

const VIDEOS: [&str; 3] = ["mkv", "mp4", "avi"];

#[test]
fn a_file_is_a_video_by_its_extension_whatever_its_case() {
    assert!(has_suffix("Das.Boot.1981.MKV", &VIDEOS));
    assert!(has_suffix("film.mp4", &VIDEOS));
    assert!(!has_suffix("film.mp4.part", &VIDEOS));
    assert!(!has_suffix("mkv", &VIDEOS), "no dot, no extension");
    assert!(!has_suffix(".mkv", &VIDEOS), "a name that opens with its only dot has none");
    assert!(has_suffix("..mkv", &VIDEOS));
    assert!(!has_suffix("film.", &VIDEOS));
}

#[test]
fn the_largest_video_is_the_film_and_the_last_of_equals_wins() {
    let files = vec![
        found("/x/sample.mkv", 50),
        found("/x/Das.Boot.mkv", 9_000),
        found("/x/Das.Boot.nfo", 90_000),
        found("/x/extras/trailer.mp4", 300),
    ];
    assert_eq!(largest_video(&files, &VIDEOS), Some("/x/Das.Boot.mkv".to_string()));
    let equals = vec![found("/x/a.mkv", 7), found("/x/b.mkv", 7), found("/x/c.mkv", 3)];
    assert_eq!(largest_video(&equals, &VIDEOS), Some("/x/b.mkv".to_string()));
    assert_eq!(largest_video(&[found("/x/readme.txt", 1)], &VIDEOS), None);
    assert_eq!(largest_video(&[], &VIDEOS), None);
}

#[test]
fn videos_and_subtitles_come_in_path_order() {
    let files = vec![
        found("/x/Show.S01E02.mkv", 2),
        found("/x/Show.S01E01.mkv", 1),
        found("/x/Show.S01E01.es.srt", 1),
        found("/x/Subs/Show.S01E02.spa.SRT", 1),
        found("/x/extras.mkv", 1),
    ];
    assert_eq!(
        all_videos(&files, &VIDEOS),
        vec!["/x/Show.S01E01.mkv", "/x/Show.S01E02.mkv", "/x/extras.mkv"]
    );
    assert_eq!(
        subtitles_in(&files, &["srt"]),
        vec!["/x/Show.S01E01.es.srt", "/x/Subs/Show.S01E02.spa.SRT"]
    );
    let folders = vec![
        found("/x/Das Boot (1981)/b.mkv", 1),
        found("/x/Das Boot/a.mkv", 1),
    ];
    assert_eq!(
        all_videos(&folders, &VIDEOS),
        vec!["/x/Das Boot/a.mkv", "/x/Das Boot (1981)/b.mkv"],
        "a folder goes before a longer name that starts the same, as paths are ordered"
    );
}

#[test]
fn windows_paths_are_ordered_component_by_component_too() {
    let folders = vec![
        found("C:\\x\\Das Boot (1981)\\b.mkv", 1),
        found("C:\\x\\Das Boot\\a.mkv", 1),
    ];
    assert_eq!(
        all_videos(&folders, &VIDEOS),
        vec!["C:\\x\\Das Boot\\a.mkv", "C:\\x\\Das Boot (1981)\\b.mkv"]
    );
}

#[test]
fn a_search_for_subtitles_skips_a_take_it_tried_and_stops_when_the_allowance_is_spent() {
    assert_eq!(wanted_for(Some(true), 3), 1, "one timed to this file is all it needs");
    assert_eq!(wanted_for(Some(false), 3), 3);
    assert_eq!(wanted_for(None, 3), 3);

    let mut saving = Saving::new(2);
    assert_eq!(saving.next(Some(7), "Das.Boot.1981.BluRay"), Verdict::Fetch);
    saving.fetched(Fetched::Mistimed);
    assert_eq!(
        saving.next(Some(7), "Das.Boot.1981.BluRay"),
        Verdict::Skip,
        "another take of the same timing is passed over"
    );
    assert_eq!(saving.next(None, "Das.Boot.1981.BluRay"), Verdict::Fetch);
    saving.fetched(Fetched::Saved);
    assert_eq!(saving.next(Some(8), "Das.Boot.1981.WEB"), Verdict::Fetch);
    saving.fetched(Fetched::Refused {
        said: "429 Too Many Requests".into(),
        allowance_gone: true,
    });
    assert_eq!(saving.next(Some(9), "Das.Boot.1981.DVD"), Verdict::Stop);
    assert_eq!(saving.outcome.saved, 1);
    assert_eq!(saving.outcome.mistimed, 1);
    assert_eq!(saving.outcome.refused, vec!["429 Too Many Requests".to_string()]);
    assert!(saving.outcome.spent);

    let mut enough = Saving::new(1);
    assert_eq!(enough.next(Some(1), "A"), Verdict::Fetch);
    enough.fetched(Fetched::Saved);
    assert_eq!(enough.next(Some(2), "B"), Verdict::Stop, "it never saves more than it wants");
}
