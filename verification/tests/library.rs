use mamacine::library::{
    folder_named, key_for, plainly, reading_of, Entry, Found, Library, Place, LIBRARY_VERSION,
};
use mamacine::text::Lang;

fn settled(key: &str, folder: &str) -> Entry {
    Entry {
        title: key.into(),
        key: key.into(),
        settled: true,
        folder: Some(folder.to_string()),
        ..Entry::default()
    }
}

/// What a restart reads back: the records and the burned copies, as they were written.
fn reopened(library: &Library) -> Library {
    let records: Vec<(i64, Entry)> = library
        .all()
        .into_iter()
        .map(|(id, entry)| (id, entry.clone()))
        .collect();
    Library::from_records(records, library.burned_list())
}

#[test]
fn a_film_is_hers_only_while_it_is_on_the_disk() {
    let mut library = Library::new();
    library.put(1, settled("imdb:1", "/films/Das.Boot"));
    assert!(library.present("imdb:1", &["/films/Das.Boot"]).is_some());
    assert!(library.present("imdb:1", &[]).is_none());
}

#[test]
fn a_download_that_never_finished_is_not_on_the_shelf() {
    let mut library = Library::new();
    library.put(
        1,
        Entry {
            key: "imdb:1".into(),
            folder: Some("/scratch".into()),
            ..Entry::default()
        },
    );
    assert!(library.present("imdb:1", &["/scratch"]).is_none());
    assert!(library.all().iter().any(|(id, _)| *id == 1));
}

#[test]
fn nothing_is_ever_matched_by_a_missing_name() {
    let mut library = Library::new();
    library.put(1, settled("", "/scratch"));
    assert!(library.present("", &["/scratch"]).is_none());
}

#[test]
fn an_entry_written_before_the_library_knew_where_films_land_is_repaired() {
    let landed = "/films/The.Red.Turtle.2016.1080p.BluRay.x264";
    let mut library = Library::new();
    library.put(
        1,
        Entry {
            title: "The Red Turtle".into(),
            imdb: Some("03666024".into()),
            settled: true,
            ..Entry::default()
        },
    );
    let places = [Place {
        path: landed.into(),
        name: "The.Red.Turtle.2016.1080p.BluRay.x264".into(),
        video: Some(format!("{landed}/turtle.mkv")),
    }];
    library.reconcile(&[landed], &places);

    let (_, entry) = library
        .present("imdb:3666024", &[landed])
        .expect("she has this one");
    assert_eq!(entry.folder.as_deref(), Some(landed));
    assert_eq!(
        entry.file.as_deref(),
        Some("/films/The.Red.Turtle.2016.1080p.BluRay.x264/turtle.mkv")
    );
}

#[test]
fn a_film_that_is_no_longer_anywhere_is_not_invented() {
    let mut library = Library::new();
    library.put(
        1,
        Entry {
            title: "Das Boot".into(),
            imdb: Some("0082096".into()),
            settled: true,
            ..Entry::default()
        },
    );
    library.reconcile(&[], &[]);
    assert!(library.present("imdb:82096", &[]).is_none());
    assert_eq!(library.get(1).expect("the record").key, "imdb:82096");
}

#[test]
fn a_film_she_threw_away_is_never_handed_the_folder_of_the_one_that_replaced_it() {
    let deleted = "/films/La.Virgen.Roja.2024.ITA.1080p";
    let kept = "/films/La.Virgen.Roja.2024.TRUEFRENCH.1080p";
    let mut library = Library::new();
    library.put(
        1,
        Entry {
            title: "La virgen roja".into(),
            imdb: Some("30748104".into()),
            settled: true,
            folder: Some(deleted.into()),
            ..Entry::default()
        },
    );
    let places = [Place {
        path: kept.into(),
        name: "La.Virgen.Roja.2024.TRUEFRENCH.1080p".into(),
        video: None,
    }];
    library.reconcile(&[kept], &places);

    let entry = library.get(1).expect("the record");
    assert_eq!(
        entry.folder.as_deref(),
        Some(deleted),
        "the record still names the folder she emptied, and so it is not on her shelf"
    );
    assert!(library.present("imdb:30748104", &[kept]).is_none());
}

#[test]
fn one_folder_is_one_film_however_many_records_point_at_it() {
    let landed = "/films/La.Virgen.Roja.2024.TRUEFRENCH.1080p";
    let ghosted = |title: &str| Entry {
        title: title.into(),
        key: "imdb:30748104".into(),
        settled: true,
        folder: Some(landed.into()),
        ..Entry::default()
    };
    let mut library = Library::new();
    library.put(1, ghosted("La virgen roja"));
    library.put(2, ghosted("La virgen roja"));

    let released = library.reconcile(&[landed], &[]);
    assert_eq!(released, vec![1]);

    assert!(library.get(1).expect("the older record").folder.is_none());
    assert_eq!(
        library.get(2).expect("the newer record").folder.as_deref(),
        Some(landed),
        "the copy she actually downloaded keeps its folder"
    );
    assert_eq!(
        library.present("imdb:30748104", &[landed]).map(|(id, _)| id),
        Some(2),
        "and there is only one of it"
    );
}

#[test]
fn the_copies_left_to_try_survive_the_window_being_closed() {
    let mut library = Library::new();
    library.put(
        5,
        Entry {
            title: "Das Boot".into(),
            key: "imdb:82096".into(),
            filed_as: "Das Boot".into(),
            attempts_total: 3,
            attempt: 1,
            ..Entry::default()
        },
    );
    let reopened = reopened(&library);
    let (id, entry) = reopened
        .all()
        .into_iter()
        .find(|(_, entry)| !entry.settled)
        .expect("still in flight");
    assert_eq!(id, 5);
    assert_eq!(entry.filed_as, "Das Boot");
    assert_eq!(entry.attempts_total, 3);
}

#[test]
fn a_burned_copy_stays_burned_across_restarts() {
    let mut library = Library::new();
    library.burn("https://indexer.test/dead-copy.nzb");
    assert!(library.is_burned("https://indexer.test/dead-copy.nzb"));
    assert!(!library.is_burned("https://indexer.test/other.nzb"));
    let reopened = reopened(&library);
    assert!(reopened.is_burned("https://indexer.test/dead-copy.nzb"));
}

#[test]
fn what_is_remembered_survives_a_restart() {
    let mut library = Library::new();
    library.put(3, settled("imdb:3", "/scratch"));
    let reopened = reopened(&library);
    assert_eq!(
        reopened.present("imdb:3", &["/scratch"]).map(|(id, _)| id),
        Some(3)
    );
}

#[test]
fn the_newest_record_comes_first_and_a_second_put_replaces_the_first() {
    let mut library = Library::new();
    library.put(2, settled("imdb:2", "/b"));
    library.put(7, settled("imdb:7", "/c"));
    library.put(4, settled("imdb:4", "/a"));
    library.put(2, settled("imdb:22", "/b"));
    let ids: Vec<i64> = library.all().iter().map(|(id, _)| *id).collect();
    assert_eq!(ids, vec![7, 4, 2]);
    assert_eq!(library.get(2).expect("kept").key, "imdb:22");
    assert!(library.get(3).is_none());
}

#[test]
fn a_story_grows_one_line_at_a_time() {
    let mut library = Library::new();
    library.note(9, 100, "Empieza la descarga", "grab");
    library.note(9, 160, "Probando otra copia", "dead copy");
    let entry = library.get(9).expect("a record was started");
    assert_eq!(entry.story.len(), 2);
    assert_eq!(entry.story[1].at, 160);
    assert_eq!(entry.story[1].said, "Probando otra copia");
    assert_eq!(entry.story[1].why, "dead copy");
    assert!(!entry.settled);
}

#[test]
fn an_empty_address_burns_nothing() {
    let mut library = Library::new();
    library.burn("");
    assert!(library.burned_list().is_empty());
    library.burn("https://indexer.test/a.nzb");
    library.burn("https://indexer.test/a.nzb");
    assert_eq!(library.burned_list().len(), 1);
}

#[test]
fn a_file_is_read_by_its_version() {
    let current = reading_of(&Found::Versioned(LIBRARY_VERSION), Lang::Es);
    assert!(current.keep && !current.migrate && current.problem.is_none());
    let older = reading_of(&Found::Versioned(2), Lang::Es);
    assert!(older.keep && older.migrate);
    let bare = reading_of(&Found::Bare, Lang::Es);
    assert!(bare.keep && bare.migrate);
    let newer = reading_of(&Found::Versioned(99), Lang::Es);
    assert!(!newer.keep);
    assert!(newer
        .problem
        .expect("said plainly")
        .contains("versión más nueva"));
    let broken = reading_of(&Found::Unreadable, Lang::Es);
    assert!(!broken.keep && broken.set_aside && broken.problem.is_none());
    let refused = Library::refused("no".into());
    assert_eq!(refused.problem().as_deref(), Some("no"));
}

#[test]
fn a_record_is_known_by_its_key_or_its_imdb_id() {
    let keyed = Entry {
        key: "imdb:1".into(),
        imdb: Some("0002".into()),
        ..Entry::default()
    };
    assert_eq!(key_for(&keyed), "imdb:1");
    let bare = Entry {
        imdb: Some(" 0082096 ".into()),
        ..Entry::default()
    };
    assert_eq!(key_for(&bare), "imdb:82096");
    assert_eq!(key_for(&Entry::default()), "");
}

#[test]
fn a_folder_is_found_by_the_words_of_the_title() {
    assert_eq!(plainly("The.Red  Turtle (2016)"), "the red turtle 2016");
    let places = [
        Place {
            path: "/films/Other".into(),
            name: "Other.Film".into(),
            video: None,
        },
        Place {
            path: "/films/Turtle".into(),
            name: "The.Red.Turtle.2016".into(),
            video: None,
        },
    ];
    assert_eq!(
        folder_named("The Red Turtle", &places).map(|place| place.path.as_str()),
        Some("/films/Turtle")
    );
    assert!(folder_named("...", &places).is_none());
    assert!(folder_named("Das Boot", &places).is_none());
}

#[test]
fn the_copy_a_swap_leaves_behind_goes_to_the_bin_only_once_the_new_one_has_landed() {
    let old = "/films/La.Virgen.Roja.2024.ITA";
    let mut library = Library::new();
    library.put(
        1,
        Entry {
            title: "La virgen roja".into(),
            settled: true,
            folder: Some(old.into()),
            ..Entry::default()
        },
    );
    library.put(
        2,
        Entry {
            title: "La virgen roja".into(),
            replaces: Some(1),
            ..Entry::default()
        },
    );

    let binned = library.swap_out(2, &[old]);
    assert_eq!(binned, Some((1, old.to_string())));
    library.retire_swapped(1, 1_700_000_000, Lang::Es);
    assert!(library.get(1).expect("the old record").retired);
    assert!(!library.get(1).expect("the old record").present(&[old]));
    assert_eq!(
        library.get(1).expect("the old record").story.last().map(|note| note.said.as_str()),
        Some(Lang::Es.copy_swapped())
    );
    assert_eq!(
        library.get(2).expect("the new record").replaces,
        None,
        "the swap is done, so a later sweep does not bin anything again"
    );
    assert_eq!(library.swap_out(2, &[old]), None);
}

#[test]
fn a_swap_never_bins_the_folder_the_new_copy_landed_in() {
    let shared = "/films/The red virgin";
    let mut library = Library::new();
    library.put(
        1,
        Entry {
            settled: true,
            folder: Some(shared.into()),
            ..Entry::default()
        },
    );
    library.put(
        2,
        Entry {
            settled: true,
            folder: Some(shared.into()),
            replaces: Some(1),
            ..Entry::default()
        },
    );
    assert_eq!(library.swap_out(2, &[shared]), None);
}

#[test]
fn an_ordinary_download_bins_nothing() {
    let mut library = Library::new();
    library.put(
        9,
        Entry {
            title: "El Sur".into(),
            ..Entry::default()
        },
    );
    assert_eq!(library.swap_out(9, &[]), None);
    assert_eq!(library.get(9).expect("kept").title, "El Sur");
}

#[test]
fn a_settled_download_is_on_the_shelf_under_its_name() {
    let mut library = Library::new();
    library.settle(4, "Das.Boot.1981", "/films/Das.Boot", "/films/Das.Boot/boot.mkv", "Subtítulos en español listos".into());
    let entry = library.get(4).expect("settled");
    assert!(entry.settled);
    assert_eq!(entry.title, "Das.Boot.1981", "no title: the name it was filed under");
    assert_eq!(entry.file.as_deref(), Some("/films/Das.Boot/boot.mkv"));
    assert_eq!(entry.subtitle_note, "Subtítulos en español listos");
    library.put(
        5,
        Entry {
            title: "El Sur".into(),
            ..Entry::default()
        },
    );
    library.settle(5, "El.Sur.1983", "/films/El.Sur", "/films/El.Sur/sur.mkv", String::new());
    assert_eq!(library.get(5).expect("settled").title, "El Sur");
    assert!(library.present("", &["/films/El.Sur"]).is_none());
}
