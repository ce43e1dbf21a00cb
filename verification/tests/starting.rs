use mamacine::library::Entry;
use mamacine::orchestrator::CHASE_LIMIT;
use mamacine::starting::{
    attempt_why, carrying_on, more_to_try, started, total_with_more, Passed, Starting,
};
use mamacine::text::Lang;

#[test]
fn a_copy_too_big_for_the_disk_is_set_aside_with_a_line_she_can_read() {
    let mut start = Starting::new();
    start.passed_over(
        Passed::NoRoom {
            size: 60 * 1_073_741_824,
            size_said: "60,0 GB".into(),
            title: "Das Boot 1981 2160p".into(),
        },
        Lang::Es,
    );
    assert_eq!(start.too_big, Some(60 * 1_073_741_824));
    assert_eq!(
        start.skipped,
        vec![(
            "Una copia de 60,0 GB no cabe en el disco, así que la he descartado.".to_string(),
            "Das Boot 1981 2160p".to_string()
        )]
    );
    assert_eq!(
        start.failure("64 GB", "20,0 GB", Lang::Es),
        Lang::Es.no_room_on_disk("64 GB", "20,0 GB")
    );
}

#[test]
fn when_no_copy_starts_the_first_trouble_is_what_she_is_told() {
    let mut start = Starting::new();
    start.passed_over(Passed::Burned, Lang::Es);
    start.passed_over(
        Passed::NotTaken {
            said: "El descargador no contesta".into(),
            why: "connection refused".into(),
        },
        Lang::Es,
    );
    assert_eq!(start.failure("", "", Lang::Es), Lang::Es.no_working_copy());
    assert_eq!(start.skipped.len(), 1, "a burned copy cost her nothing to say");
    assert_eq!(start.skipped[0].1, "connection refused");

    let mut lost = Starting::new();
    lost.passed_over(
        Passed::NoIndexer {
            url: "https://gone.test/get/1".into(),
        },
        Lang::Es,
    );
    assert_eq!(lost.failure("", "", Lang::Es), Lang::Es.indexer_gone_from_settings());
    assert_eq!(lost.skipped[0].1, "https://gone.test/get/1: no configured indexer");
    assert_eq!(
        Starting::new().failure("", "", Lang::Es),
        Lang::Es.download_could_not_start()
    );
}

#[test]
fn the_copy_that_starts_counts_one_more_try_and_keeps_the_story() {
    let seed = Entry {
        title: "Das Boot".into(),
        attempt: 1,
        ..Entry::default()
    };
    let entry = started(seed, "https://indexer.test/get/2", 5, "Das Boot");
    assert_eq!(entry.attempt, 2);
    assert_eq!(entry.attempts_total, 5);
    assert_eq!(entry.source, "https://indexer.test/get/2");
    assert_eq!(entry.filed_as, "Das Boot");
    assert_eq!(entry.title, "Das Boot");
    assert_eq!(
        attempt_why(2, 5, "Das.Boot.1981.720p"),
        "intento 2 (de hasta 5 copias): Das.Boot.1981.720p"
    );
}

#[test]
fn asking_for_more_copies_carries_on_under_a_fresh_allowance() {
    let given_up = Entry {
        title: "Das Boot".into(),
        attempt: 3,
        attempts_total: 7,
        gave_up: true,
        superseded_by: Some(9),
        untried: 4,
        ..Entry::default()
    };
    assert!(more_to_try(&given_up, 4));
    assert!(!more_to_try(&given_up, 0), "nothing was kept to try");
    assert!(!more_to_try(&Entry::default(), 4), "the chase has not given up");

    let fresh = carrying_on(given_up.clone());
    assert!(!fresh.gave_up);
    assert_eq!(fresh.superseded_by, None);
    assert_eq!(fresh.untried, 0);
    assert_eq!(fresh.allowance, 3 + CHASE_LIMIT);
    assert_eq!(fresh.attempt, 3, "the numbering carries on where it stopped");
    assert_eq!(fresh.title, "Das Boot");

    assert_eq!(total_with_more(&given_up, 4), 7);
    assert_eq!(total_with_more(&given_up, 6), 9);
}
