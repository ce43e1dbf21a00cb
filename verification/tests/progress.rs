use mamacine::library::{Entry, Library};
use mamacine::orchestrator::tray_report_of;
use mamacine::progress::{finished, in_flight, status_word, tray_item, Ended, Status};
use mamacine::text::Lang;

fn failed(id: i64, name: &str) -> Ended {
    Ended {
        id,
        name: name.into(),
        status: "FAILURE/HEALTH".into(),
        succeeded: false,
    }
}

#[test]
fn a_download_says_what_it_is_doing_in_the_tray() {
    let remembered = Entry {
        title: "Das Boot".into(),
        ..Entry::default()
    };
    let line = tray_item(
        Some(&remembered),
        "Das.Boot.1981.1080p",
        Status::Downloading,
        "50 %",
        "Unos 2 minutos",
    );
    assert_eq!(line, "Das Boot · 50 % · Unos 2 minutos");
    let report = tray_report_of(Some(vec![line]), "5 MB/s");
    assert_eq!(report.summary, "Das Boot · 50 % · Unos 2 minutos");
    assert!(report.tooltip.contains("5 MB/s"), "{}", report.tooltip);
    assert_eq!(
        tray_item(None, "Das Boot", Status::Unpacking, "100 %", ""),
        "Das Boot · Casi lista"
    );
    assert_eq!(
        tray_item(None, "Sopa de ganso", Status::Paused, "90 %", ""),
        "Sopa de ganso · En pausa (90 %)"
    );
    assert_eq!(
        tray_item(None, "Sopa de ganso", Status::Downloading, "90 %", ""),
        "Sopa de ganso · 90 %"
    );
    assert_eq!(
        tray_item(None, "Sopa de ganso", Status::Other, "0 %", ""),
        "Sopa de ganso · Últimos detalles"
    );
}

#[test]
fn a_long_title_is_cut_in_the_tray() {
    let line = tray_item(
        None,
        "El discreto encanto de la burguesía y algo más todavía",
        Status::Queued,
        "0 %",
        "",
    );
    assert!(line.starts_with("El discreto encanto de la burgues…"), "{line}");
    assert!(line.ends_with(" · Empezando la descarga"), "{line}");
}

#[test]
fn a_paused_download_has_its_own_word() {
    assert_eq!(status_word(Status::Paused), "paused");
    assert_eq!(status_word(Status::Queued), "starting");
    assert_eq!(status_word(Status::Other), "finishing");
    assert_eq!(status_word(Status::Downloading), "downloading");
}

#[test]
fn an_undecided_failure_reads_as_working_not_as_failed() {
    let mut library = Library::new();
    library.put(
        1,
        Entry {
            title: "Das Boot".into(),
            ..Entry::default()
        },
    );
    let cards = finished(&[failed(1, "Das.Boot")], &library, &[], &[], Lang::Es);
    assert_eq!(cards.len(), 1);
    assert!(cards[0].retrying, "mid-decision must read as working");
    assert!(!cards[0].ok);
    assert_eq!(cards[0].title, "Das Boot");
    assert_eq!(cards[0].detail, "");
}

#[test]
fn a_chase_that_gave_up_says_so_and_one_that_moved_on_points_at_the_next() {
    let mut library = Library::new();
    library.put(
        1,
        Entry {
            title: "Das Boot".into(),
            gave_up: true,
            attempt: 3,
            untried: 4,
            ..Entry::default()
        },
    );
    library.put(
        2,
        Entry {
            title: "El Sur".into(),
            superseded_by: Some(3),
            ..Entry::default()
        },
    );
    let cards = finished(
        &[failed(1, "Das.Boot"), failed(2, "El.Sur")],
        &library,
        &[3],
        &[],
        Lang::Es,
    );
    assert_eq!(cards.len(), 2);
    assert!(!cards[0].retrying);
    assert!(cards[0].detail.contains("he probado 3 copias"), "{}", cards[0].detail);
    assert_eq!(cards[1].next_id, Some(3));
    assert!(!cards[1].retrying);
}

#[test]
fn a_download_the_downloader_lost_still_has_a_card_while_its_chase_goes_on() {
    let mut library = Library::new();
    library.put(
        4,
        Entry {
            title: "Das Boot".into(),
            superseded_by: Some(5),
            ..Entry::default()
        },
    );
    library.put(
        5,
        Entry {
            title: "Das Boot".into(),
            ..Entry::default()
        },
    );
    library.put(
        6,
        Entry {
            title: "El Sur".into(),
            settled: true,
            ..Entry::default()
        },
    );
    let cards = finished(&[], &library, &[], &[5], Lang::Es);
    let ids: Vec<i64> = cards.iter().map(|card| card.id).collect();
    assert_eq!(ids, vec![5, 4], "newest first, and a settled film is no card");
    assert!(cards[0].retrying);
    assert!(!cards[1].retrying);
    assert_eq!(cards[1].next_id, Some(5));
    assert!(cards.iter().all(|card| !card.ok));
}

#[test]
fn a_success_is_ok_unless_another_copy_replaced_it() {
    let mut library = Library::new();
    library.put(
        1,
        Entry {
            superseded_by: Some(2),
            ..Entry::default()
        },
    );
    let done = Ended {
        id: 1,
        name: "Das.Boot".into(),
        status: "SUCCESS/ALL".into(),
        succeeded: true,
    };
    let fresh = Ended {
        id: 9,
        name: "Das.Boot".into(),
        status: "SUCCESS/ALL".into(),
        succeeded: true,
    };
    let cards = finished(&[done, fresh], &library, &[], &[], Lang::Es);
    assert!(!cards[0].ok);
    assert!(cards[1].ok);
    assert_eq!(cards[1].title, "Das.Boot", "no record: the name it was filed under");
}

#[test]
fn cancelling_is_not_a_dead_copy() {
    let mut library = Library::new();
    library.put(1, Entry::default());
    let cancelled = Ended {
        id: 1,
        name: "Das Boot".into(),
        status: "DELETED/MANUAL".into(),
        succeeded: false,
    };
    let cards = finished(&[cancelled], &library, &[], &[], Lang::Es);
    assert!(!cards[0].retrying);
    assert!(!cards[0].ok);
}

#[test]
fn a_second_press_follows_the_download_already_running() {
    let mut library = Library::new();
    library.put(
        7,
        Entry {
            key: "imdb:82096".into(),
            ..Entry::default()
        },
    );
    assert_eq!(
        in_flight("imdb:82096", &[(3, "imdb:1"), (4, "imdb:82096")], None, &library),
        Some(4)
    );
    assert_eq!(
        in_flight("imdb:82096", &[], Some(&[2, 7]), &library),
        Some(7)
    );
    assert_eq!(in_flight("imdb:82096", &[], None, &library), None);
    assert_eq!(in_flight("imdb:1", &[], Some(&[7]), &library), None);
}

use mamacine::chase::{after_a_dead_copy, judge, vanished, Judgement, Next, Server};

#[test]
fn a_chase_stops_at_her_allowance_and_says_what_is_left() {
    let tried_three = Entry {
        attempt: 3,
        ..Entry::default()
    };
    let next = after_a_dead_copy(&tried_three, 4, Server::Working);
    assert_eq!(next, Next::Stop { untried: 4 });
    let said = Lang::Es.gave_up(false, tried_three.attempt, 4);
    assert!(said.contains("he probado 3 copias"), "{said}");
    assert!(said.contains("quedan 4 sin probar"), "{said}");
    assert!(!said.contains("todo lo que había"), "{said}");
    let more = Entry {
        attempt: 3,
        allowance: 6,
        ..Entry::default()
    };
    assert_eq!(after_a_dead_copy(&more, 4, Server::Unknown), Next::TryNext);
    assert_eq!(after_a_dead_copy(&more, 0, Server::Working), Next::NoCopiesLeft);
}

#[test]
fn a_server_problem_never_consumes_the_film() {
    let entry = Entry {
        attempt: 9,
        ..Entry::default()
    };
    assert_eq!(after_a_dead_copy(&entry, 0, Server::Refused), Next::Wait { refused: true });
    assert_eq!(after_a_dead_copy(&entry, 2, Server::Unreachable), Next::Wait { refused: false });
}

#[test]
fn every_ended_download_is_judged_once() {
    let dead = failed(1, "Das.Boot");
    assert_eq!(judge(&dead, true, false, None), Judgement::Continue);
    assert_eq!(judge(&dead, true, true, None), Judgement::Wait);
    assert_eq!(judge(&dead, false, false, None), Judgement::Nothing);
    let orphan = Entry::default();
    assert_eq!(judge(&dead, false, false, Some(&orphan)), Judgement::Adopt);
    let decided = Entry {
        gave_up: true,
        ..Entry::default()
    };
    assert_eq!(judge(&dead, false, false, Some(&decided)), Judgement::Bury { forget: true });
    let cancelled = Ended {
        status: "DELETED/MANUAL".into(),
        ..failed(2, "El Sur")
    };
    assert_eq!(judge(&cancelled, true, false, None), Judgement::StopChasing);
    let done = Ended {
        succeeded: true,
        status: "SUCCESS/ALL".into(),
        ..failed(3, "El Sur")
    };
    assert_eq!(judge(&done, true, false, None), Judgement::Nothing);
}

#[test]
fn a_lost_download_is_chased_and_a_new_one_is_not() {
    assert_eq!(
        vanished(&[5, 6, 7, 8], &[5, 6, 7], &[6], &[7], &[]),
        vec![5],
        "8 started a moment ago, 6 is queued and 7 ended"
    );
    assert!(vanished(&[5], &[5], &[], &[], &[5]).is_empty(), "5 waits for the server");
}
