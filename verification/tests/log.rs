use mamacine::log::{civil_date, timestamp_of, Log};

#[test]
fn a_complaint_that_repeats_is_news_once() {
    let mut log = Log::open("/tmp/mama-cine-log-standing");
    let mut written = 0;
    for _ in 0..100 {
        if log.standing("progress", "cannot reach the downloader") {
            written += 1;
        }
    }
    if log.standing("progress", "the downloader refused the account") {
        written += 1;
    }
    if log.standing("disk", "cannot reach the downloader") {
        written += 1;
    }
    assert_eq!(written, 3);
    log.settled("progress");
    assert!(log.standing("progress", "the downloader refused the account"));
}

#[test]
fn the_log_lives_in_the_folder_it_was_opened_in() {
    let log = Log::open("/tmp/mama-cine-log");
    assert!(log.path().ends_with("mamacine.log"));
    assert_eq!(log.folder(), "/tmp/mama-cine-log");
    assert_eq!(log.path(), Log::path_in("/tmp/mama-cine-log"));
}

#[test]
fn a_line_says_who_is_speaking() {
    let log = Log::open("/tmp/mama-cine-log");
    assert_eq!(log.from("nzbget", "ERROR disk full"), "[nzbget] ERROR disk full");
}

#[test]
fn days_and_seconds_are_written_as_calendars_write_them() {
    assert_eq!(civil_date(0), (1970, 1, 1));
    assert_eq!(civil_date(19_723), (2024, 1, 1));
    assert_eq!(civil_date(19_782), (2024, 2, 29));
    assert_eq!(civil_date(-1), (1969, 12, 31));
    assert_eq!(timestamp_of(0), "1970-01-01 00:00:00Z");
    assert_eq!(timestamp_of(1_724_026_850), "2024-08-19 00:20:50Z");
}

#[test]
fn a_day_count_near_either_end_of_its_range_still_has_a_date() {
    let (_, month, day) = civil_date(i64::MAX - 719_468);
    assert!((1..=12).contains(&month) && (1..=31).contains(&day));
    let (_, month, day) = civil_date(i64::MIN);
    assert!((1..=12).contains(&month) && (1..=31).contains(&day));
}

#[test]
fn a_log_opened_in_a_plain_folder_lives_in_that_folder() {
    let plain = Log::open("C:\\Users\\ana");
    assert_eq!(plain.folder(), "C:\\Users\\ana");
    let dotted = Log::open("/tmp/mama-cine/.");
    assert!(dotted.path().starts_with(dotted.folder().as_str()));
    assert!(dotted.folder().len() < dotted.path().len());
}
