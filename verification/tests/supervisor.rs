use mamacine::supervisor::{is_plain_ascii, is_trouble, last_lines, lines_in};

#[test]
fn only_what_went_wrong_is_kept_once_nzbget_is_running() {
    assert!(is_trouble(
        "Wed Aug 19 2026 00:20:50 ERROR Could not bind socket"
    ));
    assert!(is_trouble(
        "Wed Aug 19 2026 00:20:50 WARNING Article download failed"
    ));
    assert!(!is_trouble(
        "Wed Aug 19 2026 00:20:50 INFO Download El Sur (1983) successful"
    ));
}

#[test]
fn the_end_of_its_log_is_what_says_why_it_stopped() {
    let text = "one\ntwo\n\nthree\nfour\n";
    assert_eq!(last_lines(text, 2), vec!["three", "four"]);
    assert_eq!(
        last_lines(text, 90),
        vec!["one", "two", "three", "four"],
        "a log shorter than the tail is the whole log, not a panic"
    );
    assert!(last_lines("", 10).is_empty());
}

#[test]
fn a_program_reached_through_a_name_with_an_accent_in_it_is_a_program_that_aborts() {
    assert!(!is_plain_ascii(
        r"C:\Users\María Esther\AppData\Local\Mamá Cine\nzbget.exe"
    ));
    assert!(is_plain_ascii(
        r"C:\ProgramData\com.fnune.mamacine\bin\nzbget.exe"
    ));
}

#[test]
fn lines_are_read_as_windows_and_unix_write_them() {
    assert_eq!(lines_in("a\r\nb\nc"), vec!["a", "b", "c"]);
    assert_eq!(lines_in("a\n\nb\n"), vec!["a", "", "b"]);
    assert!(lines_in("").is_empty());
    assert_eq!(last_lines("  \nFATAL end\r\n", 1), vec!["FATAL end"]);
    assert!(is_trouble("FATAL end"));
}

use mamacine::supervisor::{look_at_the_start, secret, worth_forwarding, Waiting};

#[test]
fn everything_is_kept_until_it_answers_and_only_trouble_after() {
    assert!(worth_forwarding(false, "INFO nzbget 24.3 server-mode"));
    assert!(!worth_forwarding(true, "INFO Download El Sur successful"));
    assert!(worth_forwarding(true, "ERROR disk full"));
}

#[test]
fn a_start_is_judged_by_what_the_downloader_does() {
    assert_eq!(look_at_the_start(false, true, None, false), Waiting::Answering);
    assert_eq!(look_at_the_start(false, false, Some(false), false), Waiting::ClosedAtOnce);
    assert_eq!(
        look_at_the_start(false, false, Some(true), false),
        Waiting::StillStarting { ended: true }
    );
    assert_eq!(
        look_at_the_start(false, false, Some(true), true),
        Waiting::StillStarting { ended: false }
    );
    assert_eq!(look_at_the_start(true, true, None, false), Waiting::NeverAnswered);
}

#[test]
fn the_control_password_is_eighteen_random_bytes_in_hexadecimal() {
    let one = secret().expect("a random source");
    let other = secret().expect("a random source");
    assert_eq!(one.len(), 36);
    assert!(one.chars().all(|c| c.is_ascii_hexdigit() && !c.is_ascii_uppercase()));
    assert_ne!(one, other);
}
