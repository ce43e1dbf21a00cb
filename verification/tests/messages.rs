use mamacine::messages::{explain, Failure, Reported};
use mamacine::text::Lang;

fn refused(what: &str, status: u16, message: &str) -> Reported {
    Reported {
        failure: Failure::Refused {
            what: what.into(),
            status,
            message: message.into(),
        },
        shown: format!("{what} refused the request ({status}): {message}"),
    }
}

fn unreachable(what: &str, detail: &str) -> Reported {
    Reported {
        failure: Failure::Unreachable {
            what: what.into(),
            detail: detail.into(),
        },
        shown: format!("cannot reach {what}: {detail}"),
    }
}

#[test]
fn a_rejected_key_is_blamed_on_the_settings_not_on_the_copies() {
    let explained = explain(
        &refused("the indexer", 100, "Incorrect user credentials"),
        Lang::Es,
    );
    assert!(
        explained.said.contains("rechazado la clave"),
        "{}",
        explained.said
    );
    assert!(explained.said.contains("ajustes"), "{}", explained.said);
    assert!(explained.why.contains("Incorrect user credentials"));
}

#[test]
fn nothing_english_survives_into_what_she_reads() {
    let errors = [
        unreachable("api.nzbgeek.info", "connection refused"),
        refused("nzbget", 429, "too many requests"),
        Reported {
            failure: Failure::Unreadable {
                what: "the indexer".into(),
                detail: "expected value at line 1".into(),
            },
            shown: "the indexer sent something unreadable: expected value at line 1".into(),
        },
    ];
    for error in errors {
        let said = explain(&error, Lang::Es).said;
        for english in [
            "cannot",
            "refused",
            "request",
            "unreadable",
            "sent something",
        ] {
            assert!(!said.contains(english), "{said}");
        }
    }
}

#[test]
fn the_same_refusal_reads_in_english_for_an_english_interface() {
    let said = explain(&refused("the indexer", 401, "bad key"), Lang::En).said;
    assert!(said.contains("rejected the key"), "{said}");
}

#[test]
fn the_technical_reason_is_kept_beside_the_sentence_not_inside_it() {
    let explained = explain(&unreachable("news.eweka.nl", "dns error"), Lang::Es);
    assert!(!explained.said.contains("dns"), "{}", explained.said);
    assert!(explained.why.contains("dns error"));
}

#[test]
fn giving_up_says_how_many_were_tried_and_how_many_were_not() {
    let gave_up = |series, tried, untried| Lang::Es.gave_up(series, tried, untried);
    assert!(gave_up(false, 1, 0).contains("la única copia"));
    assert!(gave_up(false, 3, 0).contains("las 3 copias que había"));
    let capped = gave_up(false, 3, 4);
    assert!(capped.contains("he probado 3 copias"), "{capped}");
    assert!(capped.contains("quedan 4 sin probar"), "{capped}");
    assert!(!capped.contains("todo lo que había"), "{capped}");
    assert!(gave_up(true, 2, 0).contains("esta temporada"));
    assert!(!gave_up(true, 2, 0).contains("película"));
}

#[test]
fn the_downloader_not_answering_is_said_as_itself() {
    let explained = explain(&unreachable("nzbget", "connection refused"), Lang::Es);
    assert_eq!(explained.said, Lang::Es.downloader_not_answering());
    assert_eq!(explained.why, "cannot reach nzbget: connection refused");
}

#[test]
fn every_kind_of_failure_has_its_own_sentence() {
    let busy = explain(&refused("the indexer", 429, "slow down"), Lang::Es).said;
    assert_eq!(busy, Lang::Es.too_many_requests("El buscador"));
    let other = explain(&refused("the indexer", 500, "oops"), Lang::Es).said;
    assert_eq!(other, Lang::Es.refused_the_request("El buscador"));
    let setup = Reported {
        failure: Failure::Setup("Falta la carpeta de películas".into()),
        shown: "setup".into(),
    };
    assert_eq!(explain(&setup, Lang::Es).said, "Falta la carpeta de películas");
    let local = Reported {
        failure: Failure::Io("disk full".into()),
        shown: "disk full".into(),
    };
    assert_eq!(explain(&local, Lang::Es).said, Lang::Es.this_computer_failed());
}
