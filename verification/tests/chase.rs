use mamacine::chase::{Outage, Server, Step, Trouble};

#[test]
fn an_outage_is_told_once_and_every_waiting_film_resumes_when_the_server_is_back() {
    let mut outage = Outage::new();
    assert_eq!(outage.before_chasing(true), Step::Proceed);
    assert!(outage.stall(7, false), "the first word of an outage is said");
    assert!(!outage.stall(9, true), "and never again while it lasts");
    assert!(!outage.stall(7, false));
    assert_eq!(outage.stalled, vec![7, 9], "a film waits once");
    assert_eq!(outage.trouble, Some(Trouble::Unreachable));
    assert_eq!(outage.before_chasing(false), Step::Wait);
    assert_eq!(outage.before_chasing(true), Step::Ask);

    let still = outage.answered(Server::Refused);
    assert!(!still.proceed);
    assert!(still.resume.is_empty());
    assert_eq!(outage.trouble, Some(Trouble::Refused));
    let unknown = outage.answered(Server::Unknown);
    assert!(!unknown.proceed);
    assert_eq!(outage.trouble, Some(Trouble::Refused), "nothing learned, nothing changed");

    let back = outage.answered(Server::Working);
    assert!(back.proceed);
    assert_eq!(back.resume, vec![7, 9]);
    assert!(outage.stalled.is_empty());
    assert_eq!(outage.trouble, None);
    assert!(outage.stall(3, true), "a new outage is told anew");
}
