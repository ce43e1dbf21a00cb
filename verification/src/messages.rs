//! A failure, explained in the words of the person using the app, with the technical reason
//! kept beside the sentence rather than inside it.

use crate::std_calls::{char_uppercase, spec_char_uppercase};
use crate::text::{role_text, Lang};
use crate::words::same_text;
use vstd::prelude::*;

verus! {

/// What went wrong, as the services report it.
pub enum Failure {
    /// A service could not be reached at all.
    Unreachable { what: String, detail: String },
    /// A service answered with a refusal and a status code.
    Refused { what: String, status: u16, message: String },
    /// A service answered something that could not be read.
    Unreadable { what: String, detail: String },
    /// The app could not be set up; the text is already hers to read.
    Setup(String),
    /// This computer failed at something.
    Io(String),
}

/// A failure and the technical way it prints itself.
pub struct Reported {
    pub failure: Failure,
    /// What the failure says of itself, for the log and for whoever fixes the app.
    pub shown: String,
}

/// The sentence she reads, and the reason beside it.
pub struct Explained {
    pub said: String,
    pub why: String,
}

/// Whether a role is just "the internet", which names nobody.
pub open spec fn is_nobody(role: Seq<char>) -> bool {
    role == "internet"@ || role == "the internet"@
}

/// `text` with its first character raised.
pub open spec fn capitalised_text(text: Seq<char>) -> Seq<char> {
    if text.len() == 0 {
        Seq::empty()
    } else {
        spec_char_uppercase(text[0]) + text.drop_first()
    }
}

/// Who did something, as the subject of a sentence.
pub open spec fn subject_text(what: Seq<char>, lang: Lang) -> Seq<char> {
    if is_nobody(role_text(lang, what)) {
        lang.some_site_text()
    } else {
        capitalised_text(role_text(lang, what))
    }
}

/// What she is told about a failure.
pub open spec fn said_text(failure: Failure, lang: Lang) -> Seq<char> {
    match failure {
        Failure::Unreachable { what, .. } => if what@ == "nzbget"@ {
            lang.downloader_not_answering_text()
        } else if is_nobody(role_text(lang, what@)) {
            lang.no_connection_text()
        } else {
            lang.cannot_reach_text(role_text(lang, what@))
        },
        Failure::Refused { what, status, .. } => if status == 401 || status == 403 || (100 <= status
            && status <= 199) {
            lang.rejected_the_key_text(subject_text(what@, lang))
        } else if status == 429 {
            lang.too_many_requests_text(subject_text(what@, lang))
        } else {
            lang.refused_the_request_text(subject_text(what@, lang))
        },
        Failure::Unreadable { what, .. } => lang.answered_nonsense_text(subject_text(what@, lang)),
        Failure::Setup(message) => message@,
        Failure::Io(_) => lang.this_computer_failed_text(),
    }
}

/// `text` with its first character in capitals.
pub fn capitalised(text: &str) -> (r: String)
    ensures
        r@ == capitalised_text(text@),
{
    let n = text.unicode_len();
    if n == 0 {
        return String::new();
    }
    let mut r = char_uppercase(text.get_char(0));
    r.append(text.substring_char(1, n));
    assert(text@.subrange(1, n as int) =~= text@.drop_first());
    r
}

fn nobody(role: &str) -> (r: bool)
    ensures
        r == is_nobody(role@),
{
    same_text(role, "internet") || same_text(role, "the internet")
}

/// Who did something, as the subject of a sentence: the service by its role, or some site.
pub fn subject_of(what: &str, lang: Lang) -> (r: String)
    ensures
        r@ == subject_text(what@, lang),
{
    let role = lang.role(what);
    if nobody(role) {
        String::from_str(lang.some_site())
    } else {
        capitalised(role)
    }
}

/// A failure, said the way she can act on it, with what it says of itself kept as the reason.
pub fn explain(error: &Reported, lang: Lang) -> (r: Explained)
    ensures
        r.why@ == error.shown@,
        r.said@ == said_text(error.failure, lang),
{
    let why = error.shown.clone();
    let said = match &error.failure {
        Failure::Unreachable { what, .. } => {
            if same_text(what.as_str(), "nzbget") {
                String::from_str(lang.downloader_not_answering())
            } else {
                let role = lang.role(what.as_str());
                if nobody(role) {
                    String::from_str(lang.no_connection())
                } else {
                    lang.cannot_reach(role)
                }
            }
        },
        Failure::Refused { what, status, .. } => {
            let subject = subject_of(what.as_str(), lang);
            if *status == 401 || *status == 403 || (100 <= *status && *status <= 199) {
                lang.rejected_the_key(subject.as_str())
            } else if *status == 429 {
                lang.too_many_requests(subject.as_str())
            } else {
                lang.refused_the_request(subject.as_str())
            }
        },
        Failure::Unreadable { what, .. } => {
            let subject = subject_of(what.as_str(), lang);
            lang.answered_nonsense(subject.as_str())
        },
        Failure::Setup(message) => message.clone(),
        Failure::Io(_) => String::from_str(lang.this_computer_failed()),
    };
    Explained { said, why }
}

/// Whether two failures differ at most in their technical detail: the same kind, from the same
/// service, with the same status.
pub open spec fn same_but_detail(one: Failure, other: Failure) -> bool {
    match (one, other) {
        (Failure::Unreachable { what: a, .. }, Failure::Unreachable { what: b, .. }) => a@ == b@,
        (
            Failure::Refused { what: a, status: s, .. },
            Failure::Refused { what: b, status: t, .. },
        ) => a@ == b@ && s == t,
        (Failure::Unreadable { what: a, .. }, Failure::Unreadable { what: b, .. }) => a@ == b@,
        (Failure::Setup(a), Failure::Setup(b)) => a@ == b@,
        (Failure::Io(_), Failure::Io(_)) => true,
        _ => false,
    }
}

/// The technical reason is kept beside the sentence, never inside it: two failures that differ
/// only in their detail are told to her in the same words.
pub proof fn law_the_technical_reason_stays_out_of_the_sentence(one: Failure, other: Failure, lang: Lang)
    requires
        same_but_detail(one, other),
    ensures
        said_text(one, lang) == said_text(other, lang),
{
}

} // verus!
