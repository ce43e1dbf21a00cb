//! What the chase decides when a copy dies: wait for the news server, give up, stop at the
//! allowance and keep the rest for her, or start the next copy; what each ended download the
//! downloader reports asks of it; and how it waits out an outage of the news server.

use crate::library::Entry;
use crate::orchestrator::{abandoned_deliberately, abandoned_deliberately_text, CHASE_LIMIT};
use crate::progress::{listed, Ended};
use vstd::prelude::*;

verus! {

/// What the downloader says of the news server, asked after a copy died.
#[derive(Clone, Copy, Debug, PartialEq, Eq, Structural)]
pub enum Server {
    Working,
    Refused,
    Unreachable,
    /// Nothing was learned.
    Unknown,
}

/// What happens to a film after one of its copies died.
#[derive(Clone, Copy, Debug, PartialEq, Eq, Structural)]
pub enum Next {
    /// The news server refuses or cannot be reached: a transient problem that never consumes
    /// the film. The chase waits and retries on its own.
    Wait { refused: bool },
    /// No copy is left to try.
    NoCopiesLeft,
    /// As many copies failed as she allows in a row: the rest are kept for her to try.
    Stop { untried: usize },
    /// The next copy is started.
    TryNext,
}

/// How many copies may fail in a row before the chase stops: her allowance, or the limit.
pub open spec fn allowed(allowance: usize) -> usize {
    if allowance == 0 {
        CHASE_LIMIT
    } else {
        allowance
    }
}

/// What happens to a film after a copy died, given its record, how many copies are left to
/// try, and what the downloader says of the news server.
pub open spec fn next_text(entry: Entry, left: usize, server: Server) -> Next {
    match server {
        Server::Refused => Next::Wait { refused: true },
        Server::Unreachable => Next::Wait { refused: false },
        _ => if left == 0 {
            Next::NoCopiesLeft
        } else if entry.attempt >= allowed(entry.allowance) {
            Next::Stop { untried: left }
        } else {
            Next::TryNext
        },
    }
}

/// What happens to a film after one of its copies died.
pub fn after_a_dead_copy(entry: &Entry, left: usize, server: Server) -> (r: Next)
    ensures
        r == next_text(*entry, left, server),
{
    match server {
        Server::Refused => Next::Wait { refused: true },
        Server::Unreachable => Next::Wait { refused: false },
        _ => {
            let allowance = if entry.allowance == 0 { CHASE_LIMIT } else { entry.allowance };
            if left == 0 {
                Next::NoCopiesLeft
            } else if entry.attempt >= allowance {
                Next::Stop { untried: left }
            } else {
                Next::TryNext
            }
        },
    }
}

/// A stop always keeps copies for her, so what it says never claims that every copy was
/// tried; and a next copy is only ever started under the allowance.
pub proof fn law_the_chase_is_capped_and_never_overclaims(entry: Entry, left: usize, server: Server)
    ensures
        next_text(entry, left, server) matches Next::Stop { untried } ==> untried > 0 && untried
            == left,
        next_text(entry, left, server) is TryNext ==> entry.attempt < allowed(entry.allowance)
            && left > 0,
        next_text(entry, left, server) is Wait ==> server == Server::Refused || server
            == Server::Unreachable,
{
}

/// The chase stops once the allowance is spent: with copies left and the server answering, or
/// saying nothing, a dead copy leads to the next while fewer copies than the allowance have
/// been tried, and from then on to a stop that keeps every copy left for her. So a film never
/// has more copies started than its allowance before she is asked, and never fewer than one.
pub proof fn law_the_chase_stops_once_the_allowance_is_spent(entry: Entry, left: usize, server: Server)
    requires
        left > 0,
        server == Server::Working || server == Server::Unknown,
    ensures
        allowed(entry.allowance) > 0,
        entry.attempt < allowed(entry.allowance) ==> next_text(entry, left, server) == Next::TryNext,
        entry.attempt >= allowed(entry.allowance) ==> next_text(entry, left, server) == (Next::Stop {
            untried: left,
        }),
{
}

/// What an ended download the downloader reports asks of the chase.
#[derive(Clone, Copy, Debug, PartialEq, Eq, Structural)]
pub enum Judgement {
    /// Nothing: it succeeded, or nobody remembers it.
    Nothing,
    /// She stopped it herself: carrying on behind her is the opposite of what she asked.
    StopChasing,
    /// Its chase waits for the news server.
    Wait,
    /// Already decided; only its leftovers go, and the downloader forgets it unless it settled.
    Bury { forget: bool },
    /// A failed copy nobody is handling: the chase takes it up from its record.
    Adopt,
    /// A failed copy whose chase is in hand: the chase goes on.
    Continue,
}

/// What an ended download asks of the chase, given whether its chase is in hand, whether it
/// waits for the news server, and its record.
pub open spec fn judgement_of(item: Ended, chasing: bool, waiting: bool, remembered: Option<Entry>) -> Judgement {
    if item.succeeded {
        Judgement::Nothing
    } else if abandoned_deliberately_text(item.status@) {
        Judgement::StopChasing
    } else if waiting {
        Judgement::Wait
    } else if chasing {
        Judgement::Continue
    } else {
        match remembered {
            None => Judgement::Nothing,
            Some(entry) => if entry.settled || entry.gave_up || entry.superseded_by is Some {
                Judgement::Bury { forget: !entry.settled }
            } else {
                Judgement::Adopt
            },
        }
    }
}

/// What an ended download asks of the chase.
pub fn judge(item: &Ended, chasing: bool, waiting: bool, remembered: Option<&Entry>) -> (r: Judgement)
    ensures
        r == judgement_of(
            *item,
            chasing,
            waiting,
            match remembered {
                Some(entry) => Some(*entry),
                None => None,
            },
        ),
{
    if item.succeeded {
        Judgement::Nothing
    } else if abandoned_deliberately(item.status.as_str()) {
        Judgement::StopChasing
    } else if waiting {
        Judgement::Wait
    } else if chasing {
        Judgement::Continue
    } else {
        match remembered {
            None => Judgement::Nothing,
            Some(entry) => if entry.settled || entry.gave_up || entry.superseded_by.is_some() {
                Judgement::Bury { forget: !entry.settled }
            } else {
                Judgement::Adopt
            },
        }
    }
}

/// Whether a chase in hand lost its download: it was tracked before this look, the downloader
/// lists it neither as queued nor as ended, and it is not waiting for the news server.
pub open spec fn lost(id: i64, before: Seq<i64>, queue: Seq<i64>, ended: Seq<i64>, waiting: Seq<i64>) -> bool {
    before.contains(id) && !queue.contains(id) && !ended.contains(id) && !waiting.contains(id)
}

/// The chases in hand whose downloads the downloader lost, in the order they are listed: a copy
/// it lost or rejected on arrival is chased like a dead one, never waited on forever. Only
/// chases tracked before this look count: one started a moment ago has not had time to appear.
pub fn vanished(chasing: &[i64], before: &[i64], queue: &[i64], ended: &[i64], waiting: &[i64]) -> (r: Vec<i64>)
    ensures
        r@ == chasing@.filter(|id: i64| lost(id, before@, queue@, ended@, waiting@)),
{
    let n = chasing.len();
    let mut r: Vec<i64> = Vec::new();
    let mut i: usize = 0;
    while i < n
        invariant
            n == chasing@.len(),
            i <= n,
            r@ == chasing@.take(i as int).filter(|id: i64| lost(id, before@, queue@, ended@, waiting@)),
        decreases n - i,
    {
        let id = chasing[i];
        assert(chasing@.take(i + 1).drop_last() =~= chasing@.take(i as int));
        reveal(Seq::filter);
        if listed(before, id) && !listed(queue, id) && !listed(ended, id) && !listed(waiting, id) {
            r.push(id);
        }
        i = i + 1;
    }
    assert(chasing@.take(n as int) =~= chasing@);
    r
}


/// What the news server last answered while it is down.
#[derive(Clone, Copy, Debug, PartialEq, Eq, Structural)]
pub enum Trouble {
    Refused,
    Unreachable,
}

/// The trouble a refusal, or an unreachable server, is.
pub open spec fn trouble_of(refused: bool) -> Trouble {
    if refused {
        Trouble::Refused
    } else {
        Trouble::Unreachable
    }
}

/// The chase while the news server is down: what it last answered, and the films whose chase
/// waits for it, each once, in the order they stalled.
pub struct Outage {
    pub trouble: Option<Trouble>,
    pub stalled: Vec<i64>,
}

/// What the chase does first on a look: carry on, wait for the next look, or ask the news
/// server whether it is back.
#[derive(Clone, Copy, Debug, PartialEq, Eq, Structural)]
pub enum Step {
    /// No trouble: the chase looks at the downloads.
    Proceed,
    /// The server is down and it is not time to ask again: nothing is done on this look.
    Wait,
    /// The server is down and it is time to ask it again; the time of asking is noted.
    Ask,
}

/// What the chase does first on a look, given the trouble and whether the time to ask the
/// server again has come.
pub open spec fn step_of(trouble: Option<Trouble>, due: bool) -> Step {
    if trouble is None {
        Step::Proceed
    } else if due {
        Step::Ask
    } else {
        Step::Wait
    }
}

/// The films that wait for the server once `id` stalls: the same, with `id` at the end unless it
/// already waits.
pub open spec fn stalled_with(stalled: Seq<i64>, id: i64) -> Seq<i64> {
    if stalled.contains(id) {
        stalled
    } else {
        stalled.push(id)
    }
}

/// What the server's answer, when asked during an outage, leads to.
pub struct Answered {
    /// The films whose chase goes on now, the server being back.
    pub resume: Vec<i64>,
    /// Whether the chase goes on to look at the downloads on this look.
    pub proceed: bool,
}

/// The trouble after the server answered: none once it works again, the new answer when it
/// still refuses or cannot be reached, and unchanged when nothing was learned.
pub open spec fn trouble_after(trouble: Option<Trouble>, server: Server) -> Option<Trouble> {
    match server {
        Server::Working => None,
        Server::Refused => Some(Trouble::Refused),
        Server::Unreachable => Some(Trouble::Unreachable),
        Server::Unknown => trouble,
    }
}

impl Outage {
    /// No outage: no trouble, nothing waiting.
    pub fn new() -> (r: Outage)
        ensures
            r.trouble is None,
            r.stalled@ == Seq::<i64>::empty(),
    {
        Outage { trouble: None, stalled: Vec::new() }
    }

    /// A film's chase waits for the news server, which refuses or cannot be reached. She is
    /// told only at the first word of an outage, never again while it lasts; the film waits
    /// once however often it stalls.
    pub fn stall(&mut self, id: i64, refused: bool) -> (told: bool)
        ensures
            told == first_word(old(self).trouble),
            final(self).trouble == Some(trouble_of(refused)),
            final(self).stalled@ == stalled_with(old(self).stalled@, id),
    {
        let told = self.trouble.is_none();
        self.trouble = Some(if refused { Trouble::Refused } else { Trouble::Unreachable });
        if !listed(self.stalled.as_slice(), id) {
            self.stalled.push(id);
        }
        told
    }

    /// What the chase does first on a look.
    pub fn before_chasing(&self, due: bool) -> (r: Step)
        ensures
            r == step_of(self.trouble, due),
    {
        match self.trouble {
            None => Step::Proceed,
            Some(_) => if due {
                Step::Ask
            } else {
                Step::Wait
            },
        }
    }

    /// The server answered when asked during an outage. Once it works again the trouble is
    /// over, every waiting film resumes, in the order it stalled, and the chase goes on; while
    /// it still refuses or cannot be reached, or when nothing was learned, everything waits.
    pub fn answered(&mut self, server: Server) -> (r: Answered)
        ensures
            final(self).trouble == trouble_after(old(self).trouble, server),
            r.proceed == (server == Server::Working),
            server == Server::Working ==> r.resume@ == old(self).stalled@ && final(self).stalled@
                == Seq::<i64>::empty(),
            server != Server::Working ==> r.resume@ == Seq::<i64>::empty() && final(self).stalled@
                == old(self).stalled@,
    {
        match server {
            Server::Working => {
                self.trouble = None;
                let mut resume: Vec<i64> = Vec::new();
                std::mem::swap(&mut resume, &mut self.stalled);
                Answered { resume, proceed: true }
            },
            Server::Refused => {
                self.trouble = Some(Trouble::Refused);
                Answered { resume: Vec::new(), proceed: false }
            },
            Server::Unreachable => {
                self.trouble = Some(Trouble::Unreachable);
                Answered { resume: Vec::new(), proceed: false }
            },
            Server::Unknown => Answered { resume: Vec::new(), proceed: false },
        }
    }
}

/// Whether a stall, with the chase in this trouble, is the first word of an outage.
pub open spec fn first_word(trouble: Option<Trouble>) -> bool {
    trouble is None
}

/// An outage, step by step: two films stall while the server is down, and then it works again.
/// She is told at the first stall only when no outage was under way, and never at the second;
/// while it is not time to ask, the chase does nothing; when the server works again both films
/// resume, each once, with every film that waited before them, and the next stall is told anew.
pub proof fn law_an_outage_is_told_once_and_the_chase_resumes(
    trouble: Option<Trouble>,
    stalled: Seq<i64>,
    one: i64,
    refused_one: bool,
    other: i64,
    refused_other: bool,
)
    ensures
        ({
            let after_one = Some(trouble_of(refused_one));
            let after_other = Some(trouble_of(refused_other));
            let waiting = stalled_with(stalled_with(stalled, one), other);
            &&& !first_word(after_one)
            &&& step_of(after_other, false) == Step::Wait
            &&& step_of(after_other, true) == Step::Ask
            &&& waiting.contains(one)
            &&& waiting.contains(other)
            &&& (forall|id: i64| stalled.contains(id) ==> waiting.contains(id))
            &&& (stalled.no_duplicates() ==> waiting.no_duplicates())
            &&& first_word(trouble_after(after_other, Server::Working))
            &&& step_of(trouble_after(after_other, Server::Working), false) == Step::Proceed
        }),
{
    law_an_outage_is_told_once_and_no_film_waits_twice(stalled, one, refused_one, Server::Working);
    law_an_outage_is_told_once_and_no_film_waits_twice(
        stalled_with(stalled, one),
        other,
        refused_other,
        Server::Working,
    );
}

/// An outage is told once: after a stall, no later stall tells her anything until the server
/// works again, and the first stall after that tells her anew. A film waits once however often
/// it stalls, every film that waited still waits, and while the server is down and it is not
/// time to ask, the chase does nothing.
pub proof fn law_an_outage_is_told_once_and_no_film_waits_twice(
    stalled: Seq<i64>,
    id: i64,
    refused: bool,
    server: Server,
)
    ensures
        !first_word(Some(trouble_of(refused))),
        server != Server::Working ==> !first_word(trouble_after(Some(trouble_of(refused)), server)),
        server == Server::Working ==> first_word(trouble_after(Some(trouble_of(refused)), server)),
        stalled.no_duplicates() ==> stalled_with(stalled, id).no_duplicates(),
        stalled_with(stalled, id).contains(id),
        forall|other: i64| stalled.contains(other) ==> stalled_with(stalled, id).contains(other),
        step_of(Some(trouble_of(refused)), false) == Step::Wait,
{
    if !stalled.contains(id) {
        assert(stalled_with(stalled, id) =~= stalled.push(id));
        assert(stalled.push(id)[stalled.len() as int] == id);
        assert forall|other: i64| stalled.contains(other) implies stalled.push(id).contains(other) by {
            let k = choose|k: int| 0 <= k < stalled.len() && stalled[k] == other;
            assert(stalled.push(id)[k] == other);
        }
    }
}


/// Trouble with the news server never consumes a film: whatever its record says and however
/// many copies are left, even none, a server that cannot be reached makes the chase wait, and
/// so does one that refuses, saying which it was. Only a server that answers, or says nothing,
/// lets a dead copy lead anywhere else.
pub proof fn law_server_trouble_never_consumes_the_film(entry: Entry, left: usize, server: Server)
    ensures
        next_text(entry, left, Server::Unreachable) == (Next::Wait { refused: false }),
        next_text(entry, left, Server::Refused) == (Next::Wait { refused: true }),
        next_text(entry, left, server) is Wait <==> (server == Server::Refused || server
            == Server::Unreachable),
        left == 0 && (server == Server::Working || server == Server::Unknown) ==> next_text(
            entry,
            left,
            server,
        ) == Next::NoCopiesLeft,
{
}

} // verus!
