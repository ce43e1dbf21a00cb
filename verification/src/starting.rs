//! Starting a download: the copies passed over on the way to the first that starts, each a line
//! of the film's story, what is said when none starts, and the record of the one that does.

use crate::chase::{next_text, Next, Server};
use crate::library::Entry;
use crate::orchestrator::CHASE_LIMIT;
use crate::text::Lang;
use crate::words::{decimal, decimal_of, joined2, joined5};
use vstd::prelude::*;

verus! {

/// Why a copy was passed over.
pub enum Passed {
    /// It does not fit on the disk: its size, the size as she reads it, and its title.
    NoRoom { size: u64, size_said: String, title: String },
    /// The indexer it came from is no longer in the settings.
    NoIndexer { url: String },
    /// It failed for good before, and is never spent again.
    Burned,
    /// Its file could not be fetched: what she is told, and the technical reason.
    NotFetched { said: String, why: String },
    /// A sample of it showed it beyond repair.
    Rotten,
    /// The downloader would not take it: what she is told, and the technical reason.
    NotTaken { said: String, why: String },
}

/// What passing copies over has come to: the size of the first that did not fit, the first
/// trouble worth telling her, and a line of the story for each copy passed over that she would
/// want to know about.
pub struct Starting {
    pub too_big: Option<u64>,
    pub trouble: Option<String>,
    pub skipped: Vec<(String, String)>,
}

/// The state of a start, as the proofs see it.
pub struct StartingModel {
    pub too_big: Option<u64>,
    pub trouble: Option<Seq<char>>,
    pub skipped: Seq<(Seq<char>, Seq<char>)>,
}

impl View for Starting {
    type V = StartingModel;

    open spec fn view(&self) -> StartingModel {
        StartingModel {
            too_big: self.too_big,
            trouble: match self.trouble {
                Some(trouble) => Some(trouble@),
                None => None,
            },
            skipped: self.skipped@.map_values(|line: (String, String)| (line.0@, line.1@)),
        }
    }
}

/// The first trouble stays the one she is told.
pub open spec fn first_trouble(trouble: Option<Seq<char>>, next: Seq<char>) -> Option<Seq<char>> {
    match trouble {
        Some(first) => Some(first),
        None => Some(next),
    }
}

/// What passing one more copy over makes of a start.
pub open spec fn passed_over_text(state: StartingModel, passed: Passed, lang: Lang) -> StartingModel {
    match passed {
        Passed::NoRoom { size, size_said, title } => StartingModel {
            too_big: match state.too_big {
                Some(first) => Some(first),
                None => Some(size),
            },
            skipped: state.skipped.push((lang.copy_discarded_for_space_text(size_said@), title@)),
            ..state
        },
        Passed::NoIndexer { url } => StartingModel {
            trouble: first_trouble(state.trouble, lang.indexer_gone_from_settings_text()),
            skipped: state.skipped.push(
                (lang.skipped_to_the_next_copy_text(), url@ + ": no configured indexer"@),
            ),
            ..state
        },
        Passed::Burned | Passed::Rotten => StartingModel {
            trouble: first_trouble(state.trouble, lang.no_working_copy_text()),
            ..state
        },
        Passed::NotFetched { said, why } | Passed::NotTaken { said, why } => StartingModel {
            trouble: first_trouble(state.trouble, said@),
            skipped: state.skipped.push((lang.skipped_to_the_next_copy_text(), why@)),
            ..state
        },
    }
}

impl Starting {
    /// A start before any copy was passed over.
    pub fn new() -> (r: Starting)
        ensures
            r@.too_big is None,
            r@.trouble is None,
            r@.skipped.len() == 0,
    {
        Starting { too_big: None, trouble: None, skipped: Vec::new() }
    }

    fn keep_first(&mut self, trouble: String)
        ensures
            final(self)@ == (StartingModel { trouble: first_trouble(old(self)@.trouble, trouble@), ..old(self)@ }),
    {
        if self.trouble.is_none() {
            self.trouble = Some(trouble);
        }
    }

    fn note(&mut self, said: String, why: String)
        ensures
            final(self)@ == (StartingModel { skipped: old(self)@.skipped.push((said@, why@)), ..old(self)@ }),
    {
        self.skipped.push((said, why));
        assert(self@.skipped =~= old(self)@.skipped.push((said@, why@)));
    }

    /// One more copy passed over.
    pub fn passed_over(&mut self, passed: Passed, lang: Lang)
        ensures
            final(self)@ == passed_over_text(old(self)@, passed, lang),
    {
        let ghost state = self@;
        match passed {
            Passed::NoRoom { size, size_said, title } => {
                if self.too_big.is_none() {
                    self.too_big = Some(size);
                }
                self.note(lang.copy_discarded_for_space(size_said.as_str()), title);
            },
            Passed::NoIndexer { url } => {
                self.keep_first(String::from_str(lang.indexer_gone_from_settings()));
                self.note(String::from_str(lang.skipped_to_the_next_copy()), joined2(url.as_str(), ": no configured indexer"));
            },
            Passed::Burned | Passed::Rotten => {
                self.keep_first(String::from_str(lang.no_working_copy()));
            },
            Passed::NotFetched { said, why } | Passed::NotTaken { said, why } => {
                self.keep_first(said);
                self.note(String::from_str(lang.skipped_to_the_next_copy()), why);
            },
        }
    }

    /// What she is told when no copy started: that the disk is full, with the room a copy needs
    /// and the room left, when a copy did not fit; else the first trouble; else that it could
    /// not start.
    pub fn failure(&self, needed: &str, free: &str, lang: Lang) -> (r: String)
        ensures
            r@ == (if self@.too_big is Some {
                lang.no_room_on_disk_text(needed@, free@)
            } else {
                match self@.trouble {
                    Some(trouble) => trouble,
                    None => lang.download_could_not_start_text(),
                }
            }),
    {
        if self.too_big.is_some() {
            return lang.no_room_on_disk(needed, free);
        }
        match &self.trouble {
            Some(trouble) => trouble.clone(),
            None => String::from_str(lang.download_could_not_start()),
        }
    }
}

/// Whether `r` is the record of a copy started from `seed`: one more copy tried, counting
/// `total` in all, and otherwise the same but for where it came from and its name.
pub open spec fn started_from(seed: Entry, r: Entry, total: usize) -> bool {
    &&& r.attempt == seed.attempt + 1
    &&& r.attempts_total == total
    &&& r == (Entry {
        attempt: r.attempt,
        source: r.source,
        attempts_total: total,
        filed_as: r.filed_as,
        ..seed
    })
}

/// The record of the copy that started, from the record of the film: one more copy tried, where
/// it came from, how many copies the chase may try, and the name the downloader files it under.
pub fn started(seed: Entry, source: &str, total: usize, name: &str) -> (r: Entry)
    requires
        seed.attempt < usize::MAX,
    ensures
        started_from(seed, r, total),
        r.source@ == source@,
        r.filed_as@ == name@,
{
    let mut entry = seed;
    entry.attempt = entry.attempt + 1;
    entry.source = String::from_str(source);
    entry.attempts_total = total;
    entry.filed_as = String::from_str(name);
    entry
}

/// Why a copy started, for the story: which try it is, out of how many, and which copy.
pub open spec fn attempt_why_text(attempt: nat, total: nat, title: Seq<char>) -> Seq<char> {
    "intento "@ + decimal(attempt) + " (de hasta "@ + decimal(total) + " copias): "@ + title
}

/// Why a copy started, for the story.
pub fn attempt_why(attempt: usize, total: usize, title: &str) -> (r: String)
    ensures
        r@ == attempt_why_text(attempt as nat, total as nat, title@),
{
    let tried = decimal_of(attempt as u64);
    let most = decimal_of(total as u64);
    let mut r = joined5("intento ", tried.as_str(), " (de hasta ", most.as_str(), " copias): ");
    r.append(title);
    r
}

/// Whether she can ask for more copies: the chase gave up, and copies were kept for her.
pub fn more_to_try(entry: &Entry, kept: usize) -> (r: bool)
    ensures
        r == (entry.gave_up && kept > 0),
{
    entry.gave_up && kept > 0
}

/// The record the chase carries on from when she asks for more copies: no longer given up nor
/// replaced, nothing counted as untried, and a fresh allowance of as many copies again as the
/// chase allows, with its story kept.
pub open spec fn carried_on(entry: Entry) -> Entry {
    Entry {
        gave_up: false,
        superseded_by: None,
        untried: 0,
        allowance: (entry.attempt + CHASE_LIMIT) as usize,
        ..entry
    }
}

/// The record the chase carries on from when she asks for more copies.
pub fn carrying_on(entry: Entry) -> (r: Entry)
    requires
        entry.attempt + CHASE_LIMIT <= usize::MAX,
    ensures
        r == carried_on(entry),
{
    let mut next = entry;
    next.gave_up = false;
    next.superseded_by = None;
    next.untried = 0;
    next.allowance = next.attempt + CHASE_LIMIT;
    next
}

/// How many copies the chase counts in all once she asks for more: what it counted before, or
/// the copies tried and kept, whichever is more.
pub open spec fn total_of(entry: Entry, kept: usize) -> usize {
    if entry.attempts_total > entry.attempt + kept {
        entry.attempts_total
    } else {
        (entry.attempt + kept) as usize
    }
}

/// How many copies the chase counts in all once she asks for more: what it counted before, or
/// the copies tried and kept, whichever is more.
pub fn total_with_more(entry: &Entry, kept: usize) -> (r: usize)
    requires
        entry.attempt + kept <= usize::MAX,
    ensures
        r == total_of(*entry, kept),
{
    let tried_and_kept = entry.attempt + kept;
    if entry.attempts_total > tried_and_kept {
        entry.attempts_total
    } else {
        tried_and_kept
    }
}


/// Asking for more copies after the chase gave up carries on where it stopped. The copy started
/// next is numbered after the
/// last one tried, keeps the story, and runs under a fresh allowance as large as the chase's
/// limit (twice the limit in all, when it gave up at the limit); it counts at least the copies
/// tried and kept. The chase then starts the next copy each time one dies until as many copies
/// again as its limit have been tried, and only then stops again, keeping the rest for her.
pub proof fn law_more_copies_carry_on_under_a_fresh_allowance(
    entry: Entry,
    kept: usize,
    next: Entry,
    tried: usize,
    left: usize,
)
    requires
        entry.attempt + CHASE_LIMIT <= usize::MAX,
        entry.attempt + kept <= usize::MAX,
        started_from(carried_on(entry), next, total_of(entry, kept)),
    ensures
        next.attempt == entry.attempt + 1,
        next.story == entry.story,
        !next.gave_up,
        next.superseded_by is None,
        next.allowance == entry.attempt + CHASE_LIMIT,
        entry.attempt == CHASE_LIMIT ==> next.allowance == 2 * CHASE_LIMIT,
        next.attempts_total >= entry.attempt + kept,
        left > 0 && tried < entry.attempt + CHASE_LIMIT ==> next_text(
            Entry { attempt: tried, ..next },
            left,
            Server::Working,
        ) == Next::TryNext,
        left > 0 && tried >= entry.attempt + CHASE_LIMIT ==> next_text(
            Entry { attempt: tried, ..next },
            left,
            Server::Working,
        ) == (Next::Stop { untried: left }),
{
}

} // verus!
