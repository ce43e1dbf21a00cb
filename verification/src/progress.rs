//! What the window and the tray are told about downloads: where each stands, which ended and
//! how, and which belong to a chase that is still deciding.

use crate::library::{Entry, Library, Note};
use crate::orchestrator::{abandoned_deliberately, abandoned_deliberately_text, shortened, shortened_text, TRAY_TITLE_LIMIT};
use crate::settings_file::opt_view;
use crate::text::{gave_up_text, Lang};
use crate::words::{joined3, joined5};
use vstd::prelude::*;

verus! {

/// Where a download in the downloader's queue stands.
#[derive(Clone, Copy, Debug, PartialEq, Eq, Structural)]
pub enum Status {
    Queued,
    Downloading,
    Verifying,
    Repairing,
    Unpacking,
    Moving,
    Paused,
    Finishing,
    /// Anything the downloader says that has no word of its own.
    Other,
}

/// The word the window is given for a status.
pub open spec fn status_text(status: Status) -> Seq<char> {
    match status {
        Status::Queued => "starting"@,
        Status::Downloading => "downloading"@,
        Status::Verifying => "verifying"@,
        Status::Repairing => "repairing"@,
        Status::Unpacking => "unpacking"@,
        Status::Moving => "moving"@,
        Status::Paused => "paused"@,
        Status::Finishing | Status::Other => "finishing"@,
    }
}

/// The word the window is given for a status: a paused download has its own, since "finishing"
/// over a stalled bar read as a fault of its own.
pub fn status_word(status: Status) -> (r: &'static str)
    ensures
        r@ == status_text(status),
{
    match status {
        Status::Queued => "starting",
        Status::Downloading => "downloading",
        Status::Verifying => "verifying",
        Status::Repairing => "repairing",
        Status::Unpacking => "unpacking",
        Status::Moving => "moving",
        Status::Paused => "paused",
        Status::Finishing | Status::Other => "finishing",
    }
}

/// The title a download is shown under: the one she knows it by, or the name the downloader
/// filed it under when there is none.
pub open spec fn title_text(remembered: Option<Entry>, name: Seq<char>) -> Seq<char> {
    match remembered {
        Some(entry) => if entry.title@.len() > 0 {
            entry.title@
        } else {
            name
        },
        None => name,
    }
}

fn title_of(remembered: Option<&Entry>, name: &str) -> (r: String)
    ensures
        r@ == title_text(
            match remembered {
                Some(entry) => Some(*entry),
                None => None,
            },
            name@,
        ),
{
    match remembered {
        Some(entry) => if entry.title.as_str().unicode_len() > 0 {
            entry.title.clone()
        } else {
            String::from_str(name)
        },
        None => String::from_str(name),
    }
}

/// One line of the tray for a download: its title, cut to fit, and what it is doing, with how
/// far along it is and how long it has left when it is downloading.
pub open spec fn tray_item_text(title: Seq<char>, status: Status, percent: Seq<char>, left: Seq<char>) -> Seq<char> {
    let shown = shortened_text(title, TRAY_TITLE_LIMIT as nat);
    match status {
        Status::Downloading => if left.len() == 0 {
            shown + " · "@ + percent
        } else {
            shown + " · "@ + percent + " · "@ + left
        },
        Status::Paused => shown + " · En pausa ("@ + percent + ")"@,
        Status::Queued => shown + " · Empezando la descarga"@,
        Status::Verifying => shown + " · Comprobando que está completa"@,
        Status::Repairing => shown + " · Arreglando lo que falta"@,
        Status::Unpacking => shown + " · Casi lista"@,
        Status::Moving => shown + " · Guardando"@,
        Status::Finishing | Status::Other => shown + " · Últimos detalles"@,
    }
}

/// One line of the tray for a download, given the record she knows it by, the name the
/// downloader filed it under, its status, how far along it is ("40 %") and how long it has left.
pub fn tray_item(remembered: Option<&Entry>, name: &str, status: Status, percent: &str, left: &str) -> (r: String)
    ensures
        r@ == tray_item_text(
            title_text(
                match remembered {
                    Some(entry) => Some(*entry),
                    None => None,
                },
                name@,
            ),
            status,
            percent@,
            left@,
        ),
{
    let title = title_of(remembered, name);
    let shown = shortened(title.as_str(), TRAY_TITLE_LIMIT);
    match status {
        Status::Downloading => if left.unicode_len() == 0 {
            joined3(shown.as_str(), " · ", percent)
        } else {
            joined5(shown.as_str(), " · ", percent, " · ", left)
        },
        Status::Paused => {
            let mut r = joined3(shown.as_str(), " · En pausa (", percent);
            r.append(")");
            r
        },
        Status::Queued => crate::words::joined2(shown.as_str(), " · Empezando la descarga"),
        Status::Verifying => crate::words::joined2(shown.as_str(), " · Comprobando que está completa"),
        Status::Repairing => crate::words::joined2(shown.as_str(), " · Arreglando lo que falta"),
        Status::Unpacking => crate::words::joined2(shown.as_str(), " · Casi lista"),
        Status::Moving => crate::words::joined2(shown.as_str(), " · Guardando"),
        Status::Finishing | Status::Other => crate::words::joined2(shown.as_str(), " · Últimos detalles"),
    }
}

/// A download the downloader has finished with, one way or the other.
pub struct Ended {
    pub id: i64,
    /// The name the downloader filed it under.
    pub name: String,
    /// The downloader's own word for how it ended: "SUCCESS/ALL", "DELETED/MANUAL".
    pub status: String,
    pub succeeded: bool,
}

/// A download that ended, as the window shows it.
pub struct Finished {
    pub id: i64,
    pub title: String,
    pub ok: bool,
    pub detail: String,
    pub subtitle_note: String,
    pub cover_url: Option<String>,
    pub year: Option<String>,
    pub series: bool,
    pub next_id: Option<i64>,
    /// It failed, but the app has not decided what to do yet: the screen must keep waiting
    /// rather than flash a failure that is about to be untrue.
    pub retrying: bool,
    pub attempt: usize,
    pub attempts_total: usize,
    /// Copies kept beyond the chase limit: what "probar más copias" would try.
    pub untried: usize,
    pub story: Vec<Note>,
}

/// Why nothing came of a record, when it gave up and nothing replaced it.
pub open spec fn detail_text(entry: Entry, lang: Lang) -> Seq<char> {
    if entry.gave_up && entry.superseded_by is None {
        gave_up_text(lang, entry.series, entry.attempt as nat, entry.untried as nat)
    } else {
        Seq::empty()
    }
}

/// What every card of an ended download carries over from its record.
pub open spec fn carries(f: Finished, entry: Entry, lang: Lang) -> bool {
    &&& f.detail@ == detail_text(entry, lang)
    &&& f.subtitle_note@ == entry.subtitle_note@
    &&& opt_view(f.cover_url) == opt_view(entry.cover_url)
    &&& opt_view(f.year) == opt_view(entry.year)
    &&& f.series == entry.series
    &&& f.next_id == entry.superseded_by
    &&& f.attempt == entry.attempt
    &&& f.attempts_total == entry.attempts_total
    &&& f.untried == entry.untried
    &&& f.story@ == entry.story@
}

/// The card for a download the downloader reports as ended, with the record she knows it by:
/// it failed but the chase is still deciding as long as the record neither gave up nor names a
/// successor, unless somebody ended it on purpose.
pub open spec fn ended_card(f: Finished, item: Ended, entry: Entry, known: bool, lang: Lang) -> bool {
    &&& f.id == item.id
    &&& f.title@ == (if entry.title@.len() > 0 { entry.title@ } else { item.name@ })
    &&& carries(f, entry, lang)
    &&& f.retrying == (known && !item.succeeded && !abandoned_deliberately_text(item.status@)
        && !entry.gave_up && entry.superseded_by is None)
    &&& f.ok == (item.succeeded && entry.superseded_by is None)
}

/// The card for a record the downloader has lost that is part of a chase: a failure the chase
/// has not finished deciding about, or one that gave up or was replaced.
pub open spec fn chain_card(f: Finished, id: i64, entry: Entry, lang: Lang) -> bool {
    &&& f.id == id
    &&& f.title@ == entry.title@
    &&& carries(f, entry, lang)
    &&& f.retrying == (!entry.gave_up && entry.superseded_by is None)
    &&& !f.ok
}

/// Whether a record the downloader no longer lists belongs to a chase the window follows.
pub open spec fn in_a_chain(entry: Entry, chasing: bool) -> bool {
    !entry.settled && (entry.superseded_by is Some || entry.gave_up || chasing)
}

fn copy_text(text: &Option<String>) -> (r: Option<String>)
    ensures
        opt_view(r) == opt_view(*text),
{
    match text {
        Some(t) => Some(t.clone()),
        None => None,
    }
}

fn copy_story(story: &Vec<Note>) -> (r: Vec<Note>)
    ensures
        r@ == story@,
{
    let n = story.len();
    let mut r: Vec<Note> = Vec::new();
    let mut i: usize = 0;
    while i < n
        invariant
            n == story@.len(),
            i <= n,
            r@ == story@.take(i as int),
        decreases n - i,
    {
        let note = &story[i];
        let copy = Note { at: note.at, said: note.said.clone(), why: note.why.clone() };
        assert(copy == story@[i as int]);
        r.push(copy);
        assert(story@.take(i + 1) =~= story@.take(i as int).push(story@[i as int]));
        i = i + 1;
    }
    assert(story@.take(n as int) =~= story@);
    r
}

fn detail_of(entry: &Entry, lang: Lang) -> (r: String)
    ensures
        r@ == detail_text(*entry, lang),
{
    if entry.gave_up && entry.superseded_by.is_none() {
        lang.gave_up(entry.series, entry.attempt, entry.untried)
    } else {
        String::new()
    }
}

fn ended_card_of(item: &Ended, entry: &Entry, known: bool, lang: Lang) -> (f: Finished)
    ensures
        ended_card(f, *item, *entry, known, lang),
{
    Finished {
        id: item.id,
        title: if entry.title.as_str().unicode_len() > 0 {
            entry.title.clone()
        } else {
            item.name.clone()
        },
        ok: item.succeeded && entry.superseded_by.is_none(),
        detail: detail_of(entry, lang),
        subtitle_note: entry.subtitle_note.clone(),
        cover_url: copy_text(&entry.cover_url),
        year: copy_text(&entry.year),
        series: entry.series,
        next_id: entry.superseded_by,
        retrying: known && !item.succeeded && !abandoned_deliberately(item.status.as_str())
            && !entry.gave_up && entry.superseded_by.is_none(),
        attempt: entry.attempt,
        attempts_total: entry.attempts_total,
        untried: entry.untried,
        story: copy_story(&entry.story),
    }
}

fn chain_card_of(id: i64, entry: &Entry, lang: Lang) -> (f: Finished)
    ensures
        chain_card(f, id, *entry, lang),
{
    Finished {
        id,
        title: entry.title.clone(),
        ok: false,
        detail: detail_of(entry, lang),
        subtitle_note: entry.subtitle_note.clone(),
        cover_url: copy_text(&entry.cover_url),
        year: copy_text(&entry.year),
        series: entry.series,
        next_id: entry.superseded_by,
        retrying: !entry.gave_up && entry.superseded_by.is_none(),
        attempt: entry.attempt,
        attempts_total: entry.attempts_total,
        untried: entry.untried,
        story: copy_story(&entry.story),
    }
}

pub(crate) fn listed(ids: &[i64], id: i64) -> (r: bool)
    ensures
        r == ids@.contains(id),
{
    let n = ids.len();
    let mut i: usize = 0;
    while i < n
        invariant
            n == ids@.len(),
            i <= n,
            forall|k: int| 0 <= k < i ==> ids@[k] != id,
        decreases n - i,
    {
        if ids[i] == id {
            assert(ids@[i as int] == id);
            return true;
        }
        i = i + 1;
    }
    false
}

/// The ids a history lists.
pub open spec fn ended_ids(history: Seq<Ended>) -> Seq<i64> {
    history.map_values(|item: Ended| item.id)
}

/// Whether `card` is the card for `item`, given the records: with its record, or with a fresh
/// one when there is none.
pub open spec fn card_for(card: Finished, item: Ended, library: Map<i64, Entry>, lang: Lang) -> bool {
    if library.contains_key(item.id) {
        ended_card(card, item, library[item.id], true, lang)
    } else {
        exists|blank: Entry|
            crate::library::fresh(blank) && blank.story@.len() == 0 && ended_card(card, item, blank, false, lang)
    }
}

/// Whether the card for a record the downloader no longer lists is due: it is part of a chase,
/// and neither the queue nor the history lists it.
pub open spec fn chain_due(
    library: Map<i64, Entry>,
    id: i64,
    queue: Seq<i64>,
    ended: Seq<i64>,
    chasing: Seq<i64>,
) -> bool {
    &&& library.contains_key(id)
    &&& !queue.contains(id)
    &&& !ended.contains(id)
    &&& in_a_chain(library[id], chasing.contains(id))
}

fn history_cards(history: &[Ended], library: &Library, lang: Lang) -> (r: Vec<Finished>)
    requires
        library.wf(),
    ensures
        r@.len() == history@.len(),
        forall|k: int| 0 <= k < r@.len() ==> card_for(#[trigger] r@[k], history@[k], library@, lang),
        forall|k: int| 0 <= k < r@.len() ==> (#[trigger] r@[k]).retrying ==> !r@[k].ok,
{
    let mut cards: Vec<Finished> = Vec::new();
    let n = history.len();
    let mut i: usize = 0;
    while i < n
        invariant
            n == history@.len(),
            library.wf(),
            i <= n,
            cards@.len() == i,
            forall|k: int| 0 <= k < i ==> card_for(#[trigger] cards@[k], history@[k], library@, lang),
            forall|k: int| 0 <= k < i ==> (#[trigger] cards@[k]).retrying ==> !cards@[k].ok,
        decreases n - i,
    {
        let item = &history[i];
        let card = match library.get(item.id) {
            Some(entry) => ended_card_of(item, entry, true, lang),
            None => {
                let blank = Entry::default();
                let card = ended_card_of(item, &blank, false, lang);
                assert(crate::library::fresh(blank) && blank.story@.len() == 0 && ended_card(card, *item, blank, false, lang));
                card
            },
        };
        assert(card_for(card, *item, library@, lang));
        let ghost before = cards@;
        cards.push(card);
        assert(forall|k: int| 0 <= k < i ==> cards@[k] == before[k]);
        i = i + 1;
    }
    cards
}

fn chain_cards(library: &Library, queue: &[i64], ended: &[i64], chasing: &[i64], lang: Lang) -> (r: Vec<Finished>)
    requires
        library.wf(),
    ensures
        forall|k: int|
            0 <= k < r@.len() ==> chain_due(library@, #[trigger] r@[k].id, queue@, ended@, chasing@)
                && chain_card(r@[k], r@[k].id, library@[r@[k].id], lang),
        forall|id: i64|
            chain_due(library@, id, queue@, ended@, chasing@) ==> exists|k: int|
                0 <= k < r@.len() && #[trigger] r@[k].id == id,
        forall|a: int, b: int| 0 <= a < b < r@.len() ==> r@[a].id > r@[b].id,
{
    let records = library.all();
    let m = records.len();
    let mut cards: Vec<Finished> = Vec::new();
    let mut j: usize = 0;
    while j < m
        invariant
            m == records@.len(),
            j <= m,
            forall|k: int| 0 <= k < records@.len() ==> library@.contains_key(#[trigger] records@[k].0) && library@[records@[k].0] == *records@[k].1,
            forall|a: int, b: int| 0 <= a < b < records@.len() ==> records@[a].0 > records@[b].0,
            forall|k: int|
                0 <= k < cards@.len() ==> chain_due(library@, #[trigger] cards@[k].id, queue@, ended@, chasing@)
                    && chain_card(cards@[k], cards@[k].id, library@[cards@[k].id], lang),
            forall|k: int|
                0 <= k < cards@.len() ==> exists|p: int| 0 <= p < j && records@[p].0 == #[trigger] cards@[k].id,
            forall|p: int|
                0 <= p < j && chain_due(library@, #[trigger] records@[p].0, queue@, ended@, chasing@) ==> exists|k: int|
                    0 <= k < cards@.len() && #[trigger] cards@[k].id == records@[p].0,
            forall|a: int, b: int| 0 <= a < b < cards@.len() ==> cards@[a].id > cards@[b].id,
        decreases m - j,
    {
        let (id, entry) = records[j];
        let chasing_it = listed(chasing, id);
        let due = !entry.settled && !listed(queue, id) && !listed(ended, id)
            && (entry.superseded_by.is_some() || entry.gave_up || chasing_it);
        assert(library@.contains_key(id) && library@[id] == *entry);
        assert(due == chain_due(library@, id, queue@, ended@, chasing@));
        if due {
            let card = chain_card_of(id, entry, lang);
            let ghost before = cards@;
            cards.push(card);
            proof {
                assert(forall|k: int| 0 <= k < before.len() ==> cards@[k] == before[k]);
                assert forall|a: int, b: int| 0 <= a < b < cards@.len() implies cards@[a].id > cards@[b].id by {
                    if b == before.len() {
                        assert(cards@[a] == before[a]);
                        let p = choose|p: int| 0 <= p < j && records@[p].0 == before[a].id;
                        assert(records@[p].0 > records@[j as int].0);
                    }
                }
                assert forall|k: int| 0 <= k < cards@.len() implies exists|p: int| 0 <= p < j + 1 && records@[p].0 == #[trigger] cards@[k].id by {
                    if k < before.len() {
                        assert(cards@[k] == before[k]);
                        let p = choose|p: int| 0 <= p < j && records@[p].0 == before[k].id;
                        assert(records@[p].0 == cards@[k].id);
                    } else {
                        assert(records@[j as int].0 == cards@[k].id);
                    }
                }
                assert forall|p: int|
                    0 <= p < j + 1 && chain_due(library@, #[trigger] records@[p].0, queue@, ended@, chasing@) implies exists|k: int|
                        0 <= k < cards@.len() && #[trigger] cards@[k].id == records@[p].0 by {
                    if p < j {
                        let k = choose|k: int| 0 <= k < before.len() && before[k].id == records@[p].0;
                        assert(cards@[k] == before[k]);
                        assert(cards@[k].id == records@[p].0);
                    } else {
                        assert(cards@[before.len() as int].id == records@[p].0);
                    }
                }
            }
        }
        j = j + 1;
    }
    proof {
        assert forall|id: i64| chain_due(library@, id, queue@, ended@, chasing@) implies exists|k: int|
            0 <= k < cards@.len() && #[trigger] cards@[k].id == id by {
            let p = choose|p: int| 0 <= p < records@.len() && #[trigger] records@[p].0 == id;
            assert(chain_due(library@, records@[p].0, queue@, ended@, chasing@));
        }
    }
    cards
}

/// The ended downloads the window shows: one card for each the downloader reports, in its
/// order, each with its record, or a fresh one when there is none; then, newest first, a card
/// for each record the downloader has lost that is still part of a chase, so a vanished id never
/// breaks the chain the window follows. `queue` is what is still downloading, `chasing` the
/// downloads whose chase is in hand. A card that is still deciding never reads as done.
pub fn finished(history: &[Ended], library: &Library, queue: &[i64], chasing: &[i64], lang: Lang) -> (r: Vec<Finished>)
    requires
        library.wf(),
    ensures
        r@.len() >= history@.len(),
        forall|k: int| 0 <= k < history@.len() ==> card_for(#[trigger] r@[k], history@[k], library@, lang),
        forall|k: int|
            history@.len() <= k < r@.len() ==> chain_due(library@, #[trigger] r@[k].id, queue@, ended_ids(history@), chasing@)
                && chain_card(r@[k], r@[k].id, library@[r@[k].id], lang),
        forall|id: i64|
            chain_due(library@, id, queue@, ended_ids(history@), chasing@) ==> exists|k: int|
                history@.len() <= k < r@.len() && #[trigger] r@[k].id == id,
        forall|a: int, b: int| history@.len() <= a < b < r@.len() ==> r@[a].id > r@[b].id,
        forall|k: int| 0 <= k < r@.len() ==> (#[trigger] r@[k]).retrying ==> !r@[k].ok,
{
    let mut cards = history_cards(history, library, lang);
    let n = history.len();
    let mut ended: Vec<i64> = Vec::new();
    let mut i: usize = 0;
    while i < n
        invariant
            n == history@.len(),
            i <= n,
            ended@ == ended_ids(history@.take(i as int)),
        decreases n - i,
    {
        ended.push(history[i].id);
        assert(ended_ids(history@.take(i + 1)) =~= ended_ids(history@.take(i as int)).push(history@[i as int].id));
        i = i + 1;
    }
    assert(history@.take(n as int) =~= history@);
    let mut chain = chain_cards(library, queue, ended.as_slice(), chasing, lang);
    let ghost first = cards@;
    let ghost rest = chain@;
    cards.append(&mut chain);
    proof {
        assert(cards@ == first + rest);
        assert forall|k: int| 0 <= k < history@.len() implies card_for(#[trigger] cards@[k], history@[k], library@, lang) by {
            assert(cards@[k] == first[k]);
        }
        assert forall|k: int|
            history@.len() <= k < cards@.len() implies chain_due(library@, #[trigger] cards@[k].id, queue@, ended_ids(history@), chasing@)
                && chain_card(cards@[k], cards@[k].id, library@[cards@[k].id], lang) by {
            assert(cards@[k] == rest[k - n]);
        }
        assert forall|id: i64|
            chain_due(library@, id, queue@, ended_ids(history@), chasing@) implies exists|k: int|
                history@.len() <= k < cards@.len() && #[trigger] cards@[k].id == id by {
            let k = choose|k: int| 0 <= k < rest.len() && #[trigger] rest[k].id == id;
            assert(cards@[n + k] == rest[k]);
        }
        assert forall|a: int, b: int| history@.len() <= a < b < cards@.len() implies cards@[a].id > cards@[b].id by {
            assert(cards@[a] == rest[a - n]);
            assert(cards@[b] == rest[b - n]);
        }
        assert forall|k: int| 0 <= k < cards@.len() implies (#[trigger] cards@[k]).retrying ==> !cards@[k].ok by {
            if k < n {
                assert(cards@[k] == first[k]);
            } else {
                assert(cards@[k] == rest[k - n]);
            }
        }
    }
    cards
}

/// Whether the chase at `k` is the first one started with `key`.
pub open spec fn first_chase(chases: Seq<(i64, &str)>, key: Seq<char>, k: int) -> bool {
    0 <= k < chases.len() && chases[k].1@ == key && forall|j: int| 0 <= j < k ==> chases[j].1@ != key
}

/// Whether the queued download `id` is one whose unfinished record has `key`.
pub open spec fn queued_for(library: Map<i64, Entry>, key: Seq<char>, id: i64) -> bool {
    library.contains_key(id) && library[id].key@ == key && !library[id].settled
}

/// Whether the download at `k` in the queue is the first one fetching `key`.
pub open spec fn first_queued(library: Map<i64, Entry>, ids: Seq<i64>, key: Seq<char>, k: int) -> bool {
    0 <= k < ids.len() && queued_for(library, key, ids[k]) && forall|j: int|
        0 <= j < k ==> !queued_for(library, key, #[trigger] ids[j])
}

/// Which download already fetches `key`: the first whose chase is in hand with a record
/// started for that key, or else the first in the queue whose unfinished record has that key.
/// `queue` is nothing when the downloader could not be asked.
pub fn in_flight(key: &str, chases: &[(i64, &str)], queue: Option<&[i64]>, library: &Library) -> (r: Option<i64>)
    requires
        library.wf(),
    ensures
        (exists|k: int| first_chase(chases@, key@, k)) ==> (r matches Some(id) && exists|k: int|
            first_chase(chases@, key@, k) && chases@[k].0 == id),
        !(exists|k: int| first_chase(chases@, key@, k)) ==> match queue {
            None => r is None,
            Some(ids) => match r {
                Some(id) => exists|k: int| first_queued(library@, ids@, key@, k) && ids@[k] == id,
                None => forall|k: int| 0 <= k < ids@.len() ==> !queued_for(library@, key@, #[trigger] ids@[k]),
            },
        },
{
    let n = chases.len();
    let mut i: usize = 0;
    while i < n
        invariant
            n == chases@.len(),
            i <= n,
            forall|k: int| 0 <= k < i ==> chases@[k].1@ != key@,
        decreases n - i,
    {
        if crate::words::same_text(chases[i].1, key) {
            assert(first_chase(chases@, key@, i as int));
            proof {
                assert forall|k: int| first_chase(chases@, key@, k) implies k == i by {
                    if k < i {
                    } else if k > i {
                        assert(chases@[i as int].1@ != key@);
                    }
                }
            }
            return Some(chases[i].0);
        }
        i = i + 1;
    }
    match queue {
        None => None,
        Some(ids) => first_queued_of(key, ids, library),
    }
}

fn first_queued_of(key: &str, ids: &[i64], library: &Library) -> (r: Option<i64>)
    requires
        library.wf(),
    ensures
        match r {
            Some(id) => exists|k: int| first_queued(library@, ids@, key@, k) && ids@[k] == id,
            None => forall|k: int| 0 <= k < ids@.len() ==> !queued_for(library@, key@, #[trigger] ids@[k]),
        },
{
    let m = ids.len();
    let mut j: usize = 0;
    while j < m
        invariant
            m == ids@.len(),
            library.wf(),
            j <= m,
            forall|k: int| 0 <= k < j ==> !queued_for(library@, key@, #[trigger] ids@[k]),
        decreases m - j,
    {
        match library.get(ids[j]) {
            Some(entry) => {
                if crate::words::same_text(entry.key.as_str(), key) && !entry.settled {
                    assert(first_queued(library@, ids@, key@, j as int));
                    return Some(ids[j]);
                }
            },
            None => {},
        }
        j = j + 1;
    }
    None
}


proof fn lemma_a_first_chase(chases: Seq<(i64, &str)>, key: Seq<char>, j: int)
    requires
        0 <= j < chases.len(),
        chases[j].1@ == key,
    ensures
        exists|k: int| first_chase(chases, key, k),
    decreases j,
{
    if exists|i: int| 0 <= i < j && chases[i].1@ == key {
        let i = choose|i: int| 0 <= i < j && chases[i].1@ == key;
        lemma_a_first_chase(chases, key, i);
    } else {
        assert(first_chase(chases, key, j));
    }
}

proof fn lemma_a_first_queued(library: Map<i64, Entry>, ids: Seq<i64>, key: Seq<char>, j: int)
    requires
        0 <= j < ids.len(),
        queued_for(library, key, ids[j]),
    ensures
        exists|k: int| first_queued(library, ids, key, k),
    decreases j,
{
    if exists|i: int| 0 <= i < j && queued_for(library, key, ids[i]) {
        let i = choose|i: int| 0 <= i < j && queued_for(library, key, ids[i]);
        lemma_a_first_queued(library, ids, key, i);
    } else {
        assert(first_queued(library, ids, key, j));
    }
}

/// Pressing download again follows the download already running for that title rather than
/// starting a second: once a chase in hand was started with the title's key, there is a first
/// such chase, which `in_flight` answers; and once a queued download's unfinished record carries
/// the key, there is a first such download, which it answers when no chase has the key.
pub proof fn law_pressing_download_again_follows_the_running_download(
    chases: Seq<(i64, &str)>,
    library: Map<i64, Entry>,
    ids: Seq<i64>,
    key: Seq<char>,
    j: int,
)
    ensures
        0 <= j < chases.len() && chases[j].1@ == key ==> exists|k: int| first_chase(chases, key, k),
        0 <= j < ids.len() && queued_for(library, key, ids[j]) ==> exists|k: int|
            first_queued(library, ids, key, k),
{
    if 0 <= j < chases.len() && chases[j].1@ == key {
        lemma_a_first_chase(chases, key, j);
    }
    if 0 <= j < ids.len() && queued_for(library, key, ids[j]) {
        lemma_a_first_queued(library, ids, key, j);
    }
}


/// Whether `text` ends with `tail`.
pub open spec fn ends_with(text: Seq<char>, tail: Seq<char>) -> bool {
    tail.len() <= text.len() && text.skip(text.len() - tail.len()) == tail
}

proof fn lemma_ends_with(front: Seq<char>, tail: Seq<char>)
    ensures
        ends_with(front + tail, tail),
        (front + tail).take(front.len() as int) == front,
{
    assert((front + tail).skip(front.len() as int) =~= tail);
    assert((front + tail).take(front.len() as int) =~= front);
}

/// A tray line opens with the title she knows, cut to fit, and ends in what the download is
/// doing, each status in its own words: the percentage and the time left while downloading,
/// "Arreglando lo que falta" while missing parts are repaired, "Casi lista" while unpacking, and
/// so on; a paused one says so with how far it got.
pub proof fn law_a_tray_line_says_what_the_download_is_doing(
    title: Seq<char>,
    status: Status,
    percent: Seq<char>,
    left: Seq<char>,
)
    ensures
        ({
            let line = tray_item_text(title, status, percent, left);
            let shown = shortened_text(title, TRAY_TITLE_LIMIT as nat);
            &&& line.take(shown.len() as int) == shown
            &&& status == Status::Downloading && left.len() == 0 ==> ends_with(
                line,
                " · "@ + percent,
            )
            &&& status == Status::Downloading && left.len() > 0 ==> ends_with(line, " · "@ + left)
            &&& status == Status::Paused ==> ends_with(line, " · En pausa ("@ + percent + ")"@)
            &&& status == Status::Queued ==> ends_with(line, " · Empezando la descarga"@)
            &&& status == Status::Verifying ==> ends_with(line, " · Comprobando que está completa"@)
            &&& status == Status::Repairing ==> ends_with(line, " · Arreglando lo que falta"@)
            &&& status == Status::Unpacking ==> ends_with(line, " · Casi lista"@)
            &&& status == Status::Moving ==> ends_with(line, " · Guardando"@)
            &&& (status == Status::Finishing || status == Status::Other) ==> ends_with(
                line,
                " · Últimos detalles"@,
            )
        }),
{
    let shown = shortened_text(title, TRAY_TITLE_LIMIT as nat);
    match status {
        Status::Downloading => {
            if left.len() == 0 {
                assert(shown + " · "@ + percent =~= shown + (" · "@ + percent));
                lemma_ends_with(shown, " · "@ + percent);
            } else {
                let front = shown + " · "@ + percent;
                assert(front + " · "@ + left =~= front + (" · "@ + left));
                lemma_ends_with(front, " · "@ + left);
                assert((front + (" · "@ + left)).take(shown.len() as int) =~= shown);
            }
        },
        Status::Paused => {
            assert(shown + " · En pausa ("@ + percent + ")"@ =~= shown + (" · En pausa ("@ + percent
                + ")"@));
            lemma_ends_with(shown, " · En pausa ("@ + percent + ")"@);
        },
        Status::Queued => lemma_ends_with(shown, " · Empezando la descarga"@),
        Status::Verifying => lemma_ends_with(shown, " · Comprobando que está completa"@),
        Status::Repairing => lemma_ends_with(shown, " · Arreglando lo que falta"@),
        Status::Unpacking => lemma_ends_with(shown, " · Casi lista"@),
        Status::Moving => lemma_ends_with(shown, " · Guardando"@),
        _ => lemma_ends_with(shown, " · Últimos detalles"@),
    }
}

} // verus!
