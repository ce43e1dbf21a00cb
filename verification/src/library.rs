//! Her films as the app remembers them between runs: a record for each download, keyed by the
//! downloader's id, and the copies that must never be spent again.

use crate::std_calls::{alphanumeric, lowercase, spec_alphanumeric, spec_lowercase};
use crate::text::Lang;
use crate::words::{contains_text, has_text, is_space, joined2, same_text, space_char, trim_text, trimmed};
use vstd::prelude::*;

verus! {

/// The version stamped on the library file this app writes.
pub const LIBRARY_VERSION: u32 = 3;

/// One line of a download's story: when, what she was told, and why.
#[derive(Clone, Debug)]
pub struct Note {
    pub at: i64,
    pub said: String,
    pub why: String,
}

/// What is remembered about one download.
#[derive(Clone, Debug)]
pub struct Entry {
    pub story: Vec<Note>,
    pub title: String,
    pub year: Option<String>,
    pub cover_url: Option<String>,
    pub imdb: Option<String>,
    pub subtitle_files: Vec<String>,
    pub series: bool,
    pub seasons: Option<(u32, u32)>,
    /// The download finished and was looked after.
    pub settled: bool,
    pub subtitle_note: String,
    /// What it is, whichever copy it came from: "imdb:82096".
    pub key: String,
    pub folder: Option<String>,
    pub file: Option<String>,
    pub attempt: usize,
    pub attempts_total: usize,
    pub superseded_by: Option<i64>,
    pub gave_up: bool,
    pub filed_as: String,
    pub untried: usize,
    pub allowance: usize,
    pub source: String,
    /// Replaced by another copy, or released because a newer record holds its folder.
    pub retired: bool,
    pub replaces: Option<i64>,
}

/// Whether `entry` is what a new record starts as, whatever its story.
pub open spec fn fresh(entry: Entry) -> bool {
    &&& entry.title@.len() == 0
    &&& entry.year is None
    &&& entry.cover_url is None
    &&& entry.imdb is None
    &&& entry.subtitle_files@.len() == 0
    &&& !entry.series
    &&& entry.seasons is None
    &&& !entry.settled
    &&& entry.subtitle_note@.len() == 0
    &&& entry.key@.len() == 0
    &&& entry.folder is None
    &&& entry.file is None
    &&& entry.attempt == 0
    &&& entry.attempts_total == 0
    &&& entry.superseded_by is None
    &&& !entry.gave_up
    &&& entry.filed_as@.len() == 0
    &&& entry.untried == 0
    &&& entry.allowance == 0
    &&& entry.source@.len() == 0
    &&& !entry.retired
    &&& entry.replaces is None
}

impl Default for Entry {
    fn default() -> (r: Entry)
        ensures
            fresh(r),
            r.story@.len() == 0,
    {
        Entry {
            story: Vec::new(),
            title: String::new(),
            year: None,
            cover_url: None,
            imdb: None,
            subtitle_files: Vec::new(),
            series: false,
            seasons: None,
            settled: false,
            subtitle_note: String::new(),
            key: String::new(),
            folder: None,
            file: None,
            attempt: 0,
            attempts_total: 0,
            superseded_by: None,
            gave_up: false,
            filed_as: String::new(),
            untried: 0,
            allowance: 0,
            source: String::new(),
            retired: false,
            replaces: None,
        }
    }
}

/// Whether `folder` is one of the folders found on the disk.
pub open spec fn on_disk(existing: Seq<&str>, folder: Seq<char>) -> bool {
    exists|j: int| 0 <= j < existing.len() && existing[j]@ == folder
}

/// Whether `entry` is on her shelf: finished, not replaced, and its folder still on the disk.
pub open spec fn shelved(entry: Entry, existing: Seq<&str>) -> bool {
    &&& !entry.retired
    &&& entry.settled
    &&& entry.folder matches Some(folder) && on_disk(existing, folder@)
}

fn found_on_disk(existing: &[&str], folder: &str) -> (r: bool)
    ensures
        r == on_disk(existing@, folder@),
{
    let n = existing.len();
    let mut j: usize = 0;
    while j < n
        invariant
            n == existing@.len(),
            j <= n,
            forall|k: int| 0 <= k < j ==> existing@[k]@ != folder@,
        decreases n - j,
    {
        if same_text(existing[j], folder) {
            return true;
        }
        j = j + 1;
    }
    false
}

impl Entry {
    /// Whether this film is on her shelf, given the folders that are on the disk.
    pub fn present(&self, existing: &[&str]) -> (r: bool)
        ensures
            r == shelved(*self, existing@),
    {
        if self.retired || !self.settled {
            return false;
        }
        match &self.folder {
            Some(folder) => found_on_disk(existing, folder.as_str()),
            None => false,
        }
    }
}

/// The records, newest first: every id once, each smaller than the one before.
pub open spec fn newest_first(records: Seq<(i64, Entry)>) -> bool {
    forall|i: int, j: int| 0 <= i < j < records.len() ==> records[i].0 > records[j].0
}

/// Whether some record has this id.
pub open spec fn has_id(records: Seq<(i64, Entry)>, id: i64) -> bool {
    exists|k: int| 0 <= k < records.len() && records[k].0 == id
}

/// The records as a map from id to entry.
pub open spec fn as_map(records: Seq<(i64, Entry)>) -> Map<i64, Entry> {
    Map::new(
        |id: i64| has_id(records, id),
        |id: i64| records[choose|k: int| 0 <= k < records.len() && records[k].0 == id].1,
    )
}

/// The library: the records kept in memory, the copies that are burned, and the problem that
/// stopped the file from being read, if one did.
pub struct Library {
    records: Vec<(i64, Entry)>,
    burned: Vec<String>,
    problem: Option<String>,
}

impl View for Library {
    type V = Map<i64, Entry>;

    closed spec fn view(&self) -> Map<i64, Entry> {
        as_map(self.records@)
    }
}

proof fn lemma_map_at(records: Seq<(i64, Entry)>, k: int)
    requires
        newest_first(records),
        0 <= k < records.len(),
    ensures
        as_map(records).contains_key(records[k].0),
        as_map(records)[records[k].0] == records[k].1,
{
    let id = records[k].0;
    assert(has_id(records, id));
    let c = choose|c: int| 0 <= c < records.len() && records[c].0 == id;
    assert(c == k);
}

proof fn lemma_remove_at(records: Seq<(i64, Entry)>, i: int)
    requires
        newest_first(records),
        0 <= i < records.len(),
    ensures
        newest_first(records.remove(i)),
        as_map(records.remove(i)) == as_map(records).remove(records[i].0),
{
    let after = records.remove(i);
    let id = records[i].0;
    assert forall|a: int, b: int| 0 <= a < b < after.len() implies after[a].0 > after[b].0 by {
        let a0 = if a < i { a } else { a + 1 };
        let b0 = if b < i { b } else { b + 1 };
        assert(after[a] == records[a0] && after[b] == records[b0]);
    }
    assert forall|x: i64| #[trigger] as_map(after).contains_key(x) == as_map(records).remove(id).contains_key(x) by {
        if has_id(after, x) {
            let k = choose|k: int| 0 <= k < after.len() && after[k].0 == x;
            let k0 = if k < i { k } else { k + 1 };
            assert(records[k0].0 == x);
            assert(k0 != i);
            if x == id {
                assert(records[k0].0 == records[i].0);
            }
        }
        if has_id(records, x) && x != id {
            let k = choose|k: int| 0 <= k < records.len() && records[k].0 == x;
            assert(k != i);
            if k < i {
                assert(after[k].0 == x);
            } else {
                assert(after[k - 1].0 == x);
            }
        }
    }
    assert forall|x: i64| as_map(after).contains_key(x) implies #[trigger] as_map(after)[x] == as_map(records).remove(id)[x] by {
        let k = choose|k: int| 0 <= k < after.len() && after[k].0 == x;
        let k0 = if k < i { k } else { k + 1 };
        assert(after[k] == records[k0]);
        lemma_map_at(after, k);
        lemma_map_at(records, k0);
    }
    assert(as_map(after) =~= as_map(records).remove(id));
}

impl Library {
    /// Whether the records are kept newest first and each burned copy once.
    pub closed spec fn wf(&self) -> bool {
        &&& newest_first(self.records@)
        &&& forall|i: int, j: int|
            0 <= i < j < self.burned@.len() ==> self.burned@[i]@ != self.burned@[j]@
    }

    /// The copies that are burned, as the proofs see them.
    pub closed spec fn burned_copies(&self) -> Set<Seq<char>> {
        Set::new(|url: Seq<char>| exists|k: int| 0 <= k < self.burned@.len() && self.burned@[k]@ == url)
    }

    /// The problem that stopped the file from being read, as the proofs see it.
    pub closed spec fn trouble(&self) -> Option<Seq<char>> {
        match self.problem {
            Some(problem) => Some(problem@),
            None => None,
        }
    }

    /// An empty library.
    pub fn new() -> (r: Library)
        ensures
            r.wf(),
            r@ == Map::<i64, Entry>::empty(),
            r.burned_copies() == Set::<Seq<char>>::empty(),
            r.trouble() is None,
    {
        let r = Library { records: Vec::new(), burned: Vec::new(), problem: None };
        assert(r@ =~= Map::<i64, Entry>::empty());
        assert(r.burned_copies() =~= Set::<Seq<char>>::empty());
        r
    }

    /// A library that could not be read: empty, saying why, and never to be written over.
    pub fn refused(problem: String) -> (r: Library)
        ensures
            r.wf(),
            r@ == Map::<i64, Entry>::empty(),
            r.burned_copies() == Set::<Seq<char>>::empty(),
            r.trouble() == Some(problem@),
    {
        let r = Library { records: Vec::new(), burned: Vec::new(), problem: Some(problem) };
        assert(r@ =~= Map::<i64, Entry>::empty());
        assert(r.burned_copies() =~= Set::<Seq<char>>::empty());
        r
    }

    /// What stopped the library from being read, if anything did.
    pub fn problem(&self) -> (r: Option<String>)
        ensures
            match r {
                Some(problem) => self.trouble() == Some(problem@),
                None => self.trouble() is None,
            },
    {
        match &self.problem {
            Some(problem) => Some(problem.clone()),
            None => None,
        }
    }

    /// The copies that are burned, each once.
    pub fn burned_list(&self) -> (r: Vec<String>)
        ensures
            forall|url: Seq<char>|
                #[trigger] self.burned_copies().contains(url) <==> exists|k: int|
                    0 <= k < r@.len() && r@[k]@ == url,
    {
        let n = self.burned.len();
        let mut r: Vec<String> = Vec::new();
        let mut i: usize = 0;
        while i < n
            invariant
                n == self.burned@.len(),
                i <= n,
                r@.len() == i,
                forall|k: int| 0 <= k < i ==> #[trigger] r@[k]@ == self.burned@[k]@,
            decreases n - i,
        {
            r.push(self.burned[i].clone());
            i = i + 1;
        }
        proof {
            assert forall|url: Seq<char>|
                #[trigger] self.burned_copies().contains(url) implies exists|k: int|
                    0 <= k < r@.len() && r@[k]@ == url by {
                let k = choose|k: int| 0 <= k < self.burned@.len() && self.burned@[k]@ == url;
                assert(r@[k]@ == url);
            }
        }
        r
    }

    fn position(&self, id: i64) -> (r: usize)
        requires
            self.wf(),
        ensures
            r <= self.records@.len(),
            forall|k: int| 0 <= k < r ==> self.records@[k].0 > id,
            r < self.records@.len() ==> self.records@[r as int].0 <= id,
    {
        let n = self.records.len();
        let mut i: usize = 0;
        while i < n && self.records[i].0 > id
            invariant
                n == self.records@.len(),
                i <= n,
                forall|k: int| 0 <= k < i ==> self.records@[k].0 > id,
            decreases n - i,
        {
            i = i + 1;
        }
        i
    }

    /// The record kept under `id`.
    pub fn get(&self, id: i64) -> (r: Option<&Entry>)
        requires
            self.wf(),
        ensures
            match r {
                Some(entry) => self@.contains_key(id) && self@[id] == *entry,
                None => !self@.contains_key(id),
            },
    {
        let i = self.position(id);
        if i < self.records.len() && self.records[i].0 == id {
            proof {
                lemma_map_at(self.records@, i as int);
            }
            Some(&self.records[i].1)
        } else {
            proof {
                if has_id(self.records@, id) {
                    let k = choose|k: int| 0 <= k < self.records@.len() && self.records@[k].0 == id;
                    if k >= i {
                        assert(self.records@[i as int].0 <= id);
                        assert(self.records@[i as int].0 != id);
                        assert(self.records@[i as int].0 >= self.records@[k].0);
                    }
                }
            }
            None
        }
    }

    /// Keeps `entry` under `id`, in place of whatever was kept there.
    pub fn put(&mut self, id: i64, entry: Entry)
        requires
            old(self).wf(),
        ensures
            final(self).wf(),
            final(self)@ == old(self)@.insert(id, entry),
            final(self).burned_copies() == old(self).burned_copies(),
            final(self).trouble() == old(self).trouble(),
    {
        let i = self.position(id);
        let ghost before = self.records@;
        if i < self.records.len() && self.records[i].0 == id {
            self.records.set(i, (id, entry));
            proof {
                let after = self.records@;
                assert(after == before.update(i as int, (id, entry)));
                assert forall|a: int, b: int| 0 <= a < b < after.len() implies after[a].0 > after[b].0 by {
                    assert(before[a].0 > before[b].0);
                }
                assert forall|x: i64| #[trigger] as_map(after).contains_key(x) == as_map(before).insert(id, entry).contains_key(x) by {
                    if has_id(before, x) {
                        let k = choose|k: int| 0 <= k < before.len() && before[k].0 == x;
                        assert(after[k].0 == x);
                    }
                    if has_id(after, x) {
                        let k = choose|k: int| 0 <= k < after.len() && after[k].0 == x;
                        assert(before[k].0 == x);
                    }
                }
                assert forall|x: i64| as_map(after).contains_key(x) implies #[trigger] as_map(after)[x] == as_map(before).insert(id, entry)[x] by {
                    let k = choose|k: int| 0 <= k < after.len() && after[k].0 == x;
                    lemma_map_at(after, k);
                    if x != id {
                        assert(k != i);
                        assert(before[k].0 == x);
                        lemma_map_at(before, k);
                    }
                }
                assert(as_map(after) =~= as_map(before).insert(id, entry));
            }
        } else {
            self.records.insert(i, (id, entry));
            proof {
                let after = self.records@;
                assert(after == before.insert(i as int, (id, entry)));
                assert forall|a: int, b: int| 0 <= a < b < after.len() implies after[a].0 > after[b].0 by {
                    if b < i {
                        assert(before[a].0 > before[b].0);
                    } else if b == i {
                        assert(before[a].0 > id);
                    } else if a == i {
                        assert(before[b - 1].0 <= before[i as int].0);
                        assert(before[i as int].0 <= id);
                        assert(before[i as int].0 != id);
                    } else if a < i {
                        assert(before[a].0 > before[b - 1].0);
                    } else {
                        assert(before[a - 1].0 > before[b - 1].0);
                    }
                }
                assert forall|x: i64| #[trigger] as_map(after).contains_key(x) == as_map(before).insert(id, entry).contains_key(x) by {
                    if has_id(before, x) {
                        let k = choose|k: int| 0 <= k < before.len() && before[k].0 == x;
                        if k < i {
                            assert(after[k].0 == x);
                        } else {
                            assert(after[k + 1].0 == x);
                        }
                    }
                    if x == id {
                        assert(after[i as int].0 == x);
                    }
                    if has_id(after, x) && x != id {
                        let k = choose|k: int| 0 <= k < after.len() && after[k].0 == x;
                        if k < i {
                            assert(before[k].0 == x);
                        } else {
                            assert(k != i);
                            assert(before[k - 1].0 == x);
                        }
                    }
                }
                assert forall|x: i64| as_map(after).contains_key(x) implies #[trigger] as_map(after)[x] == as_map(before).insert(id, entry)[x] by {
                    let k = choose|k: int| 0 <= k < after.len() && after[k].0 == x;
                    lemma_map_at(after, k);
                    if x != id {
                        if k < i {
                            assert(before[k].0 == x);
                            lemma_map_at(before, k);
                        } else {
                            assert(k != i);
                            assert(before[k - 1].0 == x);
                            lemma_map_at(before, k - 1);
                        }
                    } else {
                        lemma_map_at(after, i as int);
                    }
                }
                assert(as_map(after) =~= as_map(before).insert(id, entry));
            }
        }
    }

    /// Every record, newest first.
    pub fn all(&self) -> (r: Vec<(i64, &Entry)>)
        requires
            self.wf(),
        ensures
            forall|k: int|
                0 <= k < r@.len() ==> self@.contains_key(#[trigger] r@[k].0) && self@[r@[k].0]
                    == *r@[k].1,
            forall|id: i64|
                self@.contains_key(id) ==> exists|k: int| 0 <= k < r@.len() && #[trigger] r@[k].0 == id,
            forall|a: int, b: int| 0 <= a < b < r@.len() ==> r@[a].0 > r@[b].0,
    {
        let n = self.records.len();
        let mut r: Vec<(i64, &Entry)> = Vec::new();
        let mut i: usize = 0;
        while i < n
            invariant
                n == self.records@.len(),
                newest_first(self.records@),
                i <= n,
                r@.len() == i,
                forall|k: int| 0 <= k < i ==> (#[trigger] r@[k]).0 == self.records@[k].0 && *r@[k].1 == self.records@[k].1,
            decreases n - i,
        {
            let ghost before = r@;
            r.push((self.records[i].0, &self.records[i].1));
            assert(forall|k: int| 0 <= k < i ==> r@[k] == before[k]);
            i = i + 1;
        }
        proof {
            assert forall|k: int| 0 <= k < r@.len() implies self@.contains_key(#[trigger] r@[k].0) && self@[r@[k].0] == *r@[k].1 by {
                lemma_map_at(self.records@, k);
            }
            assert forall|id: i64| self@.contains_key(id) implies exists|k: int| 0 <= k < r@.len() && #[trigger] r@[k].0 == id by {
                let k = choose|k: int| 0 <= k < self.records@.len() && self.records@[k].0 == id;
                assert(r@[k].0 == id);
            }
        }
        r
    }

    /// The newest record of `key` that is on her shelf, given the folders that are on the disk.
    /// Nothing is ever matched by an empty key.
    pub fn present(&self, key: &str, existing: &[&str]) -> (r: Option<(i64, &Entry)>)
        requires
            self.wf(),
        ensures
            key@.len() == 0 ==> r is None,
            match r {
                Some((id, entry)) => {
                    &&& self@.contains_key(id)
                    &&& self@[id] == *entry
                    &&& entry.key@ == key@
                    &&& shelved(*entry, existing@)
                    &&& forall|newer: i64|
                        newer > id && #[trigger] self@.contains_key(newer) ==> !(self@[newer].key@
                            == key@ && shelved(self@[newer], existing@))
                },
                None => key@.len() == 0 || forall|id: i64|
                    #[trigger] self@.contains_key(id) ==> !(self@[id].key@ == key@ && shelved(
                        self@[id],
                        existing@,
                    )),
            },
    {
        if key.unicode_len() == 0 {
            return None;
        }
        let n = self.records.len();
        let mut i: usize = 0;
        while i < n
            invariant
                n == self.records@.len(),
                newest_first(self.records@),
                key@.len() > 0,
                i <= n,
                forall|k: int|
                    0 <= k < i ==> !(self.records@[k].1.key@ == key@ && shelved(
                        self.records@[k].1,
                        existing@,
                    )),
            decreases n - i,
        {
            let entry = &self.records[i].1;
            if same_text(entry.key.as_str(), key) && entry.present(existing) {
                proof {
                    lemma_map_at(self.records@, i as int);
                    assert forall|newer: i64|
                        newer > self.records@[i as int].0 && #[trigger] self@.contains_key(newer) implies !(self@[newer].key@
                            == key@ && shelved(self@[newer], existing@)) by {
                        let k = choose|k: int| 0 <= k < self.records@.len() && self.records@[k].0 == newer;
                        lemma_map_at(self.records@, k);
                        if k >= i {
                            if k > i {
                                assert(self.records@[i as int].0 > self.records@[k].0);
                            }
                        }
                    }
                }
                return Some((self.records[i].0, entry));
            }
            i = i + 1;
        }
        proof {
            assert forall|id: i64| #[trigger] self@.contains_key(id) implies !(self@[id].key@ == key@ && shelved(self@[id], existing@)) by {
                let k = choose|k: int| 0 <= k < self.records@.len() && self.records@[k].0 == id;
                lemma_map_at(self.records@, k);
            }
        }
        None
    }

    /// Whether this copy was burned: it failed for good and must never be spent again.
    pub fn is_burned(&self, url: &str) -> (r: bool)
        ensures
            r == self.burned_copies().contains(url@),
    {
        let n = self.burned.len();
        let mut i: usize = 0;
        while i < n
            invariant
                n == self.burned@.len(),
                i <= n,
                forall|k: int| 0 <= k < i ==> self.burned@[k]@ != url@,
            decreases n - i,
        {
            if same_text(self.burned[i].as_str(), url) {
                assert(self.burned_copies().contains(url@));
                return true;
            }
            i = i + 1;
        }
        false
    }

    /// Burns a copy so it is never tried again. An empty address burns nothing.
    pub fn burn(&mut self, url: &str)
        requires
            old(self).wf(),
        ensures
            final(self).wf(),
            final(self)@ == old(self)@,
            final(self).trouble() == old(self).trouble(),
            final(self).burned_copies() == (if url@.len() == 0 {
                old(self).burned_copies()
            } else {
                old(self).burned_copies().insert(url@)
            }),
    {
        if url.unicode_len() == 0 || self.is_burned(url) {
            proof {
                if url@.len() > 0 {
                    assert(old(self).burned_copies().insert(url@) =~= old(self).burned_copies());
                }
            }
            return;
        }
        let ghost before = self.burned@;
        self.burned.push(String::from_str(url));
        proof {
            assert forall|i: int, j: int| 0 <= i < j < self.burned@.len() implies self.burned@[i]@ != self.burned@[j]@ by {
                if j == before.len() {
                    assert(self.burned@[i] == before[i]);
                    assert(!old(self).burned_copies().contains(url@));
                }
            }
            assert forall|u: Seq<char>| #[trigger] self.burned_copies().contains(u) == old(self).burned_copies().insert(url@).contains(u) by {
                if old(self).burned_copies().contains(u) {
                    let k = choose|k: int| 0 <= k < before.len() && before[k]@ == u;
                    assert(self.burned@[k]@ == u);
                }
                if u == url@ {
                    assert(self.burned@[before.len() as int]@ == u);
                }
                if self.burned_copies().contains(u) && u != url@ {
                    let k = choose|k: int| 0 <= k < self.burned@.len() && self.burned@[k]@ == u;
                    assert(k < before.len());
                    assert(before[k]@ == u);
                }
            }
            assert(self.burned_copies() =~= old(self).burned_copies().insert(url@));
        }
    }

    /// Adds a line to the story of the record under `id`, starting a fresh record when there is
    /// none: when it happened, what she was told, and why.
    pub fn note(&mut self, id: i64, at: i64, said: &str, why: &str)
        requires
            old(self).wf(),
        ensures
            final(self).wf(),
            final(self).burned_copies() == old(self).burned_copies(),
            final(self).trouble() == old(self).trouble(),
            final(self)@.contains_key(id),
            final(self)@ == old(self)@.insert(id, final(self)@[id]),
            ({
                let entry = final(self)@[id];
                &&& entry.story@.len() > 0
                &&& entry.story@.last().at == at
                &&& entry.story@.last().said@ == said@
                &&& entry.story@.last().why@ == why@
                &&& if old(self)@.contains_key(id) {
                    &&& entry == Entry { story: entry.story, ..old(self)@[id] }
                    &&& entry.story@.drop_last() == old(self)@[id].story@
                } else {
                    fresh(entry) && entry.story@.len() == 1
                }
            }),
    {
        let line = Note { at, said: String::from_str(said), why: String::from_str(why) };
        let i = self.position(id);
        if i < self.records.len() && self.records[i].0 == id {
            let ghost before = self.records@;
            proof {
                lemma_map_at(before, i as int);
                lemma_remove_at(before, i as int);
            }
            let (_, mut entry) = self.records.remove(i);
            let ghost kept = entry;
            entry.story.push(line);
            proof {
                assert(entry == Entry { story: entry.story, ..kept });
                assert(entry.story@.drop_last() =~= kept.story@);
            }
            self.put(id, entry);
            assert(self@ =~= old(self)@.insert(id, entry));
        } else {
            proof {
                if old(self)@.contains_key(id) {
                    let k = choose|k: int| 0 <= k < self.records@.len() && self.records@[k].0 == id;
                    if k >= i {
                        assert(self.records@[i as int].0 >= self.records@[k].0);
                    }
                }
            }
            let mut entry = Entry::default();
            entry.story.push(line);
            self.put(id, entry);
        }
    }
}

/// Whether `entry` holds a folder: finished, not replaced, and naming one.
pub open spec fn holds(entry: Entry) -> bool {
    entry.settled && !entry.retired && entry.folder is Some
}

/// Whether two entries name the same folder.
pub open spec fn same_folder(one: Entry, other: Entry) -> bool {
    one.folder matches Some(a) && other.folder matches Some(b) && a@ == b@
}

/// Whether the record under `id` is a ghost: it holds a folder that a newer record holds too.
pub open spec fn ghost_in(records: Map<i64, Entry>, id: i64) -> bool {
    &&& holds(records[id])
    &&& exists|newer: i64|
        #![trigger records.contains_key(newer)]
        newer > id && records.contains_key(newer) && holds(records[newer]) && same_folder(
            records[newer],
            records[id],
        )
}

/// A record released from its folder.
pub open spec fn released(entry: Entry) -> Entry {
    Entry { retired: true, folder: None, file: None, ..entry }
}

/// Whether the record at `k` holds a folder that a newer record, earlier in the list, holds.
pub open spec fn shadowed(records: Seq<(i64, Entry)>, k: int) -> bool {
    &&& holds(records[k].1)
    &&& exists|j: int| 0 <= j < k && holds(records[j].1) && same_folder(records[j].1, records[k].1)
}

proof fn lemma_shadowed_is_ghost(records: Seq<(i64, Entry)>, k: int)
    requires
        newest_first(records),
        0 <= k < records.len(),
    ensures
        shadowed(records, k) == ghost_in(as_map(records), records[k].0),
{
    let m = as_map(records);
    let id = records[k].0;
    lemma_map_at(records, k);
    if shadowed(records, k) {
        let j = choose|j: int| 0 <= j < k && holds(records[j].1) && same_folder(records[j].1, records[k].1);
        lemma_map_at(records, j);
        assert(m.contains_key(records[j].0));
    }
    if ghost_in(m, id) {
        let newer = choose|newer: i64|
            newer > id && m.contains_key(newer) && holds(m[newer]) && same_folder(m[newer], m[id]);
        let j = choose|j: int| 0 <= j < records.len() && records[j].0 == newer;
        lemma_map_at(records, j);
        if j >= k {
            if j > k {
                assert(records[k].0 > records[j].0);
            }
        }
        assert(0 <= j < k && holds(records[j].1) && same_folder(records[j].1, records[k].1));
    }
}

/// Whether `folder` is among `folders`.
pub open spec fn among(folders: Seq<String>, folder: Seq<char>) -> bool {
    exists|j: int| 0 <= j < folders.len() && folders[j]@ == folder
}

/// Whether a record before `upto` holds `folder`.
pub open spec fn held_before(records: Seq<(i64, Entry)>, upto: int, folder: Seq<char>) -> bool {
    exists|j: int| 0 <= j < upto && holds(records[j].1) && records[j].1.folder->0@ == folder
}

fn claimed(folders: &Vec<String>, folder: &str) -> (r: bool)
    ensures
        r == among(folders@, folder@),
{
    let n = folders.len();
    let mut j: usize = 0;
    while j < n
        invariant
            n == folders@.len(),
            j <= n,
            forall|k: int| 0 <= k < j ==> folders@[k]@ != folder@,
        decreases n - j,
    {
        if same_text(folders[j].as_str(), folder) {
            return true;
        }
        j = j + 1;
    }
    false
}

impl Library {
    /// Releases every record that holds a folder a newer record holds: one folder is one film,
    /// however many records point at it, and it is the newest record's. Answers the ids
    /// released, newest first.
    pub fn release_ghosts(&mut self) -> (r: Vec<i64>)
        requires
            old(self).wf(),
        ensures
            final(self).wf(),
            final(self).burned_copies() == old(self).burned_copies(),
            final(self).trouble() == old(self).trouble(),
            final(self)@.dom() == old(self)@.dom(),
            forall|id: i64|
                #[trigger] old(self)@.contains_key(id) ==> final(self)@[id] == (if ghost_in(
                    old(self)@,
                    id,
                ) {
                    released(old(self)@[id])
                } else {
                    old(self)@[id]
                }),
            forall|k: int| 0 <= k < r@.len() ==> ghost_in(old(self)@, #[trigger] r@[k]) && old(self)@.contains_key(r@[k]),
            forall|id: i64| old(self)@.contains_key(id) && ghost_in(old(self)@, id) ==> r@.contains(id),
            forall|a: int, b: int| 0 <= a < b < r@.len() ==> r@[a] > r@[b],
    {
        let ghost before = self.records@;
        let n = self.records.len();
        let mut folders: Vec<String> = Vec::new();
        let mut ghosts: Vec<i64> = Vec::new();
        let mut i: usize = 0;
        while i < n
            invariant
                n == self.records@.len(),
                n == before.len(),
                before == old(self).records@,
                self.burned == old(self).burned,
                self.problem == old(self).problem,
                newest_first(before),
                i <= n,
                forall|k: int| 0 <= k < n ==> #[trigger] self.records@[k].0 == before[k].0,
                forall|k: int|
                    0 <= k < i ==> #[trigger] self.records@[k].1 == (if shadowed(before, k) {
                        released(before[k].1)
                    } else {
                        before[k].1
                    }),
                forall|k: int| i <= k < n ==> #[trigger] self.records@[k] == before[k],
                forall|f: Seq<char>| #[trigger] among(folders@, f) == held_before(before, i as int, f),
                forall|k: int| 0 <= k < ghosts@.len() ==> exists|j: int| 0 <= j < i && shadowed(before, j) && #[trigger] ghosts@[k] == before[j].0,
                forall|j: int| 0 <= j < i && shadowed(before, j) ==> ghosts@.contains(before[j].0),
                forall|a: int, b: int| 0 <= a < b < ghosts@.len() ==> ghosts@[a] > ghosts@[b],
                ghosts@.len() > 0 ==> ghosts@.last() >= before[i - 1].0,
            decreases n - i,
        {
            let entry = &self.records[i].1;
            let holding = entry.settled && !entry.retired && entry.folder.is_some();
            if holding {
                let folder = match &entry.folder {
                    Some(folder) => folder.clone(),
                    None => String::new(),
                };
                if claimed(&folders, folder.as_str()) {
                    proof {
                        assert(among(folders@, folder@));
                        assert(held_before(before, i as int, folder@));
                        let w = choose|w: int| 0 <= w < i && holds(before[w].1) && before[w].1.folder->0@ == folder@;
                        assert(same_folder(before[w].1, before[i as int].1));
                        assert(shadowed(before, i as int));
                    }
                    let ghost earlier = self.records@;
                    let (id, entry) = self.records.remove(i);
                    let mut entry = entry;
                    entry.retired = true;
                    entry.folder = None;
                    entry.file = None;
                    self.records.insert(i, (id, entry));
                    assert(self.records@ == earlier.update(i as int, (id, entry)));
                    let ghost gone = ghosts@;
                    ghosts.push(id);
                    proof {
                        assert forall|k: int| 0 <= k < ghosts@.len() implies exists|j: int| 0 <= j < i + 1 && shadowed(before, j) && #[trigger] ghosts@[k] == before[j].0 by {
                            if k < gone.len() {
                                assert(ghosts@[k] == gone[k]);
                            } else {
                                assert(ghosts@[k] == before[i as int].0);
                            }
                        }
                        assert forall|j: int| 0 <= j < i + 1 && shadowed(before, j) implies ghosts@.contains(before[j].0) by {
                            if j < i {
                                let k = choose|k: int| 0 <= k < gone.len() && gone[k] == before[j].0;
                                assert(ghosts@[k] == before[j].0);
                            } else {
                                assert(ghosts@[gone.len() as int] == before[j].0);
                            }
                        }
                        assert forall|a: int, b: int| 0 <= a < b < ghosts@.len() implies ghosts@[a] > ghosts@[b] by {
                            if b == gone.len() {
                                assert(ghosts@[a] == gone[a]);
                                if i > 0 {
                                    assert(gone.last() >= before[i - 1].0);
                                    assert(before[i - 1].0 > before[i as int].0);
                                }
                                assert(gone[a] >= gone.last());
                            }
                        }
                    }
                } else {
                    proof {
                        assert(!shadowed(before, i as int)) by {
                            if shadowed(before, i as int) {
                                let w = choose|w: int| 0 <= w < i && holds(before[w].1) && same_folder(before[w].1, before[i as int].1);
                                assert(held_before(before, i as int, folder@));
                                assert(among(folders@, folder@));
                            }
                        }
                    }
                    let ghost had = folders@;
                    folders.push(folder);
                    proof {
                        assert forall|f: Seq<char>| #[trigger] among(folders@, f) == held_before(before, i + 1, f) by {
                            if among(folders@, f) {
                                let j = choose|j: int| 0 <= j < folders@.len() && folders@[j]@ == f;
                                if j < had.len() {
                                    assert(had[j]@ == f);
                                    assert(among(had, f));
                                } else {
                                    assert(before[i as int].1.folder->0@ == f);
                                }
                            }
                            if held_before(before, i + 1, f) {
                                let j = choose|j: int| 0 <= j < i + 1 && holds(before[j].1) && before[j].1.folder->0@ == f;
                                if j < i {
                                    assert(held_before(before, i as int, f));
                                    assert(among(had, f));
                                    let w = choose|w: int| 0 <= w < had.len() && had[w]@ == f;
                                    assert(folders@[w]@ == f);
                                } else {
                                    assert(folders@[had.len() as int]@ == f);
                                }
                            }
                        }
                    }
                }
            } else {
                assert(!shadowed(before, i as int));
            }
            i = i + 1;
        }
        proof {
            assert(newest_first(self.records@)) by {
                assert forall|a: int, b: int| 0 <= a < b < self.records@.len() implies self.records@[a].0 > self.records@[b].0 by {
                    assert(before[a].0 > before[b].0);
                }
            }
            assert forall|id: i64| #[trigger] self@.contains_key(id) == old(self)@.contains_key(id) by {
                if has_id(before, id) {
                    let k = choose|k: int| 0 <= k < before.len() && before[k].0 == id;
                    assert(self.records@[k].0 == id);
                }
                if has_id(self.records@, id) {
                    let k = choose|k: int| 0 <= k < self.records@.len() && self.records@[k].0 == id;
                    assert(before[k].0 == id);
                }
            }
            assert(self@.dom() =~= old(self)@.dom());
            assert forall|id: i64| #[trigger] old(self)@.contains_key(id) implies self@[id] == (if ghost_in(old(self)@, id) {
                released(old(self)@[id])
            } else {
                old(self)@[id]
            }) by {
                let k = choose|k: int| 0 <= k < before.len() && before[k].0 == id;
                lemma_map_at(before, k);
                lemma_map_at(self.records@, k);
                lemma_shadowed_is_ghost(before, k);
            }
            assert forall|k: int| 0 <= k < ghosts@.len() implies ghost_in(old(self)@, #[trigger] ghosts@[k]) && old(self)@.contains_key(ghosts@[k]) by {
                let j = choose|j: int| 0 <= j < n && shadowed(before, j) && ghosts@[k] == before[j].0;
                lemma_shadowed_is_ghost(before, j);
                lemma_map_at(before, j);
            }
            assert forall|id: i64| old(self)@.contains_key(id) && ghost_in(old(self)@, id) implies ghosts@.contains(id) by {
                let k = choose|k: int| 0 <= k < before.len() && before[k].0 == id;
                lemma_shadowed_is_ghost(before, k);
            }
        }
        ghosts
    }
}

/// After the ghosts are released, no two records hold the same folder.
pub proof fn law_one_folder_is_one_film(before: Map<i64, Entry>, after: Map<i64, Entry>, one: i64, other: i64)
    requires
        after.dom() == before.dom(),
        forall|id: i64|
            #[trigger] before.contains_key(id) ==> after[id] == (if ghost_in(before, id) {
                released(before[id])
            } else {
                before[id]
            }),
        after.contains_key(one),
        after.contains_key(other),
        one != other,
        holds(after[one]),
        holds(after[other]),
    ensures
        !same_folder(after[one], after[other]),
{
    assert(before.contains_key(one) && before.contains_key(other));
    assert(!ghost_in(before, one) && !ghost_in(before, other));
    if same_folder(after[one], after[other]) {
        if one > other {
            assert(ghost_in(before, other));
        } else {
            assert(ghost_in(before, one));
        }
    }
}

// --- what a record is, and what a file on disk says ------------------------------------------

/// How many zeros `text` starts with.
pub open spec fn leading_zeros(text: Seq<char>) -> nat
    decreases text.len(),
{
    if text.len() > 0 && text[0] == '0' {
        1 + leading_zeros(text.drop_first())
    } else {
        0
    }
}

/// The key a record is known by: the one it has, or one made from its IMDb id without the
/// zeros in front, or none.
pub open spec fn key_text(entry: Entry) -> Seq<char> {
    if entry.key@.len() > 0 {
        entry.key@
    } else {
        match entry.imdb {
            Some(imdb) => if trimmed(imdb@).len() > 0 {
                "imdb:"@ + trimmed(imdb@).skip(leading_zeros(trimmed(imdb@)) as int)
            } else {
                Seq::empty()
            },
            None => Seq::empty(),
        }
    }
}

/// The key a record is known by.
pub fn key_for(entry: &Entry) -> (r: String)
    ensures
        r@ == key_text(*entry),
{
    if entry.key.as_str().unicode_len() > 0 {
        return entry.key.clone();
    }
    match &entry.imdb {
        Some(imdb) => {
            let plain = trim_text(imdb.as_str());
            let n = plain.as_str().unicode_len();
            if n == 0 {
                return String::new();
            }
            let mut zeros: usize = 0;
            assert(plain@.skip(0) =~= plain@);
            while zeros < n && plain.as_str().get_char(zeros) == '0'
                invariant
                    n == plain@.len(),
                    zeros <= n,
                    leading_zeros(plain@) == zeros + leading_zeros(plain@.skip(zeros as int)),
                decreases n - zeros,
            {
                assert(plain@.skip(zeros as int).drop_first() =~= plain@.skip(zeros + 1));
                zeros = zeros + 1;
            }
            assert(leading_zeros(plain@.skip(zeros as int)) == 0);
            let rest = plain.as_str().substring_char(zeros, n);
            assert(rest@ =~= plain@.skip(zeros as int));
            joined2("imdb:", rest)
        },
        None => String::new(),
    }
}

/// What was found where the library file should be.
pub enum Found {
    /// A file stamped with a version.
    Versioned(u32),
    /// A file from before versions: the bare map of records.
    Bare,
    /// Something that is not a library file.
    Unreadable,
}

/// What to do with what was found: keep its records, write them back in today's form, set the
/// file aside, and the problem she is told about.
pub struct Reading {
    pub keep: bool,
    pub migrate: bool,
    pub set_aside: bool,
    pub problem: Option<String>,
}

/// What a file that was found comes to: today's version is kept as it is; an older one, or a
/// bare map, is kept and written back in today's form; a newer one is refused untouched,
/// with a sentence saying so; an unreadable one is set aside for whoever debugs it.
pub fn reading_of(found: &Found, lang: Lang) -> (r: Reading)
    ensures
        r.keep == (match *found {
            Found::Versioned(version) => version <= LIBRARY_VERSION,
            Found::Bare => true,
            Found::Unreadable => false,
        }),
        r.migrate == (match *found {
            Found::Versioned(version) => version < LIBRARY_VERSION,
            Found::Bare => true,
            Found::Unreadable => false,
        }),
        r.set_aside == (*found is Unreadable),
        match r.problem {
            Some(problem) => *found matches Found::Versioned(version) && version > LIBRARY_VERSION
                && problem@ == lang.library_from_a_newer_app_text(),
            None => !(*found matches Found::Versioned(version) && version > LIBRARY_VERSION),
        },
{
    match found {
        Found::Versioned(version) => {
            if *version == LIBRARY_VERSION {
                Reading { keep: true, migrate: false, set_aside: false, problem: None }
            } else if *version < LIBRARY_VERSION {
                Reading { keep: true, migrate: true, set_aside: false, problem: None }
            } else {
                Reading {
                    keep: false,
                    migrate: false,
                    set_aside: false,
                    problem: Some(String::from_str(lang.library_from_a_newer_app())),
                }
            }
        },
        Found::Bare => Reading { keep: true, migrate: true, set_aside: false, problem: None },
        Found::Unreadable => Reading { keep: false, migrate: false, set_aside: true, problem: None },
    }
}

/// The records a list keeps, a later one with the same id in place of an earlier one.
pub open spec fn records_of(list: Seq<(i64, Entry)>) -> Map<i64, Entry>
    decreases list.len(),
{
    if list.len() == 0 {
        Map::empty()
    } else {
        records_of(list.drop_last()).insert(list.last().0, list.last().1)
    }
}

/// The copies a list burns, leaving out empty addresses.
pub open spec fn burned_of(list: Seq<String>) -> Set<Seq<char>>
    decreases list.len(),
{
    if list.len() == 0 {
        Set::empty()
    } else if list.last()@.len() == 0 {
        burned_of(list.drop_last())
    } else {
        burned_of(list.drop_last()).insert(list.last()@)
    }
}

impl Library {
    /// The library a file held: its records, and the copies it had burned.
    pub fn from_records(records: Vec<(i64, Entry)>, burned: Vec<String>) -> (r: Library)
        ensures
            r.wf(),
            r@ == records_of(records@),
            r.burned_copies() == burned_of(burned@),
            r.trouble() is None,
    {
        let mut library = Library::new();
        let mut records = records;
        let ghost all = records@;
        let n = records.len();
        let mut i: usize = 0;
        while i < n
            invariant
                n == all.len(),
                i <= n,
                records@ == all.skip(i as int),
                library.wf(),
                library@ == records_of(all.take(i as int)),
                library.burned_copies() == Set::<Seq<char>>::empty(),
                library.trouble() is None,
            decreases n - i,
        {
            let (id, entry) = records.remove(0);
            assert(all.take(i + 1).drop_last() =~= all.take(i as int));
            assert(records@ =~= all.skip(i + 1));
            library.put(id, entry);
            i = i + 1;
        }
        assert(all.take(n as int) =~= all);
        let m = burned.len();
        let mut j: usize = 0;
        while j < m
            invariant
                m == burned@.len(),
                j <= m,
                library.wf(),
                library@ == records_of(all),
                library.burned_copies() == burned_of(burned@.take(j as int)),
                library.trouble() is None,
            decreases m - j,
        {
            assert(burned@.take(j + 1).drop_last() =~= burned@.take(j as int));
            library.burn(burned[j].as_str());
            j = j + 1;
        }
        assert(burned@.take(m as int) =~= burned@);
        library
    }
}

// --- putting records back together with the disk ----------------------------------------------

/// `text` with every run of white space made one space, and none at either end: what
/// `split_whitespace` and `join(" ")` make of it.
pub open spec fn squeezed(text: Seq<char>) -> Seq<char>
    decreases text.len(),
{
    if text.len() == 0 {
        Seq::empty()
    } else if is_space(text.last()) {
        squeezed(text.drop_last())
    } else {
        let front = squeezed(text.drop_last());
        if front.len() > 0 && is_space(text[text.len() - 2]) {
            front + seq![' ', text.last()]
        } else {
            front.push(text.last())
        }
    }
}

/// Every character that is not a letter or a number made a space.
pub open spec fn masked(text: Seq<char>) -> Seq<char> {
    text.map_values(|c: char| if spec_alphanumeric(c) { c } else { ' ' })
}

/// A name as it is compared with a folder's: small letters, words only, one space between.
pub open spec fn plain_text(text: Seq<char>) -> Seq<char> {
    squeezed(masked(spec_lowercase(text)))
}

/// A name as it is compared with a folder's.
pub fn plainly(text: &str) -> (r: String)
    ensures
        r@ == plain_text(text@),
{
    let lowered = lowercase(text);
    let ghost wanted = masked(lowered@);
    let n = lowered.as_str().unicode_len();
    let mut r = String::new();
    let mut i: usize = 0;
    let mut after_space = false;
    while i < n
        invariant
            n == lowered@.len(),
            wanted == masked(lowered@),
            i <= n,
            r@ == squeezed(wanted.take(i as int)),
            after_space == (i > 0 && is_space(wanted[i - 1])),
        decreases n - i,
    {
        let c = lowered.as_str().get_char(i);
        let shown = if alphanumeric(c) { c } else { ' ' };
        assert(shown == wanted[i as int]);
        assert(wanted.take(i + 1).drop_last() =~= wanted.take(i as int));
        assert(wanted.take(i + 1).last() == shown);
        let blank = space_char(shown);
        if !blank {
            if r.as_str().unicode_len() > 0 && after_space {
                crate::std_calls::push_char(&mut r, ' ');
            }
            crate::std_calls::push_char(&mut r, shown);
        }
        after_space = blank;
        i = i + 1;
    }
    assert(wanted.take(n as int) =~= wanted);
    r
}

/// A folder in the place her films land: where it is, its name, and the largest video in it.
pub struct Place {
    pub path: String,
    pub name: String,
    pub video: Option<String>,
}

/// The first place whose name holds every word of the title, in order.
pub open spec fn first_named(places: Seq<Place>, wanted: Seq<char>) -> Option<Place>
    decreases places.len(),
{
    if places.len() == 0 {
        None
    } else if has_text(plain_text(places[0].name@), wanted) {
        Some(places[0])
    } else {
        first_named(places.drop_first(), wanted)
    }
}

/// The folder a title landed in, when one is named after it. A title with no words names none.
pub open spec fn named_place(places: Seq<Place>, title: Seq<char>) -> Option<Place> {
    if plain_text(title).len() == 0 {
        None
    } else {
        first_named(places, plain_text(title))
    }
}

/// The folder a title landed in, when one is named after it.
pub fn folder_named<'a>(title: &str, places: &'a [Place]) -> (r: Option<&'a Place>)
    ensures
        match r {
            Some(place) => named_place(places@, title@) == Some(*place),
            None => named_place(places@, title@) is None,
        },
{
    let wanted = plainly(title);
    if wanted.as_str().unicode_len() == 0 {
        return None;
    }
    let n = places.len();
    let mut i: usize = 0;
    assert(places@.skip(0) =~= places@);
    while i < n
        invariant
            n == places@.len(),
            i <= n,
            wanted@ == plain_text(title@),
            wanted@.len() > 0,
            first_named(places@, wanted@) == first_named(places@.skip(i as int), wanted@),
        decreases n - i,
    {
        let name = plainly(places[i].name.as_str());
        assert(places@.skip(i as int)[0] == places@[i as int]);
        if contains_text(name.as_str(), wanted.as_str()) {
            return Some(&places[i]);
        }
        assert(places@.skip(i as int).drop_first() =~= places@.skip(i + 1));
        i = i + 1;
    }
    None
}

/// Whether `after` is `before` put back together with the disk: a finished record whose folder
/// is gone, or whose key is out of date, gets its key, and, when it never knew its folder, the
/// folder named after its title with the largest video in it. Anything else is left alone.
pub open spec fn reconciled(before: Entry, after: Entry, existing: Seq<&str>, places: Seq<Place>) -> bool {
    let missing = !(before.folder matches Some(folder) && on_disk(existing, folder@));
    if !before.settled || before.retired || (!missing && key_text(before) == before.key@) {
        after == before
    } else {
        &&& after.key@ == key_text(before)
        &&& match (before.folder, named_place(places, before.title@)) {
            (None, Some(place)) => after == Entry {
                key: after.key,
                folder: Some(place.path),
                file: place.video,
                ..before
            },
            _ => after == Entry { key: after.key, ..before },
        }
    }
}

/// A record as the ghosts left it: released when it was one.
pub open spec fn unghosted(records: Map<i64, Entry>, id: i64) -> Entry {
    if ghost_in(records, id) {
        released(records[id])
    } else {
        records[id]
    }
}

fn reconcile_one(entry: Entry, existing: &[&str], places: &[Place]) -> (r: Entry)
    ensures
        reconciled(entry, r, existing@, places@),
{
    if !entry.settled || entry.retired {
        return entry;
    }
    let missing = match &entry.folder {
        Some(folder) => !found_on_disk(existing, folder.as_str()),
        None => true,
    };
    let key = key_for(&entry);
    if !missing && same_text(key.as_str(), entry.key.as_str()) {
        return entry;
    }
    let mut entry = entry;
    if entry.folder.is_none() {
        match folder_named(entry.title.as_str(), places) {
            Some(place) => {
                entry.folder = Some(place.path.clone());
                entry.file = match &place.video {
                    Some(video) => Some(video.clone()),
                    None => None,
                };
            },
            None => {},
        }
    }
    entry.key = key;
    entry
}

impl Library {
    /// Puts the records back together with the disk: ghosts are released first, then every
    /// finished record whose folder is gone or whose key is out of date is repaired, given the
    /// folders that are on the disk and the places in the folder where her films land.
    /// Answers the ids of the ghosts released.
    pub fn reconcile(&mut self, existing: &[&str], places: &[Place]) -> (r: Vec<i64>)
        requires
            old(self).wf(),
        ensures
            final(self).wf(),
            final(self).burned_copies() == old(self).burned_copies(),
            final(self).trouble() == old(self).trouble(),
            final(self)@.dom() == old(self)@.dom(),
            forall|id: i64|
                #[trigger] old(self)@.contains_key(id) ==> reconciled(
                    unghosted(old(self)@, id),
                    final(self)@[id],
                    existing@,
                    places@,
                ),
            forall|k: int| 0 <= k < r@.len() ==> ghost_in(old(self)@, #[trigger] r@[k]) && old(self)@.contains_key(r@[k]),
            forall|id: i64| old(self)@.contains_key(id) && ghost_in(old(self)@, id) ==> r@.contains(id),
    {
        let ghosts = self.release_ghosts();
        let ghost middle = self.records@;
        let ghost middle_map = self@;
        let ghost burned_mid = self.burned;
        let ghost problem_mid = self.problem;
        let n = self.records.len();
        let mut i: usize = 0;
        while i < n
            invariant
                n == self.records@.len(),
                n == middle.len(),
                newest_first(middle),
                as_map(middle) == middle_map,
                middle_map.dom() == old(self)@.dom(),
                forall|id: i64| #[trigger] old(self)@.contains_key(id) ==> middle_map[id] == unghosted(old(self)@, id),
                self.burned == burned_mid,
                self.problem == problem_mid,
                forall|a: int, b: int|
                    0 <= a < b < self.burned@.len() ==> self.burned@[a]@ != self.burned@[b]@,
                self.burned_copies() == old(self).burned_copies(),
                self.trouble() == old(self).trouble(),
                i <= n,
                forall|k: int| 0 <= k < n ==> #[trigger] self.records@[k].0 == middle[k].0,
                forall|k: int|
                    0 <= k < i ==> reconciled(middle[k].1, #[trigger] self.records@[k].1, existing@, places@),
                forall|k: int| i <= k < n ==> #[trigger] self.records@[k] == middle[k],
            decreases n - i,
        {
            let ghost earlier = self.records@;
            let (id, entry) = self.records.remove(i);
            let repaired = reconcile_one(entry, existing, places);
            self.records.insert(i, (id, repaired));
            assert(self.records@ == earlier.update(i as int, (id, repaired)));
            i = i + 1;
        }
        proof {
            assert(newest_first(self.records@)) by {
                assert forall|a: int, b: int| 0 <= a < b < self.records@.len() implies self.records@[a].0 > self.records@[b].0 by {
                    assert(middle[a].0 > middle[b].0);
                }
            }
            assert forall|id: i64| #[trigger] self@.contains_key(id) == middle_map.contains_key(id) by {
                if has_id(middle, id) {
                    let k = choose|k: int| 0 <= k < middle.len() && middle[k].0 == id;
                    assert(self.records@[k].0 == id);
                }
                if has_id(self.records@, id) {
                    let k = choose|k: int| 0 <= k < self.records@.len() && self.records@[k].0 == id;
                    assert(middle[k].0 == id);
                }
            }
            assert(self@.dom() =~= old(self)@.dom());
            assert forall|id: i64| #[trigger] old(self)@.contains_key(id) implies reconciled(
                unghosted(old(self)@, id),
                self@[id],
                existing@,
                places@,
            ) by {
                let k = choose|k: int| 0 <= k < middle.len() && middle[k].0 == id;
                lemma_map_at(middle, k);
                lemma_map_at(self.records@, k);
            }
        }
        ghosts
    }
}

// --- a copy that replaced another ---------------------------------------------------------

/// Whether `entry` is finished and names `folder`.
pub open spec fn settled_in(entry: Entry, folder: Seq<char>) -> bool {
    &&& entry.settled
    &&& entry.folder matches Some(f) && f@ == folder
}

/// The folder the copy `id` replaced left behind, when it should go to the bin: it is on the
/// disk, the new copy did not land in it, and no other finished record names it.
pub open spec fn left_behind(records: Map<i64, Entry>, id: i64, existing: Seq<&str>) -> Option<(i64, Seq<char>)> {
    if records.contains_key(id) && records[id].replaces is Some {
        let replaced = records[id].replaces->0;
        if records.contains_key(replaced) && records[replaced].folder is Some {
            let folder = records[replaced].folder->0@;
            let landed_in = (records[id].folder matches Some(f) && f@ == folder);
            let hosts = exists|other: i64|
                #![trigger records.contains_key(other)]
                other != replaced && records.contains_key(other) && settled_in(records[other], folder);
            if on_disk(existing, folder) && !landed_in && !hosts {
                Some((replaced, folder))
            } else {
                None
            }
        } else {
            None
        }
    } else {
        None
    }
}

/// Whether `entry` is what a new record starts as, apart from what settling it fills in.
pub open spec fn fresh_but_settled(entry: Entry) -> bool {
    &&& entry.year is None
    &&& entry.cover_url is None
    &&& entry.imdb is None
    &&& entry.subtitle_files@.len() == 0
    &&& !entry.series
    &&& entry.seasons is None
    &&& entry.key@.len() == 0
    &&& entry.attempt == 0
    &&& entry.attempts_total == 0
    &&& entry.superseded_by is None
    &&& !entry.gave_up
    &&& entry.filed_as@.len() == 0
    &&& entry.untried == 0
    &&& entry.allowance == 0
    &&& entry.source@.len() == 0
    &&& !entry.retired
    &&& entry.replaces is None
}

impl Library {
    fn take(&mut self, id: i64) -> (r: Entry)
        requires
            old(self).wf(),
        ensures
            final(self).wf(),
            final(self)@ == old(self)@.remove(id),
            final(self).burned_copies() == old(self).burned_copies(),
            final(self).trouble() == old(self).trouble(),
            old(self)@.contains_key(id) ==> r == old(self)@[id],
            !old(self)@.contains_key(id) ==> fresh(r) && r.story@.len() == 0,
    {
        let i = self.position(id);
        if i < self.records.len() && self.records[i].0 == id {
            proof {
                lemma_map_at(self.records@, i as int);
                lemma_remove_at(self.records@, i as int);
            }
            let (_, entry) = self.records.remove(i);
            entry
        } else {
            proof {
                if old(self)@.contains_key(id) {
                    let k = choose|k: int| 0 <= k < self.records@.len() && self.records@[k].0 == id;
                    if k >= i {
                        assert(self.records@[i as int].0 >= self.records@[k].0);
                    }
                }
                assert(self@ =~= old(self)@.remove(id));
            }
            Entry::default()
        }
    }

    /// A download that succeeded is looked after: finished, in its folder with its largest
    /// video, with what its subtitles came to, and named after what the downloader filed it
    /// under when it had no title.
    pub fn settle(&mut self, id: i64, name: &str, folder: &str, file: &str, subtitle_note: String)
        requires
            old(self).wf(),
        ensures
            final(self).wf(),
            final(self).burned_copies() == old(self).burned_copies(),
            final(self).trouble() == old(self).trouble(),
            final(self)@.contains_key(id),
            final(self)@ == old(self)@.insert(id, final(self)@[id]),
            ({
                let after = final(self)@[id];
                &&& after.settled
                &&& after.subtitle_note@ == subtitle_note@
                &&& (after.folder matches Some(f) && f@ == folder@)
                &&& (after.file matches Some(f) && f@ == file@)
                &&& if old(self)@.contains_key(id) {
                    let before = old(self)@[id];
                    &&& after.title@ == (if before.title@.len() == 0 { name@ } else { before.title@ })
                    &&& after == Entry {
                        settled: true,
                        subtitle_note: after.subtitle_note,
                        folder: after.folder,
                        file: after.file,
                        title: after.title,
                        ..before
                    }
                } else {
                    after.title@ == name@ && after.story@.len() == 0 && fresh_but_settled(after)
                }
            }),
    {
        let mut entry = self.take(id);
        let ghost before = entry;
        entry.settled = true;
        entry.subtitle_note = subtitle_note;
        entry.folder = Some(String::from_str(folder));
        entry.file = Some(String::from_str(file));
        if entry.title.as_str().unicode_len() == 0 {
            entry.title = String::from_str(name);
        }
        self.put(id, entry);
        assert(self@ =~= old(self)@.insert(id, entry));
    }

    fn hosted_elsewhere(&self, replaced: i64, folder: &str) -> (r: bool)
        requires
            self.wf(),
        ensures
            r == exists|other: i64|
                #![trigger self@.contains_key(other)]
                other != replaced && self@.contains_key(other) && settled_in(self@[other], folder@),
    {
        let n = self.records.len();
        let mut i: usize = 0;
        while i < n
            invariant
                n == self.records@.len(),
                newest_first(self.records@),
                i <= n,
                forall|k: int|
                    0 <= k < i ==> !(self.records@[k].0 != replaced && settled_in(self.records@[k].1, folder@)),
            decreases n - i,
        {
            let (other, entry) = (self.records[i].0, &self.records[i].1);
            let names_it = match &entry.folder {
                Some(f) => same_text(f.as_str(), folder),
                None => false,
            };
            if other != replaced && entry.settled && names_it {
                proof {
                    lemma_map_at(self.records@, i as int);
                    assert(self@.contains_key(other));
                }
                return true;
            }
            i = i + 1;
        }
        proof {
            assert forall|other: i64|
                other != replaced && #[trigger] self@.contains_key(other) implies !settled_in(self@[other], folder@) by {
                let k = choose|k: int| 0 <= k < self.records@.len() && self.records@[k].0 == other;
                lemma_map_at(self.records@, k);
            }
        }
        false
    }

    /// Once the copy `id` has landed, the copy it replaced is no longer wanted: its record stops
    /// naming it as replaced, and the folder the old copy left behind is answered when it should
    /// go to the bin, with the id of the old copy.
    pub fn swap_out(&mut self, id: i64, existing: &[&str]) -> (r: Option<(i64, String)>)
        requires
            old(self).wf(),
        ensures
            final(self).wf(),
            final(self).burned_copies() == old(self).burned_copies(),
            final(self).trouble() == old(self).trouble(),
            match r {
                Some((replaced, folder)) => left_behind(old(self)@, id, existing@) == Some((replaced, folder@)),
                None => left_behind(old(self)@, id, existing@) is None,
            },
            final(self)@ == swapped_out(old(self)@, id),
    {
        let replaced = match self.get(id) {
            Some(entry) => match entry.replaces {
                Some(replaced) => replaced,
                None => return None,
            },
            None => return None,
        };
        let ghost before = self@;
        let found = match self.get(replaced) {
            Some(old_copy) => match &old_copy.folder {
                Some(folder) => Some(folder.clone()),
                None => None,
            },
            None => None,
        };
        let landed_in = match self.get(id) {
            Some(entry) => match (&entry.folder, &found) {
                (Some(here), Some(there)) => same_text(here.as_str(), there.as_str()),
                _ => false,
            },
            None => false,
        };
        let decision = match found {
            Some(folder) => {
                if found_on_disk(existing, folder.as_str()) && !landed_in && !self.hosted_elsewhere(
                    replaced,
                    folder.as_str(),
                ) {
                    Some((replaced, folder))
                } else {
                    None
                }
            },
            None => None,
        };
        let mut entry = self.take(id);
        entry.replaces = None;
        self.put(id, entry);
        assert(self@ =~= before.insert(id, Entry { replaces: None, ..before[id] }));
        decision
    }

    /// The copy a swap replaced went to the bin: it is retired without a file, and its story
    /// says so, at `at`.
    pub fn retire_swapped(&mut self, replaced: i64, at: i64, lang: Lang)
        requires
            old(self).wf(),
        ensures
            final(self).wf(),
            final(self).burned_copies() == old(self).burned_copies(),
            final(self).trouble() == old(self).trouble(),
            final(self)@.contains_key(replaced),
            final(self)@ == old(self)@.insert(replaced, final(self)@[replaced]),
            ({
                let after = final(self)@[replaced];
                &&& after.retired
                &&& after.file is None
                &&& after.story@.len() > 0
                &&& after.story@.last().at == at
                &&& after.story@.last().said@ == lang.copy_swapped_text()
                &&& old(self)@.contains_key(replaced) ==> after == Entry {
                    retired: true,
                    file: None,
                    story: after.story,
                    ..old(self)@[replaced]
                } && after.story@.drop_last() == old(self)@[replaced].story@
            }),
    {
        let mut entry = self.take(replaced);
        entry.retired = true;
        entry.file = None;
        self.put(replaced, entry);
        assert(self@ =~= old(self)@.insert(replaced, entry));
        self.note(replaced, at, lang.copy_swapped(), "replaced by a copy she chose");
    }
}


/// The records once the swap to `id` is out: its record no longer names a copy it replaces.
pub open spec fn swapped_out(records: Map<i64, Entry>, id: i64) -> Map<i64, Entry> {
    if records.contains_key(id) && records[id].replaces is Some {
        records.insert(id, Entry { replaces: None, ..records[id] })
    } else {
        records
    }
}

/// A copy a swap replaced goes to the bin at most once, and only when that is safe. The folder
/// answered is on the disk, is not where the new copy landed, and no other finished record
/// names it. Once the swap is out, however the old copy's record or any other is then changed
/// (retiring it, say), asking again answers nothing to remove.
pub proof fn law_a_replaced_copy_goes_to_the_bin_once(
    records: Map<i64, Entry>,
    id: i64,
    existing: Seq<&str>,
    later: Seq<&str>,
    key: i64,
    changed: Entry,
)
    requires
        key != id || changed.replaces is None,
    ensures
        left_behind(records, id, existing) matches Some((replaced, folder)) ==> {
            &&& on_disk(existing, folder)
            &&& !(records[id].folder matches Some(f) && f@ == folder)
            &&& forall|other: i64|
                other != replaced && #[trigger] records.contains_key(other) ==> !settled_in(
                    records[other],
                    folder,
                )
        },
        left_behind(swapped_out(records, id), id, later) is None,
        left_behind(swapped_out(records, id).insert(key, changed), id, later) is None,
        changed.retired ==> !shelved(swapped_out(records, id).insert(key, changed)[key], later),
{
}

/// Of the records that hold one folder, the newest keeps it once the library is put back
/// together with the disk: a record that a newer record shares its folder with is released
/// (retired, with neither folder nor file), and the newest keeps its folder and stays finished.
pub proof fn law_the_newest_record_keeps_a_shared_folder(
    before: Map<i64, Entry>,
    after: Map<i64, Entry>,
    existing: Seq<&str>,
    places: Seq<Place>,
    id: i64,
)
    requires
        after.dom() == before.dom(),
        forall|k: i64|
            #[trigger] before.contains_key(k) ==> reconciled(
                unghosted(before, k),
                after[k],
                existing,
                places,
            ),
        before.contains_key(id),
        holds(before[id]),
    ensures
        (exists|newer: i64|
            #![trigger before.contains_key(newer)]
            newer > id && before.contains_key(newer) && holds(before[newer]) && same_folder(
                before[newer],
                before[id],
            )) ==> after[id] == released(before[id]),
        !(exists|newer: i64|
            #![trigger before.contains_key(newer)]
            newer > id && before.contains_key(newer) && holds(before[newer]) && same_folder(
                before[newer],
                before[id],
            )) ==> {
            &&& after[id].folder == before[id].folder
            &&& after[id].settled
            &&& !after[id].retired
        },
{
    assert(reconciled(unghosted(before, id), after[id], existing, places));
}

} // verus!
