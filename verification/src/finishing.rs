//! What a finished download's subtitles came to, said the way she reads it.

use crate::library::{Entry, Library};
use crate::messages::Failure;
use crate::progress::Ended;
use crate::text::Lang;
use crate::std_calls::{lowercase, spec_lowercase};
use crate::words::{contains_text, decimal, decimal_of, has_text, joined2, joined3, same_text};
use vstd::prelude::*;

verus! {

/// How one search for a film's subtitles went.
pub struct Outcome {
    pub saved: usize,
    pub mistimed: usize,
    pub refused: Vec<String>,
    pub spent: bool,
}

impl Default for Outcome {
    fn default() -> (r: Outcome)
        ensures
            r.saved == 0,
            r.mistimed == 0,
            r.refused@.len() == 0,
            !r.spent,
    {
        Outcome { saved: 0, mistimed: 0, refused: Vec::new(), spent: false }
    }
}

/// What a search for subtitles came to, most telling first.
pub open spec fn describe_text(
    saved: usize,
    mistimed: usize,
    refused: nat,
    spent: bool,
    lang: Lang,
) -> Seq<char> {
    if saved > 0 {
        lang.subtitles_added_text(saved)
    } else if spent {
        lang.allowance_gone_text()
    } else if refused > 0 {
        lang.subtitles_refused_text()
    } else if mistimed > 0 {
        lang.subtitles_mistimed_text()
    } else {
        lang.no_subtitles_for_this_copy_text()
    }
}

impl Outcome {
    /// What happened, in her words: saved, then a spent allowance, then a refusal, then
    /// subtitles that were not for this copy, and only then nothing at all.
    pub fn describe(&self, lang: Lang) -> (r: String)
        ensures
            r@ == describe_text(self.saved, self.mistimed, self.refused@.len(), self.spent, lang),
    {
        if self.saved > 0 {
            return lang.subtitles_added(self.saved);
        }
        if self.spent {
            return String::from_str(lang.allowance_gone());
        }
        if self.refused.len() > 0 {
            return String::from_str(lang.subtitles_refused());
        }
        if self.mistimed > 0 {
            return String::from_str(lang.subtitles_mistimed());
        }
        String::from_str(lang.no_subtitles_for_this_copy())
    }
}

/// Where one video's subtitles stand.
pub enum Subtitles {
    Already,
    Fetched,
    Missing(String),
}

/// One video looked at: which episode it is, where its subtitles stand, and whether the
/// subtitle allowance ran out on it.
pub struct Look {
    pub episode: Option<u32>,
    pub subtitles: Subtitles,
    pub spent: bool,
}

/// Which looks a sentence is about.
pub enum Kind {
    Missing,
    Fetched,
}

/// Whether `look` is of `kind`.
pub open spec fn is_kind(look: Look, kind: Kind) -> bool {
    match kind {
        Kind::Missing => look.subtitles is Missing,
        Kind::Fetched => look.subtitles is Fetched,
    }
}

/// What a look whose subtitles are missing says about them.
pub open spec fn missing_said(look: Look) -> Seq<char> {
    match look.subtitles {
        Subtitles::Missing(said) => said@,
        _ => Seq::empty(),
    }
}

/// The looks of `kind`, in order.
pub open spec fn of_kind(looks: Seq<Look>, kind: Kind) -> Seq<Look>
    decreases looks.len(),
{
    if looks.len() == 0 {
        Seq::empty()
    } else if is_kind(looks.last(), kind) {
        of_kind(looks.drop_last(), kind).push(looks.last())
    } else {
        of_kind(looks.drop_last(), kind)
    }
}

/// The episode numbers of `looks`, when every one of them has one.
pub open spec fn numbered(looks: Seq<Look>) -> Option<Seq<u32>>
    decreases looks.len(),
{
    if looks.len() == 0 {
        Some(Seq::empty())
    } else {
        match (numbered(looks.drop_last()), looks.last().episode) {
            (Some(front), Some(n)) => Some(front.push(n)),
            _ => None,
        }
    }
}

/// Whether the numbers are few enough to be named one by one.
pub open spec fn few_numbered(looks: Seq<Look>) -> bool {
    numbered(looks) is Some && numbered(looks)->0.len() <= 3
}

/// The note on her shelf about a download's subtitles.
pub open spec fn summary_text(looks: Seq<Look>, series: bool, lang: Lang) -> Seq<char> {
    let missing = of_kind(looks, Kind::Missing);
    if missing.len() == 0 {
        if looks.len() == 0 {
            Seq::empty()
        } else if looks.len() == 1 {
            lang.subtitles_ready_text()
        } else {
            lang.subtitles_on_every_episode_text()
        }
    } else if !series || looks.len() == 1 {
        missing_said(missing[0])
    } else if few_numbered(missing) {
        lang.subtitles_missing_for_text(numbered(missing)->0)
    } else if missing.len() == looks.len() {
        lang.subtitles_missing_for_all_text(looks.len() as usize)
    } else {
        lang.subtitles_missing_count_text(missing.len() as usize, looks.len() as usize)
    }
}

/// How a set of episodes is named in the button's answer.
pub open spec fn phrase_text(looks: Seq<Look>, lang: Lang) -> Seq<char> {
    if few_numbered(looks) {
        lang.of_episodes_text(numbered(looks)->0)
    } else {
        lang.of_count_episodes_text(looks.len() as usize)
    }
}

/// Whether the subtitle allowance ran out on any of `looks`.
pub open spec fn any_spent(looks: Seq<Look>) -> bool {
    exists|i: int| 0 <= i < looks.len() && looks[i].spent
}

/// What the button that fetches subtitles answers with: what it changed.
pub open spec fn changed_text(looks: Seq<Look>, series: bool, lang: Lang) -> Seq<char> {
    let fetched = of_kind(looks, Kind::Fetched);
    let missing = of_kind(looks, Kind::Missing);
    if !series || looks.len() == 1 {
        if fetched.len() > 0 {
            lang.subtitles_already_there_text()
        } else if missing.len() > 0 {
            missing_said(missing[0]) + "."@
        } else {
            lang.subtitles_were_already_there_text()
        }
    } else if fetched.len() == 0 && missing.len() == 0 {
        lang.all_subtitles_already_there_text()
    } else if missing.len() == 0 {
        lang.all_subtitles_there_now_text()
    } else if fetched.len() > 0 {
        lang.subtitles_fetched_and_missing_text(
            phrase_text(fetched, lang),
            phrase_text(missing, lang),
        )
    } else if any_spent(looks) {
        lang.allowance_gone_try_tomorrow_text()
    } else if few_numbered(missing) {
        lang.no_subtitles_found_for_text(lang.the_episodes_text(numbered(missing)->0))
    } else {
        lang.no_subtitles_found_for_text(lang.count_episodes_text(missing.len() as usize))
    }
}

impl Look {
    /// What is said about subtitles that are missing, when they are.
    fn missing(&self) -> (r: Option<&str>)
        ensures
            (r is Some) == (self.subtitles is Missing),
            r matches Some(said) ==> said@ == missing_said(*self),
    {
        match &self.subtitles {
            Subtitles::Missing(said) => Some(said.as_str()),
            _ => None,
        }
    }

    /// Whether subtitles were fetched for this video just now.
    fn fetched(&self) -> (r: bool)
        ensures
            r == (self.subtitles is Fetched),
    {
        match &self.subtitles {
            Subtitles::Fetched => true,
            _ => false,
        }
    }
}

/// The looks of one kind, read off in one pass.
struct Scan {
    count: usize,
    first: usize,
    numbers: Vec<u32>,
    all_numbered: bool,
    spent: bool,
}

fn look_is(look: &Look, kind: &Kind) -> (r: bool)
    ensures
        r == is_kind(*look, *kind),
{
    match kind {
        Kind::Missing => look.missing().is_some(),
        Kind::Fetched => look.fetched(),
    }
}

proof fn lemma_of_kind_len(looks: Seq<Look>, kind: Kind)
    ensures
        of_kind(looks, kind).len() <= looks.len(),
        forall|j: int|
            0 <= j < of_kind(looks, kind).len() ==> is_kind(#[trigger] of_kind(looks, kind)[j], kind),
    decreases looks.len(),
{
    if looks.len() > 0 {
        lemma_of_kind_len(looks.drop_last(), kind);
    }
}

fn scan(looks: &[Look], kind: Kind) -> (r: Scan)
    ensures
        r.count == of_kind(looks@, kind).len(),
        r.count > 0 ==> r.first < looks@.len() && of_kind(looks@, kind)[0] == looks@[r.first as int],
        r.all_numbered ==> numbered(of_kind(looks@, kind)) == Some(r.numbers@),
        !r.all_numbered ==> numbered(of_kind(looks@, kind)) is None,
        r.spent == any_spent(looks@),
{
    let n = looks.len();
    let mut count: usize = 0;
    let mut first: usize = 0;
    let mut numbers: Vec<u32> = Vec::new();
    let mut all_numbered = true;
    let mut spent = false;
    let mut i: usize = 0;
    while i < n
        invariant
            n == looks@.len(),
            i <= n,
            count == of_kind(looks@.take(i as int), kind).len(),
            count > 0 ==> first < i && of_kind(looks@.take(i as int), kind)[0] == looks@[first as int],
            all_numbered ==> numbered(of_kind(looks@.take(i as int), kind)) == Some(numbers@),
            !all_numbered ==> numbered(of_kind(looks@.take(i as int), kind)) is None,
            spent == (exists|j: int| 0 <= j < i && looks@[j].spent),
        decreases n - i,
    {
        let ghost before = looks@.take(i as int);
        let look = &looks[i];
        assert(looks@.take(i + 1).drop_last() =~= before);
        assert(looks@.take(i + 1).last() == *look);
        proof {
            lemma_of_kind_len(before, kind);
        }
        let ghost after = of_kind(looks@.take(i + 1), kind);
        if look_is(look, &kind) {
            assert(after == of_kind(before, kind).push(*look));
            assert(after.drop_last() =~= of_kind(before, kind));
            if count == 0 {
                first = i;
            }
            if all_numbered {
                match look.episode {
                    Some(number) => numbers.push(number),
                    None => all_numbered = false,
                }
            }
            count = count + 1;
        }
        if look.spent {
            spent = true;
        }
        i = i + 1;
    }
    assert(looks@.take(n as int) =~= looks@);
    proof {
        lemma_of_kind_len(looks@, kind);
    }
    Scan { count, first, numbers, all_numbered, spent }
}

/// The note on her shelf: every episode has subtitles, or which are missing, or how many.
pub fn summarise(looks: &[Look], series: bool, lang: Lang) -> (r: String)
    ensures
        r@ == summary_text(looks@, series, lang),
{
    let missing = scan(looks, Kind::Missing);
    let n = looks.len();
    if missing.count == 0 {
        return if n == 0 {
            String::new()
        } else if n == 1 {
            String::from_str(lang.subtitles_ready())
        } else {
            String::from_str(lang.subtitles_on_every_episode())
        };
    }
    if !series || n == 1 {
        let said = looks[missing.first].missing();
        return match said {
            Some(said) => String::from_str(said),
            None => String::new(),
        };
    }
    if missing.all_numbered && missing.numbers.len() <= 3 {
        lang.subtitles_missing_for(missing.numbers.as_slice())
    } else if missing.count == n {
        lang.subtitles_missing_for_all(n)
    } else {
        lang.subtitles_missing_count(missing.count, n)
    }
}

fn phrase(scanned: &Scan, lang: Lang) -> (r: String)
    requires
        scanned.all_numbered ==> scanned.numbers@.len() == scanned.count,
    ensures
        r@ == (if scanned.all_numbered && scanned.numbers@.len() <= 3 {
            lang.of_episodes_text(scanned.numbers@)
        } else {
            lang.of_count_episodes_text(scanned.count)
        }),
{
    if scanned.all_numbered && scanned.numbers.len() <= 3 {
        lang.of_episodes(scanned.numbers.as_slice())
    } else {
        lang.of_count_episodes(scanned.count)
    }
}

proof fn lemma_numbered_len(looks: Seq<Look>)
    ensures
        numbered(looks) matches Some(numbers) ==> numbers.len() == looks.len(),
    decreases looks.len(),
{
    if looks.len() > 0 {
        lemma_numbered_len(looks.drop_last());
    }
}

/// What the subtitles button answers with: what it changed, and what is still missing.
pub fn changed(looks: &[Look], series: bool, lang: Lang) -> (r: String)
    ensures
        r@ == changed_text(looks@, series, lang),
{
    let fetched = scan(looks, Kind::Fetched);
    let missing = scan(looks, Kind::Missing);
    proof {
        lemma_numbered_len(of_kind(looks@, Kind::Fetched));
        lemma_numbered_len(of_kind(looks@, Kind::Missing));
        lemma_of_kind_len(looks@, Kind::Missing);
    }
    let n = looks.len();
    if !series || n == 1 {
        if fetched.count > 0 {
            return String::from_str(lang.subtitles_already_there());
        }
        if missing.count > 0 {
            let said = looks[missing.first].missing();
            return match said {
                Some(said) => joined2(said, "."),
                None => String::new(),
            };
        }
        return String::from_str(lang.subtitles_were_already_there());
    }
    if fetched.count == 0 && missing.count == 0 {
        String::from_str(lang.all_subtitles_already_there())
    } else if missing.count == 0 {
        String::from_str(lang.all_subtitles_there_now())
    } else if fetched.count > 0 {
        let these = phrase(&fetched, lang);
        let those = phrase(&missing, lang);
        lang.subtitles_fetched_and_missing(these.as_str(), those.as_str())
    } else if missing.spent {
        lang.allowance_gone_try_tomorrow()
    } else if missing.all_numbered && missing.numbers.len() <= 3 {
        let these = lang.the_episodes(missing.numbers.as_slice());
        lang.no_subtitles_found_for(these.as_str())
    } else {
        let these = lang.count_episodes(missing.count);
        lang.no_subtitles_found_for(these.as_str())
    }
}

/// The name a fetched subtitle is saved under beside its video: the video's stem, the language,
/// and from the second try on a number, so an alternative never overwrites the first.
pub open spec fn subtitle_name_text(stem: Seq<char>, language: Seq<char>, attempt: nat) -> Seq<char> {
    if attempt == 1 {
        stem + "."@ + language + ".srt"@
    } else {
        stem + "."@ + language + "."@ + decimal(attempt) + ".srt"@
    }
}

/// The name a fetched subtitle is saved under at the given try.
pub fn subtitle_name(stem: &str, language: &str, attempt: u64) -> (r: String)
    ensures
        r@ == subtitle_name_text(stem@, language@, attempt as nat),
{
    let mut r = joined3(stem, ".", language);
    if attempt != 1 {
        r.append(".");
        let number = decimal_of(attempt);
        r.append(number.as_str());
    }
    r.append(".srt");
    r
}

/// Whether a download the downloader reports as ended still waits to be looked after: it
/// succeeded, and its record is neither settled nor retired.
pub open spec fn waiting(item: Ended, records: Map<i64, Entry>) -> bool {
    item.succeeded && !(records.contains_key(item.id) && (records[item.id].settled
        || records[item.id].retired))
}

/// The ids of the downloads in `history` that wait to be looked after, in its order.
pub open spec fn waiting_ids(history: Seq<Ended>, records: Map<i64, Entry>) -> Seq<i64>
    decreases history.len(),
{
    if history.len() == 0 {
        Seq::empty()
    } else {
        let front = waiting_ids(history.drop_last(), records);
        if waiting(history.last(), records) {
            front.push(history.last().id)
        } else {
            front
        }
    }
}

/// The downloads that succeeded and still wait to be looked after, in the order the downloader
/// lists them.
pub fn to_settle(history: &[Ended], library: &Library) -> (r: Vec<i64>)
    requires
        library.wf(),
    ensures
        r@ == waiting_ids(history@, library@),
{
    let n = history.len();
    let mut r: Vec<i64> = Vec::new();
    let mut i: usize = 0;
    while i < n
        invariant
            n == history@.len(),
            library.wf(),
            i <= n,
            r@ == waiting_ids(history@.take(i as int), library@),
        decreases n - i,
    {
        let item = &history[i];
        let done = match library.get(item.id) {
            Some(entry) => entry.settled || entry.retired,
            None => false,
        };
        assert(history@.take(i + 1).drop_last() =~= history@.take(i as int));
        if item.succeeded && !done {
            r.push(item.id);
        }
        i = i + 1;
    }
    assert(history@.take(n as int) =~= history@);
    r
}

/// Whether a failure says the subtitle service will not give more today: it refused with 406
/// or 429, or the app says so in so many words.
pub open spec fn allowance_gone_text(failure: Failure) -> bool {
    match failure {
        Failure::Refused { status, .. } => status == 406 || status == 429,
        Failure::Setup(said) => has_text(said@, "allowance"@),
        _ => false,
    }
}

/// Whether a failure says the subtitle service will not give more today.
pub fn allowance_gone(failure: &Failure) -> (r: bool)
    ensures
        r == allowance_gone_text(*failure),
{
    match failure {
        Failure::Refused { status, .. } => *status == 406 || *status == 429,
        Failure::Setup(said) => contains_text(said.as_str(), "allowance"),
        _ => false,
    }
}


/// A file found under a folder: where it is, its own name, and how many bytes it holds.
pub struct FileFound {
    pub path: String,
    pub name: String,
    pub size: u64,
}

/// Where the last `.` of `name` is, when it has one.
pub open spec fn last_dot(name: Seq<char>) -> Option<int>
    decreases name.len(),
{
    if name.len() == 0 {
        None
    } else if name.last() == '.' {
        Some(name.len() - 1)
    } else {
        last_dot(name.drop_last())
    }
}

/// The extension of a file's name, as `Path::extension` gives it: what follows the last `.`;
/// none when there is no `.`, or when the only one opens the name.
pub open spec fn extension_of(name: Seq<char>) -> Option<Seq<char>> {
    match last_dot(name) {
        Some(i) => if i > 0 {
            Some(name.skip(i + 1))
        } else {
            None
        },
        None => None,
    }
}

/// Whether the name's extension, lowercased, is one of `suffixes`.
pub open spec fn suffixed(name: Seq<char>, suffixes: Seq<Seq<char>>) -> bool {
    match extension_of(name) {
        Some(extension) => suffixes.contains(spec_lowercase(extension)),
        None => false,
    }
}

/// The texts of a list of strings.
pub open spec fn texts(list: Seq<&str>) -> Seq<Seq<char>> {
    list.map_values(|s: &str| s@)
}

proof fn lemma_last_dot(s: Seq<char>, k: int)
    requires
        0 <= k <= s.len(),
        forall|j: int| k <= j < s.len() ==> s[j] != '.',
    ensures
        last_dot(s) == last_dot(s.take(k)),
    decreases s.len() - k,
{
    if k < s.len() {
        lemma_last_dot(s.drop_last(), k);
        assert(s.drop_last().take(k) =~= s.take(k));
    } else {
        assert(s.take(k) =~= s);
    }
}

/// Where the last `.` of `name` is.
fn find_last_dot(name: &str) -> (r: Option<usize>)
    ensures
        match r {
            Some(i) => i < name@.len() && last_dot(name@) == Some(i as int),
            None => last_dot(name@) is None,
        },
{
    let n = name.unicode_len();
    let mut k: usize = n;
    while k > 0
        invariant
            n == name@.len(),
            k <= n,
            forall|j: int| k <= j < n ==> name@[j] != '.',
        decreases k,
    {
        if name.get_char(k - 1) == '.' {
            proof {
                lemma_last_dot(name@, k as int);
            }
            return Some(k - 1);
        }
        k = k - 1;
    }
    proof {
        lemma_last_dot(name@, 0);
    }
    None
}

/// Whether the extension of the file named `name`, lowercased, is one of `suffixes`.
pub fn has_suffix(name: &str, suffixes: &[&str]) -> (r: bool)
    ensures
        r == suffixed(name@, texts(suffixes@)),
{
    match find_last_dot(name) {
        Some(i) => {
            if i == 0 {
                return false;
            }
            let n = name.unicode_len();
            let extension = name.substring_char(i + 1, n);
            assert(extension@ =~= name@.skip(i + 1));
            let lowered = lowercase(extension);
            assert(extension_of(name@) == Some(name@.skip(i + 1)));
            let m = suffixes.len();
            let mut j: usize = 0;
            while j < m
                invariant
                    m == suffixes@.len(),
                    j <= m,
                    lowered@ == spec_lowercase(name@.skip(i + 1)),
                    extension_of(name@) == Some(name@.skip(i + 1)),
                    forall|k: int| 0 <= k < j ==> texts(suffixes@)[k] != lowered@,
                decreases m - j,
            {
                if same_text(suffixes[j], lowered.as_str()) {
                    assert(texts(suffixes@)[j as int] == lowered@);
                    assert(texts(suffixes@).contains(spec_lowercase(name@.skip(i + 1))));
                    return true;
                }
                j = j + 1;
            }
            false
        },
        None => false,
    }
}

/// Whether the file at `i` is the largest of those whose names carry one of `suffixes`, and the
/// last of them when several are equally large.
pub open spec fn largest_at(files: Seq<FileFound>, suffixes: Seq<Seq<char>>, i: int) -> bool {
    &&& 0 <= i < files.len()
    &&& suffixed(files[i].name@, suffixes)
    &&& forall|j: int|
        0 <= j < files.len() && suffixed(files[j].name@, suffixes) ==> files[j].size
            <= files[i].size
    &&& forall|j: int|
        i < j < files.len() && suffixed(files[j].name@, suffixes) ==> files[j].size
            < files[i].size
}

/// The largest video among the files found, the last of them when several are equally large:
/// a video being a file whose extension is one of `suffixes`.
pub fn largest_video(files: &[FileFound], suffixes: &[&str]) -> (r: Option<String>)
    ensures
        match r {
            Some(path) => exists|i: int|
                largest_at(files@, texts(suffixes@), i) && path@ == files@[i].path@,
            None => forall|j: int|
                0 <= j < files@.len() ==> !suffixed(#[trigger] files@[j].name@, texts(suffixes@)),
        },
{
    let ghost sx = texts(suffixes@);
    let n = files.len();
    let mut best: Option<usize> = None;
    let mut i: usize = 0;
    while i < n
        invariant
            n == files@.len(),
            sx == texts(suffixes@),
            i <= n,
            match best {
                Some(b) => {
                    &&& b < i
                    &&& suffixed(files@[b as int].name@, sx)
                    &&& forall|j: int|
                        0 <= j < i && suffixed(files@[j].name@, sx) ==> files@[j].size
                            <= files@[b as int].size
                    &&& forall|j: int|
                        b < j < i && suffixed(files@[j].name@, sx) ==> files@[j].size
                            < files@[b as int].size
                },
                None => forall|j: int| 0 <= j < i ==> !suffixed(#[trigger] files@[j].name@, sx),
            },
        decreases n - i,
    {
        if has_suffix(files[i].name.as_str(), suffixes) {
            match best {
                Some(b) => {
                    if files[i].size >= files[b].size {
                        best = Some(i);
                    }
                },
                None => {
                    best = Some(i);
                },
            }
        }
        i = i + 1;
    }
    match best {
        Some(b) => {
            assert(largest_at(files@, sx, b as int));
            Some(files[b].path.clone())
        },
        None => None,
    }
}


/// Where a character stands when paths are put in order: a separator before anything else, so
/// that paths go component by component, as `Path` orders them. Both `/` and Windows' `\` count
/// as separators, `/` first, so that a path written with either is ordered as its platform
/// orders it.
pub open spec fn path_rank(c: char) -> int {
    if c == '/' {
        -2
    } else if c == '\\' {
        -1
    } else {
        c as int
    }
}

/// Whether path `a` comes before path `b`.
pub open spec fn path_before(a: Seq<char>, b: Seq<char>) -> bool
    decreases a.len(),
{
    if a.len() == 0 {
        b.len() > 0
    } else if b.len() == 0 {
        false
    } else if a[0] != b[0] {
        path_rank(a[0]) < path_rank(b[0])
    } else {
        path_before(a.drop_first(), b.drop_first())
    }
}

/// Whether paths are in order, none after one that comes before it.
pub open spec fn in_path_order(paths: Seq<Seq<char>>) -> bool {
    forall|i: int, j: int| 0 <= i < j < paths.len() ==> !path_before(paths[j], paths[i])
}

/// The texts of a list of strings held as `String`s.
pub open spec fn views(list: Seq<String>) -> Seq<Seq<char>> {
    list.map_values(|s: String| s@)
}

/// The paths of the files whose names carry one of `suffixes`, in the order they were found.
pub open spec fn chosen(files: Seq<FileFound>, suffixes: Seq<Seq<char>>) -> Seq<Seq<char>>
    decreases files.len(),
{
    if files.len() == 0 {
        Seq::empty()
    } else {
        let front = chosen(files.drop_last(), suffixes);
        if suffixed(files.last().name@, suffixes) {
            front.push(files.last().path@)
        } else {
            front
        }
    }
}

proof fn lemma_before_irreflexive(a: Seq<char>)
    ensures
        !path_before(a, a),
    decreases a.len(),
{
    if a.len() > 0 {
        lemma_before_irreflexive(a.drop_first());
    }
}

proof fn lemma_before_transitive(a: Seq<char>, b: Seq<char>, c: Seq<char>)
    requires
        path_before(a, b),
        path_before(b, c),
    ensures
        path_before(a, c),
    decreases a.len(),
{
    if a.len() > 0 && a[0] == b[0] && b[0] == c[0] {
        lemma_before_transitive(a.drop_first(), b.drop_first(), c.drop_first());
    }
}

proof fn lemma_ranks_differ(x: char, y: char)
    requires
        x != y,
    ensures
        path_rank(x) != path_rank(y),
{
}

proof fn lemma_before_total(a: Seq<char>, b: Seq<char>)
    requires
        a != b,
    ensures
        path_before(a, b) || path_before(b, a),
    decreases a.len(),
{
    if a.len() == 0 && b.len() == 0 {
        assert(a =~= b);
    } else if a.len() > 0 && b.len() > 0 {
        let a1 = a.drop_first();
        let b1 = b.drop_first();
        if a[0] == b[0] {
            if a1 =~= b1 {
                assert forall|i: int| 0 <= i < a.len() implies a[i] == b[i] by {
                    if i > 0 {
                        assert(a[i] == a1[i - 1]);
                        assert(b[i] == b1[i - 1]);
                    }
                }
                assert(a =~= b);
            }
            lemma_before_total(a1, b1);
        } else {
            lemma_ranks_differ(a[0], b[0]);
        }
    }
}

proof fn lemma_before_asymmetric(a: Seq<char>, b: Seq<char>)
    requires
        path_before(a, b),
    ensures
        !path_before(b, a),
{
    if path_before(b, a) {
        lemma_before_transitive(a, b, a);
        lemma_before_irreflexive(a);
    }
}

/// Whether path `a` comes before path `b`.
fn comes_before(a: &str, b: &str) -> (r: bool)
    ensures
        r == path_before(a@, b@),
{
    let n = a.unicode_len();
    let m = b.unicode_len();
    let mut i: usize = 0;
    assert(a@.skip(0) =~= a@);
    assert(b@.skip(0) =~= b@);
    while i < n && i < m && a.get_char(i) == b.get_char(i)
        invariant
            n == a@.len(),
            m == b@.len(),
            i <= n,
            i <= m,
            path_before(a@, b@) == path_before(a@.skip(i as int), b@.skip(i as int)),
        decreases n - i,
    {
        assert(a@.skip(i as int).drop_first() =~= a@.skip(i + 1));
        assert(b@.skip(i as int).drop_first() =~= b@.skip(i + 1));
        i = i + 1;
    }
    if i == n {
        i < m
    } else if i == m {
        false
    } else {
        let x = a.get_char(i);
        let y = b.get_char(i);
        assert(a@.skip(i as int)[0] == x);
        assert(b@.skip(i as int)[0] == y);
        if x == '/' {
            true
        } else if y == '/' {
            false
        } else if x == '\\' {
            true
        } else if y == '\\' {
            false
        } else {
            (x as u32) < (y as u32)
        }
    }
}

proof fn lemma_insert_multiset(s: Seq<Seq<char>>, p: int, x: Seq<char>)
    requires
        0 <= p <= s.len(),
    ensures
        s.insert(p, x).to_multiset() =~= s.to_multiset().insert(x),
{
    broadcast use vstd::seq_lib::group_to_multiset_ensures;

    let t = s.insert(p, x);
    t.to_multiset_ensures();
    assert(t.remove(p) =~= s);
    assert(t[p] == x);
    assert(t.contains(x));
    assert(t.to_multiset().count(x) > 0);
}

/// The paths, put in order.
fn in_order(paths: Vec<String>) -> (r: Vec<String>)
    ensures
        in_path_order(views(r@)),
        views(r@).to_multiset() =~= views(paths@).to_multiset(),
{
    broadcast use vstd::seq_lib::group_to_multiset_ensures;

    let n = paths.len();
    let mut r: Vec<String> = Vec::new();
    let mut k: usize = 0;
    while k < n
        invariant
            n == paths@.len(),
            k <= n,
            in_path_order(views(r@)),
            views(r@).to_multiset() =~= views(paths@).take(k as int).to_multiset(),
        decreases n - k,
    {
        let x = paths[k].clone();
        let ghost s = views(r@);
        let mut p: usize = 0;
        while p < r.len() && !comes_before(x.as_str(), r[p].as_str())
            invariant
                s == views(r@),
                p <= r@.len(),
                forall|j: int| 0 <= j < p ==> !path_before(x@, #[trigger] s[j]),
            decreases r@.len() - p,
        {
            p = p + 1;
        }
        proof {
            let pp = p as int;
            if pp < s.len() {
                assert forall|j: int| pp <= j < s.len() implies path_before(x@, #[trigger] s[j]) by {
                    if j > pp {
                        if s[j] != s[pp] {
                            lemma_before_total(s[j], s[pp]);
                            lemma_before_transitive(x@, s[pp], s[j]);
                        }
                    }
                }
            }
            let t = s.insert(pp, x@);
            assert forall|i: int, j: int| 0 <= i < j < t.len() implies !path_before(t[j], t[i]) by {
                if j < pp {
                } else if j == pp {
                } else if i < pp {
                } else if i == pp {
                    lemma_before_asymmetric(x@, s[j - 1]);
                } else {
                }
            }
            lemma_insert_multiset(s, pp, x@);
            let base = views(paths@).take(k as int);
            base.to_multiset_ensures();
            assert(views(paths@).take(k + 1) =~= base.push(x@));
            assert(base.push(x@).to_multiset() =~= base.to_multiset().insert(x@));
        }
        r.insert(p, x);
        assert(views(r@) =~= s.insert(p as int, x@));
        k = k + 1;
    }
    assert(views(paths@).take(n as int) =~= views(paths@));
    r
}

/// The paths of the files whose names carry one of `suffixes`, in the order they were found.
fn chosen_paths(files: &[FileFound], suffixes: &[&str]) -> (r: Vec<String>)
    ensures
        views(r@) == chosen(files@, texts(suffixes@)),
{
    let n = files.len();
    let mut r: Vec<String> = Vec::new();
    let mut i: usize = 0;
    while i < n
        invariant
            n == files@.len(),
            i <= n,
            views(r@) == chosen(files@.take(i as int), texts(suffixes@)),
        decreases n - i,
    {
        assert(files@.take(i + 1).drop_last() =~= files@.take(i as int));
        if has_suffix(files[i].name.as_str(), suffixes) {
            let path = files[i].path.clone();
            let ghost before = r@;
            r.push(path);
            assert(views(r@) =~= views(before).push(files@[i as int].path@));
        }
        i = i + 1;
    }
    assert(files@.take(n as int) =~= files@);
    r
}

/// The videos among the files found, in path order: a video being a file whose extension is
/// one of `suffixes`.
pub fn all_videos(files: &[FileFound], suffixes: &[&str]) -> (r: Vec<String>)
    ensures
        in_path_order(views(r@)),
        views(r@).to_multiset() == chosen(files@, texts(suffixes@)).to_multiset(),
{
    in_order(chosen_paths(files, suffixes))
}

/// The loose subtitles among the files found, in path order: a subtitle being a file whose
/// extension is one of `suffixes`.
pub fn subtitles_in(files: &[FileFound], suffixes: &[&str]) -> (r: Vec<String>)
    ensures
        in_path_order(views(r@)),
        views(r@).to_multiset() == chosen(files@, texts(suffixes@)).to_multiset(),
{
    in_order(chosen_paths(files, suffixes))
}


/// How many subtitles a search saves at most: one when the best of them was timed to this very
/// file, since that one fits and another adds nothing; otherwise as many as asked.
pub open spec fn wanted_for_text(best_timed_here: Option<bool>, wanted: usize) -> usize {
    if best_timed_here == Some(true) {
        1
    } else {
        wanted
    }
}

/// How many subtitles a search saves at most, given whether the best was timed to this file.
pub fn wanted_for(best_timed_here: Option<bool>, wanted: usize) -> (r: usize)
    ensures
        r == wanted_for_text(best_timed_here, wanted),
{
    match best_timed_here {
        Some(true) => 1,
        _ => wanted,
    }
}

/// What becomes of the next subtitle in the ranking.
#[derive(Clone, Copy, Debug, PartialEq, Eq, Structural)]
pub enum Verdict {
    /// Enough were saved, or the service will give no more today: the search ends.
    Stop,
    /// Another take of a timing already tried (same uploader, same release): passed over.
    Skip,
    /// Fetched from the service.
    Fetch,
}

/// What fetching one subtitle came to.
pub enum Fetched {
    /// The service refused it: why, and whether that says it gives no more today.
    Refused { said: String, allowance_gone: bool },
    /// It is not timed for this copy.
    Mistimed,
    /// It was saved beside the video.
    Saved,
    /// It could not be written: why.
    NotWritten { said: String },
}

/// A search for subtitles under way: what it has come to, the takes already tried, and how
/// many it saves at most.
pub struct Saving {
    pub outcome: Outcome,
    pub takes: Vec<(Option<i64>, String)>,
    pub wanted: usize,
}

/// The takes tried, as the proofs see them.
pub open spec fn takes_view(takes: Seq<(Option<i64>, String)>) -> Seq<(Option<i64>, Seq<char>)> {
    takes.map_values(|take: (Option<i64>, String)| (take.0, take.1@))
}

/// What becomes of a subtitle of this take, in a search that has saved `saved`, spent its
/// allowance or not, and tried `takes`.
pub open spec fn verdict_of(
    saved: usize,
    spent: bool,
    wanted: usize,
    takes: Seq<(Option<i64>, Seq<char>)>,
    take: (Option<i64>, Seq<char>),
) -> Verdict {
    if saved >= wanted || spent {
        Verdict::Stop
    } else if takes.contains(take) {
        Verdict::Skip
    } else {
        Verdict::Fetch
    }
}

impl Saving {
    /// A search that saves at most `wanted`, with nothing tried yet.
    pub fn new(wanted: usize) -> (r: Saving)
        ensures
            r.wanted == wanted,
            r.outcome.saved == 0,
            r.outcome.mistimed == 0,
            r.outcome.refused@.len() == 0,
            !r.outcome.spent,
            r.takes@.len() == 0,
    {
        Saving { outcome: Outcome::default(), takes: Vec::new(), wanted }
    }

    /// What becomes of the next subtitle, by `uploader` for `release`: the search stops once
    /// enough were saved or the allowance is spent; a take already tried is passed over; any
    /// other is fetched, and its take remembered.
    pub fn next(&mut self, uploader: Option<i64>, release: &str) -> (r: Verdict)
        ensures
            r == verdict_of(
                old(self).outcome.saved,
                old(self).outcome.spent,
                old(self).wanted,
                takes_view(old(self).takes@),
                (uploader, release@),
            ),
            final(self).outcome == old(self).outcome,
            final(self).wanted == old(self).wanted,
            r == Verdict::Fetch ==> takes_view(final(self).takes@) == takes_view(old(self).takes@).push(
                (uploader, release@),
            ),
            r != Verdict::Fetch ==> final(self).takes@ == old(self).takes@,
    {
        if self.outcome.saved >= self.wanted || self.outcome.spent {
            return Verdict::Stop;
        }
        let n = self.takes.len();
        let mut i: usize = 0;
        while i < n
            invariant
                n == self.takes@.len(),
                i <= n,
                self.takes@ == old(self).takes@,
                self.outcome == old(self).outcome,
                self.wanted == old(self).wanted,
                !(self.outcome.saved >= self.wanted || self.outcome.spent),
                forall|k: int| 0 <= k < i ==> takes_view(self.takes@)[k] != (uploader, release@),
            decreases n - i,
        {
            if self.takes[i].0 == uploader && same_text(self.takes[i].1.as_str(), release) {
                assert(takes_view(self.takes@)[i as int] == (uploader, release@));
                assert(takes_view(self.takes@).contains((uploader, release@)));
                return Verdict::Skip;
            }
            i = i + 1;
        }
        let ghost before = self.takes@;
        self.takes.push((uploader, String::from_str(release)));
        assert(takes_view(self.takes@) =~= takes_view(before).push((uploader, release@)));
        Verdict::Fetch
    }

    /// What a fetch came to, counted: a refusal is kept, and spends the allowance when it says
    /// so; a mistimed one and a saved one are counted; one that could not be written is kept
    /// as a refusal.
    pub fn fetched(&mut self, result: Fetched)
        requires
            old(self).outcome.saved < usize::MAX,
            old(self).outcome.mistimed < usize::MAX,
        ensures
            final(self).wanted == old(self).wanted,
            final(self).takes@ == old(self).takes@,
            match result {
                Fetched::Refused { said, allowance_gone } => {
                    &&& final(self).outcome.refused@ == old(self).outcome.refused@.push(said)
                    &&& final(self).outcome.spent == (old(self).outcome.spent || allowance_gone)
                    &&& final(self).outcome.saved == old(self).outcome.saved
                    &&& final(self).outcome.mistimed == old(self).outcome.mistimed
                },
                Fetched::Mistimed => final(self).outcome.mistimed == old(self).outcome.mistimed + 1
                    && final(self).outcome.saved == old(self).outcome.saved
                    && final(self).outcome.refused@ == old(self).outcome.refused@
                    && final(self).outcome.spent == old(self).outcome.spent,
                Fetched::Saved => final(self).outcome.saved == old(self).outcome.saved + 1
                    && final(self).outcome.mistimed == old(self).outcome.mistimed
                    && final(self).outcome.refused@ == old(self).outcome.refused@
                    && final(self).outcome.spent == old(self).outcome.spent,
                Fetched::NotWritten { said } => final(self).outcome.refused@
                    == old(self).outcome.refused@.push(said) && final(self).outcome.saved
                    == old(self).outcome.saved && final(self).outcome.mistimed
                    == old(self).outcome.mistimed && final(self).outcome.spent
                    == old(self).outcome.spent,
            },
    {
        match result {
            Fetched::Refused { said, allowance_gone } => {
                self.outcome.refused.push(said);
                if allowance_gone {
                    self.outcome.spent = true;
                }
            },
            Fetched::Mistimed => {
                self.outcome.mistimed = self.outcome.mistimed + 1;
            },
            Fetched::Saved => {
                self.outcome.saved = self.outcome.saved + 1;
            },
            Fetched::NotWritten { said } => {
                self.outcome.refused.push(said);
            },
        }
    }
}

/// A search for subtitles never fetches the same take twice, stops for good once the service
/// says the allowance is spent, and never saves more than it wants: a take once fetched is
/// passed over or the search has stopped; after a spent allowance every verdict is to stop; and
/// a fetch is only ever allowed while fewer than the wanted number were saved.
pub proof fn law_a_search_for_subtitles_skips_repeats_and_stops_when_spent(
    saved: usize,
    spent: bool,
    wanted: usize,
    takes: Seq<(Option<i64>, Seq<char>)>,
    take: (Option<i64>, Seq<char>),
    later_saved: usize,
    later_takes: Seq<(Option<i64>, Seq<char>)>,
)
    requires
        forall|t: (Option<i64>, Seq<char>)| takes.push(take).contains(t) ==> later_takes.contains(t),
    ensures
        verdict_of(saved, spent, wanted, takes, take) == Verdict::Fetch ==> verdict_of(
            later_saved,
            spent,
            wanted,
            later_takes,
            take,
        ) != Verdict::Fetch,
        verdict_of(later_saved, true, wanted, later_takes, take) == Verdict::Stop,
        verdict_of(saved, spent, wanted, takes, take) == Verdict::Fetch ==> saved < wanted,
{
    assert(takes.push(take)[takes.len() as int] == take);
    assert(takes.push(take).contains(take));
}


proof fn lemma_waiting_ids(history: Seq<Ended>, records: Map<i64, Entry>, k: int)
    requires
        0 <= k < history.len(),
        history[k].succeeded,
        !(records.contains_key(history[k].id) && (records[history[k].id].settled
            || records[history[k].id].retired)),
    ensures
        waiting_ids(history, records).contains(history[k].id),
    decreases history.len(),
{
    let front = waiting_ids(history.drop_last(), records);
    if k == history.len() - 1 {
        assert(waiting_ids(history, records) == front.push(history[k].id));
        assert(front.push(history[k].id)[front.len() as int] == history[k].id);
    } else {
        assert(history.drop_last()[k] == history[k]);
        lemma_waiting_ids(history.drop_last(), records, k);
        let j = choose|j: int| 0 <= j < front.len() && front[j] == history[k].id;
        if waiting(history.last(), records) {
            assert(waiting_ids(history, records)[j] == history[k].id);
        }
    }
}

proof fn lemma_waiting_ids_come_from_history(history: Seq<Ended>, records: Map<i64, Entry>, id: i64)
    requires
        waiting_ids(history, records).contains(id),
    ensures
        exists|k: int|
            0 <= k < history.len() && history[k].id == id && history[k].succeeded && !(
            records.contains_key(id) && (records[id].settled || records[id].retired)),
    decreases history.len(),
{
    let front = waiting_ids(history.drop_last(), records);
    let last = history.len() - 1;
    if waiting(history.last(), records) && history.last().id == id {
        assert(history[last] == history.last());
    } else {
        if waiting(history.last(), records) {
            let j = choose|j: int| 0 <= j < front.push(history.last().id).len() && front.push(
                history.last().id,
            )[j] == id;
            assert(j < front.len());
            assert(front[j] == id);
        }
        assert(front.contains(id));
        lemma_waiting_ids_come_from_history(history.drop_last(), records, id);
        let k = choose|k: int|
            0 <= k < history.drop_last().len() && history.drop_last()[k].id == id
                && history.drop_last()[k].succeeded && !(records.contains_key(id) && (
            records[id].settled || records[id].retired));
        assert(history[k] == history.drop_last()[k]);
    }
}

/// Every download that succeeded and whose record is neither settled nor retired, or that has
/// no record yet, is looked after; and nothing else is: every id looked after is one that
/// succeeded in the history and whose record, if there is one, is neither settled nor retired.
pub proof fn law_every_finished_download_is_settled_once(
    history: Seq<Ended>,
    records: Map<i64, Entry>,
    k: int,
    id: i64,
)
    ensures
        0 <= k < history.len() && history[k].succeeded && !(records.contains_key(history[k].id) && (
        records[history[k].id].settled || records[history[k].id].retired)) ==> waiting_ids(
            history,
            records,
        ).contains(history[k].id),
        waiting_ids(history, records).contains(id) ==> (exists|j: int|
            0 <= j < history.len() && history[j].id == id && history[j].succeeded) && !(
        records.contains_key(id) && (records[id].settled || records[id].retired)),
{
    if 0 <= k < history.len() && history[k].succeeded && !(records.contains_key(history[k].id) && (
    records[history[k].id].settled || records[history[k].id].retired)) {
        lemma_waiting_ids(history, records, k);
    }
    if waiting_ids(history, records).contains(id) {
        lemma_waiting_ids_come_from_history(history, records, id);
    }
}

} // verus!
