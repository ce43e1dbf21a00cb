//! The words and the orderings behind getting films: how a copy is described, which copy is
//! tried next, and what the tray says about what is coming down.

use crate::settings_file::{host_part, host_part_of, opt_view};
use crate::text::Lang;
use crate::std_calls::{lowercase, spec_lowercase};
use crate::words::{
    contains_text, decimal, decimal_of, has_text, joined2, joined3, lemma_trailing_space_bound,
    trim_end_text, trimmed_end,
};
use vstd::prelude::*;

verus! {

/// How many copies are tried before giving up. Chasing every copy the indexer listed spent
/// 200 GB and a day to arrive at "no"; three failures in a row say the rest are not worth her
/// bandwidth.
pub const CHASE_LIMIT: usize = 3;

/// Windows truncates a tray tooltip past this many characters.
pub const TRAY_TOOLTIP_LIMIT: usize = 127;

/// How long a title may be in the tray before it is cut.
pub const TRAY_TITLE_LIMIT: usize = 34;

/// One episode of a season she owns, as the screen that plays it needs it.
pub struct EpisodeRow {
    pub label: String,
    /// Subtitles she can read, beside the file or inside it.
    pub subtitles: bool,
    /// What the show database calls it, and what happens in it.
    pub title: Option<String>,
    pub overview: Option<String>,
    pub season: Option<u32>,
    pub number: Option<u32>,
}

/// One release of a film, described as she would judge it rather than as it is named.
pub struct Version {
    pub index: usize,
    pub quality: String,
    pub size: String,
    pub size_bytes: u64,
    pub language: String,
    /// The language group a chip can stand for: "es", "latino" or "original".
    pub voice: &'static str,
    pub grabs: u64,
    pub chosen: bool,
    pub name: String,
    /// Whether it fits on her disk, decided by the same rule that will later refuse it.
    pub room: &'static str,
    /// The room it actually needs while it downloads and unpacks.
    pub needs: String,
    /// How long it will take at the speed downloads have actually run at, when that is known.
    pub minutes: Option<i64>,
}

/// What the detail screen needs to not lie: on the shelf, on its way, or neither.
pub struct Owned {
    pub have: Option<i64>,
    pub downloading: Option<i64>,
}

/// A download that was asked for: which one, and whether it was already running.
pub struct Grabbed {
    pub id: i64,
    pub already: bool,
}

/// What the tray icon shows: the tooltip on hover, and the same thing in one line for the menu.
pub struct TrayReport {
    pub tooltip: String,
    pub summary: String,
}

/// What a release's name says about its language.
#[derive(Clone, Copy, Debug, PartialEq, Eq, Structural)]
pub enum Tag {
    Spanish,
    Latino,
    Dual,
    Subbed,
    OtherLanguage,
    Other,
}

// --- words about a copy ------------------------------------------------------------------

/// The words she reads for a copy's definition, with the resolution beside them.
pub open spec fn definition_text(title: Seq<char>) -> Seq<char> {
    let plain = spec_lowercase(title);
    if has_text(plain, "2160p"@) || has_text(plain, "4k"@) {
        "4K"@
    } else if has_text(plain, "1080p"@) {
        "Alta definición (1080p)"@
    } else if has_text(plain, "720p"@) {
        "Buena calidad (720p)"@
    } else {
        "Calidad normal"@
    }
}

/// The words she reads for a copy's definition, judged from its name.
pub fn definition_of(title: &str) -> (r: &'static str)
    ensures
        r@ == definition_text(title@),
{
    let plain = lowercase(title);
    if contains_text(plain.as_str(), "2160p") || contains_text(plain.as_str(), "4k") {
        "4K"
    } else if contains_text(plain.as_str(), "1080p") {
        "Alta definición (1080p)"
    } else if contains_text(plain.as_str(), "720p") {
        "Buena calidad (720p)"
    } else {
        "Calidad normal"
    }
}

fn has_tag(tags: &[Tag], tag: Tag) -> (r: bool)
    ensures
        r == tags@.contains(tag),
{
    let n = tags.len();
    let mut i: usize = 0;
    while i < n
        invariant
            n == tags@.len(),
            i <= n,
            forall|j: int| 0 <= j < i ==> tags@[j] != tag,
        decreases n - i,
    {
        if tags[i] == tag {
            assert(tags@[i as int] == tag);
            return true;
        }
        i = i + 1;
    }
    false
}

/// The chip a copy belongs under. Dual counts as Spanish unless it says it is Latino or
/// another language.
pub open spec fn voice_text(tags: Seq<Tag>) -> Seq<char> {
    if tags.contains(Tag::Spanish) || (tags.contains(Tag::Dual) && !tags.contains(Tag::Latino)
        && !tags.contains(Tag::OtherLanguage)) {
        "es"@
    } else if tags.contains(Tag::Latino) {
        "latino"@
    } else {
        "original"@
    }
}

/// The chip a copy belongs under.
pub fn voice_of(tags: &[Tag]) -> (r: &'static str)
    ensures
        r@ == voice_text(tags@),
{
    if has_tag(tags, Tag::Spanish) || (has_tag(tags, Tag::Dual) && !has_tag(tags, Tag::Latino)
        && !has_tag(tags, Tag::OtherLanguage)) {
        "es"
    } else if has_tag(tags, Tag::Latino) {
        "latino"
    } else {
        "original"
    }
}

/// The language a copy is in, in her words.
pub open spec fn language_text(tags: Seq<Tag>) -> Seq<char> {
    if tags.contains(Tag::Spanish) {
        "Español"@
    } else if tags.contains(Tag::Latino) {
        "Español latino"@
    } else if tags.contains(Tag::Dual) {
        "Dos idiomas"@
    } else if tags.contains(Tag::Subbed) {
        "Original con subtítulos"@
    } else {
        "Versión original"@
    }
}

/// The language a copy is in, in her words.
pub fn language_of(tags: &[Tag]) -> (r: String)
    ensures
        r@ == language_text(tags@),
{
    if has_tag(tags, Tag::Spanish) {
        String::from_str("Español")
    } else if has_tag(tags, Tag::Latino) {
        String::from_str("Español latino")
    } else if has_tag(tags, Tag::Dual) {
        String::from_str("Dos idiomas")
    } else if has_tag(tags, Tag::Subbed) {
        String::from_str("Original con subtítulos")
    } else {
        String::from_str("Versión original")
    }
}

// --- which copy next --------------------------------------------------------------------------

/// Whether the copy at `i` speaks as the chosen one does.
pub open spec fn same_voice(voices: Seq<&str>, chosen: nat, i: int) -> bool {
    chosen < voices.len() && voices[i]@ == voices[chosen as int]@
}

/// The copies before `upto`, other than the chosen one, that do (or do not) speak as it does.
pub open spec fn behind(voices: Seq<&str>, chosen: nat, upto: nat, alike: bool) -> Seq<usize>
    decreases upto,
{
    if upto == 0 {
        Seq::empty()
    } else {
        let i = (upto - 1) as int;
        let front = behind(voices, chosen, (upto - 1) as nat, alike);
        if i != chosen && same_voice(voices, chosen, i) == alike {
            front.push(i as usize)
        } else {
            front
        }
    }
}

/// The order copies are tried in: the chosen one, then the others in the same voice, best
/// first, then the rest. Her choice of copy is also a choice of language, so a silent switch
/// to another language comes last.
pub open spec fn candidate_order(voices: Seq<&str>, version: Option<usize>) -> Seq<usize> {
    let chosen: nat = match version {
        Some(v) => v as nat,
        None => 0,
    };
    let first: Seq<usize> = if chosen < voices.len() { seq![chosen as usize] } else { Seq::empty() };
    first + behind(voices, chosen, voices.len(), true) + behind(voices, chosen, voices.len(), false)
}

/// The positions of the copies in the order they are tried, given each copy's voice.
pub fn candidates_from(voices: &[&str], version: Option<usize>) -> (r: Vec<usize>)
    ensures
        r@ == candidate_order(voices@, version),
{
    let chosen: usize = match version {
        Some(v) => v,
        None => 0,
    };
    let n = voices.len();
    let mut ordered: Vec<usize> = Vec::new();
    if chosen < n {
        ordered.push(chosen);
    }
    let ghost first = ordered@;
    let mut alike: Vec<usize> = Vec::new();
    let mut other: Vec<usize> = Vec::new();
    let mut i: usize = 0;
    while i < n
        invariant
            n == voices@.len(),
            i <= n,
            alike@ == behind(voices@, chosen as nat, i as nat, true),
            other@ == behind(voices@, chosen as nat, i as nat, false),
        decreases n - i,
    {
        if i != chosen {
            let same = chosen < n && crate::words::same_text(voices[i], voices[chosen]);
            if same {
                alike.push(i);
            } else {
                other.push(i);
            }
        }
        i = i + 1;
    }
    ordered.append(&mut alike);
    ordered.append(&mut other);
    ordered
}

/// Whether a download ended because somebody meant it to, rather than because the copy was
/// bad: her pressing cancel, or the downloader's duplicate check.
pub open spec fn abandoned_deliberately_text(status: Seq<char>) -> bool {
    has_text(status, "MANUAL"@) || has_text(status, "COPY"@)
}

/// Whether a download ended because somebody meant it to.
pub fn abandoned_deliberately(status: &str) -> (r: bool)
    ensures
        r == abandoned_deliberately_text(status@),
{
    contains_text(status, "MANUAL") || contains_text(status, "COPY")
}

// --- the tray --------------------------------------------------------------------------------

/// Texts joined with line feeds between them.
pub open spec fn joined_with_breaks(lines: Seq<Seq<char>>) -> Seq<char>
    decreases lines.len(),
{
    if lines.len() == 0 {
        Seq::empty()
    } else if lines.len() == 1 {
        lines[0]
    } else {
        joined_with_breaks(lines.drop_last()) + "\n"@ + lines.last()
    }
}

/// The views of some texts.
pub open spec fn texts_view(items: Seq<String>) -> Seq<Seq<char>> {
    items.map_values(|item: String| item@)
}

/// The tooltip that shows the header and the first `shown` films, then how many were left out.
pub open spec fn tooltip_showing(header: Seq<char>, items: Seq<Seq<char>>, shown: nat) -> Seq<char> {
    let listed = seq![header] + items.take(shown as int);
    if shown < items.len() {
        joined_with_breaks(listed.push("y "@ + decimal((items.len() - shown) as nat) + " más"@))
    } else {
        joined_with_breaks(listed)
    }
}

/// The tooltip with as many films as fit, counting down from `shown`.
pub open spec fn tooltip_from(header: Seq<char>, items: Seq<Seq<char>>, shown: nat) -> Seq<char>
    decreases shown,
{
    if shown == 0 || tooltip_showing(header, items, shown).len() <= TRAY_TOOLTIP_LIMIT {
        tooltip_showing(header, items, shown)
    } else {
        tooltip_from(header, items, (shown - 1) as nat)
    }
}

/// The tooltip: the header, as many films as Windows will show, and a count of the rest.
pub open spec fn tooltip_text(header: Seq<char>, items: Seq<Seq<char>>) -> Seq<char> {
    tooltip_from(header, items, items.len())
}

pub(crate) fn joined_breaks(lines: &Vec<String>) -> (r: String)
    ensures
        r@ == joined_with_breaks(texts_view(lines@)),
{
    let n = lines.len();
    let mut r = String::new();
    let mut i: usize = 0;
    while i < n
        invariant
            n == lines@.len(),
            i <= n,
            r@ == joined_with_breaks(texts_view(lines@.take(i as int))),
        decreases n - i,
    {
        assert(texts_view(lines@.take(i + 1)).drop_last() =~= texts_view(lines@.take(i as int)));
        if i > 0 {
            r.append("\n");
        }
        r.append(lines[i].as_str());
        i = i + 1;
    }
    assert(lines@.take(n as int) =~= lines@);
    r
}

fn tooltip_showing_of(header: &str, items: &Vec<String>, shown: usize) -> (r: String)
    requires
        shown <= items@.len(),
    ensures
        r@ == tooltip_showing(header@, texts_view(items@), shown as nat),
{
    let mut lines: Vec<String> = Vec::new();
    lines.push(String::from_str(header));
    let mut i: usize = 0;
    while i < shown
        invariant
            shown <= items@.len(),
            i <= shown,
            texts_view(lines@) == seq![header@] + texts_view(items@).take(i as int),
        decreases shown - i,
    {
        let ghost before = lines@;
        lines.push(items[i].clone());
        assert(texts_view(lines@) =~= texts_view(before).push(items@[i as int]@));
        assert(texts_view(items@).take(i + 1) =~= texts_view(items@).take(i as int).push(items@[i as int]@));
        i = i + 1;
    }
    if shown < items.len() {
        let left = decimal_of((items.len() - shown) as u64);
        let ghost before = lines@;
        let line = joined3("y ", left.as_str(), " más");
        lines.push(line);
        assert(texts_view(lines@) =~= texts_view(before).push(line@));
    }
    joined_breaks(&lines)
}

/// The tooltip: the header, as many films as fit in what Windows shows, then how many more.
pub fn tray_tooltip(header: &str, items: &Vec<String>) -> (r: String)
    ensures
        r@ == tooltip_text(header@, texts_view(items@)),
{
    let mut shown = items.len();
    loop
        invariant
            shown <= items@.len(),
            tooltip_text(header@, texts_view(items@)) == tooltip_from(header@, texts_view(items@), shown as nat),
        decreases shown,
    {
        let tooltip = tooltip_showing_of(header, items, shown);
        if shown == 0 || tooltip.as_str().unicode_len() <= TRAY_TOOLTIP_LIMIT {
            return tooltip;
        }
        shown = shown - 1;
    }
}

/// A title cut to `limit` characters, ending in an ellipsis, when it is longer than that.
pub open spec fn shortened_text(title: Seq<char>, limit: nat) -> Seq<char> {
    if title.len() <= limit {
        title
    } else {
        let kept = if limit >= 1 { title.take(limit - 1) } else { Seq::empty() };
        trimmed_end(kept) + seq!['\u{2026}']
    }
}

/// A title cut to fit the tray.
pub fn shortened(title: &str, limit: usize) -> (r: String)
    ensures
        r@ == shortened_text(title@, limit as nat),
{
    let n = title.unicode_len();
    if n <= limit {
        return String::from_str(title);
    }
    let keep = if limit >= 1 { limit - 1 } else { 0 };
    let kept = title.substring_char(0, keep);
    assert(kept@ =~= (if limit >= 1 { title@.take(limit - 1) } else { Seq::empty() }));
    let mut r = trim_end_text(kept);
    crate::std_calls::push_char(&mut r, '\u{2026}');
    r
}

/// The host an address names, in small letters.
pub open spec fn host_text(url: Seq<char>) -> Option<Seq<char>> {
    match host_part(url) {
        Some(host) => Some(spec_lowercase(host)),
        None => None,
    }
}

/// The host an address names, in small letters, when it names one.
pub fn host_of(url: &str) -> (r: Option<String>)
    ensures
        opt_view(r) == host_text(url@),
{
    match host_part_of(url) {
        Some(host) => Some(lowercase(host.as_str())),
        None => None,
    }
}

/// What the tray says, given each download's line, or nothing when the downloader could not be
/// asked, and how fast downloads are running when any is.
pub open spec fn tray_report_text(lines: Option<Seq<Seq<char>>>, speed: Seq<char>) -> (Seq<char>, Seq<char>) {
    match lines {
        None => ("Mamá Cine"@, "Mamá Cine"@),
        Some(lines) => if lines.len() == 0 {
            ("Mamá Cine · No se está descargando nada"@, "No se está descargando nada"@)
        } else {
            let header = if speed.len() == 0 { "Mamá Cine"@ } else { "Mamá Cine · "@ + speed };
            let summary = if lines.len() == 1 {
                lines[0]
            } else if speed.len() == 0 {
                decimal(lines.len()) + " descargas en marcha"@
            } else {
                decimal(lines.len()) + " descargas · "@ + speed
            };
            (tooltip_text(header, lines), summary)
        },
    }
}

/// What the tray icon says on hover: whether anything is coming down, how far along it is and
/// how fast, without opening the window.
pub fn tray_report_of(lines: Option<Vec<String>>, speed: &str) -> (r: TrayReport)
    ensures
        (r.tooltip@, r.summary@) == tray_report_text(
            match lines {
                Some(lines) => Some(texts_view(lines@)),
                None => None,
            },
            speed@,
        ),
{
    match lines {
        None => TrayReport {
            tooltip: String::from_str("Mamá Cine"),
            summary: String::from_str("Mamá Cine"),
        },
        Some(lines) => {
            let n = lines.len();
            if n == 0 {
                return TrayReport {
                    tooltip: String::from_str("Mamá Cine · No se está descargando nada"),
                    summary: String::from_str("No se está descargando nada"),
                };
            }
            let quiet = speed.unicode_len() == 0;
            let header = if quiet {
                String::from_str("Mamá Cine")
            } else {
                joined2("Mamá Cine · ", speed)
            };
            let count = decimal_of(n as u64);
            let summary = if n == 1 {
                lines[0].clone()
            } else if quiet {
                joined2(count.as_str(), " descargas en marcha")
            } else {
                joined3(count.as_str(), " descargas · ", speed)
            };
            TrayReport { tooltip: tray_tooltip(header.as_str(), &lines), summary }
        },
    }
}

// --- the episodes of a season she owns -------------------------------------------------------

/// What the screen calls one video of a season: its season and episode when the folder holds
/// several seasons, its episode when it holds one, and its place in the folder, counted from
/// one, when its name says neither.
pub open spec fn episode_label_text(numbered: Option<(u32, u32)>, several: bool, position: nat, lang: Lang) -> Seq<char> {
    match numbered {
        Some((season, episode)) => if several {
            lang.season_episode_label_text(season, episode)
        } else {
            lang.episode_label_text(episode)
        },
        None => lang.video_label_text((position + 1) as usize),
    }
}

/// What the screen calls the video at `position` of a season, given the season and episode its
/// name states, if it states them, and whether the folder holds several seasons.
pub fn episode_label(numbered: Option<(u32, u32)>, several: bool, position: usize, lang: Lang) -> (r: String)
    requires
        position < usize::MAX,
    ensures
        r@ == episode_label_text(numbered, several, position as nat, lang),
{
    match numbered {
        Some((season, episode)) => if several {
            lang.season_episode_label(season, episode)
        } else {
            lang.episode_label(episode)
        },
        None => lang.video_label(position + 1),
    }
}

/// Whether a video's name states this season.
pub open spec fn states_season(numbered: Option<(u32, u32)>, season: u32) -> bool {
    numbered matches Some((stated, _)) && stated == season
}

/// The first and the last season the names of a folder's videos state, when any states one.
pub open spec fn season_span_matches(numbered: Seq<Option<(u32, u32)>>, span: Option<(u32, u32)>) -> bool {
    match span {
        Some((first, last)) => {
            &&& exists|k: int| 0 <= k < numbered.len() && states_season(numbered[k], first)
            &&& exists|k: int| 0 <= k < numbered.len() && states_season(numbered[k], last)
            &&& forall|k: int|
                0 <= k < numbered.len() && #[trigger] numbered[k] is Some ==> first <= (numbered[k]->0).0 <= last
        },
        None => forall|k: int| 0 <= k < numbered.len() ==> #[trigger] numbered[k] is None,
    }
}

/// Which seasons a folder holds, from the season each video's name states.
pub fn season_span(numbered: &[Option<(u32, u32)>]) -> (r: Option<(u32, u32)>)
    ensures
        season_span_matches(numbered@, r),
{
    let n = numbered.len();
    let mut span: Option<(u32, u32)> = None;
    let mut i: usize = 0;
    while i < n
        invariant
            n == numbered@.len(),
            i <= n,
            season_span_matches(numbered@.take(i as int), span),
        decreases n - i,
    {
        let ghost before = numbered@.take(i as int);
        let ghost after = numbered@.take(i + 1);
        assert(after == before.push(numbered@[i as int]));
        match numbered[i] {
            Some((season, _)) => {
                let next = match span {
                    Some((first, last)) => Some(
                        (if season < first { season } else { first }, if season > last { season } else { last }),
                    ),
                    None => Some((season, season)),
                };
                proof {
                    let (first, last) = next->0;
                    assert(after[i as int] == numbered@[i as int]);
                    if span is Some {
                        let (f0, l0) = span->0;
                        if season < f0 {
                            assert(states_season(after[i as int], first));
                        } else {
                            let k = choose|k: int| 0 <= k < before.len() && states_season(before[k], f0);
                            assert(after[k] == before[k]);
                        }
                        if season > l0 {
                            assert(states_season(after[i as int], last));
                        } else {
                            let k = choose|k: int| 0 <= k < before.len() && states_season(before[k], l0);
                            assert(after[k] == before[k]);
                        }
                        assert forall|k: int| 0 <= k < after.len() && #[trigger] after[k] is Some implies first <= (after[k]->0).0 <= last by {
                            if k < i {
                                assert(after[k] == before[k]);
                            }
                        }
                    } else {
                        assert(states_season(after[i as int], first));
                        assert forall|k: int| 0 <= k < after.len() && #[trigger] after[k] is Some implies first <= (after[k]->0).0 <= last by {
                            if k < i {
                                assert(after[k] == before[k]);
                                assert(before[k] is None);
                            }
                        }
                    }
                }
                span = next;
            },
            None => {
                proof {
                    if span is Some {
                        let (f0, l0) = span->0;
                        let k = choose|k: int| 0 <= k < before.len() && states_season(before[k], f0);
                        assert(after[k] == before[k]);
                        let k2 = choose|k: int| 0 <= k < before.len() && states_season(before[k], l0);
                        assert(after[k2] == before[k2]);
                        assert forall|k: int| 0 <= k < after.len() && #[trigger] after[k] is Some implies f0 <= (after[k]->0).0 <= l0 by {
                            if k < i {
                                assert(after[k] == before[k]);
                            }
                        }
                    } else {
                        assert forall|k: int| 0 <= k < after.len() implies #[trigger] after[k] is None by {
                            if k < i {
                                assert(after[k] == before[k]);
                            }
                        }
                    }
                }
            },
        }
        i = i + 1;
    }
    assert(numbered@.take(n as int) =~= numbered@);
    span
}

/// An episode as the show database names it.
pub struct Named {
    pub season: u32,
    pub number: u32,
    pub title: Option<String>,
    pub overview: Option<String>,
}

/// The first episode the show database names with this season and number.
pub open spec fn named_as(named: Seq<Named>, season: u32, number: u32) -> Option<Named>
    decreases named.len(),
{
    if named.len() == 0 {
        None
    } else if named[0].season == season && named[0].number == number {
        Some(named[0])
    } else {
        named_as(named.drop_first(), season, number)
    }
}

/// Whether `row` is what the screen shows for a video: its label, whether it has subtitles she
/// can read, and, when its name states its season and episode, those and what the show
/// database calls it.
pub open spec fn row_matches(row: EpisodeRow, label: Seq<char>, numbered: Option<(u32, u32)>, subtitles: bool, named: Seq<Named>) -> bool {
    &&& row.label@ == label
    &&& row.subtitles == subtitles
    &&& row.season == (match numbered { Some((season, _)) => Some(season), None => None })
    &&& row.number == (match numbered { Some((_, number)) => Some(number), None => None })
    &&& match numbered {
        Some((season, number)) => match named_as(named, season, number) {
            Some(known) => opt_view(row.title) == opt_view(known.title) && opt_view(row.overview)
                == opt_view(known.overview),
            None => row.title is None && row.overview is None,
        },
        None => row.title is None && row.overview is None,
    }
}

fn copy_optional(text: &Option<String>) -> (r: Option<String>)
    ensures
        opt_view(r) == opt_view(*text),
{
    match text {
        Some(t) => Some(t.clone()),
        None => None,
    }
}

fn named_episode<'a>(named: &'a [Named], season: u32, number: u32) -> (r: Option<&'a Named>)
    ensures
        match r {
            Some(known) => named_as(named@, season, number) == Some(*known),
            None => named_as(named@, season, number) is None,
        },
{
    let n = named.len();
    let mut i: usize = 0;
    assert(named@.skip(0) =~= named@);
    while i < n
        invariant
            n == named@.len(),
            i <= n,
            named_as(named@, season, number) == named_as(named@.skip(i as int), season, number),
        decreases n - i,
    {
        assert(named@.skip(i as int)[0] == named@[i as int]);
        if named[i].season == season && named[i].number == number {
            return Some(&named[i]);
        }
        assert(named@.skip(i as int).drop_first() =~= named@.skip(i + 1));
        i = i + 1;
    }
    None
}

/// The row the screen shows for one video of a season.
pub fn episode_row(label: String, numbered: Option<(u32, u32)>, subtitles: bool, named: &[Named]) -> (r: EpisodeRow)
    ensures
        row_matches(r, label@, numbered, subtitles, named@),
{
    let known = match numbered {
        Some((season, number)) => named_episode(named, season, number),
        None => None,
    };
    let (title, overview) = match known {
        Some(episode) => (copy_optional(&episode.title), copy_optional(&episode.overview)),
        None => (None, None),
    };
    EpisodeRow {
        label,
        subtitles,
        title,
        overview,
        season: match numbered {
            Some((season, _)) => Some(season),
            None => None,
        },
        number: match numbered {
            Some((_, number)) => Some(number),
            None => None,
        },
    }
}

// --- what holds of every call ------------------------------------------------------------------

proof fn lemma_behind(voices: Seq<&str>, chosen: nat, upto: nat, alike: bool)
    requires
        upto <= voices.len(),
        voices.len() <= usize::MAX,
    ensures
        forall|k: int|
            0 <= k < behind(voices, chosen, upto, alike).len() ==> {
                let i = #[trigger] behind(voices, chosen, upto, alike)[k];
                &&& i < upto
                &&& i != chosen
                &&& same_voice(voices, chosen, i as int) == alike
            },
        forall|k1: int, k2: int|
            0 <= k1 < k2 < behind(voices, chosen, upto, alike).len() ==> #[trigger] behind(
                voices,
                chosen,
                upto,
                alike,
            )[k1] < #[trigger] behind(voices, chosen, upto, alike)[k2],
        forall|i: int|
            0 <= i < upto && i != chosen && same_voice(voices, chosen, i) == alike ==> behind(
                voices,
                chosen,
                upto,
                alike,
            ).contains(i as usize),
        behind(voices, chosen, upto, true).len() + behind(voices, chosen, upto, false).len() == upto
            - (if chosen < upto { 1int } else { 0int }),
    decreases upto,
{
    if upto > 0 {
        let up = (upto - 1) as nat;
        lemma_behind(voices, chosen, up, alike);
        lemma_behind(voices, chosen, up, !alike);
        let front = behind(voices, chosen, up, alike);
        let whole = behind(voices, chosen, upto, alike);
        let i = up as int;
        if i != chosen && same_voice(voices, chosen, i) == alike {
            assert(whole == front.push(i as usize));
            assert forall|j: int|
                0 <= j < upto && j != chosen && same_voice(voices, chosen, j) == alike implies whole.contains(
                j as usize,
            ) by {
                if j < up {
                    let k = choose|k: int| 0 <= k < front.len() && front[k] == j as usize;
                    assert(whole[k] == j as usize);
                } else {
                    assert(whole[front.len() as int] == j as usize);
                }
            }
        } else {
            assert(whole == front);
        }
    }
}

/// Every copy is tried once and only once: the chosen one first, then the ones in her language
/// in their ranking, then the rest in theirs, so a switch of language never comes back.
pub proof fn law_every_copy_is_tried_once_and_her_language_first(
    voices: Seq<&str>,
    version: Option<usize>,
)
    requires
        voices.len() <= usize::MAX,
    ensures
        ({
            let order = candidate_order(voices, version);
            let chosen: nat = match version {
                Some(v) => v as nat,
                None => 0,
            };
            let lead: int = if chosen < voices.len() { 1 } else { 0 };
            &&& order.len() == voices.len()
            &&& order.no_duplicates()
            &&& forall|i: usize| i < voices.len() ==> #[trigger] order.contains(i)
            &&& forall|k: int| 0 <= k < order.len() ==> order[k] < voices.len()
            &&& chosen < voices.len() ==> order[0] == chosen
            &&& forall|p: int, q: int|
                0 <= p < q < order.len() && #[trigger] same_voice(voices, chosen, order[q] as int)
                    ==> #[trigger] same_voice(voices, chosen, order[p] as int)
            &&& forall|p: int, q: int|
                lead <= p < q < order.len() && same_voice(voices, chosen, #[trigger] order[p] as int)
                    == same_voice(voices, chosen, #[trigger] order[q] as int) ==> order[p] < order[q]
        }),
{
    let n = voices.len();
    let chosen: nat = match version {
        Some(v) => v as nat,
        None => 0,
    };
    lemma_behind(voices, chosen, n, true);
    lemma_behind(voices, chosen, n, false);
    let first: Seq<usize> = if chosen < n { seq![chosen as usize] } else { Seq::empty() };
    let alike = behind(voices, chosen, n, true);
    let other = behind(voices, chosen, n, false);
    let order = candidate_order(voices, version);
    assert(order == first + alike + other);
    let lead: int = first.len() as int;
    assert forall|k: int| 0 <= k < order.len() implies order[k] < n by {
        if k >= lead + alike.len() {
            assert(order[k] == other[k - lead - alike.len()]);
        } else if k >= lead {
            assert(order[k] == alike[k - lead]);
        }
    }
    assert forall|i: usize| i < n implies #[trigger] order.contains(i) by {
        if i == chosen {
            assert(order[0] == i);
        } else if same_voice(voices, chosen, i as int) {
            assert(alike.contains(i));
            let k = choose|k: int| 0 <= k < alike.len() && alike[k] == i;
            assert(order[lead + k] == i);
        } else {
            assert(other.contains(i));
            let k = choose|k: int| 0 <= k < other.len() && other[k] == i;
            assert(order[lead + alike.len() + k] == i);
        }
    }
    assert forall|p: int, q: int|
        0 <= p < q < order.len() && #[trigger] same_voice(voices, chosen, order[q] as int)
            implies #[trigger] same_voice(voices, chosen, order[p] as int) by {
        if q >= lead + alike.len() {
            assert(order[q] == other[q - lead - alike.len()]);
        }
        if p >= lead + alike.len() {
            assert(order[p] == other[p - lead - alike.len()]);
        } else if p >= lead {
            assert(order[p] == alike[p - lead]);
        } else {
            assert(order[p] == chosen as usize);
        }
    }
    assert forall|p: int, q: int|
        lead <= p < q < order.len() && same_voice(voices, chosen, #[trigger] order[p] as int)
            == same_voice(voices, chosen, #[trigger] order[q] as int) implies order[p] < order[q] by {
        if p >= lead + alike.len() {
            assert(order[p] == other[p - lead - alike.len()]);
            assert(order[q] == other[q - lead - alike.len()]);
        } else if q < lead + alike.len() {
            assert(order[p] == alike[p - lead]);
            assert(order[q] == alike[q - lead]);
        } else {
            assert(order[p] == alike[p - lead]);
            assert(order[q] == other[q - lead - alike.len()]);
        }
    }
    assert forall|p: int, q: int| 0 <= p < q < order.len() implies order[p] != order[q] by {
        if p < lead {
            assert(order[p] == chosen as usize);
            if q < lead + alike.len() {
                assert(order[q] == alike[q - lead]);
            } else {
                assert(order[q] == other[q - lead - alike.len()]);
            }
        } else if p < lead + alike.len() && q >= lead + alike.len() {
            assert(order[p] == alike[p - lead]);
            assert(order[q] == other[q - lead - alike.len()]);
        } else if q < lead + alike.len() {
            assert(order[p] == alike[p - lead]);
            assert(order[q] == alike[q - lead]);
        } else {
            assert(order[p] == other[p - lead - alike.len()]);
            assert(order[q] == other[q - lead - alike.len()]);
        }
    }
}

/// How many films the tooltip lists, counting down from `shown` until they fit.
pub open spec fn films_in_tooltip(header: Seq<char>, items: Seq<Seq<char>>, shown: nat) -> nat
    decreases shown,
{
    if shown == 0 || tooltip_showing(header, items, shown).len() <= TRAY_TOOLTIP_LIMIT {
        shown
    } else {
        films_in_tooltip(header, items, (shown - 1) as nat)
    }
}

proof fn lemma_tooltip_from(header: Seq<char>, items: Seq<Seq<char>>, shown: nat)
    ensures
        films_in_tooltip(header, items, shown) <= shown,
        tooltip_from(header, items, shown) == tooltip_showing(
            header,
            items,
            films_in_tooltip(header, items, shown),
        ),
        films_in_tooltip(header, items, shown) == 0 || tooltip_from(header, items, shown).len()
            <= TRAY_TOOLTIP_LIMIT,
        forall|j: nat|
            films_in_tooltip(header, items, shown) < j <= shown ==> #[trigger] tooltip_showing(
                header,
                items,
                j,
            ).len() > TRAY_TOOLTIP_LIMIT,
    decreases shown,
{
    if !(shown == 0 || tooltip_showing(header, items, shown).len() <= TRAY_TOOLTIP_LIMIT) {
        lemma_tooltip_from(header, items, (shown - 1) as nat);
    }
}

/// The tooltip never runs past what Windows shows, unless not even one film fits beside the
/// header: it lists the first films that fit, as many as fit, and counts the rest.
pub proof fn law_the_tooltip_fits_and_counts_the_rest(header: Seq<char>, items: Seq<Seq<char>>)
    ensures
        ({
            let shown = films_in_tooltip(header, items, items.len());
            &&& shown <= items.len()
            &&& tooltip_text(header, items) == tooltip_showing(header, items, shown)
            &&& shown == 0 || tooltip_text(header, items).len() <= TRAY_TOOLTIP_LIMIT
            &&& forall|more: nat|
                shown < more <= items.len() ==> #[trigger] tooltip_showing(header, items, more).len()
                    > TRAY_TOOLTIP_LIMIT
        }),
{
    lemma_tooltip_from(header, items, items.len());
}

/// A title cut for the tray is never longer than the limit it was cut to.
pub proof fn law_a_shortened_title_fits(title: Seq<char>, limit: nat)
    requires
        limit >= 1,
    ensures
        shortened_text(title, limit).len() <= limit,
        title.len() <= limit ==> shortened_text(title, limit) == title,
{
    if title.len() > limit {
        lemma_trailing_space_bound(title.take(limit - 1));
    }
}


/// What the film lookup made of the name she typed: a title, film or series, in the order the
/// provider put it.
pub struct Identified {
    pub series: bool,
    pub query: String,
}

/// What the indexer is asked when she searches for films.
#[derive(Clone, Copy, Debug, PartialEq, Eq, Structural)]
pub enum FilmQuestion {
    /// The film the lookup named, at this place in what it answered, by what names it.
    Named(usize),
    /// Her own words: the lookup recognised nothing in them.
    Hers,
    /// Nothing: she asked for series only, or the lookup named a series and no film, which
    /// says there is no film of that name.
    Nothing,
}

/// Where the first film among the identified titles is.
pub open spec fn first_film(identified: Seq<Identified>) -> Option<int>
    decreases identified.len(),
{
    if identified.len() == 0 {
        None
    } else if !identified[0].series {
        Some(0)
    } else {
        match first_film(identified.drop_first()) {
            Some(k) => Some(k + 1),
            None => None,
        }
    }
}

/// What the indexer is asked for films: nothing when she asked for series only; the first film
/// the lookup named; her own words when it recognised nothing; and nothing when it named only
/// series.
pub open spec fn film_question_of(identified: Seq<Identified>, series_only: bool) -> FilmQuestion {
    if series_only {
        FilmQuestion::Nothing
    } else {
        match first_film(identified) {
            Some(k) => FilmQuestion::Named(k as usize),
            None => if identified.len() == 0 {
                FilmQuestion::Hers
            } else {
                FilmQuestion::Nothing
            },
        }
    }
}

proof fn lemma_first_film(identified: Seq<Identified>, k: int)
    requires
        0 <= k <= identified.len(),
        forall|j: int| 0 <= j < k ==> identified[j].series,
    ensures
        k == identified.len() ==> first_film(identified) is None,
        k < identified.len() && !identified[k].series ==> first_film(identified) == Some(k),
    decreases k,
{
    if k > 0 {
        lemma_first_film(identified.drop_first(), k - 1);
    }
}

/// What the indexer is asked for films, given what the lookup made of her words and whether
/// she asked for series only.
pub fn film_question(identified: &[Identified], series_only: bool) -> (r: FilmQuestion)
    ensures
        r == film_question_of(identified@, series_only),
        r matches FilmQuestion::Named(k) ==> k < identified@.len() && !identified@[k as int].series,
{
    if series_only {
        return FilmQuestion::Nothing;
    }
    let n = identified.len();
    let mut k: usize = 0;
    while k < n && identified[k].series
        invariant
            n == identified@.len(),
            k <= n,
            forall|j: int| 0 <= j < k ==> identified@[j].series,
        decreases n - k,
    {
        k = k + 1;
    }
    proof {
        lemma_first_film(identified@, k as int);
    }
    if k < n {
        FilmQuestion::Named(k)
    } else if n == 0 {
        FilmQuestion::Hers
    } else {
        FilmQuestion::Nothing
    }
}


/// The chip a copy belongs under follows its tags: a copy tagged Spanish is "es" whatever else
/// it says; one tagged Latino and not Spanish is "latino", dual or not; a dual copy that names no
/// other voice is "es"; and one that says nothing of Spanish, Latino or dual is "original".
pub proof fn law_the_chip_follows_the_tags(tags: Seq<Tag>)
    ensures
        tags.contains(Tag::Spanish) ==> voice_text(tags) == "es"@,
        tags.contains(Tag::Latino) && !tags.contains(Tag::Spanish) ==> voice_text(tags)
            == "latino"@,
        tags.contains(Tag::Dual) && !tags.contains(Tag::Latino) && !tags.contains(
            Tag::OtherLanguage,
        ) ==> voice_text(tags) == "es"@,
        !tags.contains(Tag::Spanish) && !tags.contains(Tag::Latino) && !tags.contains(Tag::Dual)
            ==> voice_text(tags) == "original"@,
{
}

} // verus!
