//! The report the settings window shows after "comprobar": one line for each thing she
//! configured, saying whether it answered, in her words.

use crate::orchestrator::{joined_breaks, joined_with_breaks, texts_view};
use crate::settings_file::{film_database_key_text, StoredIndexer, StoredSettings};
use crate::text::Lang;
use crate::words::{is_blank, joined3, trimmed};
use vstd::prelude::*;

verus! {

/// What a service answered when it was asked.
pub enum Answer {
    Works,
    /// It failed; the sentence is the one she reads for that failure.
    Failed(String),
}

/// What the news server check came to, or why the downloader that checks it is not there.
pub enum ServerAnswer {
    Working,
    Refused,
    Unreachable,
    Unknown,
    /// There is no downloader to ask; the text says why.
    NoDownloader(String),
}

/// What became of the subtitle account: checked, or not checkable and why.
pub enum SubtitlesAnswer {
    Checked(Answer),
    /// A key to search with, but no account to download with.
    NoAccount,
    /// Nothing configured at all.
    Unconfigured,
}

/// Whether an indexer is asked: switched on, with an address.
pub open spec fn asked(indexer: StoredIndexer) -> bool {
    indexer.enabled && trimmed(indexer.url@).len() > 0
}

/// The positions of the indexers that are asked, in order.
pub open spec fn asked_from(indexers: Seq<StoredIndexer>, upto: nat) -> Seq<usize>
    decreases upto,
{
    if upto == 0 {
        Seq::empty()
    } else {
        let front = asked_from(indexers, (upto - 1) as nat);
        if asked(indexers[upto - 1]) {
            front.push((upto - 1) as usize)
        } else {
            front
        }
    }
}

/// The positions of the indexers the check asks, in order.
pub fn indexers_to_ask(stored: &StoredSettings) -> (r: Vec<usize>)
    ensures
        r@ == asked_from(stored.indexers@, stored.indexers@.len()),
{
    let n = stored.indexers.len();
    let mut r: Vec<usize> = Vec::new();
    let mut i: usize = 0;
    while i < n
        invariant
            n == stored.indexers@.len(),
            i <= n,
            r@ == asked_from(stored.indexers@, i as nat),
        decreases n - i,
    {
        let indexer = &stored.indexers[i];
        if indexer.enabled && !is_blank(indexer.url.as_str()) {
            r.push(i);
        }
        i = i + 1;
    }
    r
}

/// The line for one indexer: it works, or what went wrong, after its name.
pub open spec fn indexer_line(indexer: StoredIndexer, answer: Answer, lang: Lang) -> Seq<char> {
    let name = if indexer.name@.len() == 0 {
        lang.check_indexer_fallback_name_text()
    } else {
        indexer.name@
    };
    match answer {
        Answer::Works => lang.check_works_text(name),
        Answer::Failed(said) => name + ": "@ + said@,
    }
}

/// The lines for the indexers that were asked, each beside its answer.
pub open spec fn indexer_lines(
    indexers: Seq<StoredIndexer>,
    positions: Seq<usize>,
    answers: Seq<Answer>,
    lang: Lang,
) -> Seq<Seq<char>> {
    if positions.len() == 0 {
        seq![lang.check_no_indexer_text()]
    } else {
        Seq::new(
            positions.len(),
            |k: int| indexer_line(indexers[positions[k] as int], answers[k], lang),
        )
    }
}

/// The line for the news server.
pub open spec fn news_lines(host: Seq<char>, answer: Option<ServerAnswer>, lang: Lang) -> Seq<
    Seq<char>,
> {
    if trimmed(host).len() == 0 {
        seq![lang.check_news_missing_host_text()]
    } else {
        match answer {
            Some(ServerAnswer::Working) => seq![lang.check_news_works_text()],
            Some(ServerAnswer::Refused) => seq![lang.check_news_refused_text()],
            Some(ServerAnswer::Unreachable) => seq![lang.check_news_unreachable_text()],
            Some(ServerAnswer::Unknown) => seq![lang.check_news_unknown_text()],
            Some(ServerAnswer::NoDownloader(problem)) => seq![lang.check_news_prefix_text(problem@)],
            None => Seq::empty(),
        }
    }
}

/// The line for the film database, when she gave a key for it.
pub open spec fn metadata_lines(answer: Option<Answer>, lang: Lang) -> Seq<Seq<char>> {
    match answer {
        Some(Answer::Works) => seq![lang.check_metadata_works_text()],
        Some(Answer::Failed(said)) => seq![lang.check_metadata_prefix_text(said@)],
        None => Seq::empty(),
    }
}

/// The line for the subtitle account.
pub open spec fn subtitles_line(answer: SubtitlesAnswer, lang: Lang) -> Seq<char> {
    match answer {
        SubtitlesAnswer::Checked(Answer::Works) => lang.check_subtitles_works_text(),
        SubtitlesAnswer::Checked(Answer::Failed(said)) => lang.check_subtitles_prefix_text(said@),
        SubtitlesAnswer::NoAccount => lang.check_subtitles_no_account_text(),
        SubtitlesAnswer::Unconfigured => lang.check_subtitles_unconfigured_text(),
    }
}

/// The whole report: the indexers, the news server, the film database and the subtitles, one
/// line each, in that order.
pub open spec fn report_text(
    stored: StoredSettings,
    lang: Lang,
    indexers: Seq<Answer>,
    news: Option<ServerAnswer>,
    metadata: Option<Answer>,
    subtitles: SubtitlesAnswer,
) -> Seq<char> {
    joined_with_breaks(
        indexer_lines(
            stored.indexers@,
            asked_from(stored.indexers@, stored.indexers@.len()),
            indexers,
            lang,
        ) + news_lines(stored.news_host@, news, lang) + metadata_lines(metadata, lang) + seq![
            subtitles_line(subtitles, lang),
        ],
    )
}

fn indexer_line_of(indexer: &StoredIndexer, answer: &Answer, lang: Lang) -> (r: String)
    ensures
        r@ == indexer_line(*indexer, *answer, lang),
{
    let name: &str = if indexer.name.as_str().unicode_len() == 0 {
        lang.check_indexer_fallback_name()
    } else {
        indexer.name.as_str()
    };
    match answer {
        Answer::Works => lang.check_works(name),
        Answer::Failed(said) => joined3(name, ": ", said.as_str()),
    }
}

proof fn lemma_asked_from(indexers: Seq<StoredIndexer>, upto: nat)
    requires
        upto <= indexers.len(),
        indexers.len() <= usize::MAX,
    ensures
        forall|k: int|
            0 <= k < asked_from(indexers, upto).len() ==> #[trigger] asked_from(indexers, upto)[k]
                < upto,
    decreases upto,
{
    if upto > 0 {
        let up = (upto - 1) as nat;
        lemma_asked_from(indexers, up);
        let front = asked_from(indexers, up);
        if asked(indexers[up as int]) {
            assert(asked_from(indexers, upto) == front.push(up as usize));
            assert((up as usize) as nat == up);
        }
    }
}

/// What the check says, given what each thing answered: `indexers` in the order of
/// `indexers_to_ask`, `news` when there is a host to ask, `metadata` when there is a film
/// database key to try. So the film database has a line exactly when she gave it a key, and the
/// news server always has one: its answer, or that no host is set.
pub fn report(
    stored: &StoredSettings,
    lang: Lang,
    indexers: &Vec<Answer>,
    news: &Option<ServerAnswer>,
    metadata: &Option<Answer>,
    subtitles: &SubtitlesAnswer,
) -> (r: String)
    requires
        indexers@.len() == asked_from(stored.indexers@, stored.indexers@.len()).len(),
        (news is Some) == (trimmed(stored.news_host@).len() > 0),
        (metadata is Some) == (film_database_key_text(stored@) is Some),
    ensures
        r@ == report_text(*stored, lang, indexers@, *news, *metadata, *subtitles),
        metadata_lines(*metadata, lang).len() == (if film_database_key_text(stored@) is Some {
            1int
        } else {
            0
        }),
        news_lines(stored.news_host@, *news, lang).len() == 1,
{
    let positions = indexers_to_ask(stored);
    let count = stored.indexers.len();
    proof {
        assert(count == stored.indexers@.len());
        lemma_asked_from(stored.indexers@, stored.indexers@.len());
    }
    let ghost wanted = indexer_lines(stored.indexers@, positions@, indexers@, lang);
    let mut lines: Vec<String> = Vec::new();
    if positions.len() == 0 {
        lines.push(String::from_str(lang.check_no_indexer()));
        assert(texts_view(lines@) =~= wanted);
    } else {
        let mut k: usize = 0;
        while k < positions.len()
            invariant
                positions@ == asked_from(stored.indexers@, stored.indexers@.len()),
                indexers@.len() == positions@.len(),
                positions@.len() > 0,
                wanted == indexer_lines(stored.indexers@, positions@, indexers@, lang),
                k <= positions@.len(),
                forall|j: int|
                    0 <= j < positions@.len() ==> #[trigger] positions@[j] < stored.indexers@.len(),
                texts_view(lines@) == wanted.take(k as int),
            decreases positions@.len() - k,
        {
            let ghost before = lines@;
            let line = indexer_line_of(&stored.indexers[positions[k]], &indexers[k], lang);
            lines.push(line);
            assert(texts_view(lines@) =~= texts_view(before).push(line@));
            assert(wanted.take(k + 1) =~= wanted.take(k as int).push(wanted[k as int]));
            k = k + 1;
        }
        assert(wanted.take(positions@.len() as int) =~= wanted);
    }
    let ghost first = texts_view(lines@);
    assert(first == wanted);
    let ghost news_part = news_lines(stored.news_host@, *news, lang);
    if is_blank(stored.news_host.as_str()) {
        lines.push(String::from_str(lang.check_news_missing_host()));
    } else {
        match news {
            Some(ServerAnswer::Working) => lines.push(String::from_str(lang.check_news_works())),
            Some(ServerAnswer::Refused) => lines.push(String::from_str(lang.check_news_refused())),
            Some(ServerAnswer::Unreachable) => lines.push(
                String::from_str(lang.check_news_unreachable()),
            ),
            Some(ServerAnswer::Unknown) => lines.push(String::from_str(lang.check_news_unknown())),
            Some(ServerAnswer::NoDownloader(problem)) => lines.push(
                lang.check_news_prefix(problem.as_str()),
            ),
            None => {},
        }
    }
    assert(texts_view(lines@) =~= first + news_part);
    let ghost second = texts_view(lines@);
    let ghost metadata_part = metadata_lines(*metadata, lang);
    match metadata {
        Some(Answer::Works) => lines.push(String::from_str(lang.check_metadata_works())),
        Some(Answer::Failed(said)) => lines.push(lang.check_metadata_prefix(said.as_str())),
        None => {},
    }
    assert(texts_view(lines@) =~= second + metadata_part);
    let ghost third = texts_view(lines@);
    let last = match subtitles {
        SubtitlesAnswer::Checked(Answer::Works) => String::from_str(lang.check_subtitles_works()),
        SubtitlesAnswer::Checked(Answer::Failed(said)) => lang.check_subtitles_prefix(said.as_str()),
        SubtitlesAnswer::NoAccount => String::from_str(lang.check_subtitles_no_account()),
        SubtitlesAnswer::Unconfigured => String::from_str(lang.check_subtitles_unconfigured()),
    };
    lines.push(last);
    assert(texts_view(lines@) =~= third + seq![subtitles_line(*subtitles, lang)]);
    joined_breaks(&lines)
}

} // verus!
