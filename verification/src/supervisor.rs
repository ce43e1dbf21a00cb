//! What the app decides about the private downloader it runs: which of its words are worth
//! keeping, and which of its names it can read.

use crate::std_calls::all_ascii;
use crate::words::{contains_text, find_char, first_index, has_text, hex_of, hex_text, is_blank, lemma_hex_len, trimmed};
use vstd::prelude::*;

verus! {

/// A line without the carriage return a Windows line ending leaves on it.
pub open spec fn without_cr(line: Seq<char>) -> Seq<char> {
    if line.len() > 0 && line.last() == '\r' {
        line.drop_last()
    } else {
        line
    }
}

/// The lines of `text`, as `str::lines` reads them: split at each line feed, a carriage return
/// before it dropped, and no empty line after a final line feed.
pub open spec fn lines_of(text: Seq<char>) -> Seq<Seq<char>>
    decreases text.len(),
{
    if text.len() == 0 {
        Seq::empty()
    } else {
        let end = first_index(text, '\n');
        if end >= text.len() {
            seq![text]
        } else {
            seq![without_cr(text.take(end as int))] + lines_of(text.skip((end + 1) as int))
        }
    }
}

/// The lines that say something, in order.
pub open spec fn non_blank(lines: Seq<Seq<char>>) -> Seq<Seq<char>>
    decreases lines.len(),
{
    if lines.len() == 0 {
        Seq::empty()
    } else if trimmed(lines[0]).len() == 0 {
        non_blank(lines.drop_first())
    } else {
        seq![lines[0]] + non_blank(lines.drop_first())
    }
}

/// The last `wanted` lines of `text` that say something, or all of them when there are fewer.
pub open spec fn last_lines_of(text: Seq<char>, wanted: nat) -> Seq<Seq<char>> {
    let said = non_blank(lines_of(text));
    if said.len() <= wanted {
        said
    } else {
        said.skip(said.len() - wanted)
    }
}

/// The views of some lines.
pub open spec fn lines_view(lines: Seq<String>) -> Seq<Seq<char>> {
    lines.map_values(|line: String| line@)
}

proof fn lemma_first_index_bound(s: Seq<char>, c: char)
    ensures
        first_index(s, c) <= s.len(),
        first_index(s, c) < s.len() ==> s[first_index(s, c) as int] == c,
    decreases s.len(),
{
    if s.len() > 0 && s[0] != c {
        lemma_first_index_bound(s.drop_first(), c);
    }
}

/// The lines of `text`, as `str::lines` reads them.
pub fn lines_in(text: &str) -> (r: Vec<String>)
    ensures
        lines_view(r@) == lines_of(text@),
    decreases text@.len(),
{
    let n = text.unicode_len();
    if n == 0 {
        return Vec::new();
    }
    let end = find_char(text, '\n');
    proof {
        lemma_first_index_bound(text@, '\n');
    }
    let raw = text.substring_char(0, end);
    assert(raw@ =~= text@.take(end as int));
    let line = if end < n && end > 0 && raw.get_char(end - 1) == '\r' {
        let cut = raw.substring_char(0, end - 1);
        assert(cut@ =~= raw@.drop_last());
        String::from_str(cut)
    } else {
        String::from_str(raw)
    };
    let ghost the_line = if end >= n { text@ } else { without_cr(text@.take(end as int)) };
    assert(end >= n ==> raw@ =~= text@);
    assert(line@ == the_line);
    let mut rest: Vec<String> = if end < n {
        let tail = text.substring_char(end + 1, n);
        assert(tail@ =~= text@.skip(end + 1));
        lines_in(tail)
    } else {
        Vec::new()
    };
    let ghost rest_lines = if end >= n { Seq::<Seq<char>>::empty() } else { lines_of(text@.skip(end + 1)) };
    assert(lines_of(text@) =~= seq![the_line] + rest_lines);
    assert(end >= n ==> lines_view(rest@) =~= rest_lines);
    let mut all: Vec<String> = Vec::new();
    all.push(line);
    all.append(&mut rest);
    assert(lines_view(all@) =~= seq![the_line] + rest_lines);
    all
}

fn said_lines(text: &str) -> (r: Vec<String>)
    ensures
        lines_view(r@) == non_blank(lines_of(text@)),
    decreases text@.len(),
{
    let n = text.unicode_len();
    if n == 0 {
        return Vec::new();
    }
    let end = find_char(text, '\n');
    proof {
        lemma_first_index_bound(text@, '\n');
    }
    let raw = text.substring_char(0, end);
    assert(raw@ =~= text@.take(end as int));
    let line = if end < n && end > 0 && raw.get_char(end - 1) == '\r' {
        let cut = raw.substring_char(0, end - 1);
        assert(cut@ =~= raw@.drop_last());
        String::from_str(cut)
    } else {
        String::from_str(raw)
    };
    let ghost the_line = if end >= n { text@ } else { without_cr(text@.take(end as int)) };
    assert(end >= n ==> raw@ =~= text@);
    assert(line@ == the_line);
    let mut rest: Vec<String> = if end < n {
        let tail = text.substring_char(end + 1, n);
        assert(tail@ =~= text@.skip(end + 1));
        said_lines(tail)
    } else {
        Vec::new()
    };
    let ghost rest_lines = if end >= n { Seq::<Seq<char>>::empty() } else { lines_of(text@.skip(end + 1)) };
    assert(lines_of(text@) =~= seq![the_line] + rest_lines);
    assert((seq![the_line] + rest_lines).drop_first() =~= rest_lines);
    assert((seq![the_line] + rest_lines)[0] == the_line);
    assert(end >= n ==> lines_view(rest@) =~= non_blank(rest_lines));
    assert(lines_view(rest@) == non_blank(rest_lines));
    if is_blank(line.as_str()) {
        assert(non_blank(lines_of(text@)) == non_blank(rest_lines));
        rest
    } else {
        assert(non_blank(lines_of(text@)) == seq![the_line] + non_blank(rest_lines));
        let mut all: Vec<String> = Vec::new();
        all.push(line);
        let ghost first = all@;
        all.append(&mut rest);
        assert(lines_view(all@) =~= seq![the_line] + non_blank(rest_lines));
        all
    }
}

/// What a program's log ended with: its last lines that say something, which is where the
/// reason it stopped is.
pub fn last_lines(text: &str, wanted: usize) -> (r: Vec<String>)
    ensures
        lines_view(r@) == last_lines_of(text@, wanted as nat),
{
    let mut lines = said_lines(text);
    let n = lines.len();
    if n <= wanted {
        return lines;
    }
    let ghost all = lines@;
    let tail = lines.split_off(n - wanted);
    assert(lines_view(tail@) =~= lines_view(all).skip(n - wanted));
    tail
}

/// Whether a line of the downloader's output is trouble, the one thing worth keeping once it
/// runs: an error, a warning or a fatal failure.
pub open spec fn is_trouble_text(line: Seq<char>) -> bool {
    has_text(line, "ERROR"@) || has_text(line, "WARNING"@) || has_text(line, "FATAL"@)
}

/// Whether a line of the downloader's output is trouble.
pub fn is_trouble(line: &str) -> (r: bool)
    ensures
        r == is_trouble_text(line@),
{
    contains_text(line, "ERROR") || contains_text(line, "WARNING") || contains_text(line, "FATAL")
}

/// Whether a path is plain ASCII, which is all the downloader can read of its own name.
pub fn is_plain_ascii(path: &str) -> (r: bool)
    ensures
        r == all_ascii(path@),
{
    let n = path.unicode_len();
    let mut i: usize = 0;
    while i < n
        invariant
            n == path@.len(),
            i <= n,
            forall|j: int| 0 <= j < i ==> (path@[j] as u32) < 128,
        decreases n - i,
    {
        if (path.get_char(i) as u32) >= 128 {
            return false;
        }
        i = i + 1;
    }
    true
}

/// Whether a line of the downloader's output goes into the app's log: everything it says until
/// it answers, because that is where a refusal to start is printed, and only trouble after.
pub fn worth_forwarding(ready: bool, line: &str) -> (r: bool)
    ensures
        r == (!ready || is_trouble_text(line@)),
{
    !ready || is_trouble(line)
}

/// What one look at a downloader that was just started comes to.
#[derive(Clone, Copy, Debug, PartialEq, Eq, Structural)]
pub enum Waiting {
    /// It answers: it is running.
    Answering,
    /// It stopped with a failure: it refused its own configuration, and waiting longer would
    /// only blame the clock.
    ClosedAtOnce,
    /// Not yet; `ended` says the process was just seen to end without complaint, which can
    /// mean it put a server behind it, so the answer is still worth waiting for.
    StillStarting { ended: bool },
    /// The time to answer ran out.
    NeverAnswered,
}

/// One look at a downloader that was just started: whether the time is up, whether it answers,
/// how its process ended if it did (`Some(true)` for no complaint), and whether it had been seen
/// to end before.
pub fn look_at_the_start(past_deadline: bool, answering: bool, exited: Option<bool>, ended_before: bool) -> (r: Waiting)
    ensures
        r == (if past_deadline {
            Waiting::NeverAnswered
        } else if answering {
            Waiting::Answering
        } else {
            match exited {
                Some(false) => Waiting::ClosedAtOnce,
                Some(true) => Waiting::StillStarting { ended: !ended_before },
                None => Waiting::StillStarting { ended: false },
            }
        }),
{
    if past_deadline {
        Waiting::NeverAnswered
    } else if answering {
        Waiting::Answering
    } else {
        match exited {
            Some(false) => Waiting::ClosedAtOnce,
            Some(true) => Waiting::StillStarting { ended: !ended_before },
            None => Waiting::StillStarting { ended: false },
        }
    }
}

/// `getrandom::fill` on a fresh buffer of `count` bytes: the bytes the system's random source
/// gave, or nothing when it could not give them. What the bytes are is chance, and not stated;
/// only how many there are.
#[verifier::external_body]
fn random_bytes(count: usize) -> (r: Option<Vec<u8>>)
    ensures
        r matches Some(bytes) ==> bytes@.len() == count,
{
    let mut bytes = vec![0u8; count];
    match getrandom::fill(&mut bytes) {
        Ok(()) => Some(bytes),
        Err(_) => None,
    }
}

/// The password of the downloader's private control port: eighteen random bytes in lowercase
/// hexadecimal, or nothing when the system has no random bytes to give.
pub fn secret() -> (r: Option<String>)
    ensures
        r matches Some(password) ==> password@.len() == 36 && exists|bytes: Seq<u8>|
            bytes.len() == 18 && password@ == hex_text(bytes),
{
    match random_bytes(18) {
        Some(bytes) => {
            let password = hex_of(bytes.as_slice());
            proof {
                lemma_hex_len(bytes@);
            }
            Some(password)
        },
        None => None,
    }
}

/// What a log ended with is never more than the lines asked for, is always its last lines that
/// say something, and is the whole of them when there are fewer.
pub proof fn law_the_tail_of_a_log_is_its_last_lines(text: Seq<char>, wanted: nat)
    ensures
        last_lines_of(text, wanted).len() <= wanted,
        last_lines_of(text, wanted) == non_blank(lines_of(text)).skip(
            non_blank(lines_of(text)).len() - last_lines_of(text, wanted).len(),
        ),
        non_blank(lines_of(text)).len() <= wanted ==> last_lines_of(text, wanted) == non_blank(
            lines_of(text),
        ),
{
    let said = non_blank(lines_of(text));
    if said.len() <= wanted {
        assert(said.skip(0) =~= said);
    }
}

} // verus!
