//! The app's own log: where it lives, which lines are worth writing, and how each is stamped.
//! Writing the lines is left to whoever owns the file.

use crate::paths::{
    is_simple_base, join_path, joined_path, parent_path, separated, simple_base, special_base,
};
use crate::words::{decimal, decimal_of, joined2, joined5, same_text};
use vstd::prelude::*;

verus! {

/// Where the log is, the folder it was opened in, and what each subject last complained about.
pub struct Log {
    path: String,
    directory: String,
    standing: Vec<(String, String)>,
}

/// What was last said about `subject`, the first record of it that stands.
pub open spec fn said_for(standing: Seq<(String, String)>, subject: Seq<char>) -> Option<Seq<char>>
    decreases standing.len(),
{
    if standing.len() == 0 {
        None
    } else if standing[0].0@ == subject {
        Some(standing[0].1@)
    } else {
        said_for(standing.drop_first(), subject)
    }
}

/// Where the log file lives in `directory`: `mamacine.log` inside it, as `Path::join` puts it
/// there. Inside a plain folder path it follows one separator.
pub open spec fn log_path_in(directory: Seq<char>, path: Seq<char>) -> bool {
    &&& directory.len() == 0 ==> path == "mamacine.log"@
    &&& !special_base(directory) ==> joined_path(directory, "mamacine.log"@, path)
    &&& !special_base(directory) && directory.len() > 0 && directory.last() == '/' ==> path
        == directory + "mamacine.log"@
    &&& simple_base(directory) ==> separated(directory, "mamacine.log"@, path)
}

impl Log {
    /// What each subject last complained about, as the proofs see it.
    pub closed spec fn said(&self, subject: Seq<char>) -> Option<Seq<char>> {
        said_for(self.standing@, subject)
    }

    /// Where the log file is, as the proofs see it.
    pub closed spec fn file(&self) -> Seq<char> {
        self.path@
    }

    /// The folder the log was opened in, as the proofs see it.
    pub closed spec fn opened_in(&self) -> Seq<char> {
        self.directory@
    }

    /// A log in `directory`, with nothing complained about yet.
    pub fn open(directory: &str) -> (r: Log)
        ensures
            log_path_in(directory@, r.file()),
            r.opened_in() == directory@,
            forall|subject: Seq<char>| r.said(subject) is None,
    {
        Log {
            path: Log::path_in(directory),
            directory: String::from_str(directory),
            standing: Vec::new(),
        }
    }

    /// Where the log file lives in `directory`.
    pub fn path_in(directory: &str) -> (r: String)
        ensures
            log_path_in(directory@, r@),
    {
        let name = "mamacine.log";
        proof {
            reveal_strlit("mamacine.log");
            assert(name@.len() == 12);
            assert(name@ != seq!['.']);
            assert(name@ != seq!['.', '.']);
        }
        join_path(directory, name)
    }

    /// Where the log file is.
    pub fn path(&self) -> (r: &str)
        ensures
            r@ == self.file(),
    {
        self.path.as_str()
    }

    /// The folder the log file is in. Opened in a plain folder path, that folder, which is
    /// what `Path::parent` gives for it on every platform; otherwise the parent of its path, a
    /// front part of it, or the path itself when it has none.
    pub fn folder(&self) -> (r: String)
        ensures
            simple_base(self.opened_in()) ==> r@ == self.opened_in(),
            !simple_base(self.opened_in()) ==> r@.len() <= self.file().len() && r@
                == self.file().take(r@.len() as int),
    {
        if is_simple_base(self.directory.as_str()) {
            return self.directory.clone();
        }
        match parent_path(self.path.as_str()) {
            Some(parent) => parent,
            None => self.path.clone(),
        }
    }

    /// The line that says `text` on behalf of `who`.
    pub fn from(&self, who: &str, text: &str) -> (r: String)
        ensures
            r@ == "["@ + who@ + "] "@ + text@,
    {
        let mut r = joined2("[", who);
        r.append("] ");
        r.append(text);
        r
    }

    /// Whether `text` about `subject` is news: a complaint repeated every second is written
    /// once, and written again only once it changes. It is remembered either way.
    pub fn standing(&mut self, subject: &str, text: &str) -> (r: bool)
        ensures
            r == (old(self).said(subject@) != Some(text@)),
            final(self).said(subject@) == Some(text@),
            forall|other: Seq<char>|
                other != subject@ ==> final(self).said(other) == old(self).said(other),
            final(self).file() == old(self).file(),
    {
        let n = self.standing.len();
        let mut i: usize = 0;
        assert(self.standing@.skip(0) =~= self.standing@);
        while i < n && !same_text(self.standing[i].0.as_str(), subject)
            invariant
                n == self.standing@.len(),
                i <= n,
                forall|j: int| 0 <= j < i ==> self.standing@[j].0@ != subject@,
                said_for(self.standing@, subject@) == said_for(self.standing@.skip(i as int), subject@),
            decreases n - i,
        {
            assert(self.standing@.skip(i as int).drop_first() =~= self.standing@.skip(i + 1));
            i = i + 1;
        }
        if i < n {
            assert(self.standing@.skip(i as int)[0] == self.standing@[i as int]);
            if same_text(self.standing[i].1.as_str(), text) {
                return false;
            }
            let ghost before = self.standing@;
            let record = (String::from_str(subject), String::from_str(text));
            self.standing.set(i, record);
            proof {
                lemma_said_after_set(before, i as int, record, subject@);
            }
            true
        } else {
            let ghost before = self.standing@;
            let record = (String::from_str(subject), String::from_str(text));
            self.standing.push(record);
            proof {
                lemma_said_after_push(before, record, subject@);
            }
            true
        }
    }

    /// `subject` is fine again: whatever it says next is news.
    pub fn settled(&mut self, subject: &str)
        ensures
            final(self).said(subject@) is None,
            forall|other: Seq<char>|
                other != subject@ ==> final(self).said(other) == old(self).said(other),
            final(self).file() == old(self).file(),
    {
        let n = self.standing.len();
        let mut kept: Vec<(String, String)> = Vec::new();
        let mut i: usize = 0;
        while i < n
            invariant
                n == self.standing@.len(),
                i <= n,
                forall|other: Seq<char>| #[trigger] said_for(kept@, other) == (if other == subject@ {
                    None
                } else {
                    said_for(self.standing@.take(i as int), other)
                }),
            decreases n - i,
        {
            let ghost before = kept@;
            if !same_text(self.standing[i].0.as_str(), subject) {
                let record = (self.standing[i].0.clone(), self.standing[i].1.clone());
                kept.push(record);
                proof {
                    assert forall|other: Seq<char>| #[trigger] said_for(kept@, other) == (if other == subject@ {
                        None
                    } else {
                        said_for(self.standing@.take(i + 1), other)
                    }) by {
                        lemma_said_push_general(before, record, other);
                        lemma_said_push_general(self.standing@.take(i as int), self.standing@[i as int], other);
                        assert(self.standing@.take(i + 1) =~= self.standing@.take(i as int).push(self.standing@[i as int]));
                    }
                }
            } else {
                proof {
                    assert forall|other: Seq<char>| #[trigger] said_for(kept@, other) == (if other == subject@ {
                        None
                    } else {
                        said_for(self.standing@.take(i + 1), other)
                    }) by {
                        lemma_said_push_general(self.standing@.take(i as int), self.standing@[i as int], other);
                        assert(self.standing@.take(i + 1) =~= self.standing@.take(i as int).push(self.standing@[i as int]));
                    }
                }
            }
            i = i + 1;
        }
        assert(self.standing@.take(n as int) =~= self.standing@);
        self.standing = kept;
    }
}

proof fn lemma_said_push_general(standing: Seq<(String, String)>, record: (String, String), other: Seq<char>)
    ensures
        said_for(standing.push(record), other) == (match said_for(standing, other) {
            Some(said) => Some(said),
            None => if record.0@ == other { Some(record.1@) } else { None },
        }),
    decreases standing.len(),
{
    if standing.len() > 0 {
        assert(standing.push(record).drop_first() =~= standing.drop_first().push(record));
        assert(standing.push(record)[0] == standing[0]);
        lemma_said_push_general(standing.drop_first(), record, other);
    } else {
        assert(standing.push(record).drop_first() =~= Seq::<(String, String)>::empty());
        assert(standing.push(record)[0] == record);
        reveal_with_fuel(said_for, 2);
    }
}

proof fn lemma_said_after_push(standing: Seq<(String, String)>, record: (String, String), subject: Seq<char>)
    requires
        said_for(standing, subject) is None,
        record.0@ == subject,
    ensures
        said_for(standing.push(record), subject) == Some(record.1@),
        forall|other: Seq<char>|
            other != subject ==> said_for(standing.push(record), other) == said_for(standing, other),
{
    lemma_said_push_general(standing, record, subject);
    assert forall|other: Seq<char>|
        other != subject implies said_for(standing.push(record), other) == said_for(standing, other) by {
        lemma_said_push_general(standing, record, other);
    }
}

proof fn lemma_said_after_set(standing: Seq<(String, String)>, i: int, record: (String, String), subject: Seq<char>)
    requires
        0 <= i < standing.len(),
        standing[i].0@ == subject,
        forall|j: int| 0 <= j < i ==> standing[j].0@ != subject,
        record.0@ == subject,
    ensures
        said_for(standing.update(i, record), subject) == Some(record.1@),
        forall|other: Seq<char>|
            other != subject ==> said_for(standing.update(i, record), other) == said_for(standing, other),
    decreases i,
{
    let updated = standing.update(i, record);
    if i > 0 {
        assert(updated.drop_first() =~= standing.drop_first().update(i - 1, record));
        lemma_said_after_set(standing.drop_first(), i - 1, record, subject);
        assert(standing[0].0@ != subject);
        assert(updated[0] == standing[0]);
        assert forall|other: Seq<char>| other != subject implies said_for(updated, other) == said_for(standing, other) by {
            if standing[0].0@ != other {
                assert(said_for(updated, other) == said_for(updated.drop_first(), other));
                assert(said_for(standing, other) == said_for(standing.drop_first(), other));
            }
        }
    } else {
        assert(updated.drop_first() =~= standing.drop_first());
        assert(updated[0] == record);
        assert forall|other: Seq<char>| other != subject implies said_for(updated, other) == said_for(standing, other) by {
            assert(said_for(updated, other) == said_for(updated.drop_first(), other));
            assert(said_for(standing, other) == said_for(standing.drop_first(), other));
        }
    }
}

// --- the stamp on each line -----------------------------------------------------------

/// The day a count of days since 1970-01-01 falls on, in the proleptic Gregorian calendar:
/// the year, the month from 1 and the day of the month from 1.
pub open spec fn civil(days: int) -> (int, int, int) {
    let z = days + 719_468;
    let era = z / 146_097;
    let doe = z - era * 146_097;
    let yoe = (doe - doe / 1460 + doe / 36_524 - doe / 146_096) / 365;
    let year = yoe + era * 400;
    let doy = doe - (365 * yoe + yoe / 4 - yoe / 100);
    let mp = (5 * doy + 2) / 153;
    let day = doy - (153 * mp + 2) / 5 + 1;
    let month = if mp < 10 { mp + 3 } else { mp - 9 };
    (if month <= 2 { year + 1 } else { year }, month, day)
}

proof fn lemma_civil_parts(doe: int)
    requires
        0 <= doe <= 146_096,
    ensures
        ({
            let yoe = (doe - doe / 1460 + doe / 36_524 - doe / 146_096) / 365;
            let doy = doe - (365 * yoe + yoe / 4 - yoe / 100);
            let mp = (5 * doy + 2) / 153;
            let day = doy - (153 * mp + 2) / 5 + 1;
            &&& 0 <= yoe <= 399
            &&& 0 <= doy <= 365
            &&& 0 <= mp <= 11
            &&& 1 <= day <= 31
        }),
{
    let yoe = (doe - doe / 1460 + doe / 36_524 - doe / 146_096) / 365;
    assert(0 <= yoe <= 399) by (nonlinear_arith)
        requires
            0 <= doe <= 146_096,
            yoe == (doe - doe / 1460 + doe / 36_524 - doe / 146_096) / 365,
    ;
    let doy = doe - (365 * yoe + yoe / 4 - yoe / 100);
    assert(0 <= doy <= 365) by (nonlinear_arith)
        requires
            0 <= doe <= 146_096,
            0 <= yoe <= 399,
            yoe == (doe - doe / 1460 + doe / 36_524 - doe / 146_096) / 365,
            doy == doe - (365 * yoe + yoe / 4 - yoe / 100),
    ;
    let mp = (5 * doy + 2) / 153;
    assert(0 <= mp <= 11);
    let day = doy - (153 * mp + 2) / 5 + 1;
    assert(1 <= day <= 31) by (nonlinear_arith)
        requires
            0 <= doy <= 365,
            mp == (5 * doy + 2) / 153,
            day == doy - (153 * mp + 2) / 5 + 1,
    ;
}

/// The date of a day count: every month is one of the twelve, and every day one of its days.
pub proof fn law_civil_dates_are_dates(days: int)
    ensures
        1 <= civil(days).1 <= 12,
        1 <= civil(days).2 <= 31,
{
    let z = days + 719_468;
    let era = z / 146_097;
    let doe = z - era * 146_097;
    assert(0 <= doe <= 146_096);
    lemma_civil_parts(doe);
}

/// The year, month and day a count of days since 1970-01-01 falls on.
pub fn civil_date(days: i64) -> (r: (i64, u32, u32))
    requires
        days <= i64::MAX - 719_468,
    ensures
        (r.0 as int, r.1 as int, r.2 as int) == civil(days as int),
{
    let z = days + 719_468;
    // the same floor division as `if z >= 0 { z } else { z - 146_096 } / 146_097`, written
    // with nothing negative divided
    let era = if z >= 0 { z / 146_097 } else { -((-(z + 1)) / 146_097) - 1 };
    proof {
        if z < 0 {
            let q = (-(z + 1)) / 146_097;
            assert(-q - 1 == (z as int) / 146_097) by (nonlinear_arith)
                requires
                    z < 0,
                    q == (-(z + 1)) / 146_097,
            ;
        }
    }
    let doe = z - era * 146_097;
    proof {
        lemma_civil_parts(doe as int);
    }
    let yoe = (doe - doe / 1460 + doe / 36_524 - doe / 146_096) / 365;
    let year = yoe + era * 400;
    let doy = doe - (365 * yoe + yoe / 4 - yoe / 100);
    let mp = (5 * doy + 2) / 153;
    let day = (doy - (153 * mp + 2) / 5 + 1) as u32;
    let month = if mp < 10 { mp + 3 } else { mp - 9 } as u32;
    (if month <= 2 { year + 1 } else { year }, month, day)
}

/// `n` in decimal, padded with zeros to `width` digits.
pub open spec fn padded(n: nat, width: nat) -> Seq<char> {
    if decimal(n).len() >= width {
        decimal(n)
    } else {
        Seq::new((width - decimal(n).len()) as nat, |_i: int| '0') + decimal(n)
    }
}

/// `n` in decimal, padded with zeros to `width` digits.
pub fn padded_of(n: u64, width: usize) -> (r: String)
    ensures
        r@ == padded(n as nat, width as nat),
{
    let digits = decimal_of(n);
    let len = digits.as_str().unicode_len();
    if len >= width {
        return digits;
    }
    let mut r = String::new();
    let mut k: usize = 0;
    while k < width - len
        invariant
            len < width,
            k <= width - len,
            r@ == Seq::new(k as nat, |_i: int| '0'),
        decreases width - len - k,
    {
        crate::std_calls::push_char(&mut r, '0');
        assert(r@ =~= Seq::new((k + 1) as nat, |_i: int| '0'));
        k = k + 1;
    }
    r.append(digits.as_str());
    r
}

/// The stamp a line written `seconds` after 1970-01-01 carries: "2026-08-19 00:20:50Z".
pub open spec fn stamp_text(seconds: nat) -> Seq<char> {
    let date = civil((seconds / 86_400) as int);
    let rest = seconds % 86_400;
    padded(date.0 as nat, 4) + "-"@ + padded(date.1 as nat, 2) + "-"@ + padded(date.2 as nat, 2)
        + " "@ + padded(rest / 3600, 2) + ":"@ + padded(rest % 3600 / 60, 2) + ":"@ + padded(
        rest % 60,
        2,
    ) + "Z"@
}

/// The stamp a line written `seconds` after 1970-01-01 carries.
pub fn timestamp_of(seconds: u64) -> (r: String)
    ensures
        r@ == stamp_text(seconds as nat),
{
    let days = seconds / 86_400;
    let (year, month, day) = civil_date(days as i64);
    proof {
        law_civil_dates_are_dates(days as int);
        assert(civil(days as int).0 >= 0) by (nonlinear_arith)
            requires
                0 <= days,
        ;
    }
    let rest = seconds % 86_400;
    let y = padded_of(year as u64, 4);
    let m = padded_of(month as u64, 2);
    let d = padded_of(day as u64, 2);
    let hh = padded_of(rest / 3600, 2);
    let mm = padded_of(rest % 3600 / 60, 2);
    let ss = padded_of(rest % 60, 2);
    let mut r = joined5(y.as_str(), "-", m.as_str(), "-", d.as_str());
    r.append(" ");
    r.append(hh.as_str());
    r.append(":");
    r.append(mm.as_str());
    r.append(":");
    r.append(ss.as_str());
    r.append("Z");
    r
}

} // verus!
