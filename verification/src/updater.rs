//! What to do about a newer release, decided from facts alone, and the digests that say a
//! download is the file that was published.

use crate::words::{find_char, first_index, hex_of, hex_text, lemma_hex_len, parse_whole, parsed_whole};
use vstd::prelude::*;

verus! {

/// What the window is told about an update, through the progress poll.
pub struct UpdateNews {
    pub version: String,
    /// The new copy is already in place and starts on the next launch.
    pub installed: bool,
}

/// A newer release: what the window is told, and what pressing the button should do.
pub struct Pending {
    pub news: UpdateNews,
    pub plan: Plan,
}

/// What one look at the releases came to, phrased by the boundary.
pub struct Announcement {
    pub version: String,
    pub installed: bool,
}

/// What the release page says about the newest release.
pub struct Release {
    pub version: String,
    pub page_url: String,
    pub appimage_url: Option<String>,
    pub installer_url: Option<String>,
    pub checksums_url: Option<String>,
}

/// What to do about the newest release.
pub enum Plan {
    /// Open this in the browser; the person takes it from there.
    Open { version: String, url: String },
    /// Download the installer, verify it, and run it: the installer asks about the running app.
    RunInstaller { version: String, installer_url: String, checksums_url: Option<String> },
    /// An AppImage replaces its own file, so nobody has to do anything.
    Replace {
        version: String,
        appimage_url: String,
        checksums_url: Option<String>,
        destination: String,
    },
}

/// The view of an optional text.
pub open spec fn text_of(text: Option<String>) -> Option<Seq<char>> {
    match text {
        Some(t) => Some(t@),
        None => None,
    }
}

/// Whether `made` is the plan for `release`: nothing unless it is newer than what runs; an
/// AppImage replaces itself; Windows runs the installer; anything else opens the page.
pub open spec fn plan_matches(
    made: Option<Plan>,
    release: Release,
    newer: bool,
    appimage: Option<Seq<char>>,
    windows: bool,
) -> bool {
    if !newer {
        made is None
    } else if appimage is Some && release.appimage_url is Some {
        made matches Some(Plan::Replace { version, appimage_url, checksums_url, destination })
            && version@ == release.version@ && appimage_url@ == release.appimage_url->0@
            && text_of(checksums_url) == text_of(release.checksums_url) && destination@
            == appimage->0
    } else if windows && release.installer_url is Some {
        made matches Some(Plan::RunInstaller { version, installer_url, checksums_url })
            && version@ == release.version@ && installer_url@ == release.installer_url->0@
            && text_of(checksums_url) == text_of(release.checksums_url)
    } else {
        made matches Some(Plan::Open { version, url }) && version@ == release.version@ && url@
            == release.page_url@
    }
}

// --- which release is newer ----------------------------------------------------------------

/// The dot-separated pieces of a version, as `split('.')` yields them.
pub open spec fn version_pieces(version: Seq<char>) -> Seq<Seq<char>>
    decreases version.len(),
{
    let end = first_index(version, '.');
    if end >= version.len() {
        seq![version]
    } else {
        seq![version.take(end as int)] + version_pieces(version.skip((end + 1) as int))
    }
}

/// The number a piece of a version writes: digits and nothing else, within range.
pub open spec fn piece_number(piece: Seq<char>) -> Option<u64> {
    if piece.len() > 0 && piece[0] != '+' {
        parsed_whole(piece)
    } else {
        None
    }
}

/// The numbers of a version such as "0.2.0", or nothing when a piece is not a number.
pub open spec fn numbers_of(pieces: Seq<Seq<char>>) -> Option<Seq<u64>>
    decreases pieces.len(),
{
    if pieces.len() == 0 {
        Some(Seq::empty())
    } else {
        match (piece_number(pieces[0]), numbers_of(pieces.drop_first())) {
            (Some(first), Some(rest)) => Some(seq![first] + rest),
            _ => None,
        }
    }
}

/// The number at `i`, a missing one counting as zero, so "0.2" and "0.2.0" are the same.
pub open spec fn number_at(numbers: Seq<u64>, i: int) -> int {
    if 0 <= i < numbers.len() {
        numbers[i] as int
    } else {
        0
    }
}

/// Whether `a` is greater than `b` from the `i`-th number on: the first number that differs
/// decides.
pub open spec fn greater_from(a: Seq<u64>, b: Seq<u64>, i: nat) -> bool
    decreases a.len() + b.len() - i,
{
    if i >= a.len() && i >= b.len() {
        false
    } else if number_at(a, i as int) != number_at(b, i as int) {
        number_at(a, i as int) > number_at(b, i as int)
    } else {
        greater_from(a, b, i + 1)
    }
}

/// Whether `candidate` is a later version than `running`. A version that is not dotted numbers
/// is never later, nor earlier.
pub open spec fn newer_text(candidate: Seq<char>, running: Seq<char>) -> bool {
    match (numbers_of(version_pieces(candidate)), numbers_of(version_pieces(running))) {
        (Some(a), Some(b)) => greater_from(a, b, 0),
        _ => false,
    }
}

fn numbers_in(version: &str) -> (r: Option<Vec<u64>>)
    ensures
        match r {
            Some(numbers) => numbers_of(version_pieces(version@)) == Some(numbers@),
            None => numbers_of(version_pieces(version@)) is None,
        },
    decreases version@.len(),
{
    let n = version.unicode_len();
    let end = find_char(version, '.');
    let piece = version.substring_char(0, end);
    assert(piece@ =~= version@.take(end as int));
    let first = if end > 0 && piece.get_char(0) != '+' {
        parse_whole(piece)
    } else {
        None
    };
    assert(first == piece_number(piece@));
    proof {
        if end >= n {
            assert(piece@ =~= version@);
        }
        assert(version_pieces(version@)[0] == piece@);
    }
    let first = match first {
        Some(number) => number,
        None => return None,
    };
    if end >= n {
        assert(version_pieces(version@) =~= seq![version@]);
        assert(numbers_of(version_pieces(version@).drop_first()) == Some(Seq::<u64>::empty()));
        let mut numbers = Vec::new();
        numbers.push(first);
        assert(numbers@ =~= seq![first] + Seq::<u64>::empty());
        return Some(numbers);
    }
    let rest = version.substring_char(end + 1, n);
    assert(rest@ =~= version@.skip(end + 1));
    assert(version_pieces(version@).drop_first() =~= version_pieces(rest@));
    match numbers_in(rest) {
        Some(later) => {
            let mut numbers = Vec::new();
            numbers.push(first);
            let mut later = later;
            let ghost tail = later@;
            numbers.append(&mut later);
            assert(numbers@ =~= seq![first] + tail);
            Some(numbers)
        },
        None => None,
    }
}

fn greater(a: &Vec<u64>, b: &Vec<u64>) -> (r: bool)
    ensures
        r == greater_from(a@, b@, 0),
{
    let longest = if a.len() > b.len() { a.len() } else { b.len() };
    let mut i: usize = 0;
    while i < longest
        invariant
            longest == (if a@.len() > b@.len() { a@.len() } else { b@.len() }),
            i <= longest,
            greater_from(a@, b@, 0) == greater_from(a@, b@, i as nat),
        decreases longest - i,
    {
        let x: u64 = if i < a.len() { a[i] } else { 0 };
        let y: u64 = if i < b.len() { b[i] } else { 0 };
        assert(x == number_at(a@, i as int) && y == number_at(b@, i as int));
        if x != y {
            return x > y;
        }
        i = i + 1;
    }
    false
}

/// Whether `candidate` is a later version than `running`, by its dotted numbers.
pub fn newer_than(candidate: &str, running: &str) -> (r: bool)
    ensures
        r == newer_text(candidate@, running@),
{
    match (numbers_in(candidate), numbers_in(running)) {
        (Some(a), Some(b)) => greater(&a, &b),
        _ => false,
    }
}

proof fn lemma_greater_from(a: Seq<u64>, b: Seq<u64>, i: nat)
    ensures
        greater_from(a, b, i) ==> !greater_from(b, a, i),
    decreases a.len() + b.len() - i,
{
    if !(i >= a.len() && i >= b.len()) && number_at(a, i as int) == number_at(b, i as int) {
        lemma_greater_from(a, b, i + 1);
    }
}

proof fn lemma_not_greater_than_itself(a: Seq<u64>, i: nat)
    ensures
        !greater_from(a, a, i),
    decreases a.len() + a.len() - i,
{
    if i < a.len() {
        lemma_not_greater_than_itself(a, i + 1);
    }
}

/// A release is never newer than itself, and of two releases at most one is newer than the
/// other: so the app never offers the version it runs, nor one older than it.
pub proof fn law_no_update_to_the_same_or_an_older_version(one: Seq<char>, other: Seq<char>)
    ensures
        !newer_text(one, one),
        newer_text(one, other) ==> !newer_text(other, one),
{
    if let (Some(a), Some(b)) = (numbers_of(version_pieces(one)), numbers_of(version_pieces(other))) {
        lemma_greater_from(a, b, 0);
    }
    if let Some(a) = numbers_of(version_pieces(one)) {
        lemma_not_greater_than_itself(a, 0);
    }
}

fn copy_text(text: &Option<String>) -> (r: Option<String>)
    ensures
        text_of(r) == text_of(*text),
{
    match text {
        Some(t) => Some(t.clone()),
        None => None,
    }
}

/// What to do about the newest release, given the version that runs, where the running
/// AppImage is when there is one, and whether this is Windows.
pub fn plan(release: &Release, running: &str, appimage: Option<&str>, windows: bool) -> (r: Option<Plan>)
    ensures
        plan_matches(
            r,
            *release,
            newer_text(release.version@, running@),
            match appimage {
                Some(path) => Some(path@),
                None => None,
            },
            windows,
        ),
{
    if !newer_than(release.version.as_str(), running) {
        return None;
    }
    if let (Some(destination), Some(appimage_url)) = (appimage, &release.appimage_url) {
        return Some(
            Plan::Replace {
                version: release.version.clone(),
                appimage_url: appimage_url.clone(),
                checksums_url: copy_text(&release.checksums_url),
                destination: String::from_str(destination),
            },
        );
    }
    if windows {
        if let Some(installer_url) = &release.installer_url {
            return Some(
                Plan::RunInstaller {
                    version: release.version.clone(),
                    installer_url: installer_url.clone(),
                    checksums_url: copy_text(&release.checksums_url),
                },
            );
        }
    }
    Some(Plan::Open { version: release.version.clone(), url: release.page_url.clone() })
}

/// What `ring` computes as the SHA-256 digest of some bytes.
pub uninterp spec fn spec_sha256(bytes: Seq<u8>) -> Seq<u8>;

/// `ring::digest::digest` with `SHA256`. The digest is named; that it is 32 bytes long is what
/// the algorithm's output length says.
#[verifier::external_body]
fn sha256(bytes: &[u8]) -> (r: Vec<u8>)
    ensures
        r@ == spec_sha256(bytes@),
        r@.len() == 32,
{
    ring::digest::digest(&ring::digest::SHA256, bytes).as_ref().to_vec()
}

/// The SHA-256 digest of some bytes.
pub fn digest(bytes: &[u8]) -> (r: Vec<u8>)
    ensures
        r@ == spec_sha256(bytes@),
        r@.len() == 32,
{
    sha256(bytes)
}

/// The SHA-256 digest of some bytes, in lowercase hexadecimal as checksum files write it.
pub fn sha256_hex(bytes: &[u8]) -> (r: String)
    ensures
        r@ == hex_text(spec_sha256(bytes@)),
        r@.len() == 64,
{
    let digested = sha256(bytes);
    let r = hex_of(digested.as_slice());
    proof {
        lemma_hex_len(digested@);
    }
    r
}

/// Whether two files hold the same bytes, judged by their digests: the test that decides
/// whether a launched AppImage is already the adopted one.
pub fn same_digest(one: &[u8], other: &[u8]) -> (r: bool)
    ensures
        r == (spec_sha256(one@) == spec_sha256(other@)),
{
    let here = sha256(one);
    let there = sha256(other);
    let mut i: usize = 0;
    while i < 32
        invariant
            here@.len() == 32,
            there@.len() == 32,
            here@ == spec_sha256(one@),
            there@ == spec_sha256(other@),
            i <= 32,
            forall|j: int| 0 <= j < i ==> here@[j] == there@[j],
        decreases 32 - i,
    {
        if here[i] != there[i] {
            assert(here@[i as int] != there@[i as int]);
            return false;
        }
        i = i + 1;
    }
    assert(here@ =~= there@);
    true
}

} // verus!
