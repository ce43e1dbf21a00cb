//! Numbers written out, and the small string operations every sentence is built from.

use vstd::prelude::*;

verus! {

/// The character that writes one decimal digit.
pub open spec fn digit_char(d: nat) -> char {
    if d == 0 { '0' }
    else if d == 1 { '1' }
    else if d == 2 { '2' }
    else if d == 3 { '3' }
    else if d == 4 { '4' }
    else if d == 5 { '5' }
    else if d == 6 { '6' }
    else if d == 7 { '7' }
    else if d == 8 { '8' }
    else { '9' }
}

/// A natural number in decimal, without leading zeros: how `{}` writes it.
pub open spec fn decimal(n: nat) -> Seq<char>
    decreases n,
{
    if n < 10 {
        seq![digit_char(n)]
    } else {
        decimal(n / 10).push(digit_char(n % 10))
    }
}

/// A whole number in decimal, with a minus sign when it is negative.
pub open spec fn signed_decimal(i: int) -> Seq<char> {
    if i < 0 {
        seq!['-'] + decimal((-i) as nat)
    } else {
        decimal(i as nat)
    }
}

fn digit(d: u64) -> (r: &'static str)
    requires
        d < 10,
    ensures
        r@ == seq![digit_char(d as nat)],
{
    proof {
        reveal_strlit("0");
        reveal_strlit("1");
        reveal_strlit("2");
        reveal_strlit("3");
        reveal_strlit("4");
        reveal_strlit("5");
        reveal_strlit("6");
        reveal_strlit("7");
        reveal_strlit("8");
        reveal_strlit("9");
    }
    if d == 0 { "0" }
    else if d == 1 { "1" }
    else if d == 2 { "2" }
    else if d == 3 { "3" }
    else if d == 4 { "4" }
    else if d == 5 { "5" }
    else if d == 6 { "6" }
    else if d == 7 { "7" }
    else if d == 8 { "8" }
    else { "9" }
}

/// `n` written in decimal.
pub fn decimal_of(n: u64) -> (r: String)
    ensures
        r@ == decimal(n as nat),
    decreases n,
{
    if n < 10 {
        String::from_str(digit(n))
    } else {
        let mut front = decimal_of(n / 10);
        front.append(digit(n % 10));
        front
    }
}

/// `n` written in decimal, signed.
pub fn signed_decimal_of(n: i64) -> (r: String)
    ensures
        r@ == signed_decimal(n as int),
{
    if n < 0 {
        let magnitude: u64 = ((-(n + 1)) as u64) + 1;
        let digits = decimal_of(magnitude);
        let mut r = String::from_str("-");
        proof {
            reveal_strlit("-");
        }
        r.append(digits.as_str());
        r
    } else {
        decimal_of(n as u64)
    }
}

/// The three pieces, one after the other.
pub fn joined3(a: &str, b: &str, c: &str) -> (r: String)
    ensures
        r@ == a@ + b@ + c@,
{
    let mut r = String::from_str(a);
    r.append(b);
    r.append(c);
    r
}

/// The two pieces, one after the other.
pub fn joined2(a: &str, b: &str) -> (r: String)
    ensures
        r@ == a@ + b@,
{
    let mut r = String::from_str(a);
    r.append(b);
    r
}

/// The five pieces, one after the other.
pub fn joined5(a: &str, b: &str, c: &str, d: &str, e: &str) -> (r: String)
    ensures
        r@ == a@ + b@ + c@ + d@ + e@,
{
    let mut r = String::from_str(a);
    r.append(b);
    r.append(c);
    r.append(d);
    r.append(e);
    r
}

/// Whether two texts are the same characters.
pub fn same_text(a: &str, b: &str) -> (r: bool)
    ensures
        r == (a@ == b@),
{
    let n = a.unicode_len();
    if n != b.unicode_len() {
        return false;
    }
    let mut i: usize = 0;
    while i < n
        invariant
            n == a@.len(),
            n == b@.len(),
            i <= n,
            forall|j: int| 0 <= j < i ==> a@[j] == b@[j],
        decreases n - i,
    {
        if a.get_char(i) != b.get_char(i) {
            return false;
        }
        i = i + 1;
    }
    assert(a@ =~= b@);
    true
}

/// Whether `needle` occurs in `text` starting at `at`.
pub open spec fn occurs_at(text: Seq<char>, needle: Seq<char>, at: int) -> bool {
    0 <= at && at + needle.len() <= text.len() && text.subrange(at, at + needle.len()) == needle
}

/// Whether `needle` occurs anywhere in `text`.
pub open spec fn has_text(text: Seq<char>, needle: Seq<char>) -> bool {
    exists|at: int| occurs_at(text, needle, at)
}

fn occurs_here(text: &str, needle: &str, at: usize) -> (r: bool)
    requires
        at + needle@.len() <= text@.len(),
    ensures
        r == occurs_at(text@, needle@, at as int),
{
    let n = needle.unicode_len();
    let _whole = text.unicode_len();
    let mut i: usize = 0;
    while i < n
        invariant
            n == needle@.len(),
            at + n <= text@.len(),
            text@.len() <= usize::MAX,
            i <= n,
            forall|j: int| 0 <= j < i ==> text@[at + j] == needle@[j],
        decreases n - i,
    {
        if text.get_char(at + i) != needle.get_char(i) {
            assert(text@.subrange(at as int, at + n)[i as int] != needle@[i as int]);
            return false;
        }
        i = i + 1;
    }
    assert(text@.subrange(at as int, at + n) =~= needle@);
    true
}

/// Whether `at` is where `needle` first occurs in `text`.
pub open spec fn first_occurrence(text: Seq<char>, needle: Seq<char>, at: int) -> bool {
    occurs_at(text, needle, at) && forall|k: int| 0 <= k < at ==> !occurs_at(text, needle, k)
}

/// Where `needle` first occurs in `text`, if it does.
pub open spec fn first_at(text: Seq<char>, needle: Seq<char>) -> Option<int> {
    if has_text(text, needle) {
        Some(choose|at: int| first_occurrence(text, needle, at))
    } else {
        None
    }
}

proof fn lemma_first_at(text: Seq<char>, needle: Seq<char>, at: int)
    requires
        first_occurrence(text, needle, at),
    ensures
        first_at(text, needle) == Some(at),
{
    assert(has_text(text, needle));
    let c = choose|k: int| first_occurrence(text, needle, k);
    assert(first_occurrence(text, needle, c));
    if c < at {
        assert(!occurs_at(text, needle, c));
    } else if c > at {
        assert(!occurs_at(text, needle, at));
    }
}

/// The first place `needle` occurs in `text`, if it does.
pub fn find_text(text: &str, needle: &str) -> (r: Option<usize>)
    ensures
        match r {
            Some(at) => first_occurrence(text@, needle@, at as int) && first_at(text@, needle@)
                == Some(at as int),
            None => !has_text(text@, needle@) && first_at(text@, needle@) is None,
        },
{
    let n = text.unicode_len();
    let m = needle.unicode_len();
    if m > n {
        return None;
    }
    if m == 0 {
        assert(text@.subrange(0, 0) =~= needle@);
        proof {
            lemma_first_at(text@, needle@, 0);
        }
        return Some(0);
    }
    let mut at: usize = 0;
    while at <= n - m
        invariant
            n == text@.len(),
            m == needle@.len(),
            1 <= m <= n,
            at <= n - m + 1,
            forall|k: int| 0 <= k < at ==> !occurs_at(text@, needle@, k),
        decreases n - at,
    {
        if occurs_here(text, needle, at) {
            proof {
                lemma_first_at(text@, needle@, at as int);
            }
            return Some(at);
        }
        at = at + 1;
    }
    assert forall|k: int| !occurs_at(text@, needle@, k) by {
        if 0 <= k < at {
        } else if occurs_at(text@, needle@, k) {
            assert(k + m <= n);
        }
    }
    None
}

/// Whether `needle` occurs anywhere in `text`.
pub fn contains_text(text: &str, needle: &str) -> (r: bool)
    ensures
        r == has_text(text@, needle@),
{
    find_text(text, needle).is_some()
}

/// Whether `text` begins with `prefix`.
pub fn starts_with_text(text: &str, prefix: &str) -> (r: bool)
    ensures
        r == (prefix@.len() <= text@.len() && text@.subrange(0, prefix@.len() as int) == prefix@),
{
    if prefix.unicode_len() > text.unicode_len() {
        return false;
    }
    occurs_here(text, prefix, 0)
}

/// The characters Unicode calls white space, which is what `char::is_whitespace` answers to.
pub open spec fn is_space(c: char) -> bool {
    ||| ('\u{9}' <= c && c <= '\u{d}')
    ||| c == ' '
    ||| c == '\u{85}'
    ||| c == '\u{a0}'
    ||| c == '\u{1680}'
    ||| ('\u{2000}' <= c && c <= '\u{200a}')
    ||| c == '\u{2028}'
    ||| c == '\u{2029}'
    ||| c == '\u{202f}'
    ||| c == '\u{205f}'
    ||| c == '\u{3000}'
}

/// Whether `c` is white space.
pub fn space_char(c: char) -> (r: bool)
    ensures
        r == is_space(c),
{
    ('\u{9}' <= c && c <= '\u{d}') || c == ' ' || c == '\u{85}' || c == '\u{a0}' || c == '\u{1680}'
        || ('\u{2000}' <= c && c <= '\u{200a}') || c == '\u{2028}' || c == '\u{2029}' || c
        == '\u{202f}' || c == '\u{205f}' || c == '\u{3000}'
}

/// How many characters at the front of `s` are white space.
pub open spec fn leading_space(s: Seq<char>) -> nat
    decreases s.len(),
{
    if s.len() > 0 && is_space(s[0]) {
        1 + leading_space(s.drop_first())
    } else {
        0
    }
}

/// How many characters at the end of `s` are white space.
pub open spec fn trailing_space(s: Seq<char>) -> nat
    decreases s.len(),
{
    if s.len() > 0 && is_space(s.last()) {
        1 + trailing_space(s.drop_last())
    } else {
        0
    }
}

/// `s` without the white space at its end.
pub open spec fn trimmed_end(s: Seq<char>) -> Seq<char> {
    s.subrange(0, s.len() - trailing_space(s))
}

/// White space at the end of `s` is never more than `s`.
pub proof fn lemma_trailing_space_bound(s: Seq<char>)
    ensures
        trailing_space(s) <= s.len(),
    decreases s.len(),
{
    if s.len() > 0 && is_space(s.last()) {
        lemma_trailing_space_bound(s.drop_last());
    }
}

/// `s` without the white space at either end, which is what `str::trim` answers.
pub open spec fn trimmed(s: Seq<char>) -> Seq<char> {
    trimmed_end(s.skip(leading_space(s) as int))
}

proof fn lemma_leading_space(s: Seq<char>, i: int)
    requires
        0 <= i <= s.len(),
        forall|j: int| 0 <= j < i ==> is_space(s[j]),
        i == s.len() || !is_space(s[i]),
    ensures
        leading_space(s) == i,
    decreases i,
{
    if i > 0 {
        lemma_leading_space(s.drop_first(), i - 1);
    }
}

proof fn lemma_trailing_space(s: Seq<char>, k: int)
    requires
        0 <= k <= s.len(),
        forall|j: int| s.len() - k <= j < s.len() ==> is_space(s[j]),
        k == s.len() || !is_space(s[s.len() - k - 1]),
    ensures
        trailing_space(s) == k,
    decreases k,
{
    if k > 0 {
        assert(is_space(s.last()));
        let t = s.drop_last();
        assert forall|j: int| t.len() - (k - 1) <= j < t.len() implies is_space(t[j]) by {
            assert(t[j] == s[j]);
        }
        if k - 1 != t.len() {
            assert(t[t.len() - (k - 1) - 1] == s[s.len() - k - 1]);
        }
        lemma_trailing_space(t, k - 1);
    }
}

/// How much white space `s` starts with.
pub fn count_leading_space(s: &str) -> (r: usize)
    ensures
        r == leading_space(s@),
        r <= s@.len(),
{
    let n = s.unicode_len();
    let mut i: usize = 0;
    while i < n && space_char(s.get_char(i))
        invariant
            n == s@.len(),
            i <= n,
            forall|j: int| 0 <= j < i ==> is_space(s@[j]),
        decreases n - i,
    {
        i = i + 1;
    }
    proof {
        lemma_leading_space(s@, i as int);
    }
    i
}

/// How much white space `s` ends with.
pub fn count_trailing_space(s: &str) -> (r: usize)
    ensures
        r == trailing_space(s@),
        r <= s@.len(),
{
    let n = s.unicode_len();
    let mut k: usize = 0;
    while k < n && space_char(s.get_char(n - k - 1))
        invariant
            n == s@.len(),
            k <= n,
            forall|j: int| n - k <= j < n ==> is_space(s@[j]),
        decreases n - k,
    {
        k = k + 1;
    }
    proof {
        lemma_trailing_space(s@, k as int);
    }
    k
}

/// `s` without the white space at either end.
pub fn trim_text(s: &str) -> (r: String)
    ensures
        r@ == trimmed(s@),
{
    let n = s.unicode_len();
    let front = count_leading_space(s);
    let rest = s.substring_char(front, n);
    let m = rest.unicode_len();
    let back = count_trailing_space(rest);
    let kept = rest.substring_char(0, m - back);
    String::from_str(kept)
}

/// `s` without the white space at its end.
pub fn trim_end_text(s: &str) -> (r: String)
    ensures
        r@ == trimmed_end(s@),
{
    let n = s.unicode_len();
    let back = count_trailing_space(s);
    String::from_str(s.substring_char(0, n - back))
}

/// Whether `s` is nothing but white space.
pub fn is_blank(s: &str) -> (r: bool)
    ensures
        r == (trimmed(s@).len() == 0),
{
    let t = trim_text(s);
    t.as_str().unicode_len() == 0
}

/// How far into `s` the first `c` is, or its whole length when there is none.
pub open spec fn first_index(s: Seq<char>, c: char) -> nat
    decreases s.len(),
{
    if s.len() == 0 {
        0
    } else if s[0] == c {
        0
    } else {
        1 + first_index(s.drop_first(), c)
    }
}

/// What comes before the first `c` in `s`: the first piece `s.split(c)` yields.
pub open spec fn before_char(s: Seq<char>, c: char) -> Seq<char> {
    s.take(first_index(s, c) as int)
}

/// What comes after the first `c` in `s`, when there is one.
pub open spec fn after_char(s: Seq<char>, c: char) -> Option<Seq<char>> {
    if first_index(s, c) < s.len() {
        Some(s.skip((first_index(s, c) + 1) as int))
    } else {
        None
    }
}

proof fn lemma_first_index(s: Seq<char>, c: char, i: int)
    requires
        0 <= i <= s.len(),
        forall|j: int| 0 <= j < i ==> s[j] != c,
        i == s.len() || s[i] == c,
    ensures
        first_index(s, c) == i,
    decreases i,
{
    if i > 0 {
        lemma_first_index(s.drop_first(), c, i - 1);
    }
}

/// Where the first `c` in `s` is, or the length of `s` when there is none.
pub fn find_char(s: &str, c: char) -> (r: usize)
    ensures
        r == first_index(s@, c),
        r <= s@.len(),
{
    let n = s.unicode_len();
    let mut i: usize = 0;
    while i < n && s.get_char(i) != c
        invariant
            n == s@.len(),
            i <= n,
            forall|j: int| 0 <= j < i ==> s@[j] != c,
        decreases n - i,
    {
        i = i + 1;
    }
    proof {
        lemma_first_index(s@, c, i as int);
    }
    i
}

/// `s` with every `from` written as `to`.
pub open spec fn replaced_char(s: Seq<char>, from: char, to: char) -> Seq<char> {
    s.map_values(|x: char| if x == from { to } else { x })
}

/// `s` with every `from` written as `to`.
pub fn replace_char(s: &str, from: char, to: char) -> (r: String)
    ensures
        r@ == replaced_char(s@, from, to),
{
    let n = s.unicode_len();
    let mut r = String::new();
    let mut i: usize = 0;
    while i < n
        invariant
            n == s@.len(),
            i <= n,
            r@ == replaced_char(s@.take(i as int), from, to),
        decreases n - i,
    {
        let x = s.get_char(i);
        crate::std_calls::push_char(&mut r, if x == from { to } else { x });
        assert(replaced_char(s@.take(i + 1), from, to) =~= replaced_char(s@.take(i as int), from, to).push(if x == from { to } else { x }));
        i = i + 1;
    }
    assert(s@.take(n as int) =~= s@);
    r
}

/// Whether `c` is an ASCII letter.
pub open spec fn is_ascii_letter(c: char) -> bool {
    ('a' <= c && c <= 'z') || ('A' <= c && c <= 'Z')
}

/// Whether `c` is an ASCII digit.
pub open spec fn is_digit(c: char) -> bool {
    '0' <= c && c <= '9'
}

/// The number the digits of `s` write, most significant first.
pub open spec fn digits_value(s: Seq<char>) -> nat
    decreases s.len(),
{
    if s.len() == 0 {
        0
    } else {
        digits_value(s.drop_last()) * 10 + ((s.last() as u32) - ('0' as u32)) as nat
    }
}

/// What `str::parse::<u64>` makes of `s`: an optional plus sign, then at least one digit and
/// nothing else, within range.
pub open spec fn parsed_whole(s: Seq<char>) -> Option<u64> {
    let digits = unsigned_part(s);
    if digits.len() == 0 || !all_digits(digits) || digits_value(digits) > u64::MAX {
        None
    } else {
        Some(digits_value(digits) as u64)
    }
}

/// `s` without the plus sign it may start with.
pub open spec fn unsigned_part(s: Seq<char>) -> Seq<char> {
    if s.len() > 0 && s[0] == '+' { s.drop_first() } else { s }
}

/// Whether every character of `s` is a digit.
pub open spec fn all_digits(s: Seq<char>) -> bool {
    forall|i: int| 0 <= i < s.len() ==> is_digit(#[trigger] s[i])
}

/// `s` read as a whole number, as `str::parse::<u64>` reads it.
pub fn parse_whole(s: &str) -> (r: Option<u64>)
    ensures
        r == parsed_whole(s@),
{
    let n = s.unicode_len();
    let start: usize = if n > 0 && s.get_char(0) == '+' { 1 } else { 0 };
    let ghost digits = unsigned_part(s@);
    assert(digits =~= s@.skip(start as int));
    if start == n {
        return None;
    }
    let mut value: u64 = 0;
    let mut i: usize = start;
    while i < n
        invariant
            n == s@.len(),
            start <= i <= n,
            digits =~= s@.skip(start as int),
            digits == unsigned_part(s@),
            forall|j: int| start <= j < i ==> is_digit(s@[j]),
            value == digits_value(s@.subrange(start as int, i as int)),
        decreases n - i,
    {
        let c = s.get_char(i);
        assert(s@.subrange(start as int, i + 1).drop_last() =~= s@.subrange(start as int, i as int));
        if !('0' <= c && c <= '9') {
            assert(!is_digit(digits[i - start]));
            return None;
        }
        let d: u64 = ((c as u32) - ('0' as u32)) as u64;
        if value > (u64::MAX - d) / 10 {
            proof {
                let prefix = s@.subrange(start as int, i + 1);
                assert(prefix.drop_last() =~= s@.subrange(start as int, i as int));
                assert(digits_value(prefix) > u64::MAX) by (nonlinear_arith)
                    requires
                        digits_value(prefix) == value * 10 + d,
                        value > (u64::MAX - d) / 10,
                        d <= 9,
                ;
                if all_digits(digits) {
                    lemma_digits_grow(digits, i + 1 - start);
                    assert(digits.take(i + 1 - start) =~= prefix);
                }
            }
            return None;
        }
        value = value * 10 + d;
        i = i + 1;
    }
    assert(s@.subrange(start as int, n as int) =~= digits);
    Some(value)
}

proof fn lemma_digits_grow(t: Seq<char>, k: int)
    requires
        0 <= k <= t.len(),
    ensures
        digits_value(t) >= digits_value(t.take(k)),
    decreases t.len() - k,
{
    if k < t.len() {
        lemma_digits_grow(t, k + 1);
        assert(t.take(k + 1).drop_last() =~= t.take(k));
        let a = digits_value(t.take(k));
        let b = digits_value(t.take(k + 1));
        assert(b >= a) by (nonlinear_arith)
            requires
                b == a * 10 + ((t[k] as u32) - ('0' as u32)) as nat,
        ;
    } else {
        assert(t.take(k) =~= t);
    }
}

/// The character that writes a value from 0 to 15 in lowercase hexadecimal.
pub open spec fn hex_char(d: nat) -> char {
    if d < 10 {
        digit_char(d)
    } else if d == 10 {
        'a'
    } else if d == 11 {
        'b'
    } else if d == 12 {
        'c'
    } else if d == 13 {
        'd'
    } else if d == 14 {
        'e'
    } else {
        'f'
    }
}

/// Bytes in lowercase hexadecimal, two digits each, as `{:02x}` writes them.
pub open spec fn hex_text(bytes: Seq<u8>) -> Seq<char>
    decreases bytes.len(),
{
    if bytes.len() == 0 {
        Seq::empty()
    } else {
        hex_text(bytes.drop_last()) + seq![
            hex_char((bytes.last() / 16) as nat),
            hex_char((bytes.last() % 16) as nat),
        ]
    }
}

fn hex_digit(d: u8) -> (r: char)
    requires
        d < 16,
    ensures
        r == hex_char(d as nat),
{
    if d < 10 {
        match d {
            0 => '0',
            1 => '1',
            2 => '2',
            3 => '3',
            4 => '4',
            5 => '5',
            6 => '6',
            7 => '7',
            8 => '8',
            _ => '9',
        }
    } else if d == 10 {
        'a'
    } else if d == 11 {
        'b'
    } else if d == 12 {
        'c'
    } else if d == 13 {
        'd'
    } else if d == 14 {
        'e'
    } else {
        'f'
    }
}

/// Bytes in lowercase hexadecimal, two digits each.
pub fn hex_of(bytes: &[u8]) -> (r: String)
    ensures
        r@ == hex_text(bytes@),
{
    let n = bytes.len();
    let mut r = String::new();
    let mut i: usize = 0;
    while i < n
        invariant
            n == bytes@.len(),
            i <= n,
            r@ == hex_text(bytes@.take(i as int)),
        decreases n - i,
    {
        let b = bytes[i];
        crate::std_calls::push_char(&mut r, hex_digit(b / 16));
        crate::std_calls::push_char(&mut r, hex_digit(b % 16));
        assert(bytes@.take(i + 1).drop_last() =~= bytes@.take(i as int));
        i = i + 1;
    }
    assert(bytes@.take(n as int) =~= bytes@);
    r
}

/// Two characters for every byte.
pub proof fn lemma_hex_len(bytes: Seq<u8>)
    ensures
        hex_text(bytes).len() == 2 * bytes.len(),
    decreases bytes.len(),
{
    if bytes.len() > 0 {
        lemma_hex_len(bytes.drop_last());
    }
}

} // verus!
