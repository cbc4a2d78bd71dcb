use vstd::prelude::*;
use crate::path::is_delimiter;

verus! {

/// `c` is the letter given in its two cases.
pub open spec fn is_letter(c: char, lower: char, upper: char) -> bool {
    c == lower || c == upper
}

pub open spec fn is_digit(c: char) -> bool {
    48 <= c as u32 <= 57
}

/// The number a digit stands for; 0 for any other character.
pub open spec fn digit_of(c: char) -> nat {
    if is_digit(c) {
        (c as u32 - 48) as nat
    } else {
        0
    }
}

/// The number that a run of digits reads as in base ten.
pub open spec fn digits_value(s: Seq<char>) -> nat
    decreases s.len(),
{
    if s.len() == 0 {
        0
    } else {
        digits_value(s.drop_last()) * 10 + digit_of(s.last())
    }
}

pub open spec fn all_digits(s: Seq<char>) -> bool {
    forall|i: int| 0 <= i < s.len() ==> is_digit(#[trigger] s[i])
}

/// The name begins with the word `season` or `series`, in any case.
pub open spec fn has_season_word(s: Seq<char>) -> bool {
    &&& s.len() >= 6
    &&& is_letter(s[0], 's', 'S')
    &&& is_letter(s[1], 'e', 'E')
    &&& {
        ||| {
            &&& is_letter(s[2], 'a', 'A')
            &&& is_letter(s[3], 's', 'S')
            &&& is_letter(s[4], 'o', 'O')
            &&& is_letter(s[5], 'n', 'N')
        }
        ||| {
            &&& is_letter(s[2], 'r', 'R')
            &&& is_letter(s[3], 'i', 'I')
            &&& is_letter(s[4], 'e', 'E')
            &&& is_letter(s[5], 's', 'S')
        }
    }
}

/// The first place at or after `from` that holds no delimiter.
pub open spec fn skip_delimiters(s: Seq<char>, from: int) -> int
    decreases s.len() - from,
{
    if 0 <= from < s.len() && is_delimiter(s[from]) {
        skip_delimiters(s, from + 1)
    } else {
        from
    }
}

/// Where the season number begins: after the word and the delimiters that
/// follow it, or right after a single `s`; nowhere in any other name.
pub open spec fn number_start(s: Seq<char>) -> Option<int> {
    if has_season_word(s) {
        Some(skip_delimiters(s, 6))
    } else if s.len() >= 1 && is_letter(s[0], 's', 'S') {
        Some(1)
    } else {
        None
    }
}

/// The season that a directory name gives: the name is `season` or `series`,
/// delimiters and a number (`Season 03`), or `s` and a number (`S03`), the
/// number running to the end of the name and fitting 32 bits.
pub open spec fn season_directory_number(s: Seq<char>) -> Option<u32> {
    match number_start(s) {
        None => None,
        Some(start) => {
            let digits = s.subrange(start, s.len() as int);
            if start < s.len() && all_digits(digits) && digits_value(digits) <= u32::MAX {
                Some(digits_value(digits) as u32)
            } else {
                None
            }
        },
    }
}

/// A run of digits reads as no less than any of its beginnings.
pub proof fn lemma_digits_value_grows(s: Seq<char>, i: int)
    requires
        0 <= i <= s.len(),
    ensures
        digits_value(s.take(i)) <= digits_value(s),
    decreases s.len(),
{
    if i == s.len() {
        assert(s.take(i) =~= s);
    } else {
        lemma_digits_value_grows(s.drop_last(), i);
        assert(s.drop_last().take(i) =~= s.take(i));
    }
}

fn letter_at(name: &str, i: usize, lower: char, upper: char) -> (b: bool)
    requires
        i < name@.len(),
    ensures
        b == is_letter(name@[i as int], lower, upper),
{
    let c = name.get_char(i);
    c == lower || c == upper
}

fn delimiter_at(name: &str, i: usize) -> (b: bool)
    requires
        i < name@.len(),
    ensures
        b == is_delimiter(name@[i as int]),
{
    let c = name.get_char(i);
    c == '.' || c == '-' || c == '_' || c == ' '
}

fn starts_with_season_word(name: &str, len: usize) -> (b: bool)
    requires
        len == name@.len(),
    ensures
        b == has_season_word(name@),
{
    if len < 6 {
        return false;
    }
    if !letter_at(name, 0, 's', 'S') || !letter_at(name, 1, 'e', 'E') {
        return false;
    }
    let season = letter_at(name, 2, 'a', 'A') && letter_at(name, 3, 's', 'S') && letter_at(
        name,
        4,
        'o',
        'O',
    ) && letter_at(name, 5, 'n', 'N');
    let series = letter_at(name, 2, 'r', 'R') && letter_at(name, 3, 'i', 'I') && letter_at(
        name,
        4,
        'e',
        'E',
    ) && letter_at(name, 5, 's', 'S');
    season || series
}

fn find_number_start(name: &str, len: usize) -> (start: Option<usize>)
    requires
        len == name@.len(),
    ensures
        match start {
            Some(k) => number_start(name@) == Some(k as int) && k <= len,
            None => number_start(name@).is_none(),
        },
{
    if starts_with_season_word(name, len) {
        let mut k: usize = 6;
        while k < len && delimiter_at(name, k)
            invariant
                6 <= k <= len,
                len == name@.len(),
                skip_delimiters(name@, 6) == skip_delimiters(name@, k as int),
            decreases len - k,
        {
            k += 1;
        }
        Some(k)
    } else if len >= 1 && letter_at(name, 0, 's', 'S') {
        Some(1)
    } else {
        None
    }
}

/// Reads the season number from the name of a season directory.
pub fn parse_season_directory(name: &str) -> (season: Option<u32>)
    ensures
        season == season_directory_number(name@),
{
    let len = name.unicode_len();
    let start = match find_number_start(name, len) {
        Some(k) => k,
        None => {
            return None;
        },
    };
    if start >= len {
        return None;
    }
    let ghost digits = name@.subrange(start as int, len as int);
    let mut value: u32 = 0;
    let mut i: usize = start;
    while i < len
        invariant
            start <= i <= len,
            len == name@.len(),
            digits == name@.subrange(start as int, len as int),
            number_start(name@) == Some(start as int),
            all_digits(digits.take(i - start)),
            value == digits_value(digits.take(i - start)),
        decreases len - i,
    {
        let c = name.get_char(i);
        let code: u32 = c as u32;
        let ghost seen = digits.take(i - start);
        let ghost next = digits.take(i - start + 1);
        proof {
            assert(next.drop_last() =~= seen);
            assert(next.last() == c);
            lemma_digits_value_grows(digits, i - start + 1);
        }
        if code < 48 || code > 57 {
            assert(!is_digit(digits[i - start]));
            return None;
        }
        let d: u32 = code - 48;
        if value > (u32::MAX - d) / 10 {
            assert(digits_value(next) > u32::MAX);
            return None;
        }
        value = value * 10 + d;
        i += 1;
        assert forall|k: int| 0 <= k < next.len() implies is_digit(#[trigger] next[k]) by {
            if k < seen.len() {
                assert(seen[k] == next[k]);
            }
        }
    }
    assert(digits.take(i - start) =~= digits);
    Some(value)
}

} // verus!
