//! Rendering of output lines: decimal numbers, verse listing lines and the
//! count-report lines.

use crate::chars::push_char;
use vstd::prelude::*;
use vstd::string::StringExecFns;

verus! {

/// The decimal digit character for `d`.
pub open spec fn digit_char(d: nat) -> char {
    if d == 0 {
        '0'
    } else if d == 1 {
        '1'
    } else if d == 2 {
        '2'
    } else if d == 3 {
        '3'
    } else if d == 4 {
        '4'
    } else if d == 5 {
        '5'
    } else if d == 6 {
        '6'
    } else if d == 7 {
        '7'
    } else if d == 8 {
        '8'
    } else {
        '9'
    }
}

/// The decimal digits of `n`, most significant first, without leading zeros
/// (a single `'0'` for zero).
pub open spec fn dec_digits(n: nat) -> Seq<char>
    decreases n,
{
    if n < 10 {
        seq![digit_char(n)]
    } else {
        dec_digits(n / 10).push(digit_char(n % 10))
    }
}

/// The digit character for `d`.
fn digit(d: u64) -> (c: char)
    requires
        d < 10,
    ensures
        c == digit_char(d as nat),
{
    if d == 0 {
        '0'
    } else if d == 1 {
        '1'
    } else if d == 2 {
        '2'
    } else if d == 3 {
        '3'
    } else if d == 4 {
        '4'
    } else if d == 5 {
        '5'
    } else if d == 6 {
        '6'
    } else if d == 7 {
        '7'
    } else if d == 8 {
        '8'
    } else {
        '9'
    }
}

/// Append the decimal digits of `n` to `s`.
pub fn push_dec(s: &mut String, n: u64)
    ensures
        final(s)@ == old(s)@ + dec_digits(n as nat),
    decreases n,
{
    if n < 10 {
        push_char(s, digit(n));
    } else {
        push_dec(s, n / 10);
        push_char(s, digit(n % 10));
    }
}

/// One listing line: `"<name> <chapter>:<verse> <text>"`.
pub open spec fn spec_verse_line(
    name: Seq<char>,
    chapter: nat,
    verse: nat,
    text: Seq<char>,
) -> Seq<char> {
    name + seq![' '] + dec_digits(chapter) + seq![':'] + dec_digits(verse) + seq![' '] + text
}

/// Render one listing line.
pub fn verse_line(name: &str, chapter: u64, verse: u64, text: &str) -> (r: String)
    ensures
        r@ == spec_verse_line(name@, chapter as nat, verse as nat, text@),
{
    let mut s = String::new();
    s.append(name);
    push_char(&mut s, ' ');
    push_dec(&mut s, chapter);
    push_char(&mut s, ':');
    push_dec(&mut s, verse);
    push_char(&mut s, ' ');
    s.append(text);
    proof {
        assert(s@ =~= spec_verse_line(name@, chapter as nat, verse as nat, text@));
    }
    s
}

/// The parenthesised word-count suffix of the word-count submode:
/// `" (word count: <n>)"`.
pub open spec fn spec_word_count_part(words: nat) -> Seq<char> {
    " (word count: "@ + dec_digits(words) + seq![')']
}

/// One report line for a chapter: `"<name> <chapter>: <verses>"`, with the
/// word-count suffix in the word-count submode.
pub open spec fn spec_count_line(
    name: Seq<char>,
    chapter: nat,
    verses: nat,
    words: Option<nat>,
) -> Seq<char> {
    let base = name + seq![' '] + dec_digits(chapter) + seq![':', ' '] + dec_digits(verses);
    match words {
        Some(w) => base + spec_word_count_part(w),
        None => base,
    }
}

/// The final report line: `"Total: <verses>"`, with the word-count suffix in
/// the word-count submode.
pub open spec fn spec_total_line(verses: nat, words: Option<nat>) -> Seq<char> {
    let base = "Total: "@ + dec_digits(verses);
    match words {
        Some(w) => base + spec_word_count_part(w),
        None => base,
    }
}

/// Append the word-count suffix.
fn push_word_count(s: &mut String, words: u64)
    ensures
        final(s)@ == old(s)@ + spec_word_count_part(words as nat),
{
    s.append(" (word count: ");
    push_dec(s, words);
    push_char(s, ')');
    proof {
        assert(s@ =~= old(s)@ + spec_word_count_part(words as nat));
    }
}

/// Render one chapter's report line.
pub fn count_line(name: &str, chapter: u64, verses: u64, words: Option<u64>) -> (r: String)
    ensures
        r@ == spec_count_line(
            name@,
            chapter as nat,
            verses as nat,
            match words {
                Some(w) => Some(w as nat),
                None => None,
            },
        ),
{
    let mut s = String::new();
    s.append(name);
    push_char(&mut s, ' ');
    push_dec(&mut s, chapter);
    push_char(&mut s, ':');
    push_char(&mut s, ' ');
    push_dec(&mut s, verses);
    let ghost base = name@ + seq![' '] + dec_digits(chapter as nat) + seq![':', ' ']
        + dec_digits(verses as nat);
    proof {
        assert(s@ =~= base);
    }
    match words {
        Some(w) => {
            push_word_count(&mut s, w);
        },
        None => {},
    }
    s
}

/// Render the total line.
pub fn total_line(verses: u64, words: Option<u64>) -> (r: String)
    ensures
        r@ == spec_total_line(
            verses as nat,
            match words {
                Some(w) => Some(w as nat),
                None => None,
            },
        ),
{
    let mut s = String::new();
    s.append("Total: ");
    push_dec(&mut s, verses);
    match words {
        Some(w) => {
            push_word_count(&mut s, w);
        },
        None => {},
    }
    s
}

} // verus!
