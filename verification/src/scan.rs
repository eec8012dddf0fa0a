//! The character-level rules shared by the QQL lexers: blanks, words,
//! comments, and the line and column of a position.

use vstd::prelude::*;
use crate::text::{is_alnum, is_alpha, all_digits};

verus! {

/// Blanks separate tokens: space, tab and carriage return. A newline is a
/// token of its own.
pub open spec fn is_blank(c: char) -> bool {
    c == ' ' || c == '\t' || c == '\r'
}

/// Characters that continue a word after its first (alphanumeric) one.
pub open spec fn is_word_char(c: char) -> bool {
    is_alnum(c) || c == '.' || c == '_'
}

/// The first position at or after `pos` that is not a blank.
pub open spec fn skip_blanks(s: Seq<char>, pos: int) -> int
    decreases s.len() - pos,
{
    if pos < 0 || pos >= s.len() {
        pos
    } else if is_blank(s[pos]) {
        skip_blanks(s, pos + 1)
    } else {
        pos
    }
}

/// The first position at or after `pos` that does not continue a word.
pub open spec fn word_end(s: Seq<char>, pos: int) -> int
    decreases s.len() - pos,
{
    if pos < 0 || pos >= s.len() {
        pos
    } else if is_word_char(s[pos]) {
        word_end(s, pos + 1)
    } else {
        pos
    }
}

/// The first position at or after `pos` holding a newline, or the end.
pub open spec fn line_end(s: Seq<char>, pos: int) -> int
    decreases s.len() - pos,
{
    if pos < 0 || pos >= s.len() {
        pos
    } else if s[pos] == '\n' {
        pos
    } else {
        line_end(s, pos + 1)
    }
}

/// The line (from 1) on which position `pos` lies.
pub open spec fn line_at(s: Seq<char>, pos: int) -> nat
    decreases pos,
{
    if pos <= 0 {
        1
    } else if s[pos - 1] == '\n' {
        line_at(s, pos - 1) + 1
    } else {
        line_at(s, pos - 1)
    }
}

/// The number of characters before position `pos` on its line.
pub open spec fn col_at(s: Seq<char>, pos: int) -> nat
    decreases pos,
{
    if pos <= 0 {
        0
    } else if s[pos - 1] == '\n' {
        0
    } else {
        col_at(s, pos - 1) + 1
    }
}

/// Units of an interval literal such as `2m` or `10d`.
pub open spec fn is_interval_unit(c: char) -> bool {
    c == 's' || c == 'm' || c == 'h' || c == 'd'
}

/// A date literal: exactly eight digits.
pub open spec fn is_date_word(w: Seq<char>) -> bool {
    w.len() == 8 && all_digits(w)
}

/// An interval: digits followed by one unit letter.
pub open spec fn is_interval_word(w: Seq<char>) -> bool {
    w.len() > 0 && is_alpha(w.last()) && all_digits(w.drop_last()) && is_interval_unit(w.last())
}

pub proof fn lemma_skip_blanks(s: Seq<char>, pos: int)
    requires
        0 <= pos <= s.len(),
    ensures
        pos <= skip_blanks(s, pos) <= s.len(),
        forall|j: int| pos <= j < skip_blanks(s, pos) ==> is_blank(#[trigger] s[j]),
        skip_blanks(s, pos) < s.len() ==> !is_blank(s[skip_blanks(s, pos)]),
    decreases s.len() - pos,
{
    if pos < s.len() && is_blank(s[pos]) {
        lemma_skip_blanks(s, pos + 1);
    }
}

pub proof fn lemma_word_end(s: Seq<char>, pos: int)
    requires
        0 <= pos <= s.len(),
    ensures
        pos <= word_end(s, pos) <= s.len(),
        forall|j: int| pos <= j < word_end(s, pos) ==> is_word_char(#[trigger] s[j]),
        word_end(s, pos) < s.len() ==> !is_word_char(s[word_end(s, pos)]),
    decreases s.len() - pos,
{
    if pos < s.len() && is_word_char(s[pos]) {
        lemma_word_end(s, pos + 1);
    }
}

pub proof fn lemma_line_end(s: Seq<char>, pos: int)
    requires
        0 <= pos <= s.len(),
    ensures
        pos <= line_end(s, pos) <= s.len(),
        forall|j: int| pos <= j < line_end(s, pos) ==> #[trigger] s[j] != '\n',
        line_end(s, pos) < s.len() ==> s[line_end(s, pos)] == '\n',
    decreases s.len() - pos,
{
    if pos < s.len() && s[pos] != '\n' {
        lemma_line_end(s, pos + 1);
    }
}

pub proof fn lemma_line_col_bounds(s: Seq<char>, pos: int)
    requires
        0 <= pos <= s.len(),
    ensures
        1 <= line_at(s, pos) <= pos + 1,
        col_at(s, pos) <= pos,
    decreases pos,
{
    if pos > 0 {
        lemma_line_col_bounds(s, pos - 1);
    }
}

} // verus!
