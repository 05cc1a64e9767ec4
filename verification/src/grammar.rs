//! The pieces that the command grammars are made of: blanks, words, names,
//! numbers and keywords, each read from a position in a line of text.

use crate::text::{chars_of, decimal_value, is_digit};
use vstd::prelude::*;

verus! {

/// Whether a character is a letter or a numeral of any script.
pub uninterp spec fn is_alphanumeric(c: char) -> bool;

/// Whether a character is a letter or a numeral of any script. The body calls
/// `char::is_alphanumeric` of the standard library; nothing is claimed of
/// which characters those are.
#[verifier::external_body]
fn char_is_alphanumeric(c: char) -> (yes: bool)
    ensures
        yes == is_alphanumeric(c),
{
    c.is_alphanumeric()
}

/// The line does not follow the grammar.
#[derive(Clone, Copy, Debug, PartialEq, Eq, Structural)]
pub struct SyntaxError {}

/// A space or a tabulation.
pub open spec fn is_blank(c: char) -> bool {
    c == ' ' || c == '\t'
}

/// A blank, a carriage return or a line feed.
pub open spec fn is_space(c: char) -> bool {
    is_blank(c) || c == '\r' || c == '\n'
}

/// A character of a part number: alphanumeric, or one of `.`, `-` and `_`.
pub open spec fn is_word_char(c: char) -> bool {
    is_alphanumeric(c) || c == '.' || c == '-' || c == '_'
}

/// Where the blanks that start at `from` end.
pub open spec fn blanks_end(s: Seq<char>, from: int) -> int
    decreases s.len() - from,
{
    if 0 <= from < s.len() && is_blank(s[from]) {
        blanks_end(s, from + 1)
    } else {
        from
    }
}

/// Where the white space that starts at `from` ends.
pub open spec fn spaces_end(s: Seq<char>, from: int) -> int
    decreases s.len() - from,
{
    if 0 <= from < s.len() && is_space(s[from]) {
        spaces_end(s, from + 1)
    } else {
        from
    }
}

/// Where the word that starts at `from` ends.
pub open spec fn word_end(s: Seq<char>, from: int) -> int
    decreases s.len() - from,
{
    if 0 <= from < s.len() && is_word_char(s[from]) {
        word_end(s, from + 1)
    } else {
        from
    }
}

/// Where the digits that start at `from` end.
pub open spec fn digits_end(s: Seq<char>, from: int) -> int
    decreases s.len() - from,
{
    if 0 <= from < s.len() && is_digit(s[from]) {
        digits_end(s, from + 1)
    } else {
        from
    }
}

/// The position of the first double quote at or after `from`; the length of
/// the text where there is none.
pub open spec fn quote_at(s: Seq<char>, from: int) -> int
    decreases s.len() - from,
{
    if 0 <= from < s.len() && s[from] != '"' {
        quote_at(s, from + 1)
    } else {
        from
    }
}

/// Where the keyword ends if it stands at `from`.
pub open spec fn keyword_at(s: Seq<char>, from: int, keyword: Seq<char>) -> Option<int> {
    if 0 <= from && from + keyword.len() <= s.len() && s.subrange(from, from + keyword.len())
        == keyword {
        Some(from + keyword.len())
    } else {
        None
    }
}

/// The word that stands at `from`, one character at least, and where it ends.
pub open spec fn word_at(s: Seq<char>, from: int) -> Option<(Seq<char>, int)> {
    let end = word_end(s, from);
    if end > from {
        Some((s.subrange(from, end), end))
    } else {
        None
    }
}

/// The name that stands at `from` and where it ends: what two double quotes
/// enclose, or else a word.
pub open spec fn name_at(s: Seq<char>, from: int) -> Option<(Seq<char>, int)> {
    if 0 <= from < s.len() && s[from] == '"' && quote_at(s, from + 1) < s.len() {
        Some((s.subrange(from + 1, quote_at(s, from + 1)), quote_at(s, from + 1) + 1))
    } else {
        word_at(s, from)
    }
}

/// The number that stands at `from` and where it ends: one digit at least,
/// and a value of `max` at most.
pub open spec fn number_at(s: Seq<char>, from: int, max: nat) -> Option<(nat, int)> {
    let end = digits_end(s, from);
    if end > from && decimal_value(s.subrange(from, end)) <= max {
        Some((decimal_value(s.subrange(from, end)), end))
    } else {
        None
    }
}

/// Where a parameter starts that is set off from `from` by one blank at
/// least.
pub open spec fn after_blanks(s: Seq<char>, from: int) -> Option<int> {
    if blanks_end(s, from) > from {
        Some(blanks_end(s, from))
    } else {
        None
    }
}

/// Whether only white space follows `from`.
pub open spec fn ends_at(s: Seq<char>, from: int) -> bool {
    spaces_end(s, from) == s.len()
}

/// Where the blanks that start at `from` end.
pub fn skip_blanks(chars: &Vec<char>, from: usize) -> (end: usize)
    requires
        from <= chars@.len(),
    ensures
        end == blanks_end(chars@, from as int),
        from <= end <= chars@.len(),
{
    let mut i = from;
    while i < chars.len() && (chars[i] == ' ' || chars[i] == '\t')
        invariant
            from <= i <= chars@.len(),
            blanks_end(chars@, i as int) == blanks_end(chars@, from as int),
        decreases chars@.len() - i,
    {
        i += 1;
    }
    i
}

/// Where the white space that starts at `from` ends.
pub fn skip_spaces(chars: &Vec<char>, from: usize) -> (end: usize)
    requires
        from <= chars@.len(),
    ensures
        end == spaces_end(chars@, from as int),
        from <= end <= chars@.len(),
{
    let mut i = from;
    while i < chars.len() && (chars[i] == ' ' || chars[i] == '\t' || chars[i] == '\r' || chars[i]
        == '\n')
        invariant
            from <= i <= chars@.len(),
            spaces_end(chars@, i as int) == spaces_end(chars@, from as int),
        decreases chars@.len() - i,
    {
        i += 1;
    }
    i
}

fn in_word(c: char) -> (yes: bool)
    ensures
        yes == is_word_char(c),
{
    char_is_alphanumeric(c) || c == '.' || c == '-' || c == '_'
}

/// Where the word that starts at `from` ends.
pub fn skip_word(chars: &Vec<char>, from: usize) -> (end: usize)
    requires
        from <= chars@.len(),
    ensures
        end == word_end(chars@, from as int),
        from <= end <= chars@.len(),
{
    let mut i = from;
    while i < chars.len() && in_word(chars[i])
        invariant
            from <= i <= chars@.len(),
            word_end(chars@, i as int) == word_end(chars@, from as int),
        decreases chars@.len() - i,
    {
        i += 1;
    }
    i
}

fn digit_of(c: char) -> (d: Option<u64>)
    ensures
        match d {
            Some(d) => is_digit(c) && d == crate::text::digit_value(c),
            None => !is_digit(c),
        },
{
    let code = c as u32;
    if 48 <= code && code <= 57 {
        Some((code - 48) as u64)
    } else {
        None
    }
}

/// The position of the first double quote at or after `from`.
pub fn find_quote(chars: &Vec<char>, from: usize) -> (end: usize)
    requires
        from <= chars@.len(),
    ensures
        end == quote_at(chars@, from as int),
        from <= end <= chars@.len(),
{
    let mut i = from;
    while i < chars.len() && chars[i] != '"'
        invariant
            from <= i <= chars@.len(),
            quote_at(chars@, i as int) == quote_at(chars@, from as int),
        decreases chars@.len() - i,
    {
        i += 1;
    }
    i
}

/// Reads a keyword.
pub fn read_keyword(chars: &Vec<char>, from: usize, keyword: &str) -> (end: Option<usize>)
    requires
        from <= chars@.len(),
    ensures
        end matches Some(e) ==> from <= e <= chars@.len(),
        match end {
            Some(e) => keyword_at(chars@, from as int, keyword@) == Some(e as int),
            None => keyword_at(chars@, from as int, keyword@) is None,
        },
{
    let wanted = chars_of(keyword);
    let total = chars.len();
    if wanted.len() > total - from {
        return None;
    }
    let mut k: usize = 0;
    while k < wanted.len()
        invariant
            k <= wanted@.len(),
            total == chars@.len(),
            from + wanted@.len() <= chars@.len(),
            wanted@ == keyword@,
            forall|j: int| 0 <= j < k ==> chars@[from + j] == wanted@[j],
        decreases wanted@.len() - k,
    {
        if chars[from + k] != wanted[k] {
            assert(chars@.subrange(from as int, from + wanted@.len())[k as int] != wanted@[k as int]);
            return None;
        }
        k += 1;
    }
    assert(chars@.subrange(from as int, from + wanted@.len()) =~= wanted@);
    Some(from + wanted.len())
}

/// Reads a number of `max` at most.
pub fn read_number(chars: &Vec<char>, from: usize, max: u64) -> (r: Option<(u64, usize)>)
    requires
        from <= chars@.len(),
    ensures
        r matches Some((_, end)) ==> from < end <= chars@.len(),
        match r {
            Some((n, end)) => number_at(chars@, from as int, max as nat) == Some(
                (n as nat, end as int),
            ),
            None => number_at(chars@, from as int, max as nat) is None,
        },
{
    let mut n: u64 = 0;
    let mut i: usize = from;
    let mut fits = true;
    assert(chars@.subrange(from as int, i as int) =~= Seq::<char>::empty());
    loop
        invariant_except_break
            from <= i <= chars@.len(),
            digits_end(chars@, i as int) == digits_end(chars@, from as int),
            fits ==> n == decimal_value(chars@.subrange(from as int, i as int)) && n <= max,
            !fits ==> decimal_value(chars@.subrange(from as int, i as int)) > max,
        ensures
            from <= i <= chars@.len(),
            i == digits_end(chars@, from as int),
            fits ==> n == decimal_value(chars@.subrange(from as int, i as int)) && n <= max,
            !fits ==> decimal_value(chars@.subrange(from as int, i as int)) > max,
        decreases chars@.len() - i,
    {
        if i >= chars.len() {
            break ;
        }
        let d = match digit_of(chars[i]) {
            Some(d) => d,
            None => {
                break ;
            },
        };
        proof {
            let upto = chars@.subrange(from as int, i + 1);
            assert(upto.drop_last() =~= chars@.subrange(from as int, i as int));
            assert(upto.last() == chars@[i as int]);
        }
        if fits && d <= max && n <= (max - d) / 10 {
            n = n * 10 + d;
        } else {
            fits = false;
        }
        i += 1;
    }
    if i > from && fits {
        Some((n, i))
    } else {
        None
    }
}

/// Reads a word: a part number.
pub fn read_word(chars: &Vec<char>, from: usize) -> (end: Option<usize>)
    requires
        from <= chars@.len(),
    ensures
        end matches Some(e) ==> from < e <= chars@.len(),
        match end {
            Some(e) => word_at(chars@, from as int) == Some(
                (chars@.subrange(from as int, e as int), e as int),
            ),
            None => word_at(chars@, from as int) is None,
        },
{
    let end = skip_word(chars, from);
    if end > from {
        Some(end)
    } else {
        None
    }
}

/// Reads a name: where it starts, where it ends and where reading goes on.
pub fn read_name(chars: &Vec<char>, from: usize) -> (r: Option<(usize, usize, usize)>)
    requires
        from <= chars@.len(),
    ensures
        r matches Some((start, end, next)) ==> from <= start <= end <= next <= chars@.len(),
        match r {
            Some((start, end, next)) => name_at(chars@, from as int) == Some(
                (chars@.subrange(start as int, end as int), next as int),
            ),
            None => name_at(chars@, from as int) is None,
        },
{
    if from < chars.len() && chars[from] == '"' {
        let close = find_quote(chars, from + 1);
        if close < chars.len() {
            return Some((from + 1, close, close + 1));
        }
    }
    match read_word(chars, from) {
        Some(end) => Some((from, end, end)),
        None => None,
    }
}

/// Reads the blanks that set a parameter off.
pub fn read_blanks(chars: &Vec<char>, from: usize) -> (end: Option<usize>)
    requires
        from <= chars@.len(),
    ensures
        end matches Some(e) ==> from < e <= chars@.len(),
        match end {
            Some(e) => after_blanks(chars@, from as int) == Some(e as int),
            None => after_blanks(chars@, from as int) is None,
        },
{
    let end = skip_blanks(chars, from);
    if end > from {
        Some(end)
    } else {
        None
    }
}

/// Whether only white space follows.
pub fn at_end(chars: &Vec<char>, from: usize) -> (yes: bool)
    requires
        from <= chars@.len(),
    ensures
        yes == ends_at(chars@, from as int),
{
    skip_spaces(chars, from) == chars.len()
}

/// Reads a part number from the start of the input: the part number and
/// what follows it.
pub fn pn(input: &str) -> (r: Result<(&str, &str), SyntaxError>)
    ensures
        match r {
            Ok((rest, word)) => {
                &&& word_end(input@, 0) > 0
                &&& word@ == input@.subrange(0, word_end(input@, 0))
                &&& rest@ == input@.subrange(word_end(input@, 0), input@.len() as int)
            },
            Err(_) => word_end(input@, 0) == 0,
        },
{
    let chars = chars_of(input);
    let end = skip_word(&chars, 0);
    if end > 0 {
        Ok((input.substring_char(end, chars.len()), input.substring_char(0, end)))
    } else {
        Err(SyntaxError {  })
    }
}

/// Reads a name from the start of the input: the name, without its quotes,
/// and what follows it.
pub fn name(input: &str) -> (r: Result<(&str, &str), SyntaxError>)
    ensures
        match r {
            Ok((rest, name)) => {
                &&& name_at(input@, 0) matches Some((parsed, next))
                &&& name@ == parsed
                &&& rest@ == input@.subrange(next, input@.len() as int)
            },
            Err(_) => name_at(input@, 0) is None,
        },
{
    let chars = chars_of(input);
    match read_name(&chars, 0) {
        Some((start, end, next)) => Ok(
            (input.substring_char(next, chars.len()), input.substring_char(start, end)),
        ),
        None => Err(SyntaxError {  }),
    }
}

/// The first of two readings that succeeds.
pub open spec fn or_else<T>(first: Option<T>, second: Option<T>) -> Option<T> {
    if first is Some {
        first
    } else {
        second
    }
}

/// Where a command word ends that stands at `from`, after any blanks.
pub open spec fn command_word_at(s: Seq<char>, from: int, keyword: Seq<char>) -> Option<int> {
    keyword_at(s, blanks_end(s, from), keyword)
}

/// The part number that follows `from` as a parameter.
pub open spec fn word_param_at(s: Seq<char>, from: int) -> Option<(Seq<char>, int)> {
    match after_blanks(s, from) {
        Some(start) => word_at(s, start),
        None => None,
    }
}

/// The name that follows `from` as a parameter.
pub open spec fn name_param_at(s: Seq<char>, from: int) -> Option<(Seq<char>, int)> {
    match after_blanks(s, from) {
        Some(start) => name_at(s, start),
        None => None,
    }
}

/// The identifier that follows `from` as a parameter.
pub open spec fn id_param_at(s: Seq<char>, from: int) -> Option<(nat, int)> {
    match after_blanks(s, from) {
        Some(start) => number_at(s, start, i64::MAX as nat),
        None => None,
    }
}

/// The quantity that follows `from` as a parameter.
pub open spec fn quantity_param_at(s: Seq<char>, from: int) -> Option<(nat, int)> {
    match after_blanks(s, from) {
        Some(start) => number_at(s, start, usize::MAX as nat),
        None => None,
    }
}

/// Reads a command word, after any blanks.
pub fn command_word(chars: &Vec<char>, from: usize, keyword: &str) -> (end: Option<usize>)
    requires
        from <= chars@.len(),
    ensures
        end matches Some(e) ==> from <= e <= chars@.len(),
        match end {
            Some(e) => command_word_at(chars@, from as int, keyword@) == Some(e as int),
            None => command_word_at(chars@, from as int, keyword@) is None,
        },
{
    let start = skip_blanks(chars, from);
    read_keyword(chars, start, keyword)
}

/// Reads a part number as a parameter.
pub fn word_param(chars: &Vec<char>, input: &str, from: usize) -> (r: Option<(String, usize)>)
    requires
        chars@ == input@,
        from <= chars@.len(),
    ensures
        r matches Some((_, end)) ==> from < end <= chars@.len(),
        match r {
            Some((word, end)) => word_param_at(chars@, from as int) == Some((word@, end as int)),
            None => word_param_at(chars@, from as int) is None,
        },
{
    let start = match read_blanks(chars, from) {
        Some(start) => start,
        None => {
            return None;
        },
    };
    match read_word(chars, start) {
        Some(end) => Some((input.substring_char(start, end).to_owned(), end)),
        None => None,
    }
}

/// Reads a name as a parameter.
pub fn name_param(chars: &Vec<char>, input: &str, from: usize) -> (r: Option<(String, usize)>)
    requires
        chars@ == input@,
        from <= chars@.len(),
    ensures
        r matches Some((_, end)) ==> from < end <= chars@.len(),
        match r {
            Some((name, end)) => name_param_at(chars@, from as int) == Some((name@, end as int)),
            None => name_param_at(chars@, from as int) is None,
        },
{
    let start = match read_blanks(chars, from) {
        Some(start) => start,
        None => {
            return None;
        },
    };
    match read_name(chars, start) {
        Some((first, last, next)) => Some((input.substring_char(first, last).to_owned(), next)),
        None => None,
    }
}

/// Reads an identifier as a parameter.
pub fn id_param(chars: &Vec<char>, from: usize) -> (r: Option<(i64, usize)>)
    requires
        from <= chars@.len(),
    ensures
        r matches Some((id, end)) ==> from < end <= chars@.len() && id >= 0,
        match r {
            Some((id, end)) => id_param_at(chars@, from as int) == Some((id as nat, end as int)),
            None => id_param_at(chars@, from as int) is None,
        },
{
    let start = match read_blanks(chars, from) {
        Some(start) => start,
        None => {
            return None;
        },
    };
    match read_number(chars, start, 0x7fff_ffff_ffff_ffff) {
        Some((n, end)) => Some((n as i64, end)),
        None => None,
    }
}

/// Reads a quantity as a parameter.
pub fn quantity_param(chars: &Vec<char>, from: usize) -> (r: Option<(usize, usize)>)
    requires
        from <= chars@.len(),
    ensures
        r matches Some((_, end)) ==> from < end <= chars@.len(),
        match r {
            Some((quantity, end)) => quantity_param_at(chars@, from as int) == Some(
                (quantity as nat, end as int),
            ),
            None => quantity_param_at(chars@, from as int) is None,
        },
{
    let start = match read_blanks(chars, from) {
        Some(start) => start,
        None => {
            return None;
        },
    };
    match read_number(chars, start, usize::MAX as u64) {
        Some((n, end)) => Some((n as usize, end)),
        None => None,
    }
}

} // verus!
