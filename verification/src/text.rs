//! Characters and strings: the few operations on text that the catalog and the
//! command grammars share.

use vstd::prelude::*;

verus! {

/// The characters of a string slice, in order.
pub fn chars_of(s: &str) -> (v: Vec<char>)
    ensures
        v@ == s@,
{
    let mut v: Vec<char> = Vec::new();
    for c in it: s.chars()
        invariant
            it.seq() == s@,
            v@ == s@.subrange(0, it.index() as int),
    {
        v.push(c);
    }
    v
}

/// Whether two string slices hold the same characters.
pub fn same_text(a: &str, b: &str) -> (same: bool)
    ensures
        same == (a@ == b@),
{
    let a_owned = a.to_owned();
    let b_owned = b.to_owned();
    a_owned == b_owned
}

/// Whether a character is one of the ten decimal digits.
pub open spec fn is_digit(c: char) -> bool {
    48 <= c as u32 <= 57
}

/// The number that a decimal digit stands for.
pub open spec fn digit_value(c: char) -> nat {
    (c as u32 - 48) as nat
}

/// The decimal digit that stands for a number below ten.
pub open spec fn digit_char(d: nat) -> char {
    if d == 0 {
        '0'
    } else if d == 1 {
        '1'
    } else if d == 2 {
        '2'
    } else if d == 3 {
        '3'
    } else if d == 4 {
        '4'
    } else if d == 5 {
        '5'
    } else if d == 6 {
        '6'
    } else if d == 7 {
        '7'
    } else if d == 8 {
        '8'
    } else {
        '9'
    }
}

/// Whether every character is a decimal digit.
pub open spec fn all_digits(text: Seq<char>) -> bool {
    forall|i: int| 0 <= i < text.len() ==> is_digit(#[trigger] text[i])
}

/// The number that a sequence of decimal digits writes.
pub open spec fn decimal_value(digits: Seq<char>) -> nat
    decreases digits.len(),
{
    if digits.len() == 0 {
        0
    } else {
        decimal_value(digits.drop_last()) * 10 + digit_value(digits.last())
    }
}

/// The decimal digits that write a number, without leading zeros.
pub open spec fn decimal_digits(n: nat) -> Seq<char>
    decreases n,
{
    if n < 10 {
        seq![digit_char(n)]
    } else {
        decimal_digits(n / 10).push(digit_char(n % 10))
    }
}

/// A number in decimal, with zeros in front up to the given width.
pub open spec fn zero_padded(n: nat, width: nat) -> Seq<char> {
    let digits = decimal_digits(n);
    if digits.len() >= width {
        digits
    } else {
        zeros((width - digits.len()) as nat) + digits
    }
}

/// As many zero digits as asked for.
pub open spec fn zeros(count: nat) -> Seq<char> {
    Seq::new(count, |i: int| '0')
}

/// The digits of a counter as it is stored: what follows an optional plus
/// sign.
pub open spec fn counter_digits(text: Seq<char>) -> Seq<char> {
    if text.len() > 0 && text[0] == '+' {
        text.subrange(1, text.len() as int)
    } else {
        text
    }
}

/// The number that a stored counter stands for: the value of its digits where
/// it is a decimal number, with or without a plus sign, that fits the machine
/// word; zero for any other text.
pub open spec fn counter_value(text: Seq<char>) -> nat {
    let digits = counter_digits(text);
    if digits.len() > 0 && all_digits(digits) && decimal_value(digits) <= usize::MAX {
        decimal_value(digits)
    } else {
        0
    }
}

/// A longer sequence of digits writes no smaller number than its beginning.
proof fn lemma_decimal_value_grows(digits: Seq<char>, k: int)
    requires
        0 <= k <= digits.len(),
    ensures
        decimal_value(digits.take(k)) <= decimal_value(digits),
    decreases digits.len() - k,
{
    if k == digits.len() {
        assert(digits.take(k) =~= digits);
    } else {
        lemma_decimal_value_grows(digits.drop_last(), k);
        assert(digits.drop_last().take(k) =~= digits.take(k));
    }
}

/// Reads a stored counter.
pub fn counter_of(text: &str) -> (n: usize)
    ensures
        n == counter_value(text@),
{
    let chars = chars_of(text);
    let start: usize = if chars.len() > 0 && chars[0] == '+' {
        1
    } else {
        0
    };
    let ghost digits = counter_digits(text@);
    assert(digits =~= chars@.subrange(start as int, chars@.len() as int));
    if start == chars.len() {
        return 0;
    }
    let mut n: usize = 0;
    let mut i: usize = start;
    assert(chars@.subrange(start as int, i as int) =~= Seq::<char>::empty());
    while i < chars.len()
        invariant
            start <= i <= chars@.len(),
            digits == chars@.subrange(start as int, chars@.len() as int),
            digits == counter_digits(text@),
            digits.len() > 0,
            all_digits(chars@.subrange(start as int, i as int)),
            n == decimal_value(chars@.subrange(start as int, i as int)),
        decreases chars@.len() - i,
    {
        let c = chars[i];
        let code = c as u32;
        if code < 48 || code > 57 {
            assert(!is_digit(digits[i - start]));
            return 0;
        }
        let d = (code - 48) as usize;
        let ghost upto = chars@.subrange(start as int, i + 1);
        proof {
            assert(upto.drop_last() =~= chars@.subrange(start as int, i as int));
            assert(upto.last() == c);
            assert(upto =~= digits.take(i + 1 - start));
            lemma_decimal_value_grows(digits, i + 1 - start);
        }
        if n > (usize::MAX - d) / 10 {
            assert(decimal_value(upto) > usize::MAX);
            return 0;
        }
        n = n * 10 + d;
        i += 1;
        assert forall|k: int| 0 <= k < upto.len() implies is_digit(#[trigger] upto[k]) by {
            if k < upto.len() - 1 {
                assert(upto[k] == chars@.subrange(start as int, i - 1)[k]);
            }
        }
    }
    assert(chars@.subrange(start as int, i as int) =~= digits);
    n
}

/// The text of a decimal digit.
fn digit_text(d: usize) -> (text: &'static str)
    requires
        d < 10,
    ensures
        text@ == seq![digit_char(d as nat)],
{
    proof {
        reveal_strlit("0");
        reveal_strlit("1");
        reveal_strlit("2");
        reveal_strlit("3");
        reveal_strlit("4");
        reveal_strlit("5");
        reveal_strlit("6");
        reveal_strlit("7");
        reveal_strlit("8");
        reveal_strlit("9");
    }
    let text = if d == 0 {
        "0"
    } else if d == 1 {
        "1"
    } else if d == 2 {
        "2"
    } else if d == 3 {
        "3"
    } else if d == 4 {
        "4"
    } else if d == 5 {
        "5"
    } else if d == 6 {
        "6"
    } else if d == 7 {
        "7"
    } else if d == 8 {
        "8"
    } else {
        "9"
    };
    assert(text@ =~= seq![digit_char(d as nat)]);
    text
}

/// Writes a number in decimal, with zeros in front up to the given width.
pub fn zero_padded_text(n: u64, width: usize) -> (text: String)
    ensures
        text@ == zero_padded(n as nat, width as nat),
{
    // The digits, the last one first.
    let mut backwards: Vec<usize> = Vec::new();
    let mut rest: u64 = n;
    let ghost mut tail: Seq<char> = Seq::empty();
    loop
        invariant_except_break
            backwards@.len() == tail.len(),
            forall|k: int|
                0 <= k < tail.len() ==> (#[trigger] backwards@[k]) < 10 && digit_char(
                    backwards@[k] as nat,
                ) == tail[tail.len() - 1 - k],
            decimal_digits(n as nat) == decimal_digits(rest as nat) + tail,
        ensures
            backwards@.len() == tail.len(),
            tail.len() > 0,
            forall|k: int|
                0 <= k < tail.len() ==> (#[trigger] backwards@[k]) < 10 && digit_char(
                    backwards@[k] as nat,
                ) == tail[tail.len() - 1 - k],
            decimal_digits(n as nat) == tail,
        decreases rest,
    {
        let d = (rest % 10) as usize;
        let ghost before = tail;
        let ghost digits_before = backwards@;
        backwards.push(d);
        proof {
            tail = seq![digit_char(d as nat)] + before;
            assert forall|k: int| 0 <= k < tail.len() implies (#[trigger] backwards@[k]) < 10
                && digit_char(backwards@[k] as nat) == tail[tail.len() - 1 - k] by {
                if k < before.len() {
                    assert(backwards@[k] == digits_before[k]);
                }
            }
        }
        if rest < 10 {
            assert(decimal_digits(n as nat) =~= tail);
            break ;
        }
        proof {
            assert(decimal_digits(rest as nat) == decimal_digits((rest / 10) as nat).push(
                digit_char(d as nat),
            ));
            assert(decimal_digits(n as nat) =~= decimal_digits((rest / 10) as nat) + tail);
        }
        rest = rest / 10;
    }
    let mut text = String::new();
    let count = backwards.len();
    let mut written: usize = 0;
    let missing: usize = if count >= width {
        0
    } else {
        width - count
    };
    proof {
        reveal_strlit("0");
    }
    assert(text@ =~= zeros(0));
    while written < missing
        invariant
            written <= missing,
            text@ == zeros(written as nat),
            "0"@ == seq!['0'],
        decreases missing - written,
    {
        text.append("0");
        written += 1;
        assert(text@ =~= zeros(written as nat));
    }
    let ghost padding = text@;
    let mut k: usize = count;
    while k > 0
        invariant
            k <= count,
            count == tail.len(),
            backwards@.len() == count,
            forall|j: int|
                0 <= j < tail.len() ==> (#[trigger] backwards@[j]) < 10 && digit_char(
                    backwards@[j] as nat,
                ) == tail[tail.len() - 1 - j],
            text@ == padding + tail.take(count - k),
        decreases k,
    {
        k -= 1;
        text.append(digit_text(backwards[k]));
        assert(text@ =~= padding + tail.take(count - k));
    }
    assert(tail.take(count as int) =~= tail);
    assert(text@ =~= zero_padded(n as nat, width as nat));
    text
}

/// A whole number in decimal, with a minus sign in front where it is
/// negative.
pub open spec fn int_digits(n: int) -> Seq<char> {
    if n < 0 {
        seq!['-'] + decimal_digits((-n) as nat)
    } else {
        decimal_digits(n as nat)
    }
}

/// Writes a whole number in decimal.
pub fn int_text(n: i64) -> (text: String)
    ensures
        text@ == int_digits(n as int),
{
    if n < 0 {
        let magnitude: u64 = (-(n + 1)) as u64 + 1;
        let digits = zero_padded_text(magnitude, 0);
        let mut text = String::new();
        proof {
            reveal_strlit("-");
        }
        text.append("-");
        text.append(digits.as_str());
        assert(text@ =~= seq!['-'] + decimal_digits((-n) as nat));
        text
    } else {
        zero_padded_text(n as u64, 0)
    }
}

/// Writes a count in decimal.
pub fn count_text(n: usize) -> (text: String)
    ensures
        text@ == decimal_digits(n as nat),
{
    zero_padded_text(n as u64, 0)
}

/// The position of the first line feed at or after `from`; the length of the
/// text where there is none.
pub open spec fn line_end(text: Seq<char>, from: int) -> int
    decreases text.len() - from,
{
    if 0 <= from < text.len() && text[from] != '\n' {
        line_end(text, from + 1)
    } else {
        from
    }
}

/// The lines of a text from position `from` on. A line ends at a line feed,
/// or at a carriage return followed by a line feed; neither belongs to the
/// line. The last line need not end so.
pub open spec fn lines_from(text: Seq<char>, from: int) -> Seq<Seq<char>>
    decreases text.len() - from,
{
    if from < 0 || from >= text.len() {
        Seq::empty()
    } else {
        proof {
            lemma_line_end_bounds(text, from);
        }
        let end = line_end(text, from);
        if end < text.len() {
            let stop = if end > from && text[end - 1] == '\r' {
                end - 1
            } else {
                end
            };
            seq![text.subrange(from, stop)] + lines_from(text, end + 1)
        } else {
            seq![text.subrange(from, end)]
        }
    }
}

/// The lines of a text.
pub open spec fn lines_of(text: Seq<char>) -> Seq<Seq<char>> {
    lines_from(text, 0)
}

/// What lines are, as plain values.
pub open spec fn texts(lines: Seq<String>) -> Seq<Seq<char>> {
    lines.map_values(|line: String| line@)
}

/// A line ends at or after the place where it starts, within the text.
pub proof fn lemma_line_end_bounds(text: Seq<char>, from: int)
    requires
        0 <= from <= text.len(),
    ensures
        from <= line_end(text, from) <= text.len(),
    decreases text.len() - from,
{
    if from < text.len() && text[from] != '\n' {
        lemma_line_end_bounds(text, from + 1);
    }
}

/// Splits a text into its lines.
pub fn split_lines(text: &str) -> (lines: Vec<String>)
    ensures
        texts(lines@) == lines_of(text@),
{
    let chars = chars_of(text);
    let total = chars.len();
    let mut lines: Vec<String> = Vec::new();
    let mut from: usize = 0;
    assert(texts(lines@) =~= Seq::<Seq<char>>::empty());
    while from < total
        invariant
            from <= total,
            total == chars@.len(),
            chars@ == text@,
            texts(lines@) + lines_from(text@, from as int) == lines_of(text@),
        decreases total - from,
    {
        let mut end = from;
        while end < total && chars[end] != '\n'
            invariant
                from <= end <= total,
                total == chars@.len(),
                chars@ == text@,
                line_end(text@, end as int) == line_end(text@, from as int),
            decreases total - end,
        {
            end += 1;
        }
        let ghost before = lines@;
        if end < total {
            let stop = if end > from && chars[end - 1] == '\r' {
                end - 1
            } else {
                end
            };
            lines.push(text.substring_char(from, stop).to_owned());
            proof {
                assert(texts(lines@) =~= texts(before) + seq![text@.subrange(from as int, stop as int)]);
                assert(texts(lines@) + lines_from(text@, end + 1) =~= texts(before) + lines_from(
                    text@,
                    from as int,
                ));
            }
            from = end + 1;
        } else {
            lines.push(text.substring_char(from, end).to_owned());
            proof {
                assert(texts(lines@) =~= texts(before) + seq![text@.subrange(from as int, end as int)]);
                assert(texts(lines@) + lines_from(text@, total as int) =~= texts(before)
                    + lines_from(text@, from as int));
            }
            from = total;
        }
    }
    assert(texts(lines@) + lines_from(text@, from as int) =~= texts(lines@));
    lines
}

} // verus!
