//! Reading the small pieces of text a player types: blanks, numbers.

use vstd::prelude::*;

verus! {

/// White space: the characters that trimming removes from both ends of a line.
pub open spec fn is_whitespace(c: char) -> bool {
    ||| '\u{9}' <= c <= '\u{d}'
    ||| c == ' '
    ||| c == '\u{85}'
    ||| c == '\u{a0}'
    ||| c == '\u{1680}'
    ||| '\u{2000}' <= c <= '\u{200a}'
    ||| c == '\u{2028}'
    ||| c == '\u{2029}'
    ||| c == '\u{202f}'
    ||| c == '\u{205f}'
    ||| c == '\u{3000}'
}

/// `text` without its leading white space.
pub open spec fn trim_start(text: Seq<char>) -> Seq<char>
    decreases text.len(),
{
    if text.len() > 0 && is_whitespace(text.first()) {
        trim_start(text.drop_first())
    } else {
        text
    }
}

/// `text` without its trailing white space.
pub open spec fn trim_end(text: Seq<char>) -> Seq<char>
    decreases text.len(),
{
    if text.len() > 0 && is_whitespace(text.last()) {
        trim_end(text.drop_last())
    } else {
        text
    }
}

/// `text` without the white space at either end.
pub open spec fn trimmed(text: Seq<char>) -> Seq<char> {
    trim_end(trim_start(text))
}

/// `c` is one of the ten decimal digits.
pub open spec fn is_digit(c: char) -> bool {
    '0' <= c <= '9'
}

/// Every character of `text` is a decimal digit.
pub open spec fn all_digits(text: Seq<char>) -> bool {
    forall|i: int| 0 <= i < text.len() ==> is_digit(#[trigger] text[i])
}

/// The number that the digits of `text` write in base ten.
pub open spec fn decimal(text: Seq<char>) -> nat
    decreases text.len(),
{
    if text.len() == 0 {
        0
    } else {
        (10 * decimal(text.drop_last()) + (text.last() as int - '0' as int)) as nat
    }
}

/// The number that `text` writes: an optional `+`, then one or more decimal
/// digits and nothing else. `None` if `text` has another shape or the number
/// does not fit in `usize`.
pub open spec fn number_of(text: Seq<char>) -> Option<usize> {
    let digits = if text.len() > 0 && text.first() == '+' {
        text.drop_first()
    } else {
        text
    };
    if digits.len() > 0 && all_digits(digits) && decimal(digits) <= usize::MAX {
        Some(decimal(digits) as usize)
    } else {
        None
    }
}

/// Index of the first space of `text` at or after `from`, or the length of
/// `text` if there is none.
pub open spec fn next_space(text: Seq<char>, from: int) -> int
    decreases text.len() - from,
{
    if from < 0 || from >= text.len() {
        text.len() as int
    } else if text[from] == ' ' {
        from
    } else {
        next_space(text, from + 1)
    }
}

/// A number never shrinks when digits are appended to it.
proof fn lemma_decimal_prefix(text: Seq<char>, k: int)
    requires
        all_digits(text),
        0 <= k <= text.len(),
    ensures
        decimal(text.take(k)) <= decimal(text),
    decreases text.len(),
{
    if k < text.len() {
        assert(text.drop_last().take(k) =~= text.take(k));
        assert(is_digit(text.last()));
        lemma_decimal_prefix(text.drop_last(), k);
    } else {
        assert(text.take(k) =~= text);
    }
}

/// The characters of `text`, in order.
pub fn chars_of(text: &str) -> (chars: Vec<char>)
    ensures
        chars@ == text@,
{
    let mut chars: Vec<char> = Vec::new();
    for c in it: text.chars()
        invariant
            it.seq() == text@,
            chars@ == it.seq().take(it.index() as int),
    {
        chars.push(c);
    }
    chars
}

/// Whether `c` is white space.
pub fn is_whitespace_char(c: char) -> (blank: bool)
    ensures
        blank == is_whitespace(c),
{
    (c >= '\u{9}' && c <= '\u{d}') || c == ' ' || c == '\u{85}' || c == '\u{a0}' || c == '\u{1680}'
        || (c >= '\u{2000}' && c <= '\u{200a}') || c == '\u{2028}' || c == '\u{2029}' || c
        == '\u{202f}' || c == '\u{205f}' || c == '\u{3000}'
}

/// Bounds of what is left of `chars[from..to]` when the white space at both
/// of its ends is removed; both bounds are `to` if nothing is left.
pub fn trim_bounds(chars: &Vec<char>, from: usize, to: usize) -> (bounds: (usize, usize))
    requires
        from <= to <= chars.len(),
    ensures
        from <= bounds.0 <= bounds.1 <= to,
        chars@.subrange(bounds.0 as int, bounds.1 as int) == trimmed(
            chars@.subrange(from as int, to as int),
        ),
        bounds.0 == bounds.1 ==> bounds.0 == to,
{
    let mut start = from;
    while start < to && is_whitespace_char(chars[start])
        invariant
            from <= start <= to <= chars.len(),
            trim_start(chars@.subrange(from as int, to as int)) == trim_start(
                chars@.subrange(start as int, to as int),
            ),
        decreases to - start,
    {
        assert(chars@.subrange(start as int, to as int).drop_first() =~= chars@.subrange(
            start + 1,
            to as int,
        ));
        start += 1;
    }
    let mut end = to;
    while start < end && is_whitespace_char(chars[end - 1])
        invariant
            start <= end <= to <= chars.len(),
            start < to ==> start < end && !is_whitespace(chars@[start as int]),
            trim_end(chars@.subrange(start as int, to as int)) == trim_end(
                chars@.subrange(start as int, end as int),
            ),
        decreases end - start,
    {
        assert(chars@.subrange(start as int, end as int).drop_last() =~= chars@.subrange(
            start as int,
            end - 1,
        ));
        end -= 1;
    }
    (start, end)
}

/// The number written by `chars[from..to]`, if it writes one that fits.
#[verifier::loop_isolation(false)]
pub fn parse_number(chars: &Vec<char>, from: usize, to: usize) -> (number: Option<usize>)
    requires
        from <= to <= chars.len(),
    ensures
        number == number_of(chars@.subrange(from as int, to as int)),
{
    let ghost text = chars@.subrange(from as int, to as int);
    let first = if from < to && chars[from] == '+' {
        from + 1
    } else {
        from
    };
    let ghost digits = chars@.subrange(first as int, to as int);
    assert(digits == if text.len() > 0 && text.first() == '+' {
        text.drop_first()
    } else {
        text
    });
    if first == to {
        return None;
    }
    let mut value: usize = 0;
    let mut i = first;
    while i < to
        invariant
            first <= i <= to <= chars.len(),
            digits == chars@.subrange(first as int, to as int),
            all_digits(digits.take(i - first)),
            value == decimal(digits.take(i - first)),
        decreases to - i,
    {
        let c = chars[i];
        if !(c >= '0' && c <= '9') {
            assert(!is_digit(digits[i - first]));
            return None;
        }
        let digit = (c as u32 - '0' as u32) as usize;
        proof {
            assert(digits.take(i - first + 1).drop_last() =~= digits.take(i - first));
            assert(digits.take(i - first + 1).last() == c);
            if all_digits(digits) {
                lemma_decimal_prefix(digits, i - first + 1);
            }
        }
        let scaled = match value.checked_mul(10) {
            Some(scaled) => scaled,
            None => {
                return None;
            },
        };
        value = match scaled.checked_add(digit) {
            Some(sum) => sum,
            None => {
                return None;
            },
        };
        i += 1;
    }
    assert(digits.take(to - first) =~= digits);
    Some(value)
}

/// Index of the first space in `chars` at or after `from`, or the length of
/// `chars` if there is none.
pub fn find_space(chars: &Vec<char>, from: usize) -> (index: usize)
    requires
        from <= chars.len(),
    ensures
        from <= index <= chars.len(),
        index == next_space(chars@, from as int),
{
    let mut index = from;
    while index < chars.len() && chars[index] != ' '
        invariant
            from <= index <= chars.len(),
            next_space(chars@, from as int) == next_space(chars@, index as int),
        decreases chars.len() - index,
    {
        index += 1;
    }
    index
}

} // verus!
