//! Decimal numerals and fixed-width fields over bytes.
//!
//! Everything the two utilities print is a sequence of bytes. This module
//! holds the few byte-level notions they share: the decimal numeral of a
//! number, the reading of a numeral back into a number, and a field that is
//! right-aligned with spaces.

use vstd::prelude::*;

verus! {

/// The tab that parts a line's number from the line.
pub const TAB: u8 = 9;

/// The byte that ends a printed line.
pub const NEWLINE: u8 = 10;

/// The byte that fills a field on the left.
pub const SPACE: u8 = 32;

/// The plus sign that may stand before a numeral.
pub const PLUS: u8 = 43;

/// The digit zero.
pub const ZERO: u8 = 48;

/// The digit nine.
pub const NINE: u8 = 57;

/// The byte that prints the decimal digit `d`.
pub open spec fn digit(d: nat) -> u8
    recommends
        d < 10,
{
    (ZERO + d) as u8
}

/// Whether `b` prints a decimal digit.
pub open spec fn is_digit(b: u8) -> bool {
    ZERO <= b <= NINE
}

/// Whether every byte of `s` prints a decimal digit.
pub open spec fn all_digits(s: Seq<u8>) -> bool {
    forall|i: int| 0 <= i < s.len() ==> is_digit(#[trigger] s[i])
}

/// The decimal numeral of `n`: no sign, no leading zeros, `"0"` for zero.
pub open spec fn decimal(n: nat) -> Seq<u8>
    decreases n,
{
    if n < 10 {
        seq![digit(n)]
    } else {
        decimal(n / 10).push(digit(n % 10))
    }
}

/// The number that a string of decimal digits denotes; 0 for the empty string.
pub open spec fn digits_value(s: Seq<u8>) -> nat
    recommends
        all_digits(s),
    decreases s.len(),
{
    if s.len() == 0 {
        0
    } else {
        (10 * digits_value(s.drop_last()) + (s.last() - ZERO)) as nat
    }
}

/// `k` spaces.
pub open spec fn spaces(k: nat) -> Seq<u8> {
    Seq::new(k, |i: int| SPACE)
}

/// `s` pushed to the right edge of a field of `width` bytes. A string that is
/// already as wide as the field, or wider, is left as it is.
pub open spec fn right_aligned(s: Seq<u8>, width: nat) -> Seq<u8> {
    if s.len() >= width {
        s
    } else {
        spaces((width - s.len()) as nat) + s
    }
}

/// A numeral has at least one byte, and all of them are digits.
pub proof fn lemma_decimal_is_digits(n: nat)
    ensures
        decimal(n).len() >= 1,
        all_digits(decimal(n)),
    decreases n,
{
    if n >= 10 {
        lemma_decimal_is_digits(n / 10);
    }
}

/// Reading the numeral of `n` gives `n` back.
pub proof fn lemma_decimal_round_trip(n: nat)
    ensures
        digits_value(decimal(n)) == n,
    decreases n,
{
    if n < 10 {
        let s = decimal(n);
        assert(s.drop_last().len() == 0);
        assert(digits_value(s.drop_last()) == 0);
    } else {
        lemma_decimal_round_trip(n / 10);
        let s = decimal(n);
        assert(s.drop_last() =~= decimal(n / 10));
        assert(s.last() == digit(n % 10));
    }
}

/// The digits of a numeral: what follows its plus sign, if it has one.
pub open spec fn numeral_digits(s: Seq<u8>) -> Seq<u8> {
    if s.len() > 0 && s[0] == PLUS {
        s.drop_first()
    } else {
        s
    }
}

/// Whether `s` is a numeral: an optional plus sign, then one decimal digit or
/// more, and nothing else.
pub open spec fn is_numeral(s: Seq<u8>) -> bool {
    numeral_digits(s).len() >= 1 && all_digits(numeral_digits(s))
}

/// The number that a numeral denotes.
pub open spec fn numeral_value(s: Seq<u8>) -> nat
    recommends
        is_numeral(s),
{
    digits_value(numeral_digits(s))
}

/// A string of digits denotes at least as much as any of its prefixes.
pub proof fn lemma_digits_value_prefix(s: Seq<u8>, k: int)
    requires
        0 <= k <= s.len(),
        all_digits(s),
    ensures
        digits_value(s.take(k)) <= digits_value(s),
    decreases s.len(),
{
    if k == s.len() {
        assert(s.take(k) =~= s);
    } else {
        lemma_digits_value_prefix(s.drop_last(), k);
        assert(s.drop_last().take(k) =~= s.take(k));
        assert(is_digit(s.last()));
    }
}

/// Appends `bytes` to `out`.
pub fn append(out: &mut Vec<u8>, bytes: &[u8])
    ensures
        final(out)@ == old(out)@ + bytes@,
{
    let mut i: usize = 0;
    while i < bytes.len()
        invariant
            i <= bytes.len(),
            out@ == old(out)@ + bytes@.take(i as int),
        decreases bytes.len() - i,
    {
        out.push(bytes[i]);
        i += 1;
        assert(bytes@.take(i as int) =~= bytes@.take(i - 1).push(bytes@[i - 1]));
    }
    assert(bytes@.take(i as int) =~= bytes@);
}

/// Writes the decimal numeral of `n`.
pub fn write_decimal(n: usize) -> (out: Vec<u8>)
    ensures
        out@ == decimal(n as nat),
{
    let mut reversed: Vec<u8> = Vec::new();
    let mut rest: usize = n;
    // `reversed` holds the low digits of `n`, lowest first; `rest` holds what
    // is left above them.
    while rest >= 10
        invariant
            decimal(n as nat) == decimal(rest as nat) + reversed@.reverse(),
        decreases rest,
    {
        let low: usize = rest % 10;
        let ghost before = reversed@;
        reversed.push(ZERO + low as u8);
        assert(reversed@.reverse() =~= seq![digit(low as nat)] + before.reverse());
        assert(decimal(rest as nat) + before.reverse() =~= decimal((rest / 10) as nat)
            + reversed@.reverse());
        rest = rest / 10;
    }
    let mut out: Vec<u8> = Vec::new();
    out.push(ZERO + rest as u8);
    let mut i: usize = reversed.len();
    while i > 0
        invariant
            i <= reversed.len(),
            out@ == decimal(rest as nat) + reversed@.reverse().take(reversed.len() - i),
        decreases i,
    {
        i -= 1;
        out.push(reversed[i]);
        let ghost k = reversed.len() - i;
        assert(reversed@.reverse().take(k) =~= reversed@.reverse().take(k - 1).push(reversed@[i as int]));
    }
    assert(reversed@.reverse().take(reversed.len() as int) =~= reversed@.reverse());
    out
}

/// Pushes `field` to the right edge of a field of `width` bytes.
pub fn right_align(field: &Vec<u8>, width: usize) -> (out: Vec<u8>)
    ensures
        out@ == right_aligned(field@, width as nat),
{
    let mut out: Vec<u8> = Vec::new();
    let mut filled: usize = field.len();
    while filled < width
        invariant
            field.len() <= filled,
            filled <= width || filled == field.len(),
            out@ == spaces((filled - field.len()) as nat),
        decreases width - filled,
    {
        out.push(SPACE);
        filled += 1;
        assert(out@ =~= spaces((filled - field.len()) as nat));
    }
    append(&mut out, field.as_slice());
    assert(field.len() >= width ==> out@ =~= field@);
    out
}

/// Reads a numeral. The result is the number it denotes, or `None` where
/// `bytes` is no numeral or denotes more than a `usize` holds.
pub fn parse_numeral(bytes: &[u8]) -> (r: Option<usize>)
    ensures
        r == (if is_numeral(bytes@) && numeral_value(bytes@) <= usize::MAX {
            Some(numeral_value(bytes@) as usize)
        } else {
            None
        }),
{
    let n: usize = bytes.len();
    let start: usize = if n > 0 && bytes[0] == PLUS { 1 } else { 0 };
    if start == n {
        return None;
    }
    let ghost digits = numeral_digits(bytes@);
    assert(digits =~= bytes@.subrange(start as int, n as int));
    let mut value: usize = 0;
    let mut i: usize = start;
    while i < n
        invariant
            start <= i <= n,
            n == bytes.len(),
            digits == bytes@.subrange(start as int, n as int),
            digits == numeral_digits(bytes@),
            all_digits(digits.take(i - start)),
            value == digits_value(digits.take(i - start)),
        decreases n - i,
    {
        let b: u8 = bytes[i];
        let ghost seen = digits.take(i - start);
        let ghost next = digits.take(i - start + 1);
        assert(next.drop_last() =~= seen);
        assert(next.last() == b);
        if b < ZERO || b > NINE {
            assert(!is_digit(digits[i - start]));
            return None;
        }
        assert(all_digits(next)) by {
            assert forall|j: int| 0 <= j < next.len() implies is_digit(#[trigger] next[j]) by {
                if j < seen.len() {
                    assert(next[j] == seen[j]);
                }
            }
        }
        let low: usize = (b - ZERO) as usize;
        let grown: Option<usize> = match value.checked_mul(10) {
            Some(tens) => tens.checked_add(low),
            None => None,
        };
        match grown {
            Some(v) => {
                value = v;
            },
            None => {
                proof {
                    assert(digits_value(next) > usize::MAX);
                    if all_digits(digits) {
                        lemma_digits_value_prefix(digits, i - start + 1);
                    }
                }
                return None;
            },
        }
        i += 1;
    }
    assert(digits.take(i - start) =~= digits);
    Some(value)
}

/// What remains of `s` after its leading spaces.
pub open spec fn trim_spaces(s: Seq<u8>) -> Seq<u8>
    decreases s.len(),
{
    if s.len() > 0 && s[0] == SPACE {
        trim_spaces(s.drop_first())
    } else {
        s
    }
}

/// The number written in a right-aligned field.
pub open spec fn field_value(field: Seq<u8>) -> nat {
    digits_value(trim_spaces(field))
}

/// Leading spaces do not change what a field holds.
pub proof fn lemma_trim_spaces(k: nat, s: Seq<u8>)
    requires
        s.len() == 0 || s[0] != SPACE,
    ensures
        trim_spaces(spaces(k) + s) == s,
    decreases k,
{
    if k == 0 {
        assert(spaces(k) + s =~= s);
    } else {
        assert((spaces(k) + s).drop_first() =~= spaces((k - 1) as nat) + s);
        lemma_trim_spaces((k - 1) as nat, s);
    }
}

/// A number that is written right-aligned in a field of any width is read
/// back from it, and the field holds spaces and digits only.
pub proof fn lemma_field_round_trip(n: nat, width: nat)
    ensures
        field_value(right_aligned(decimal(n), width)) == n,
        forall|i: int|
            0 <= i < right_aligned(decimal(n), width).len() ==> {
                let b = #[trigger] right_aligned(decimal(n), width)[i];
                b == SPACE || is_digit(b)
            },
{
    lemma_decimal_is_digits(n);
    lemma_decimal_round_trip(n);
    let numeral = decimal(n);
    assert(is_digit(numeral[0]));
    if numeral.len() >= width {
        lemma_trim_spaces(0, numeral);
        assert(spaces(0) + numeral =~= numeral);
    } else {
        lemma_trim_spaces((width - numeral.len()) as nat, numeral);
    }
}

/// The bytes that print `lines`: each line in order, followed by a newline.
pub open spec fn printed(lines: Seq<Seq<u8>>) -> Seq<u8>
    decreases lines.len(),
{
    if lines.len() == 0 {
        Seq::empty()
    } else {
        printed(lines.drop_last()) + lines.last() + seq![NEWLINE]
    }
}

/// Prints `lines`: each line in order, followed by a newline.
pub fn print_lines(lines: &Vec<Vec<u8>>) -> (out: Vec<u8>)
    ensures
        out@ == printed(lines.deep_view()),
{
    let mut out: Vec<u8> = Vec::new();
    let mut i: usize = 0;
    let ghost all = lines.deep_view();
    while i < lines.len()
        invariant
            i <= lines.len(),
            all == lines.deep_view(),
            out@ == printed(all.take(i as int)),
        decreases lines.len() - i,
    {
        append(&mut out, lines[i].as_slice());
        out.push(NEWLINE);
        i += 1;
        assert(all.take(i as int).drop_last() =~= all.take(i - 1));
        assert(all.take(i as int).last() == lines@[i - 1]@);
    }
    assert(all.take(i as int) =~= all);
    out
}

} // verus!
