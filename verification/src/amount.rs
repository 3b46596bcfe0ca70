//! The monetary amount carried by a payment request, and its wire rendering.

use vstd::prelude::*;

verus! {

/// A monetary amount: a sign, a whole number of currency units and a number
/// of hundredths of a unit. The processor's wire format carries amounts as
/// plain decimal numbers, so the rendering below writes the amount as an
/// optional minus sign, the units, a dot and exactly two fractional digits.
#[derive(Clone, Copy, Debug, PartialEq, Eq, Structural)]
pub struct Amount {
    /// True for an amount below zero.
    pub negative: bool,
    /// Whole units of the selected currency's subunit denomination.
    pub units: u64,
    /// Hundredths of a unit; always below one hundred.
    pub hundredths: u8,
}

/// The character for one decimal digit.
pub open spec fn digit_char(d: int) -> char {
    if d == 0 {
        '0'
    } else if d == 1 {
        '1'
    } else if d == 2 {
        '2'
    } else if d == 3 {
        '3'
    } else if d == 4 {
        '4'
    } else if d == 5 {
        '5'
    } else if d == 6 {
        '6'
    } else if d == 7 {
        '7'
    } else if d == 8 {
        '8'
    } else {
        '9'
    }
}

/// The decimal rendering of a nonnegative integer, most significant digit
/// first, with no leading zeros except for zero itself.
pub open spec fn dec_digits(n: nat) -> Seq<char>
    decreases n,
{
    if n < 10 {
        seq![digit_char(n as int)]
    } else {
        dec_digits(n / 10) + seq![digit_char((n % 10) as int)]
    }
}

/// Whether a character is a decimal digit.
pub open spec fn is_digit(c: char) -> bool {
    c == '0' || c == '1' || c == '2' || c == '3' || c == '4' || c == '5' || c == '6' || c == '7'
        || c == '8' || c == '9'
}

/// A decimal rendering is never empty and opens with a digit.
pub proof fn lemma_dec_digits_first(n: nat)
    ensures
        dec_digits(n).len() >= 1,
        is_digit(dec_digits(n)[0]),
    decreases n,
{
    if n >= 10 {
        lemma_dec_digits_first(n / 10);
        assert(dec_digits(n)[0] == dec_digits(n / 10)[0]);
    }
}

impl Amount {
    /// An amount is well formed when its hundredths stay below one hundred.
    pub open spec fn wf(self) -> bool {
        self.hundredths < 100
    }

    /// The wire rendering: optional minus sign, the units, a dot, and the
    /// hundredths as exactly two digits.
    pub open spec fn spec_chars(self) -> Seq<char> {
        (if self.negative {
            seq!['-']
        } else {
            Seq::<char>::empty()
        }) + dec_digits(self.units as nat) + seq![
            '.',
            digit_char(self.hundredths as int / 10),
            digit_char(self.hundredths as int % 10),
        ]
    }

    pub fn new(units: u64, hundredths: u8, negative: bool) -> (a: Amount)
        requires
            hundredths < 100,
        ensures
            a == (Amount { negative, units, hundredths }),
            a.wf(),
    {
        Amount { negative, units, hundredths }
    }

    /// Render the amount exactly as `spec_chars` states.
    pub fn render(&self) -> (s: String)
        requires
            self.wf(),
        ensures
            s@ == self.spec_chars(),
    {
        let mut s = String::new();
        if self.negative {
            push_char(&mut s, '-');
        }
        let digits = u64_digits(self.units);
        s.append(digits.as_str());
        push_char(&mut s, '.');
        push_char(&mut s, digit_to_char(self.hundredths as u64 / 10));
        push_char(&mut s, digit_to_char(self.hundredths as u64 % 10));
        proof {
            assert(s@ =~= self.spec_chars());
        }
        s
    }
}

/// Relies on `String::push`, which appends the given character to the end of
/// the string.
pub assume_specification[ String::push ](s: &mut String, ch: char)
    ensures
        final(s)@ == old(s)@.push(ch),
;

/// Appends one character to a string.
pub fn push_char(s: &mut String, ch: char)
    ensures
        final(s)@ == old(s)@ + seq![ch],
{
    s.push(ch);
    proof {
        assert(s@ =~= old(s)@ + seq![ch]);
    }
}

/// The single character for a digit below ten.
pub fn digit_to_char(d: u64) -> (c: char)
    requires
        d < 10,
    ensures
        c == digit_char(d as int),
{
    if d == 0 {
        '0'
    } else if d == 1 {
        '1'
    } else if d == 2 {
        '2'
    } else if d == 3 {
        '3'
    } else if d == 4 {
        '4'
    } else if d == 5 {
        '5'
    } else if d == 6 {
        '6'
    } else if d == 7 {
        '7'
    } else if d == 8 {
        '8'
    } else {
        '9'
    }
}

/// The full decimal rendering of an unsigned integer.
pub fn u64_digits(n: u64) -> (s: String)
    ensures
        s@ == dec_digits(n as nat),
    decreases n,
{
    if n < 10 {
        let mut s = String::new();
        push_char(&mut s, digit_to_char(n));
        proof {
            assert(s@ =~= dec_digits(n as nat));
        }
        s
    } else {
        let mut s = u64_digits(n / 10);
        push_char(&mut s, digit_to_char(n % 10));
        proof {
            assert(s@ =~= dec_digits(n as nat));
        }
        s
    }
}

} // verus!
