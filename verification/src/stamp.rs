//! The timestamp a run stamps journaled and archived lines with, broken
//! into plain calendar and clock fields, and its verified renderings: a
//! date stamp, a clock stamp, and the bracketed full stamp.

use vstd::prelude::*;

verus! {

/// A point in time, already broken into the fields the ledger's stamps are
/// rendered from. The hour is on the 12-hour dial and `pm` carries the half
/// of the day, as the rendered stamps show them.
#[derive(Clone, Copy, Debug, PartialEq, Eq, Structural)]
pub struct Timestamp {
    pub year: u32,
    pub month: u32,
    pub day: u32,
    pub hour: u32,
    pub minute: u32,
    pub pm: bool,
}

/// The decimal digit `d` as a character.
pub open spec fn digit_char(d: int) -> char {
    if d == 0 {
        '0'
    } else if d == 1 {
        '1'
    } else if d == 2 {
        '2'
    } else if d == 3 {
        '3'
    } else if d == 4 {
        '4'
    } else if d == 5 {
        '5'
    } else if d == 6 {
        '6'
    } else if d == 7 {
        '7'
    } else if d == 8 {
        '8'
    } else {
        '9'
    }
}

/// `n` rendered as exactly two decimal digits, zero-padded; meaningful for
/// `0 <= n < 100`.
pub open spec fn two_digits(n: int) -> Seq<char> {
    seq![digit_char(n / 10), digit_char(n % 10)]
}

/// `n` rendered in decimal without padding.
pub open spec fn dec_digits(n: int) -> Seq<char>
    decreases n
        when n >= 0
{
    if n < 10 {
        seq![digit_char(n)]
    } else {
        dec_digits(n / 10).push(digit_char(n % 10))
    }
}

impl Timestamp {
    /// The fields lie on the calendar and the 12-hour dial.
    pub open spec fn wf(self) -> bool {
        &&& 1 <= self.month <= 12
        &&& 1 <= self.day <= 31
        &&& 1 <= self.hour <= 12
        &&& self.minute <= 59
    }

    /// The date-only stamp: year, month and day, the last two zero-padded.
    pub open spec fn spec_date_stamp(self) -> Seq<char> {
        dec_digits(self.year as int) + seq!['-'] + two_digits(self.month as int) + seq!['-']
            + two_digits(self.day as int)
    }

    /// The clock stamp with a small half-of-day mark.
    pub open spec fn spec_clock_stamp(self) -> Seq<char> {
        two_digits(self.hour as int) + seq![':'] + two_digits(self.minute as int) + (if self.pm {
            seq!['p', 'm']
        } else {
            seq!['a', 'm']
        })
    }

    /// The clock stamp with a capital half-of-day mark.
    pub open spec fn spec_clock_stamp_upper(self) -> Seq<char> {
        two_digits(self.hour as int) + seq![':'] + two_digits(self.minute as int) + (if self.pm {
            seq!['P', 'M']
        } else {
            seq!['A', 'M']
        })
    }

    /// The full stamp put on journaled and archived lines: the date and the
    /// clock reading, bracketed.
    pub open spec fn spec_bracket_stamp(self) -> Seq<char> {
        seq!['['] + self.spec_date_stamp() + seq![',', ' '] + self.spec_clock_stamp() + seq![']']
    }

    /// Render the date-only stamp.
    pub fn date_stamp(&self) -> (r: String)
        requires
            self.wf(),
        ensures
            r@ == self.spec_date_stamp(),
    {
        let mut out = String::new();
        push_number(&mut out, self.year);
        push_dash(&mut out);
        push_two_digits(&mut out, self.month);
        push_dash(&mut out);
        push_two_digits(&mut out, self.day);
        proof {
            assert(out@ =~= self.spec_date_stamp());
        }
        out
    }

    /// Render the clock stamp with a small half-of-day mark.
    pub fn clock_stamp(&self) -> (r: String)
        requires
            self.wf(),
        ensures
            r@ == self.spec_clock_stamp(),
    {
        let mut out = String::new();
        push_two_digits(&mut out, self.hour);
        out.append(":");
        push_two_digits(&mut out, self.minute);
        if self.pm {
            out.append("pm");
        } else {
            out.append("am");
        }
        proof {
            reveal_strlit(":");
            reveal_strlit("pm");
            reveal_strlit("am");
            assert(out@ =~= self.spec_clock_stamp());
        }
        out
    }

    /// Render the clock stamp with a capital half-of-day mark.
    pub fn clock_stamp_upper(&self) -> (r: String)
        requires
            self.wf(),
        ensures
            r@ == self.spec_clock_stamp_upper(),
    {
        let mut out = String::new();
        push_two_digits(&mut out, self.hour);
        out.append(":");
        push_two_digits(&mut out, self.minute);
        if self.pm {
            out.append("PM");
        } else {
            out.append("AM");
        }
        proof {
            reveal_strlit(":");
            reveal_strlit("PM");
            reveal_strlit("AM");
            assert(out@ =~= self.spec_clock_stamp_upper());
        }
        out
    }

    /// Render the bracketed full stamp.
    pub fn bracket_stamp(&self) -> (r: String)
        requires
            self.wf(),
        ensures
            r@ == self.spec_bracket_stamp(),
    {
        let mut out = String::new();
        out.append("[");
        let date = self.date_stamp();
        out.append(date.as_str());
        out.append(", ");
        let clock = self.clock_stamp();
        out.append(clock.as_str());
        out.append("]");
        proof {
            reveal_strlit("[");
            reveal_strlit(", ");
            reveal_strlit("]");
            assert(out@ =~= self.spec_bracket_stamp());
        }
        out
    }
}

/// Reads the local clock once, as the fields of a `Timestamp`. Relies on
/// chrono: `Local::now` for the current local time, and on the documented
/// ranges of its accessors — `Datelike::year_ce` (year, from 1),
/// `Datelike::month` (1..=12), `Datelike::day` (1..=31), `Timelike::hour12`
/// (1..=12, with the PM flag) and `Timelike::minute` (0..=59). Nothing more
/// is assumed of the value read.
#[verifier::external_body]
pub fn now() -> (t: Timestamp)
    ensures
        t.wf(),
{
    let now = chrono::Local::now();
    let (pm, hour) = chrono::Timelike::hour12(&now);
    let (_, year) = chrono::Datelike::year_ce(&now);
    Timestamp {
        year,
        month: chrono::Datelike::month(&now),
        day: chrono::Datelike::day(&now),
        hour,
        minute: chrono::Timelike::minute(&now),
        pm,
    }
}

/// Append the single digit `d` to `out`.
fn push_digit(out: &mut String, d: u32)
    requires
        d < 10,
    ensures
        final(out)@ == old(out)@.push(digit_char(d as int)),
{
    let digits = "0123456789";
    proof {
        reveal_strlit("0123456789");
    }
    let piece = digits.substring_char(d as usize, d as usize + 1);
    out.append(piece);
    proof {
        assert(piece@ =~= seq![digit_char(d as int)]);
        assert(old(out)@ + piece@ =~= old(out)@.push(digit_char(d as int)));
    }
}

/// Append `n` as exactly two decimal digits, zero-padded.
fn push_two_digits(out: &mut String, n: u32)
    requires
        n < 100,
    ensures
        final(out)@ == old(out)@ + two_digits(n as int),
{
    push_digit(out, n / 10);
    push_digit(out, n % 10);
    proof {
        assert(out@ =~= old(out)@ + two_digits(n as int));
    }
}

/// Append `n` in decimal without padding.
fn push_number(out: &mut String, n: u32)
    ensures
        final(out)@ == old(out)@ + dec_digits(n as int),
    decreases n,
{
    if n < 10 {
        push_digit(out, n);
        proof {
            assert(out@ =~= old(out)@ + dec_digits(n as int));
        }
    } else {
        push_number(out, n / 10);
        push_digit(out, n % 10);
        proof {
            assert(out@ =~= old(out)@ + dec_digits(n as int));
        }
    }
}

/// Append the field separator of the date stamp.
fn push_dash(out: &mut String)
    ensures
        final(out)@ == old(out)@.push('-'),
{
    out.append("-");
    proof {
        reveal_strlit("-");
        assert(out@ =~= old(out)@.push('-'));
    }
}

} // verus!
