//! Site theme selection.
//!
//! A theme rule names a theme and the calendar dates on which it
//! applies: single days or day ranges, month and day only, the same
//! every year.  The provider walks its rules in order and picks the
//! first that matches today's date, falling back to the default
//! theme.

use vstd::prelude::*;
use vstd::slice::{slice_index_get, slice_subrange};

use crate::util::EmbeddedData;

verus! {

/// A calendar pattern: one day of the year, or an inclusive range of
/// days.  Only month and day are kept; rules recur yearly.
#[derive(Clone, Copy, Debug, PartialEq, Eq, Structural)]
pub enum ThemeDate {
    /// One day of the year.
    Date { month: u8, day: u8 },
    /// An inclusive range from one day of the year to another.
    Range { month_a: u8, day_a: u8, month_b: u8, day_b: u8 },
}

impl ThemeDate {
    /// Months run 1 to 12 and days 1 to 31; a range's bounds are each
    /// themselves valid.
    pub open spec fn wf(self) -> bool {
        match self {
            ThemeDate::Date { month, day } => 1 <= month <= 12 && 1 <= day <= 31,
            ThemeDate::Range { month_a, day_a, month_b, day_b } => 1 <= month_a <= 12 && 1
                <= day_a <= 31 && 1 <= month_b <= 12 && 1 <= day_b <= 31,
        }
    }

    /// Whether this pattern covers the single day `other`.  A `Date`
    /// pattern covers exactly its own month and day.  A `Range`
    /// pattern covers the months strictly between its bounds; a range
    /// within one month covers the days between the two day bounds;
    /// a range across months covers the tail of its first month and
    /// the head of its last.  Only single days can be covered: when
    /// `other` is itself a range, nothing matches.
    pub open spec fn spec_matches(self, other: ThemeDate) -> bool {
        match other {
            ThemeDate::Date { month, day } => match self {
                ThemeDate::Date { month: month_o, day: day_o } => month == month_o && day
                    == day_o,
                ThemeDate::Range { month_a, day_a, month_b, day_b } => {
                    ||| month_a < month < month_b
                    ||| (month == month_a && month_a == month_b && day_a <= day <= day_b)
                    ||| (month == month_a && month_a != month_b && day >= day_a)
                    ||| (month == month_b && month_a != month_b && day <= day_b)
                },
            },
            ThemeDate::Range { .. } => false,
        }
    }

    /// The text form of this date, as bytes: `mm/dd`, or
    /// `mm/dd-mm/dd` for a range, zero padded.
    pub fn to_text(&self) -> (r: Vec<u8>)
        requires
            self.wf(),
        ensures
            r@ == spec_date_text(*self),
    {
        let mut out: Vec<u8> = Vec::new();
        match *self {
            ThemeDate::Date { month, day } => {
                push_two_digits(&mut out, month);
                out.push(47);
                push_two_digits(&mut out, day);
            },
            ThemeDate::Range { month_a, day_a, month_b, day_b } => {
                push_two_digits(&mut out, month_a);
                out.push(47);
                push_two_digits(&mut out, day_a);
                out.push(45);
                push_two_digits(&mut out, month_b);
                out.push(47);
                push_two_digits(&mut out, day_b);
            },
        }
        proof {
            assert(out@ =~= spec_date_text(*self));
        }
        out
    }

    /// Read a date back from its text form.  One part is a single
    /// date, two parts joined by a dash are a range; a piece that is
    /// no numeral, a month or day out of range, and a second dash
    /// are each rejected.
    pub fn parse_text(s: &[u8]) -> (r: Result<ThemeDate, ThemeDateError>)
        ensures
            r == spec_parse_date_text(s@),
    {
        match find_byte(s, 45) {
            None => match parse_part(s) {
                Err(e) => Err(e),
                Ok(md) => Ok(ThemeDate::Date { month: md.0, day: md.1 }),
            },
            Some(i) => {
                proof {
                    lemma_spec_find(s@, 45);
                }
                let first = slice_subrange(s, 0, i);
                proof {
                    assert(first@ =~= s@.take(i as int));
                }
                let n = s.len();
                proof {
                    assert(i < n);
                }
                let rest = slice_subrange(s, i + 1, n);
                proof {
                    assert(rest@ =~= s@.skip(i as int + 1));
                }
                let cut2 = find_byte(rest, 45);
                proof {
                    lemma_spec_find(rest@, 45);
                }
                let second: &[u8] = match cut2 {
                    Some(j) => {
                        let p = slice_subrange(rest, 0, j);
                        proof {
                            assert(p@ =~= rest@.take(j as int));
                        }
                        p
                    },
                    None => rest,
                };
                match parse_part(first) {
                    Err(e) => Err(e),
                    Ok(md1) => match parse_part(second) {
                        Err(e) => Err(e),
                        Ok(md2) => {
                            if cut2.is_some() {
                                Err(ThemeDateError::Form)
                            } else {
                                Ok(
                                    ThemeDate::Range {
                                        month_a: md1.0,
                                        day_a: md1.1,
                                        month_b: md2.0,
                                        day_b: md2.1,
                                    },
                                )
                            }
                        },
                    },
                }
            },
        }
    }

    /// Check whether this pattern covers the single day `other`.
    pub fn matches(&self, other: &Self) -> (r: bool)
        ensures
            r == self.spec_matches(*other),
    {
        match *other {
            ThemeDate::Date { month, day } => match *self {
                ThemeDate::Date { month: month_o, day: day_o } => month == month_o && day
                    == day_o,
                ThemeDate::Range { month_a, day_a, month_b, day_b } => {
                    if month > month_a && month < month_b {
                        return true;
                    }
                    if month == month_a && month_a == month_b {
                        if day >= day_a && day <= day_b {
                            return true;
                        }
                    } else {
                        if month == month_a && day >= day_a {
                            return true;
                        }
                        if month == month_b && day <= day_b {
                            return true;
                        }
                    }
                    false
                },
            },
            ThemeDate::Range { .. } => false,
        }
    }
}

/// The two ASCII digits of `n`, zero padded.
pub open spec fn spec_two_digits(n: u8) -> Seq<u8>
    recommends
        n < 100,
{
    seq![(48 + n / 10) as u8, (48 + n % 10) as u8]
}

/// The text form of a theme date, as bytes: `mm/dd` for a single
/// day, `mm/dd-mm/dd` for a range, every number two digits, zero
/// padded.
pub open spec fn spec_date_text(d: ThemeDate) -> Seq<u8> {
    match d {
        ThemeDate::Date { month, day } => spec_two_digits(month) + seq![47u8] + spec_two_digits(
            day,
        ),
        ThemeDate::Range { month_a, day_a, month_b, day_b } => spec_two_digits(month_a)
            + seq![47u8] + spec_two_digits(day_a) + seq![45u8] + spec_two_digits(month_b)
            + seq![47u8] + spec_two_digits(day_b),
    }
}

/// Append the two zero-padded digits of `n`.
fn push_two_digits(out: &mut Vec<u8>, n: u8)
    requires
        n < 100,
    ensures
        final(out)@ == old(out)@ + spec_two_digits(n),
{
    out.push(48 + n / 10);
    out.push(48 + n % 10);
    proof {
        assert(out@ =~= old(out)@ + spec_two_digits(n));
    }
}

/// Why a date text is rejected.
#[derive(Clone, Copy, Debug, PartialEq, Eq, Structural)]
pub enum ThemeDateError {
    /// Not a single date nor two dates joined by one dash.
    Form,
    /// A number piece is not a numeral that fits in a byte.
    Numeral,
    /// A month or day is out of its calendar range.
    Bounds,
}

/// Index of the first `sep` in `s`, if any.
pub open spec fn spec_find(s: Seq<u8>, sep: u8) -> Option<int>
    decreases s.len(),
{
    if s.len() == 0 {
        Option::None
    } else if s[0] == sep {
        Option::Some(0int)
    } else {
        match spec_find(s.drop_first(), sep) {
            Option::Some(i) => Option::Some(i + 1),
            Option::None => Option::None,
        }
    }
}

/// `spec_find` names the first occurrence: in range, hitting `sep`,
/// nothing before it; or none at all.
pub proof fn lemma_spec_find(s: Seq<u8>, sep: u8)
    ensures
        match spec_find(s, sep) {
            Option::Some(i) => 0 <= i < s.len() && s[i] == sep && forall|j: int|
                0 <= j < i ==> s[j] != sep,
            Option::None => forall|j: int| 0 <= j < s.len() ==> s[j] != sep,
        },
    decreases s.len(),
{
    if s.len() > 0 && s[0] != sep {
        lemma_spec_find(s.drop_first(), sep);
        match spec_find(s.drop_first(), sep) {
            Option::Some(i) => {
                assert forall|j: int| 0 <= j < i + 1 implies s[j] != sep by {
                    if j > 0 {
                        assert(s.drop_first()[j - 1] != sep);
                    }
                }
            },
            Option::None => {
                assert forall|j: int| 0 <= j < s.len() implies s[j] != sep by {
                    if j > 0 {
                        assert(s.drop_first()[j - 1] != sep);
                    }
                }
            },
        }
    }
}

/// Whether `b` is an ASCII digit.
pub open spec fn spec_is_digit(b: u8) -> bool {
    48 <= b <= 57
}

/// Fold the digits of `s` onto `acc`, failing on a non-digit or as
/// soon as the value leaves the byte range.
pub open spec fn spec_digits_value(s: Seq<u8>, acc: int) -> Option<int>
    decreases s.len(),
{
    if s.len() == 0 {
        Option::Some(acc)
    } else if !spec_is_digit(s[0]) {
        Option::None
    } else if acc * 10 + (s[0] - 48) > 255 {
        Option::None
    } else {
        spec_digits_value(s.drop_first(), acc * 10 + (s[0] - 48))
    }
}

/// The value of a byte numeral as `u8::from_str` reads it: an
/// optional leading plus sign, then at least one digit, the value
/// fitting in a byte.
pub open spec fn spec_parse_u8(s: Seq<u8>) -> Option<u8> {
    let body = if s.len() > 0 && s[0] == 43 {
        s.drop_first()
    } else {
        s
    };
    if body.len() == 0 {
        Option::None
    } else {
        match spec_digits_value(body, 0) {
            Option::Some(v) => Option::Some(v as u8),
            Option::None => Option::None,
        }
    }
}

/// Fold the `/`-separated pieces of a part onto the month and day:
/// each piece must be a numeral; the first sets the month while the
/// month is still zero, every later one the day.
pub open spec fn spec_fold_pieces(s: Seq<u8>, month: u8, day: u8) -> Option<(u8, u8)>
    decreases s.len(),
    via spec_fold_pieces_decreases
{
    let piece = match spec_find(s, 47) {
        Option::Some(i) => s.take(i),
        Option::None => s,
    };
    match spec_parse_u8(piece) {
        Option::None => Option::None,
        Option::Some(val) => {
            let m2 = if month == 0 {
                val
            } else {
                month
            };
            let d2 = if month == 0 {
                day
            } else {
                val
            };
            match spec_find(s, 47) {
                Option::None => Option::Some((m2, d2)),
                Option::Some(i) => spec_fold_pieces(s.skip(i + 1), m2, d2),
            }
        },
    }
}

#[via_fn]
proof fn spec_fold_pieces_decreases(s: Seq<u8>, month: u8, day: u8) {
    lemma_spec_find(s, 47);
}

/// A part read as month and day, the way the fold leaves them,
/// rejected when a piece is no numeral or the result is out of
/// calendar range.
pub open spec fn spec_parse_part(s: Seq<u8>) -> Result<(u8, u8), ThemeDateError> {
    match spec_fold_pieces(s, 0, 0) {
        Option::None => Result::Err(ThemeDateError::Numeral),
        Option::Some(md) => {
            if md.0 == 0 || md.0 > 12 || md.1 == 0 || md.1 > 31 {
                Result::Err(ThemeDateError::Bounds)
            } else {
                Result::Ok(md)
            }
        },
    }
}

/// A date text read back: one part is a single date, two parts
/// joined by a dash are a range, and both parts are read before a
/// third is rejected.
pub open spec fn spec_parse_date_text(s: Seq<u8>) -> Result<ThemeDate, ThemeDateError> {
    match spec_find(s, 45) {
        Option::None => match spec_parse_part(s) {
            Result::Err(e) => Result::Err(e),
            Result::Ok(md) => Result::Ok(ThemeDate::Date { month: md.0, day: md.1 }),
        },
        Option::Some(i) => {
            let first = s.take(i);
            let rest = s.skip(i + 1);
            let second = match spec_find(rest, 45) {
                Option::Some(j) => rest.take(j),
                Option::None => rest,
            };
            match spec_parse_part(first) {
                Result::Err(e) => Result::Err(e),
                Result::Ok(md1) => match spec_parse_part(second) {
                    Result::Err(e) => Result::Err(e),
                    Result::Ok(md2) => {
                        if spec_find(rest, 45) is Some {
                            Result::Err(ThemeDateError::Form)
                        } else {
                            Result::Ok(
                                ThemeDate::Range {
                                    month_a: md1.0,
                                    day_a: md1.1,
                                    month_b: md2.0,
                                    day_b: md2.1,
                                },
                            )
                        }
                    },
                },
            }
        },
    }
}

/// Nothing to find: a sequence without `sep` in it.
proof fn lemma_no_sep_finds_none(s: Seq<u8>, sep: u8)
    requires
        forall|j: int| 0 <= j < s.len() ==> s[j] != sep,
    ensures
        spec_find(s, sep) is None,
{
    lemma_spec_find(s, sep);
    if let Option::Some(i) = spec_find(s, sep) {
        assert(s[i] == sep);
        assert(false);
    }
}

/// A `sep` with nothing but other bytes before it is the first.
proof fn lemma_first_sep(s: Seq<u8>, sep: u8, i: int)
    requires
        0 <= i < s.len(),
        s[i] == sep,
        forall|j: int| 0 <= j < i ==> s[j] != sep,
    ensures
        spec_find(s, sep) == Option::Some(i),
{
    lemma_spec_find(s, sep);
    match spec_find(s, sep) {
        Option::None => {
            assert(false);
        },
        Option::Some(k) => {
            if k < i {
                assert(s[k] != sep);
                assert(false);
            }
            if k > i {
                assert(s[i] != sep);
                assert(false);
            }
        },
    }
}

/// The two zero-padded digits of `n` read back as `n`.
proof fn lemma_parse_u8_two_digits(n: u8)
    requires
        n < 100,
    ensures
        spec_parse_u8(spec_two_digits(n)) == Option::Some(n),
{
    vstd::arithmetic::div_mod::lemma_fundamental_div_mod(n as int, 10);
    let s = spec_two_digits(n);
    let b0 = (48 + n / 10) as u8;
    let b1 = (48 + n % 10) as u8;
    assert(s =~= seq![b0, b1]);
    let s1 = s.drop_first();
    assert(s1 =~= seq![b1]);
    let s2 = s1.drop_first();
    assert(s2 =~= Seq::<u8>::empty());
    assert(spec_digits_value(s2, n as int) == Option::Some(n as int));
    assert(spec_digits_value(s1, n as int / 10) == Option::Some(n as int));
    assert(spec_digits_value(s, 0) == Option::Some(n as int));
    assert(spec_parse_u8(s) == Option::Some(n));
}

/// A `mm/dd` pair of zero-padded numbers reads back as the pair.
proof fn lemma_parse_part_pair(m: u8, d: u8)
    requires
        1 <= m <= 12,
        1 <= d <= 31,
    ensures
        spec_parse_part(spec_two_digits(m) + seq![47u8] + spec_two_digits(d))
            == Result::<(u8, u8), ThemeDateError>::Ok((m, d)),
{
    let tm = spec_two_digits(m);
    let td = spec_two_digits(d);
    let s = tm + seq![47u8] + td;
    assert(s =~= seq![tm[0], tm[1], 47u8, td[0], td[1]]);
    lemma_first_sep(s, 47, 2);
    assert(s.take(2) =~= tm);
    lemma_parse_u8_two_digits(m);
    let s2 = s.skip(3);
    assert(s2 =~= td);
    lemma_no_sep_finds_none(td, 47);
    lemma_parse_u8_two_digits(d);
    assert(spec_fold_pieces(s2, m, 0) == Option::Some((m, d)));
    assert(spec_fold_pieces(s, 0, 0) == Option::Some((m, d)));
}

/// Reading a well-formed date's text form yields the date back.
pub proof fn lemma_date_text_round_trip(d: ThemeDate)
    requires
        d.wf(),
    ensures
        spec_parse_date_text(spec_date_text(d)) == Result::<ThemeDate, ThemeDateError>::Ok(d),
{
    match d {
        ThemeDate::Date { month, day } => {
            let tm = spec_two_digits(month);
            let td = spec_two_digits(day);
            let s = spec_date_text(d);
            assert(s =~= seq![tm[0], tm[1], 47u8, td[0], td[1]]);
            lemma_no_sep_finds_none(s, 45);
            lemma_parse_part_pair(month, day);
            assert(s =~= tm + seq![47u8] + td);
        },
        ThemeDate::Range { month_a, day_a, month_b, day_b } => {
            let part1 = spec_two_digits(month_a) + seq![47u8] + spec_two_digits(day_a);
            let part2 = spec_two_digits(month_b) + seq![47u8] + spec_two_digits(day_b);
            let s = spec_date_text(d);
            assert(s =~= seq![
                part1[0],
                part1[1],
                47u8,
                part1[3],
                part1[4],
                45u8,
                part2[0],
                part2[1],
                47u8,
                part2[3],
                part2[4],
            ]);
            assert(part1 =~= seq![part1[0], part1[1], 47u8, part1[3], part1[4]]);
            assert(part2 =~= seq![part2[0], part2[1], 47u8, part2[3], part2[4]]);
            lemma_first_sep(s, 45, 5);
            assert(s.take(5) =~= part1);
            assert(s.skip(6) =~= part2);
            lemma_no_sep_finds_none(part2, 45);
            lemma_parse_part_pair(month_a, day_a);
            lemma_parse_part_pair(month_b, day_b);
        },
    }
}

/// A date read from text is well formed: the bounds check admits
/// only calendar months and days.
pub proof fn lemma_parsed_date_wf(s: Seq<u8>)
    ensures
        spec_parse_date_text(s) matches Result::Ok(d) ==> d.wf(),
{
}

/// Index of the first `sep` in `s`, if any.
fn find_byte(s: &[u8], sep: u8) -> (r: Option<usize>)
    ensures
        match r {
            Option::Some(i) => spec_find(s@, sep) == Option::Some(i as int),
            Option::None => spec_find(s@, sep) is None,
        },
{
    proof {
        lemma_spec_find(s@, sep);
    }
    let mut idx: usize = 0;
    while idx < s.len()
        invariant
            idx <= s@.len(),
            forall|j: int| 0 <= j < idx ==> s@[j] != sep,
        decreases s@.len() - idx,
    {
        if *slice_index_get(s, idx) == sep {
            proof {
                lemma_spec_find(s@, sep);
            }
            return Some(idx);
        }
        idx += 1;
    }
    proof {
        lemma_spec_find(s@, sep);
    }
    None
}

/// Read a byte numeral, as `u8::from_str` would.
fn parse_u8_text(s: &[u8]) -> (r: Option<u8>)
    ensures
        r == spec_parse_u8(s@),
{
    let body: &[u8] = if s.len() > 0 && *slice_index_get(s, 0) == 43 {
        let b = slice_subrange(s, 1, s.len());
        proof {
            assert(b@ =~= s@.drop_first());
        }
        b
    } else {
        s
    };
    if body.len() == 0 {
        return None;
    }
    proof {
        assert(body@.skip(0) =~= body@);
    }
    let mut acc: u16 = 0;
    let mut i: usize = 0;
    while i < body.len()
        invariant
            body@ == (if s@.len() > 0 && s@[0] == 43 {
                s@.drop_first()
            } else {
                s@
            }),
            body@.len() > 0,
            acc <= 255,
            i <= body@.len(),
            spec_digits_value(body@, 0) == spec_digits_value(
                body@.skip(i as int),
                acc as int,
            ),
        decreases body@.len() - i,
    {
        let ghost pre = body@.skip(i as int);
        proof {
            assert(pre[0] == body@[i as int]);
        }
        let b = *slice_index_get(body, i);
        if !(48 <= b && b <= 57) {
            proof {
                assert(spec_digits_value(pre, acc as int) is None);
            }
            return None;
        }
        let v = acc * 10 + (b - 48) as u16;
        if v > 255 {
            proof {
                assert(spec_digits_value(pre, acc as int) is None);
            }
            return None;
        }
        acc = v;
        i += 1;
        proof {
            assert(pre.drop_first() =~= body@.skip(i as int));
        }
    }
    proof {
        assert(body@.skip(i as int) =~= Seq::<u8>::empty());
    }
    Some(acc as u8)
}

/// Read the `/`-separated pieces of one part as month and day.
fn parse_part(part: &[u8]) -> (r: Result<(u8, u8), ThemeDateError>)
    ensures
        r == spec_parse_part(part@),
{
    let mut rest: &[u8] = part;
    let mut month: u8 = 0;
    let mut day: u8 = 0;
    loop
        invariant
            spec_fold_pieces(part@, 0, 0) == spec_fold_pieces(rest@, month, day),
        decreases rest@.len(),
    {
        let cut = find_byte(rest, 47);
        proof {
            lemma_spec_find(rest@, 47);
        }
        let piece: &[u8] = match cut {
            Some(i) => {
                let p = slice_subrange(rest, 0, i);
                proof {
                    assert(p@ =~= rest@.take(i as int));
                }
                p
            },
            None => rest,
        };
        match parse_u8_text(piece) {
            None => {
                return Err(ThemeDateError::Numeral);
            },
            Some(val) => {
                if month == 0 {
                    month = val;
                } else {
                    day = val;
                }
                match cut {
                    None => {
                        if month == 0 || month > 12 || day == 0 || day > 31 {
                            return Err(ThemeDateError::Bounds);
                        }
                        return Ok((month, day));
                    },
                    Some(i) => {
                        let n = rest.len();
                        proof {
                            assert(i < n);
                        }
                        let next = slice_subrange(rest, i + 1, n);
                        proof {
                            assert(next@ =~= rest@.skip(i as int + 1));
                        }
                        rest = next;
                    },
                }
            },
        }
    }
}

/// One theme rule: the theme to use and the dates it applies on.
#[derive(Clone, Debug)]
pub struct ThemeRule {
    /// Name of the theme asset this rule selects.
    pub theme: String,
    /// The dates on which the rule applies.
    pub dates: Vec<ThemeDate>,
}

impl ThemeRule {
    /// Whether any of the rule's date patterns covers `date`.
    pub open spec fn spec_matches(self, date: ThemeDate) -> bool {
        exists|i: int| 0 <= i < self.dates@.len() && self.dates@[i].spec_matches(date)
    }

    /// Check whether the rule applies on `date`.
    pub fn matches(&self, date: &ThemeDate) -> (r: bool)
        ensures
            r == self.spec_matches(*date),
    {
        let mut idx: usize = 0;
        while idx < self.dates.len()
            invariant
                idx <= self.dates@.len(),
                forall|j: int| 0 <= j < idx ==> !self.dates@[j].spec_matches(*date),
            decreases self.dates@.len() - idx,
        {
            if self.dates[idx].matches(date) {
                return true;
            }
            idx += 1;
        }
        false
    }
}

/// The parsed theme rule file: the default theme name and the rules,
/// in the order they are tried.
#[derive(Clone, Debug)]
pub struct ThemeRules {
    /// Name of the theme used when no rule applies.
    pub default: String,
    /// The rules, tried first to last.
    pub rules: Vec<ThemeRule>,
}

/// Picks the theme for a given day from the rule file, with the
/// default theme's data held as a fallback.
pub struct ThemeProvider {
    /// Data of the default theme, served when a named theme cannot
    /// be fetched.
    default_theme: EmbeddedData,
    /// The rule file.
    theme_rules: ThemeRules,
}

impl ThemeProvider {
    /// The rule file this provider goes by.
    pub closed spec fn spec_rules(self) -> ThemeRules {
        self.theme_rules
    }

    /// The fallback theme data.
    pub closed spec fn spec_default_theme(self) -> EmbeddedData {
        self.default_theme
    }

    /// Build a provider from the parsed rule file and the data of
    /// its default theme.
    pub fn new(default_theme: EmbeddedData, theme_rules: ThemeRules) -> (p: Self)
        ensures
            p.spec_rules() == theme_rules,
            p.spec_default_theme() == default_theme,
    {
        ThemeProvider { default_theme, theme_rules }
    }

    /// The fallback theme data.
    pub fn default_theme(&self) -> (r: &EmbeddedData)
        ensures
            *r == self.spec_default_theme(),
    {
        &self.default_theme
    }

    /// The name of the theme to use on `date`: the theme of the
    /// first rule that applies, or the default name when none does.
    pub fn theme_name(&self, date: &ThemeDate) -> (name: String)
        ensures
            (forall|i: int|
                0 <= i < self.spec_rules().rules@.len() ==> !self.spec_rules().rules@[i].spec_matches(
                    *date,
                )) ==> name@ == self.spec_rules().default@,
            (exists|i: int|
                0 <= i < self.spec_rules().rules@.len() && self.spec_rules().rules@[i].spec_matches(
                    *date,
                )) ==> exists|i: int|
                {
                    &&& 0 <= i < self.spec_rules().rules@.len()
                    &&& self.spec_rules().rules@[i].spec_matches(*date)
                    &&& name@ == self.spec_rules().rules@[i].theme@
                    &&& forall|j: int| 0 <= j < i ==> !self.spec_rules().rules@[j].spec_matches(
                        *date,
                    )
                },
    {
        let mut idx: usize = 0;
        while idx < self.theme_rules.rules.len()
            invariant
                idx <= self.theme_rules.rules@.len(),
                forall|j: int| 0 <= j < idx ==> !self.theme_rules.rules@[j].spec_matches(*date),
            decreases self.theme_rules.rules@.len() - idx,
        {
            if self.theme_rules.rules[idx].matches(date) {
                return self.theme_rules.rules[idx].theme.clone();
            }
            idx += 1;
        }
        self.theme_rules.default.clone()
    }
}

} // verus!
