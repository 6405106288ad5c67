//! Calendar dates and date-ordered records.
//!
//! Page records (blog articles, links, projects) carry the date they
//! were written and are listed newest first.  The sort here works on
//! anything that exposes its date through the [`Dated`] trait.

use vstd::prelude::*;
use vstd::multiset::lemma_multiset_empty_len;
use vstd::seq_lib::{to_multiset_contains, to_multiset_insert, to_multiset_len, to_multiset_remove};

verus! {

/// A calendar date: full year, month and day.
#[derive(Clone, Copy, Debug, PartialEq, Eq, Structural)]
pub struct Date {
    pub year: i32,
    pub month: u8,
    pub day: u8,
}

/// Whether `a` is on or before `b`: lexicographic on year, month,
/// day.
pub open spec fn spec_date_le(a: Date, b: Date) -> bool {
    ||| a.year < b.year
    ||| (a.year == b.year && a.month < b.month)
    ||| (a.year == b.year && a.month == b.month && a.day <= b.day)
}

/// Check whether `a` is on or before `b`.
pub fn date_le(a: &Date, b: &Date) -> (r: bool)
    ensures
        r == spec_date_le(*a, *b),
{
    if a.year != b.year {
        a.year < b.year
    } else if a.month != b.month {
        a.month < b.month
    } else {
        a.day <= b.day
    }
}

/// Carried by records that are listed in date order.
pub trait Dated {
    /// The record's date.
    spec fn spec_date(&self) -> Date;

    /// The record's date.
    fn date(&self) -> (d: Date)
        ensures
            d == self.spec_date(),
    ;
}

/// Newest first: every later element is on or before every earlier
/// one.
pub open spec fn sorted_by_date_desc<T: Dated>(s: Seq<T>) -> bool {
    forall|i: int, j: int|
        0 <= i < j < s.len() ==> spec_date_le(s[j].spec_date(), s[i].spec_date())
}

/// Sort the records newest first.  The result holds exactly the
/// records that went in.
pub fn sort_by_date_desc<T: Dated>(v: Vec<T>) -> (r: Vec<T>)
    ensures
        sorted_by_date_desc(r@),
        r@.to_multiset() == v@.to_multiset(),
{

    let ghost all = v@;
    let mut input = v;
    let mut out: Vec<T> = Vec::new();
    proof {
        to_multiset_len(out@);
        lemma_multiset_empty_len::<T>(out@.to_multiset());
        assert(out@.to_multiset().add(input@.to_multiset()) =~= all.to_multiset());
    }
    while input.len() > 0
        invariant
            sorted_by_date_desc(out@),
            out@.to_multiset().add(input@.to_multiset()) =~= all.to_multiset(),
        decreases input@.len(),
    {
        let ghost input_pre = input@;
        let x = match input.pop() {
            Some(x) => x,
            None => unreached(),
        };
        proof {
            assert(input_pre.drop_last() =~= input_pre.remove(input_pre.len() - 1));
            assert(input_pre.contains(x));
        }
        let mut j: usize = 0;
        while j < out.len() && !date_le(&out[j].date(), &x.date())
            invariant
                j <= out@.len(),
                forall|k: int| 0 <= k < j ==> !spec_date_le(out@[k].spec_date(), x.spec_date()),
            decreases out@.len() - j,
        {
            j += 1;
        }
        let ghost out_pre = out@;
        out.insert(j, x);
        proof {
            out_pre.insert_ensures(j as int, x);
            assert forall|a: int, b: int| 0 <= a < b < out@.len() implies spec_date_le(
                out@[b].spec_date(),
                out@[a].spec_date(),
            ) by {
                if b < j {
                    assert(out@[a] == out_pre[a] && out@[b] == out_pre[b]);
                } else if b == j {
                    assert(out@[a] == out_pre[a]);
                    assert(!spec_date_le(out_pre[a].spec_date(), x.spec_date()));
                } else {
                    assert(out@[b] == out_pre[b - 1]);
                    if a < j {
                        assert(out@[a] == out_pre[a]);
                    } else if a == j {
                        assert(j < out_pre.len());
                        assert(spec_date_le(out_pre[j as int].spec_date(), x.spec_date()));
                        if j < b - 1 {
                            assert(spec_date_le(
                                out_pre[b - 1].spec_date(),
                                out_pre[j as int].spec_date(),
                            ));
                        }
                    } else {
                        assert(out@[a] == out_pre[a - 1]);
                    }
                }
            }
            to_multiset_insert(out_pre, j as int, x);
            to_multiset_remove(input_pre, input_pre.len() - 1);
            to_multiset_contains(input_pre, x);
            assert(input_pre.to_multiset().count(x) > 0);
            assert(out@.to_multiset().add(input@.to_multiset()) =~= all.to_multiset());
        }
    }
    proof {
        to_multiset_len(input@);
        lemma_multiset_empty_len::<T>(input@.to_multiset());
        assert(out@.to_multiset() =~= all.to_multiset());
    }
    out
}

} // verus!
