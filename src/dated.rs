//! Lists of holidays with their dates, and their order in the calendar.
use crate::date::{is_before, Date, Ymd};
use crate::holidays::GermanHoliday;
use vstd::prelude::*;

verus! {

/// The model of a list of dated holidays.
pub open spec fn dated_view(s: Seq<(Date, GermanHoliday)>) -> Seq<(Ymd, GermanHoliday)> {
    s.map_values(|p: (Date, GermanHoliday)| (p.0@, p.1))
}

/// `x` inserted into `s` after every entry whose date is not later than that of `x`.
pub open spec fn insert_by_date(s: Seq<(Ymd, GermanHoliday)>, x: (Ymd, GermanHoliday)) -> Seq<
    (Ymd, GermanHoliday),
>
    decreases s.len(),
{
    if s.len() == 0 {
        seq![x]
    } else if is_before(x.0, s.last().0) {
        insert_by_date(s.drop_last(), x).push(s.last())
    } else {
        s.push(x)
    }
}

/// `s` sorted by date; entries with the same date keep their order.
pub open spec fn sort_by_date(s: Seq<(Ymd, GermanHoliday)>) -> Seq<(Ymd, GermanHoliday)>
    decreases s.len(),
{
    if s.len() == 0 {
        seq![]
    } else {
        insert_by_date(sort_by_date(s.drop_last()), s.last())
    }
}

/// Inserts `x` after every entry whose date is not later than that of `x`.
pub(crate) fn insert_by_date_into(v: &mut Vec<(Date, GermanHoliday)>, x: (Date, GermanHoliday))
    ensures
        dated_view(final(v)@) == insert_by_date(dated_view(old(v)@), (x.0@, x.1)),
{
    let ghost s = dated_view(v@);
    let ghost y = (x.0@, x.1);
    let mut p: usize = v.len();
    assert(s.take(p as int) =~= s);
    assert(s.skip(p as int) =~= Seq::<(Ymd, GermanHoliday)>::empty());
    while p > 0 && x.0.is_before(&v[p - 1].0)
        invariant
            p <= v@.len(),
            s == dated_view(v@),
            y == (x.0@, x.1),
            insert_by_date(s, y) == insert_by_date(s.take(p as int), y) + s.skip(p as int),
        decreases p,
    {
        assert(s.take(p as int).drop_last() =~= s.take(p - 1));
        assert(s.take(p - 1) + s.skip(p - 1) =~= s);
        assert(seq![s[p - 1]] + s.skip(p as int) =~= s.skip(p - 1));
        assert(insert_by_date(s.take(p - 1), y).push(s[p - 1]) + s.skip(p as int)
            =~= insert_by_date(s.take(p - 1), y) + s.skip(p - 1));
        p -= 1;
    }
    v.insert(p, x);
    assert(dated_view(v@) =~= s.take(p as int).push(y) + s.skip(p as int));
    if p == 0 {
        assert(s.take(0) =~= Seq::<(Ymd, GermanHoliday)>::empty());
    }
}

/// Each entry comes on or after the date of every entry before it.
pub open spec fn is_sorted_by_date(s: Seq<(Ymd, GermanHoliday)>) -> bool {
    forall|i: int, j: int|
        0 <= i < j < s.len() ==> !is_before(#[trigger] s[j].0, #[trigger] s[i].0)
}

/// Each entry comes strictly after the date of every entry before it.
pub open spec fn is_strictly_increasing(s: Seq<(Ymd, GermanHoliday)>) -> bool {
    forall|i: int, j: int| 0 <= i < j < s.len() ==> is_before(#[trigger] s[i].0, #[trigger] s[j].0)
}

/// No two entries share a date.
pub open spec fn has_distinct_dates(s: Seq<(Ymd, GermanHoliday)>) -> bool {
    forall|i: int, j: int| 0 <= i < j < s.len() ==> #[trigger] s[i].0 != #[trigger] s[j].0
}

/// Inserting `x` adds one entry, and every entry of the result is `x` or one of `s`.
pub proof fn lemma_insert_entries(s: Seq<(Ymd, GermanHoliday)>, x: (Ymd, GermanHoliday))
    ensures
        insert_by_date(s, x).len() == s.len() + 1,
        forall|k: int|
            0 <= k < s.len() + 1 ==> #[trigger] insert_by_date(s, x)[k] == x || s.contains(
                insert_by_date(s, x)[k],
            ),
    decreases s.len(),
{
    if s.len() > 0 && is_before(x.0, s.last().0) {
        let t = s.drop_last();
        lemma_insert_entries(t, x);
        assert forall|k: int| 0 <= k < s.len() + 1 implies #[trigger] insert_by_date(s, x)[k] == x
            || s.contains(insert_by_date(s, x)[k]) by {
            if k < s.len() {
                let e = insert_by_date(t, x)[k];
                if e != x {
                    let m = choose|m: int| 0 <= m < t.len() && t[m] == e;
                    assert(s[m] == e);
                }
            } else {
                assert(s[s.len() - 1] == s.last());
            }
        }
    } else if s.len() > 0 {
        assert forall|k: int| 0 <= k < s.len() + 1 implies #[trigger] insert_by_date(s, x)[k] == x
            || s.contains(insert_by_date(s, x)[k]) by {
            if k < s.len() {
                assert(s[k] == insert_by_date(s, x)[k]);
            }
        }
    }
}

/// Sorting keeps the number of entries, and every entry of the result is one of `s`.
pub proof fn lemma_sort_entries(s: Seq<(Ymd, GermanHoliday)>)
    ensures
        sort_by_date(s).len() == s.len(),
        forall|k: int| 0 <= k < s.len() ==> s.contains(#[trigger] sort_by_date(s)[k]),
    decreases s.len(),
{
    if s.len() > 0 {
        let t = s.drop_last();
        lemma_sort_entries(t);
        lemma_insert_entries(sort_by_date(t), s.last());
        assert forall|k: int| 0 <= k < s.len() implies s.contains(#[trigger] sort_by_date(s)[k]) by {
            let e = sort_by_date(s)[k];
            if e == s.last() {
                assert(s[s.len() - 1] == e);
            } else {
                let n = choose|n: int| 0 <= n < t.len() && sort_by_date(t)[n] == e;
                let m = choose|m: int| 0 <= m < t.len() && t[m] == sort_by_date(t)[n];
                assert(s[m] == e);
            }
        }
    }
}

/// Inserting into a list in calendar order keeps it in calendar order.
pub proof fn lemma_insert_sorted(s: Seq<(Ymd, GermanHoliday)>, x: (Ymd, GermanHoliday))
    requires
        is_sorted_by_date(s),
    ensures
        is_sorted_by_date(insert_by_date(s, x)),
    decreases s.len(),
{
    if s.len() > 0 && is_before(x.0, s.last().0) {
        let t = s.drop_last();
        lemma_insert_sorted(t, x);
        lemma_insert_entries(t, x);
        let r = insert_by_date(s, x);
        assert forall|i: int, j: int| 0 <= i < j < r.len() implies !is_before(
            #[trigger] r[j].0,
            #[trigger] r[i].0,
        ) by {
            if j == r.len() - 1 {
                let e = insert_by_date(t, x)[i];
                if e != x {
                    let m = choose|m: int| 0 <= m < t.len() && t[m] == e;
                    assert(s[m] == e);
                    assert(s[s.len() - 1] == s.last());
                }
            } else {
                assert(r[i] == insert_by_date(t, x)[i]);
                assert(r[j] == insert_by_date(t, x)[j]);
            }
        }
    } else if s.len() > 0 {
        let r = insert_by_date(s, x);
        assert forall|i: int, j: int| 0 <= i < j < r.len() implies !is_before(
            #[trigger] r[j].0,
            #[trigger] r[i].0,
        ) by {
            assert(s[s.len() - 1] == s.last());
            if j == r.len() - 1 && i < s.len() - 1 {
                assert(!is_before(s[s.len() - 1].0, s[i].0));
            }
        }
    }
}

/// Sorting by date yields a list in calendar order.
pub proof fn lemma_sort_sorted(s: Seq<(Ymd, GermanHoliday)>)
    ensures
        is_sorted_by_date(sort_by_date(s)),
    decreases s.len(),
{
    if s.len() > 0 {
        lemma_sort_sorted(s.drop_last());
        lemma_insert_sorted(sort_by_date(s.drop_last()), s.last());
    }
}

/// Inserting an entry whose date no entry of `s` has keeps the dates distinct.
pub proof fn lemma_insert_distinct(s: Seq<(Ymd, GermanHoliday)>, x: (Ymd, GermanHoliday))
    requires
        has_distinct_dates(s),
        forall|m: int| 0 <= m < s.len() ==> #[trigger] s[m].0 != x.0,
    ensures
        has_distinct_dates(insert_by_date(s, x)),
    decreases s.len(),
{
    if s.len() > 0 && is_before(x.0, s.last().0) {
        let t = s.drop_last();
        assert forall|m: int| 0 <= m < t.len() implies #[trigger] t[m].0 != x.0 by {
            assert(s[m] == t[m]);
        }
        lemma_insert_distinct(t, x);
        lemma_insert_entries(t, x);
        let r = insert_by_date(s, x);
        assert forall|i: int, j: int| 0 <= i < j < r.len() implies #[trigger] r[i].0
            != #[trigger] r[j].0 by {
            if j == r.len() - 1 {
                let e = insert_by_date(t, x)[i];
                assert(s[s.len() - 1] == s.last());
                if e != x {
                    let m = choose|m: int| 0 <= m < t.len() && t[m] == e;
                    assert(s[m] == e);
                }
            } else {
                assert(r[i] == insert_by_date(t, x)[i]);
                assert(r[j] == insert_by_date(t, x)[j]);
            }
        }
    } else if s.len() > 0 {
        let r = insert_by_date(s, x);
        assert forall|i: int, j: int| 0 <= i < j < r.len() implies #[trigger] r[i].0
            != #[trigger] r[j].0 by {
            if j == r.len() - 1 {
                assert(s[i] == r[i]);
            } else {
                assert(s[i] == r[i]);
                assert(s[j] == r[j]);
            }
        }
    }
}

/// Sorting a list whose dates are distinct yields distinct dates.
pub proof fn lemma_sort_distinct(s: Seq<(Ymd, GermanHoliday)>)
    requires
        has_distinct_dates(s),
    ensures
        has_distinct_dates(sort_by_date(s)),
    decreases s.len(),
{
    if s.len() > 0 {
        let t = s.drop_last();
        assert(has_distinct_dates(t)) by {
            assert forall|i: int, j: int| 0 <= i < j < t.len() implies #[trigger] t[i].0
                != #[trigger] t[j].0 by {
                assert(s[i] == t[i] && s[j] == t[j]);
            }
        }
        lemma_sort_distinct(t);
        lemma_sort_entries(t);
        let u = sort_by_date(t);
        assert forall|m: int| 0 <= m < u.len() implies #[trigger] u[m].0 != s.last().0 by {
            let n = choose|n: int| 0 <= n < t.len() && t[n] == u[m];
            assert(s[n] == t[n]);
            assert(s[s.len() - 1] == s.last());
        }
        lemma_insert_distinct(u, s.last());
    }
}

/// A list in calendar order whose dates are distinct is strictly increasing.
pub proof fn lemma_sorted_distinct_strictly_increasing(s: Seq<(Ymd, GermanHoliday)>)
    requires
        is_sorted_by_date(s),
        has_distinct_dates(s),
    ensures
        is_strictly_increasing(s),
{
    assert forall|i: int, j: int| 0 <= i < j < s.len() implies is_before(
        #[trigger] s[i].0,
        #[trigger] s[j].0,
    ) by {
        assert(!is_before(s[j].0, s[i].0));
        assert(s[i].0 != s[j].0);
    }
}


} // verus!
