//! The dated entries of a forecast: a list of dates with their temperatures,
//! kept in ascending order of date with no date twice.

use vstd::prelude::*;
use crate::date::{
    compare_dates, date_before, lemma_date_before_asymmetric, lemma_date_before_transitive, Date,
    DateOrder,
};

verus! {

/// A temperature in thousandths of a degree Celsius.
pub type Temperature = i64;

/// What a list of dated temperatures holds: each date as text, each
/// temperature as a number.
pub open spec fn entries_of(items: Seq<(Date, Temperature)>) -> Seq<(Seq<char>, int)> {
    Seq::new(items.len(), |i: int| (items[i].0@, items[i].1 as int))
}

/// Each entry is dated before every entry that follows it.
pub open spec fn ascending(entries: Seq<(Seq<char>, int)>) -> bool {
    forall|i: int, j: int|
        0 <= i < j < entries.len() ==> date_before(
            (#[trigger] entries[i]).0,
            (#[trigger] entries[j]).0,
        )
}

/// Entry `i` of `entries` is the one for `date`.
pub open spec fn dated_at(entries: Seq<(Seq<char>, int)>, date: Seq<char>, i: int) -> bool {
    0 <= i < entries.len() && entries[i].0 == date
}

/// The entries read as a mapping from date to temperature.
pub open spec fn items_of(entries: Seq<(Seq<char>, int)>) -> Map<Seq<char>, int> {
    Map::new(
        |date: Seq<char>| exists|i: int| dated_at(entries, date, i),
        |date: Seq<char>| entries[choose|i: int| dated_at(entries, date, i)].1,
    )
}

/// What a list of dated temperatures amounts to when it is read from front to
/// back and a later entry for a date replaces an earlier one.
pub open spec fn collected(raw: Seq<(Seq<char>, int)>) -> Map<Seq<char>, int>
    decreases raw.len(),
{
    if raw.len() == 0 {
        Map::empty()
    } else {
        collected(raw.drop_last()).insert(raw.last().0, raw.last().1)
    }
}

/// In ascending entries no date occurs twice.
pub proof fn lemma_ascending_distinct(entries: Seq<(Seq<char>, int)>, i: int, j: int)
    requires
        ascending(entries),
        0 <= i < entries.len(),
        0 <= j < entries.len(),
        entries[i].0 == entries[j].0,
    ensures
        i == j,
{
    if i < j {
        lemma_date_before_asymmetric(entries[i].0, entries[j].0);
    } else if j < i {
        lemma_date_before_asymmetric(entries[j].0, entries[i].0);
    }
}

/// Ascending entries map each of their dates to the temperature beside it.
pub proof fn lemma_items_of_entry(entries: Seq<(Seq<char>, int)>, i: int)
    requires
        ascending(entries),
        0 <= i < entries.len(),
    ensures
        items_of(entries).contains_key(entries[i].0),
        items_of(entries)[entries[i].0] == entries[i].1,
{
    let date = entries[i].0;
    assert(dated_at(entries, date, i));
    let k = choose|k: int| dated_at(entries, date, k);
    lemma_ascending_distinct(entries, i, k);
}

/// Two ascending lists that hold the same mapping are the same list.
pub proof fn lemma_ascending_unique(a: Seq<(Seq<char>, int)>, b: Seq<(Seq<char>, int)>)
    requires
        ascending(a),
        ascending(b),
        items_of(a) == items_of(b),
    ensures
        a == b,
    decreases a.len(),
{
    if a.len() == 0 {
        if b.len() > 0 {
            lemma_items_of_entry(b, 0);
            let k = choose|k: int| dated_at(a, b[0].0, k);
        }
        assert(a =~= b);
    } else if b.len() == 0 {
        lemma_items_of_entry(a, 0);
        let k = choose|k: int| dated_at(b, a[0].0, k);
    } else {
        // The last entry of each list holds its latest date, so they agree.
        let n = a.len() - 1;
        let m = b.len() - 1;
        lemma_items_of_entry(a, n);
        lemma_items_of_entry(b, m);
        assert(items_of(b).contains_key(a[n].0));
        let p = choose|p: int| dated_at(b, a[n].0, p);
        assert(items_of(a).contains_key(b[m].0));
        let q = choose|q: int| dated_at(a, b[m].0, q);
        if p < m {
            if q < n {
                lemma_date_before_transitive(a[q].0, a[n].0, b[m].0);
            }
            lemma_date_before_asymmetric(b[p].0, b[m].0);
        }
        assert(a[n].0 == b[m].0);
        assert(a[n].1 == b[m].1);
        let a0 = a.drop_last();
        let b0 = b.drop_last();
        assert forall|d: Seq<char>|
            items_of(a0).contains_key(d) == items_of(b0).contains_key(d) by {
            if items_of(a0).contains_key(d) {
                let i = choose|i: int| dated_at(a0, d, i);
                assert(dated_at(a, d, i));
                assert(items_of(a).contains_key(d));
                let j = choose|j: int| dated_at(b, d, j);
                if j == m {
                    lemma_ascending_distinct(a, i, n);
                }
                assert(dated_at(b0, d, j));
            }
            if items_of(b0).contains_key(d) {
                let j = choose|j: int| dated_at(b0, d, j);
                assert(dated_at(b, d, j));
                assert(items_of(b).contains_key(d));
                let i = choose|i: int| dated_at(a, d, i);
                if i == n {
                    lemma_ascending_distinct(b, j, m);
                }
                assert(dated_at(a0, d, i));
            }
        }
        assert forall|d: Seq<char>| items_of(a0).contains_key(d) implies items_of(a0)[d]
            == items_of(b0)[d] by {
            let i = choose|i: int| dated_at(a0, d, i);
            let j = choose|j: int| dated_at(b0, d, j);
            lemma_items_of_entry(a0, i);
            lemma_items_of_entry(a, i);
            lemma_items_of_entry(b0, j);
            lemma_items_of_entry(b, j);
        }
        assert(items_of(a0) =~= items_of(b0));
        lemma_ascending_unique(a0, b0);
        assert(a =~= a0.push(a[n]));
        assert(b =~= b0.push(b[m]));
    }
}

/// Entries that already stand in ascending order amount to themselves when
/// they are read from front to back.
pub proof fn lemma_collected_ascending(raw: Seq<(Seq<char>, int)>)
    requires
        ascending(raw),
    ensures
        collected(raw) == items_of(raw),
    decreases raw.len(),
{
    if raw.len() == 0 {
        assert forall|d: Seq<char>| !items_of(raw).contains_key(d) by {
            if items_of(raw).contains_key(d) {
                let i = choose|i: int| dated_at(raw, d, i);
            }
        }
        assert(collected(raw) =~= items_of(raw));
    } else {
        let rest = raw.drop_last();
        let n = raw.len() - 1;
        assert forall|i: int, j: int| 0 <= i < j < rest.len() implies date_before(
            (#[trigger] rest[i]).0,
            (#[trigger] rest[j]).0,
        ) by {
            assert(rest[i] == raw[i]);
            assert(rest[j] == raw[j]);
        }
        lemma_collected_ascending(rest);
        let grown = items_of(rest).insert(raw[n].0, raw[n].1);
        assert forall|d: Seq<char>| items_of(raw).contains_key(d) == grown.contains_key(d) by {
            if items_of(raw).contains_key(d) {
                let i = choose|i: int| dated_at(raw, d, i);
                if i < n {
                    assert(dated_at(rest, d, i));
                }
            }
            if items_of(rest).contains_key(d) {
                let i = choose|i: int| dated_at(rest, d, i);
                assert(dated_at(raw, d, i));
            }
            if d == raw[n].0 {
                assert(dated_at(raw, d, n));
            }
        }
        assert forall|d: Seq<char>| items_of(raw).contains_key(d) implies items_of(raw)[d]
            == grown[d] by {
            let i = choose|i: int| dated_at(raw, d, i);
            lemma_items_of_entry(raw, i);
            if i < n {
                if d == raw[n].0 {
                    lemma_ascending_distinct(raw, i, n);
                }
                assert(dated_at(rest, d, i));
                lemma_items_of_entry(rest, i);
            }
        }
        assert(items_of(raw) =~= grown);
    }
}

/// Finds the place of `date` among ascending entries: the index of its entry
/// where it has one, else the index at which an entry for it would stand.
pub(crate) fn locate(items: &Vec<(Date, Temperature)>, date: &str) -> (place: (usize, bool))
    requires
        ascending(entries_of(items@)),
    ensures
        place.0 <= items.len(),
        forall|i: int|
            0 <= i < place.0 ==> date_before((#[trigger] entries_of(items@)[i]).0, date@),
        place.1 ==> dated_at(entries_of(items@), date@, place.0 as int),
        !place.1 ==> forall|i: int|
            place.0 <= i < items.len() ==> date_before(
                date@,
                (#[trigger] entries_of(items@)[i]).0,
            ),
        place.1 <==> items_of(entries_of(items@)).contains_key(date@),
{
    let ghost entries = entries_of(items@);
    let mut low: usize = 0;
    let mut high: usize = items.len();
    while low < high
        invariant
            entries == entries_of(items@),
            ascending(entries),
            low <= high <= items.len(),
            forall|i: int| 0 <= i < low ==> date_before((#[trigger] entries[i]).0, date@),
            forall|i: int|
                high <= i < items.len() ==> !date_before((#[trigger] entries[i]).0, date@),
        decreases high - low,
    {
        let middle: usize = low + (high - low) / 2;
        let order = compare_dates(items[middle].0.as_str(), date);
        assert(entries[middle as int].0 == items@[middle as int].0@);
        match order {
            DateOrder::Earlier => {
                proof {
                    assert forall|i: int| 0 <= i < middle + 1 implies date_before(
                        (#[trigger] entries[i]).0,
                        date@,
                    ) by {
                        if i < middle {
                            lemma_date_before_transitive(
                                entries[i].0,
                                entries[middle as int].0,
                                date@,
                            );
                        }
                    }
                }
                low = middle + 1;
            },
            _ => {
                proof {
                    assert forall|i: int| middle <= i < items.len() implies !date_before(
                        (#[trigger] entries[i]).0,
                        date@,
                    ) by {
                        if middle < i && date_before(entries[i].0, date@) {
                            lemma_date_before_transitive(
                                entries[middle as int].0,
                                entries[i].0,
                                date@,
                            );
                        }
                    }
                }
                high = middle;
            },
        }
    }
    let mut found = false;
    if low < items.len() {
        let order = compare_dates(items[low].0.as_str(), date);
        assert(entries[low as int].0 == items@[low as int].0@);
        found = order == DateOrder::Same;
        proof {
            if !found {
                assert(order == DateOrder::Later);
                assert forall|i: int| low <= i < items.len() implies date_before(
                    date@,
                    (#[trigger] entries[i]).0,
                ) by {
                    if low < i {
                        lemma_date_before_transitive(date@, entries[low as int].0, entries[i].0);
                    }
                }
            }
        }
    }
    proof {
        if found {
            assert(dated_at(entries, date@, low as int));
        } else if items_of(entries).contains_key(date@) {
            let k = choose|k: int| dated_at(entries, date@, k);
            if k < low {
                lemma_date_before_asymmetric(entries[k].0, date@);
            } else {
                lemma_date_before_asymmetric(date@, entries[k].0);
            }
        }
    }
    (low, found)
}

/// Sets the temperature of `date` among ascending entries: the entry for the
/// date is replaced where there is one, else a new entry goes to its place.
pub(crate) fn put(items: &mut Vec<(Date, Temperature)>, date: Date, temperature: Temperature)
    requires
        ascending(entries_of(old(items)@)),
    ensures
        ascending(entries_of(final(items)@)),
        items_of(entries_of(final(items)@)) == items_of(entries_of(old(items)@)).insert(
            date@,
            temperature as int,
        ),
{
    let ghost before = entries_of(items@);
    let ghost entry = (date@, temperature as int);
    let (at, found) = locate(items, date.as_str());
    if found {
        items.set(at, (date, temperature));
        proof {
            let after = entries_of(items@);
            assert(after =~= before.update(at as int, entry));
            assert forall|i: int, j: int| 0 <= i < j < after.len() implies date_before(
                (#[trigger] after[i]).0,
                (#[trigger] after[j]).0,
            ) by {
                assert(after[i].0 == before[i].0);
                assert(after[j].0 == before[j].0);
            }
            assert forall|d: Seq<char>|
                items_of(after).contains_key(d) == items_of(before).insert(
                    entry.0,
                    entry.1,
                ).contains_key(d) by {
                if items_of(after).contains_key(d) {
                    let k = choose|k: int| dated_at(after, d, k);
                    assert(dated_at(before, d, k));
                }
                if items_of(before).contains_key(d) {
                    let k = choose|k: int| dated_at(before, d, k);
                    assert(dated_at(after, d, k));
                }
                if d == entry.0 {
                    assert(dated_at(after, d, at as int));
                }
            }
            assert forall|d: Seq<char>| items_of(after).contains_key(d) implies items_of(
                after,
            )[d] == items_of(before).insert(entry.0, entry.1)[d] by {
                let k = choose|k: int| dated_at(after, d, k);
                lemma_items_of_entry(after, k);
                if k != at {
                    lemma_items_of_entry(before, k);
                    if d == entry.0 {
                        lemma_ascending_distinct(after, k, at as int);
                    }
                }
            }
            assert(items_of(after) =~= items_of(before).insert(entry.0, entry.1));
        }
    } else {
        items.insert(at, (date, temperature));
        proof {
            let after = entries_of(items@);
            assert(after =~= before.insert(at as int, entry));
            assert forall|i: int, j: int| 0 <= i < j < after.len() implies date_before(
                (#[trigger] after[i]).0,
                (#[trigger] after[j]).0,
            ) by {
                if i < at {
                    assert(after[i] == before[i]);
                } else if i > at {
                    assert(after[i] == before[i - 1]);
                }
                if j < at {
                    assert(after[j] == before[j]);
                } else if j > at {
                    assert(after[j] == before[j - 1]);
                }
            }
            assert forall|d: Seq<char>|
                items_of(after).contains_key(d) == items_of(before).insert(
                    entry.0,
                    entry.1,
                ).contains_key(d) by {
                if items_of(after).contains_key(d) {
                    let k = choose|k: int| dated_at(after, d, k);
                    if k < at {
                        assert(dated_at(before, d, k));
                    } else if k > at {
                        assert(dated_at(before, d, k - 1));
                    }
                }
                if items_of(before).contains_key(d) {
                    let k = choose|k: int| dated_at(before, d, k);
                    if k < at {
                        assert(dated_at(after, d, k));
                    } else {
                        assert(dated_at(after, d, k + 1));
                    }
                }
                if d == entry.0 {
                    assert(dated_at(after, d, at as int));
                }
            }
            assert forall|d: Seq<char>| items_of(after).contains_key(d) implies items_of(
                after,
            )[d] == items_of(before).insert(entry.0, entry.1)[d] by {
                let k = choose|k: int| dated_at(after, d, k);
                lemma_items_of_entry(after, k);
                if d == entry.0 {
                    lemma_ascending_distinct(after, k, at as int);
                } else if k < at {
                    lemma_items_of_entry(before, k);
                } else if k > at {
                    lemma_items_of_entry(before, k - 1);
                }
            }
            assert(items_of(after) =~= items_of(before).insert(entry.0, entry.1));
        }
    }
}

} // verus!
