//! Named records in the order of their names: what a table of a manifest or
//! of the registry index is kept as.

use crate::document::distinct_keys;
use crate::shape::named_views;
use vstd::prelude::*;
use vstd::string::*;

verus! {

/// `a` comes before `b` in the order of strings: at the first place where
/// the two differ `a` has the character with the lower code point, or `a`
/// ends there and `b` goes on.
pub open spec fn precedes(a: Seq<char>, b: Seq<char>) -> bool
    decreases a.len(),
{
    if b.len() == 0 {
        false
    } else if a.len() == 0 {
        true
    } else if a[0] != b[0] {
        (a[0] as int) < (b[0] as int)
    } else {
        precedes(a.drop_first(), b.drop_first())
    }
}

/// Whether `a` comes before `b` in the order of strings.
pub fn comes_before(a: &str, b: &str) -> (r: bool)
    ensures
        r == precedes(a@, b@),
{
    let n = a.unicode_len();
    let m = b.unicode_len();
    let mut i: usize = 0;
    proof {
        assert(a@.skip(0) == a@);
        assert(b@.skip(0) == b@);
    }
    while i < n && i < m
        invariant
            i <= n,
            i <= m,
            n == a@.len(),
            m == b@.len(),
            precedes(a@, b@) == precedes(a@.skip(i as int), b@.skip(i as int)),
        decreases n - i,
    {
        let x = a.get_char(i);
        let y = b.get_char(i);
        proof {
            assert(a@.skip(i as int)[0] == x);
            assert(b@.skip(i as int)[0] == y);
            assert(a@.skip(i as int).drop_first() == a@.skip(i + 1));
            assert(b@.skip(i as int).drop_first() == b@.skip(i + 1));
        }
        if x != y {
            return x < y;
        }
        i += 1;
    }
    proof {
        assert(a@.skip(i as int).len() == n - i);
        assert(b@.skip(i as int).len() == m - i);
    }
    i < m
}

/// No string comes before itself.
pub proof fn lemma_precedes_irreflexive(a: Seq<char>)
    ensures
        !precedes(a, a),
    decreases a.len(),
{
    if a.len() > 0 {
        lemma_precedes_irreflexive(a.drop_first());
    }
}

/// Of two different strings one comes before the other.
pub proof fn lemma_precedes_total(a: Seq<char>, b: Seq<char>)
    ensures
        a == b || precedes(a, b) || precedes(b, a),
    decreases a.len(),
{
    if a.len() == 0 || b.len() == 0 {
        if a.len() == 0 && b.len() == 0 {
            assert(a == b);
        }
    } else if a[0] == b[0] {
        lemma_precedes_total(a.drop_first(), b.drop_first());
        if a.drop_first() == b.drop_first() {
            assert(a == seq![a[0]] + a.drop_first());
            assert(b == seq![b[0]] + b.drop_first());
        }
    } else {
        assert(a[0] as int != b[0] as int);
    }
}

/// What comes before a string comes before everything after it.
pub proof fn lemma_precedes_transitive(a: Seq<char>, b: Seq<char>, c: Seq<char>)
    requires
        precedes(a, b),
        precedes(b, c),
    ensures
        precedes(a, c),
    decreases a.len(),
{
    if a.len() > 0 && a[0] == b[0] && b[0] == c[0] {
        lemma_precedes_transitive(a.drop_first(), b.drop_first(), c.drop_first());
    }
}

/// The names ascend: each record comes before all that follow it, so no
/// name occurs twice.
pub open spec fn ascending<V>(records: Seq<(Seq<char>, V)>) -> bool {
    forall|i: int, j: int|
        0 <= i < j < records.len() ==> precedes(
            (#[trigger] records[i]).0,
            (#[trigger] records[j]).0,
        )
}

/// Among ascending records no name occurs twice.
pub proof fn lemma_ascending_names_differ<V>(records: Seq<(Seq<char>, V)>)
    requires
        ascending(records),
    ensures
        distinct_keys(records),
{
    assert forall|i: int, j: int| 0 <= i < j < records.len() implies (#[trigger] records[i]).0 != (
    #[trigger] records[j]).0 by {
        lemma_precedes_irreflexive(records[i].0);
    }
}

/// The records with one more put among them: at the place of the record of
/// the same name where there is one, else before the first record whose name
/// comes after.
pub open spec fn put<V>(records: Seq<(Seq<char>, V)>, name: Seq<char>, value: V) -> Seq<
    (Seq<char>, V),
>
    decreases records.len(),
{
    if records.len() == 0 {
        seq![(name, value)]
    } else if precedes(records[0].0, name) {
        seq![records[0]] + put(records.drop_first(), name, value)
    } else if records[0].0 == name {
        seq![(name, value)] + records.drop_first()
    } else {
        seq![(name, value)] + records
    }
}

/// The records as a map keeps them: in the order of their names, and of two
/// records of one name the later one only.
pub open spec fn in_name_order<V>(records: Seq<(Seq<char>, V)>) -> Seq<(Seq<char>, V)>
    decreases records.len(),
{
    if records.len() == 0 {
        Seq::empty()
    } else {
        put(in_name_order(records.drop_last()), records.last().0, records.last().1)
    }
}

/// Where the first `at` records come before `name` and the next one does
/// not, the new record goes to the place `at`.
pub proof fn lemma_put_at<V>(records: Seq<(Seq<char>, V)>, name: Seq<char>, value: V, at: int)
    requires
        0 <= at <= records.len(),
        forall|k: int| 0 <= k < at ==> precedes((#[trigger] records[k]).0, name),
        at < records.len() ==> !precedes(records[at].0, name),
    ensures
        put(records, name, value) == if at < records.len() && records[at].0 == name {
            records.update(at, (name, value))
        } else {
            records.insert(at, (name, value))
        },
    decreases at,
{
    if at == 0 {
        if records.len() > 0 {
            if records[0].0 == name {
                assert(seq![(name, value)] + records.drop_first() == records.update(
                    0,
                    (name, value),
                ));
            } else {
                assert(seq![(name, value)] + records == records.insert(0, (name, value)));
            }
        } else {
            assert(seq![(name, value)] == records.insert(0, (name, value)));
        }
    } else {
        let rest = records.drop_first();
        assert(precedes(records[0].0, name));
        assert forall|k: int| 0 <= k < at - 1 implies precedes((#[trigger] rest[k]).0, name) by {
            assert(rest[k] == records[k + 1]);
        }
        lemma_put_at(rest, name, value, at - 1);
        if at < records.len() && records[at].0 == name {
            assert(seq![records[0]] + rest.update(at - 1, (name, value)) == records.update(
                at,
                (name, value),
            ));
        } else {
            assert(seq![records[0]] + rest.insert(at - 1, (name, value)) == records.insert(
                at,
                (name, value),
            ));
        }
    }
}

/// Putting a record among ascending records leaves them ascending.
pub proof fn lemma_put_ascending<V>(records: Seq<(Seq<char>, V)>, name: Seq<char>, value: V)
    requires
        ascending(records),
    ensures
        ascending(put(records, name, value)),
        forall|k: int|
            0 <= k < put(records, name, value).len() ==> (#[trigger] put(
                records,
                name,
                value,
            )[k]).0 == name || exists|j: int|
                0 <= j < records.len() && (#[trigger] records[j]).0 == put(
                    records,
                    name,
                    value,
                )[k].0,
    decreases records.len(),
{
    let out = put(records, name, value);
    if records.len() == 0 {
    } else if precedes(records[0].0, name) {
        let rest = records.drop_first();
        assert forall|i: int, j: int| 0 <= i < j < rest.len() implies precedes(
            (#[trigger] rest[i]).0,
            (#[trigger] rest[j]).0,
        ) by {
            assert(rest[i] == records[i + 1]);
            assert(rest[j] == records[j + 1]);
        }
        lemma_put_ascending(rest, name, value);
        let inner = put(rest, name, value);
        assert(out == seq![records[0]] + inner);
        assert forall|i: int, j: int| 0 <= i < j < out.len() implies precedes(
            (#[trigger] out[i]).0,
            (#[trigger] out[j]).0,
        ) by {
            assert(out[j] == inner[j - 1]);
            if i == 0 {
                if inner[j - 1].0 != name {
                    let m = choose|m: int|
                        0 <= m < rest.len() && (#[trigger] rest[m]).0 == inner[j - 1].0;
                    assert(rest[m] == records[m + 1]);
                    assert(precedes(records[0].0, records[m + 1].0));
                }
            } else {
                assert(out[i] == inner[i - 1]);
            }
        }
        assert forall|k: int| 0 <= k < out.len() implies (#[trigger] out[k]).0 == name || exists|
            j: int,
        | 0 <= j < records.len() && (#[trigger] records[j]).0 == out[k].0 by {
            if k == 0 {
                assert(records[0].0 == out[0].0);
            } else {
                assert(out[k] == inner[k - 1]);
                if inner[k - 1].0 != name {
                    let m = choose|m: int|
                        0 <= m < rest.len() && (#[trigger] rest[m]).0 == inner[k - 1].0;
                    assert(rest[m] == records[m + 1]);
                    assert(records[m + 1].0 == out[k].0);
                }
            }
        }
    } else if records[0].0 == name {
        assert(out == records.update(0, (name, value)));
        assert forall|i: int, j: int| 0 <= i < j < out.len() implies precedes(
            (#[trigger] out[i]).0,
            (#[trigger] out[j]).0,
        ) by {
            assert(out[i].0 == records[i].0);
            assert(out[j].0 == records[j].0);
        }
        assert forall|k: int| 0 <= k < out.len() implies (#[trigger] out[k]).0 == name || exists|
            j: int,
        | 0 <= j < records.len() && (#[trigger] records[j]).0 == out[k].0 by {
            assert(records[k].0 == out[k].0);
        }
    } else {
        lemma_precedes_total(records[0].0, name);
        assert(out == seq![(name, value)] + records);
        assert forall|i: int, j: int| 0 <= i < j < out.len() implies precedes(
            (#[trigger] out[i]).0,
            (#[trigger] out[j]).0,
        ) by {
            assert(out[j] == records[j - 1]);
            if i == 0 {
                if j > 1 {
                    assert(precedes(records[0].0, records[j - 1].0));
                    lemma_precedes_transitive(name, records[0].0, records[j - 1].0);
                }
            } else {
                assert(out[i] == records[i - 1]);
            }
        }
        assert forall|k: int| 0 <= k < out.len() implies (#[trigger] out[k]).0 == name || exists|
            j: int,
        | 0 <= j < records.len() && (#[trigger] records[j]).0 == out[k].0 by {
            if k > 0 {
                assert(records[k - 1].0 == out[k].0);
            }
        }
    }
}

/// Puts a record among ascending records.
pub fn put_record<T: View>(records: &mut Vec<(String, T)>, name: String, value: T)
    requires
        ascending(named_views(old(records)@)),
    ensures
        named_views(final(records)@) == put(named_views(old(records)@), name@, value@),
        ascending(named_views(final(records)@)),
{
    let ghost before = named_views(records@);
    let mut at: usize = 0;
    while at < records.len() && comes_before(records[at].0.as_str(), name.as_str())
        invariant
            at <= records.len(),
            before == named_views(records@),
            forall|k: int| 0 <= k < at ==> precedes((#[trigger] before[k]).0, name@),
        decreases records.len() - at,
    {
        at += 1;
    }
    proof {
        lemma_put_at(before, name@, value@, at as int);
        lemma_put_ascending(before, name@, value@);
    }
    if at < records.len() && records[at].0 == name {
        records.remove(at);
        records.insert(at, (name, value));
        assert(named_views(records@) == before.update(at as int, (name@, value@)));
    } else {
        records.insert(at, (name, value));
        assert(named_views(records@) == before.insert(at as int, (name@, value@)));
    }
}

/// Whether the names of the records ascend.
pub fn is_ascending<T: View>(records: &Vec<(String, T)>) -> (r: bool)
    ensures
        r == ascending(named_views(records@)),
{
    let ghost all = named_views(records@);
    let mut i: usize = 1;
    while i < records.len()
        invariant
            1 <= i,
            all == named_views(records@),
            forall|j: int, k: int|
                0 <= j < k < i && k < all.len() ==> precedes(
                    (#[trigger] all[j]).0,
                    (#[trigger] all[k]).0,
                ),
        decreases records.len() - i,
    {
        if !comes_before(records[i - 1].0.as_str(), records[i].0.as_str()) {
            assert(!precedes(all[i - 1].0, all[i as int].0));
            return false;
        }
        proof {
            assert forall|j: int, k: int| 0 <= j < k < i + 1 && k < all.len() implies precedes(
                (#[trigger] all[j]).0,
                (#[trigger] all[k]).0,
            ) by {
                if k == i && j < i - 1 {
                    assert(precedes(all[j].0, all[i - 1].0));
                    lemma_precedes_transitive(all[j].0, all[i - 1].0, all[i as int].0);
                }
            }
        }
        i += 1;
    }
    true
}

} // verus!
