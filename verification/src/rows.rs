//! Rows that come back from the database engine; a row that could not be read is `None`.

use vstd::prelude::*;

use crate::name_map::NameMap;

verus! {

/// The rows that could be read, in order.
pub open spec fn readable<T>(rows: Seq<Option<T>>) -> Seq<T>
    decreases rows.len(),
{
    if rows.len() == 0 {
        Seq::empty()
    } else {
        match rows.last() {
            Some(row) => readable(rows.drop_last()).push(row),
            None => readable(rows.drop_last()),
        }
    }
}

/// Drops the rows that could not be read.
pub fn keep_readable<T>(rows: Vec<Option<T>>) -> (r: Vec<T>)
    ensures
        r@ == readable(rows@),
{
    let ghost all = rows@;
    let mut r: Vec<T> = Vec::new();
    for row in it: rows
        invariant
            it.seq() == all,
            r@ == readable(all.take(it.index() as int)),
    {
        assert(all.take(it.index() + 1).drop_last() =~= all.take(it.index() as int));
        if let Some(row) = row {
            r.push(row);
        }
    }
    assert(all.take(all.len() as int) =~= all);
    r
}

/// The first row that could be read.
pub fn first_readable<T>(rows: Vec<Option<T>>) -> (r: Option<T>)
    ensures
        r == if readable(rows@).len() == 0 {
            None
        } else {
            Some(readable(rows@)[0])
        },
{
    let ghost all = rows@;
    for row in it: rows
        invariant
            it.seq() == all,
            readable(all.take(it.index() as int)).len() == 0,
    {
        let ghost now = all.take(it.index() + 1);
        assert(now.drop_last() =~= all.take(it.index() as int));
        if row.is_some() {
            proof {
                assert(now.last() == row);
                lemma_readable_prefix(all, it.index() + 1);
            }
            return row;
        }
    }
    assert(all.take(all.len() as int) =~= all);
    None
}

proof fn lemma_readable_prefix<T>(rows: Seq<Option<T>>, n: int)
    requires
        0 <= n <= rows.len(),
    ensures
        readable(rows.take(n)).len() <= readable(rows).len(),
        forall|i: int|
            0 <= i < readable(rows.take(n)).len() ==> readable(rows.take(n))[i] == readable(rows)[i],
    decreases rows.len() - n,
{
    if n < rows.len() {
        let next = rows.take(n + 1);
        assert(next.drop_last() =~= rows.take(n));
        lemma_readable_prefix(rows, n + 1);
        assert forall|i: int| 0 <= i < readable(rows.take(n)).len() implies readable(
            rows.take(n),
        )[i] == readable(rows)[i] by {
            assert(readable(next)[i] == readable(rows.take(n))[i]);
        }
    } else {
        assert(rows.take(n) =~= rows);
    }
}

/// The first number that could be read, or 0.
pub fn first_count(rows: Vec<Option<u64>>) -> (r: u64)
    ensures
        r == if readable(rows@).len() == 0 {
            0
        } else {
            readable(rows@)[0]
        },
{
    match first_readable(rows) {
        Some(n) => n,
        None => 0,
    }
}

/// The values of the keys; a later row goes before an earlier one.
pub open spec fn keyed(rows: Seq<(String, String)>) -> Map<Seq<char>, Seq<char>>
    decreases rows.len(),
{
    if rows.len() == 0 {
        Map::empty()
    } else {
        keyed(rows.drop_last()).insert(rows.last().0@, rows.last().1@)
    }
}

/// Collects rows of key and value; a row that could not be read is dropped.
pub fn key_values(rows: Vec<Option<(String, String)>>) -> (r: NameMap)
    ensures
        r.wf(),
        r@ == keyed(readable(rows@)),
{
    let pairs = keep_readable(rows);
    let ghost all = pairs@;
    let mut r = NameMap::new();
    for pair in it: pairs
        invariant
            it.seq() == all,
            r.wf(),
            r@ == keyed(all.take(it.index() as int)),
    {
        assert(all.take(it.index() + 1).drop_last() =~= all.take(it.index() as int));
        r.insert(pair.0, pair.1);
    }
    assert(all.take(all.len() as int) =~= all);
    r
}

/// Turns a list round.
pub fn reversed<T>(v: Vec<T>) -> (r: Vec<T>)
    ensures
        r@ == v@.reverse(),
{
    let ghost all = v@;
    let mut v = v;
    let mut r: Vec<T> = Vec::new();
    while v.len() > 0
        invariant
            v@ == all.take(v@.len() as int),
            v@.len() <= all.len(),
            r@ == all.skip(v@.len() as int).reverse(),
        decreases v@.len(),
    {
        let ghost n = v@.len() as int;
        if let Some(x) = v.pop() {
            r.push(x);
            assert(all.take(n).drop_last() =~= all.take(n - 1));
            assert(all.skip(n - 1).reverse() =~= all.skip(n).reverse().push(all[n - 1]));
        }
    }
    assert(all.skip(0) =~= all);
    r
}

/// Rows that were read one part after another are the readable ones of the
/// parts, one after another; a row that could not be read leaves no trace.
pub proof fn law_readable_rows_stay_in_order<T>(a: Seq<Option<T>>, b: Seq<Option<T>>, row: T)
    ensures
        readable(a + b) == readable(a) + readable(b),
        readable(seq![Some(row)]) == seq![row],
        readable(seq![None::<T>]) == Seq::<T>::empty(),
    decreases b.len(),
{
    let one = seq![Some(row)];
    let none = seq![None::<T>];
    assert(one.drop_last() =~= Seq::empty());
    assert(none.drop_last() =~= Seq::empty());
    assert(readable(Seq::<Option<T>>::empty()) =~= Seq::<T>::empty());
    assert(readable(one) =~= seq![row]);
    if b.len() == 0 {
        assert(a + b =~= a);
        assert(readable(a) + readable(b) =~= readable(a));
    } else {
        law_readable_rows_stay_in_order(a, b.drop_last(), row);
        assert((a + b).drop_last() =~= a + b.drop_last());
        assert(readable(a + b) =~= readable(a) + readable(b));
    }
}

/// Some row has the key.
pub open spec fn has_key(rows: Seq<(String, String)>, key: Seq<char>) -> bool {
    exists|i: int| 0 <= i < rows.len() && (#[trigger] rows[i]).0@ == key
}

/// Two lists of rows, one after another: a key has the value of the second list
/// where that has one, else that of the first.
pub proof fn law_later_rows_go_before(
    a: Seq<(String, String)>,
    b: Seq<(String, String)>,
    key: Seq<char>,
)
    ensures
        keyed(a).contains_key(key) <==> has_key(a, key),
        keyed(a + b).contains_key(key) <==> has_key(a, key) || has_key(b, key),
        has_key(b, key) ==> keyed(a + b)[key] == keyed(b)[key],
        !has_key(b, key) && has_key(a, key) ==> keyed(a + b)[key] == keyed(a)[key],
        a.len() == 1 && a[0].0@ == key ==> keyed(a)[key] == a[0].1@,
    decreases b.len(),
{
    lemma_keys(a, key);
    lemma_keys(b, key);
    lemma_keys(a + b, key);
    if b.len() == 0 {
        assert(a + b =~= a);
    } else {
        let rest = b.drop_last();
        law_later_rows_go_before(a, rest, key);
        lemma_keys(rest, key);
        assert((a + b).drop_last() =~= a + rest);
    }
}

proof fn lemma_keys(rows: Seq<(String, String)>, key: Seq<char>)
    ensures
        keyed(rows).contains_key(key) <==> has_key(rows, key),
    decreases rows.len(),
{
    if rows.len() > 0 {
        let rest = rows.drop_last();
        lemma_keys(rest, key);
        assert(rows[rows.len() - 1] == rows.last());
        if has_key(rest, key) {
            let i = choose|i: int| 0 <= i < rest.len() && (#[trigger] rest[i]).0@ == key;
            assert(rows[i].0@ == key);
        }
        if has_key(rows, key) && rows.last().0@ != key {
            let i = choose|i: int| 0 <= i < rows.len() && (#[trigger] rows[i]).0@ == key;
            assert(rest[i].0@ == key);
        }
    }
}

} // verus!
