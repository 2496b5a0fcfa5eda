//! Why pages fit together: what conditions on ids select from a list of rows
//! that is ordered by id.

use vstd::prelude::*;

use crate::filters;

verus! {

/// The ids of the rows fall, or they rise.
pub open spec fn is_ordered<A>(rows: Seq<A>, id: spec_fn(A) -> int, falling: bool) -> bool {
    forall|i: int, j: int|
        #![trigger rows[i], rows[j]]
        0 <= i < j < rows.len() ==> if falling {
            id(rows[i]) > id(rows[j])
        } else {
            id(rows[i]) < id(rows[j])
        }
}

/// The rows that come behind the id `at`: the condition `id < ?` where ids
/// fall, `id > ?` where they rise.
pub open spec fn behind<A>(id: spec_fn(A) -> int, falling: bool, at: int) -> spec_fn(A) -> bool {
    |row: A|
        if falling {
            id(row) < at
        } else {
            id(row) > at
        }
}

/// The rows from the id `at` on: the condition `id <= ?` where ids fall,
/// `id >= ?` where they rise.
pub open spec fn from_on<A>(id: spec_fn(A) -> int, falling: bool, at: int) -> spec_fn(A) -> bool {
    |row: A|
        if falling {
            id(row) <= at
        } else {
            id(row) >= at
        }
}

/// The first rows of a list, as many as fit on a page.
pub open spec fn first<A>(rows: Seq<A>, page_size: nat) -> Seq<A> {
    if rows.len() <= page_size {
        rows
    } else {
        rows.take(page_size as int)
    }
}

/// Where the rows behind an id begin, whether or not a row has that id.
pub proof fn lemma_cut<A>(rows: Seq<A>, id: spec_fn(A) -> int, falling: bool, at: int) -> (n: int)
    requires
        is_ordered(rows, id, falling),
    ensures
        0 <= n <= rows.len(),
        rows.filter(behind(id, falling, at)) == rows.skip(n),
    decreases rows.len(),
{
    let f = behind(id, falling, at);
    if rows.len() == 0 {
        filters::lemma_filter_tail(rows, 0, f);
        0
    } else {
        let rest = rows.drop_last();
        assert(is_ordered(rest, id, falling)) by {
            assert forall|i: int, j: int|
                #![trigger rest[i], rest[j]]
                0 <= i < j < rest.len() implies if falling {
                id(rest[i]) > id(rest[j])
            } else {
                id(rest[i]) < id(rest[j])
            } by {
                assert(rest[i] == rows[i] && rest[j] == rows[j]);
            }
        }
        let m = lemma_cut(rest, id, falling, at);
        reveal(Seq::filter);
        if f(rows.last()) {
            assert(rest.skip(m).push(rows.last()) =~= rows.skip(m));
            m
        } else {
            assert forall|i: int| 0 <= i < rows.len() implies !f(#[trigger] rows[i]) by {
                if i < rows.len() - 1 {
                    let last = rows[rows.len() - 1];
                    assert(if falling {
                        id(rows[i]) > id(last)
                    } else {
                        id(rows[i]) < id(last)
                    });
                }
            }
            filters::lemma_filter_tail(rows, rows.len() as int, f);
            rows.len() as int
        }
    }
}

/// A list that is turned round is ordered the other way.
pub proof fn lemma_reversed_order<A>(rows: Seq<A>, id: spec_fn(A) -> int, falling: bool)
    requires
        is_ordered(rows, id, falling),
    ensures
        is_ordered(rows.reverse(), id, !falling),
{
    let n = rows.len() as int;
    let back = rows.reverse();
    assert forall|i: int, j: int|
        #![trigger back[i], back[j]]
        0 <= i < j < back.len() implies if !falling {
        id(back[i]) > id(back[j])
    } else {
        id(back[i]) < id(back[j])
    } by {
        assert(back[i] == rows[n - 1 - i]);
        assert(back[j] == rows[n - 1 - j]);
    }
}

/// A page behind a row goes on directly behind it: no row is skipped, and none
/// comes twice.
pub proof fn law_page_goes_on_behind_a_row<A>(
    rows: Seq<A>,
    id: spec_fn(A) -> int,
    falling: bool,
    k: int,
    page_size: nat,
)
    requires
        is_ordered(rows, id, falling),
        0 <= k < rows.len(),
    ensures
        first(rows.filter(behind(id, falling, id(rows[k]))), page_size) == first(
            rows.skip(k + 1),
            page_size,
        ),
{
    filters::lemma_filter_tail(rows, k + 1, behind(id, falling, id(rows[k])));
}

/// A page before a row, read the other way round and turned round again, ends
/// directly before it.
pub proof fn law_page_ends_before_a_row<A>(
    rows: Seq<A>,
    id: spec_fn(A) -> int,
    falling: bool,
    k: int,
    page_size: nat,
)
    requires
        is_ordered(rows, id, falling),
        0 <= k < rows.len(),
    ensures
        first(rows.reverse().filter(behind(id, !falling, id(rows[k]))), page_size).reverse()
            == rows.subrange(
            if k <= page_size {
                0
            } else {
                k - page_size
            },
            k,
        ),
{
    let n = rows.len() as int;
    let back = rows.reverse();
    let at = n - 1 - k;
    assert(back[at] == rows[k]);
    lemma_reversed_order(rows, id, falling);
    law_page_goes_on_behind_a_row(back, id, !falling, at, page_size);
    let page = first(back.skip(at + 1), page_size);
    let start = if k <= page_size {
        0
    } else {
        k - page_size
    };
    assert(page.reverse() =~= rows.subrange(start, k));
}

/// A page that is found by the id of its first row is the page that is counted
/// off from the start of the list.
pub proof fn law_page_from_a_row_is_counted_off<A>(
    rows: Seq<A>,
    id: spec_fn(A) -> int,
    falling: bool,
    offset: int,
    page_size: nat,
)
    requires
        is_ordered(rows, id, falling),
        0 <= offset < rows.len(),
    ensures
        first(rows.filter(from_on(id, falling, id(rows[offset]))), page_size) == first(
            rows.skip(offset),
            page_size,
        ),
{
    filters::lemma_filter_tail(rows, offset, from_on(id, falling, id(rows[offset])));
}

} // verus!
