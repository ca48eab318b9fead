//! Lists read from the store.
use vstd::prelude::*;

verus! {

/// The rows that could be read, in order.
pub open spec fn readable<T>(rows: Seq<Option<T>>) -> Seq<T>
    decreases rows.len(),
{
    if rows.len() == 0 {
        Seq::empty()
    } else {
        match rows.last() {
            Some(row) => readable(rows.drop_last()).push(row),
            None => readable(rows.drop_last()),
        }
    }
}

/// What a query yields: the rows that could be read, or nothing where it failed.
pub open spec fn listing<T>(rows: Option<Seq<Option<T>>>) -> Seq<T> {
    match rows {
        Some(rows) => readable(rows),
        None => Seq::empty(),
    }
}

/// Lists the rows of a query that could be read; none where the query failed.
pub fn list_rows<T>(rows: Option<Vec<Option<T>>>) -> (list: Vec<T>)
    ensures
        list@ == listing(
            match rows {
                Some(v) => Some(v@),
                None => None,
            },
        ),
{
    let mut list: Vec<T> = Vec::new();
    match rows {
        Some(found) => {
            let ghost all = found@;
            for row in it: found
                invariant
                    it.seq() == all,
                    list@ == readable(all.take(it.index() as int)),
            {
                assert(all.take(it.index() + 1).drop_last() == all.take(it.index() as int));
                if let Some(value) = row {
                    list.push(value);
                }
            }
            assert(all.take(all.len() as int) == all);
        },
        None => {},
    }
    list
}

/// Rows that can all be read are all listed, in their order.
pub proof fn law_readable_rows_are_kept<T>(rows: Seq<T>)
    ensures
        readable(rows.map_values(|row: T| Some(row))) == rows,
    decreases rows.len(),
{
    let wrapped = rows.map_values(|row: T| Some(row));
    if rows.len() > 0 {
        law_readable_rows_are_kept(rows.drop_last());
        assert(wrapped.drop_last() == rows.drop_last().map_values(|row: T| Some(row)));
    }
}

/// The listing of two runs of rows is the listing of the first and then of the second.
pub proof fn law_readable_splits<T>(a: Seq<Option<T>>, b: Seq<Option<T>>)
    ensures
        readable(a + b) == readable(a) + readable(b),
    decreases b.len(),
{
    if b.len() == 0 {
        assert(a + b == a);
    } else {
        law_readable_splits(a, b.drop_last());
        assert((a + b).drop_last() == a + b.drop_last());
        assert((a + b).last() == b.last());
    }
}

/// A row that could not be read is left out, wherever it stands, and nothing else is.
pub proof fn law_unreadable_row_is_left_out<T>(before: Seq<Option<T>>, behind: Seq<Option<T>>)
    ensures
        readable(before.push(None) + behind) == readable(before + behind),
{
    law_readable_splits(before.push(None), behind);
    law_readable_splits(before, behind);
    assert(before.push(None).drop_last() =~= before);
}

/// A row that could be read stands in the list behind those before it and before those
/// behind it.
pub proof fn law_readable_row_keeps_its_place<T>(
    before: Seq<Option<T>>,
    row: T,
    behind: Seq<Option<T>>,
)
    ensures
        readable(before.push(Some(row)) + behind) == readable(before).push(row) + readable(behind),
{
    law_readable_splits(before.push(Some(row)), behind);
    assert(before.push(Some(row)).drop_last() =~= before);
}

/// A query that failed lists nothing, and one whose rows can all be read lists them all.
pub proof fn law_listing<T>(rows: Option<Vec<Option<T>>>, list: Vec<T>)
    requires
        call_ensures(list_rows::<T>, (rows,), list),
    ensures
        rows is None ==> list@.len() == 0,
        rows matches Some(found) ==> list@ == readable(found@),
        rows matches Some(found) ==> (forall|i: int|
            0 <= i < found@.len() ==> (#[trigger] found@[i]) is Some) ==> list@.len()
            == found@.len() && forall|i: int|
            0 <= i < found@.len() ==> found@[i] == Some(#[trigger] list@[i]),
{
    if let Some(found) = rows {
        if forall|i: int| 0 <= i < found@.len() ==> (#[trigger] found@[i]) is Some {
            let held = Seq::new(found@.len(), |i: int| found@[i]->0);
            law_readable_rows_are_kept(held);
            assert(held.map_values(|row: T| Some(row)) =~= found@);
        }
    }
}

} // verus!
