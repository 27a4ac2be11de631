use vstd::prelude::*;
use crate::date::{Date, date_text, valid_date, lemma_text_injective};
use crate::store::{Entry, entry_for, listing_of, updated_row};

verus! {

// The laws below relate the store operations through the table model their
// contracts are stated over: `create` and `update` insert a row holding the
// canonical date text, `delete` removes the id, `get_by_id` and
// `list_by_date` promise entries that reflect rows (`entry_for`,
// `listing_of`).

/// Creating an entry and then fetching its returned id yields that exact
/// date and description: any entry that reflects the row `create` inserted
/// under the new id carries them unchanged.
pub proof fn lemma_create_then_get(
    table: Map<i64, (Seq<char>, Seq<char>)>,
    id: i64,
    d: Date,
    desc: Seq<char>,
    e: Entry,
)
    requires
        valid_date(d),
        entry_for(table.insert(id, (date_text(d), desc)), e),
        e.id == id,
    ensures
        e.date == d,
        e.description@ == desc,
{
    if e.date != d {
        lemma_text_injective(e.date, d);
    }
}

/// Deleting an id and then fetching it yields the empty result: the id is
/// no longer in the table, and `get_by_id` returns `None` for exactly the
/// absent ids.
pub proof fn lemma_delete_then_get(table: Map<i64, (Seq<char>, Seq<char>)>, id: i64)
    ensures
        !table.remove(id).dom().contains(id),
{
}

/// Updating only the date of an entry and then fetching it yields the new
/// date with the description unchanged.
pub proof fn lemma_update_date_then_get(
    table: Map<i64, (Seq<char>, Seq<char>)>,
    id: i64,
    d2: Date,
    e: Entry,
)
    requires
        valid_date(d2),
        table.dom().contains(id),
        entry_for(
            table.insert(id, updated_row(table[id], Some(d2), Option::<Seq<char>>::None)),
            e,
        ),
        e.id == id,
    ensures
        e.date == d2,
        e.description@ == table[id].1,
{
    if e.date != d2 {
        lemma_text_injective(e.date, d2);
    }
}

/// A listing by date holds exactly the entries created with that date: an
/// entry just created with date `d` appears in a listing of `q` taken on
/// the new table exactly when `q` is `d` (dates other than `d` never list
/// it, and a listing of `d` never misses it).
pub proof fn lemma_create_then_list_by_date(
    table: Map<i64, (Seq<char>, Seq<char>)>,
    id: i64,
    d: Date,
    q: Date,
    desc: Seq<char>,
    v: Seq<Entry>,
)
    requires
        valid_date(d),
        valid_date(q),
        listing_of(table.insert(id, (date_text(d), desc)), Some(q), v),
    ensures
        (q == d) <==> (exists|i: int| 0 <= i < v.len() && (#[trigger] v[i]).id == id),
{
    let t2 = table.insert(id, (date_text(d), desc));
    if q == d {
        assert(t2.dom().contains(id) && t2[id].0 == date_text(q));
    } else {
        lemma_text_injective(q, d);
        if exists|i: int| 0 <= i < v.len() && (#[trigger] v[i]).id == id {
            let i = choose|i: int| 0 <= i < v.len() && (#[trigger] v[i]).id == id;
            assert(entry_for(t2, v[i]));
            assert(date_text(v[i].date) == date_text(d));
            assert(false);
        }
    }
}

} // verus!
