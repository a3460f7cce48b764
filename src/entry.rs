use vstd::prelude::*;

use crate::error::TodoError;

verus! {

/// One stored to-do item: the id the store assigned and the caller's text.
#[derive(Debug)]
pub struct TodoEntry {
    pub id: u32,
    pub text: String,
}

impl View for TodoEntry {
    type V = (u32, Seq<char>);

    open spec fn view(&self) -> (u32, Seq<char>) {
        (self.id, self.text@)
    }
}

impl Clone for TodoEntry {
    fn clone(&self) -> (r: TodoEntry)
        ensures
            r@ == self@,
    {
        TodoEntry { id: self.id, text: self.text.clone() }
    }
}

/// The views of a sequence of entries, in the same order.
pub open spec fn entries_view(v: Seq<TodoEntry>) -> Seq<(u32, Seq<char>)> {
    v.map_values(|e: TodoEntry| e@)
}

/// Whether a stored id can be read as an entry id.
pub open spec fn id_fits(id: i64) -> bool {
    0 <= id <= u32::MAX
}

/// Whether every row's id can be read as an entry id.
pub open spec fn rows_fit(rows: Seq<(i64, String)>) -> bool {
    forall|i: int| 0 <= i < rows.len() ==> id_fits(#[trigger] rows[i].0)
}

/// The entries that rows stand for, in the same order.
pub open spec fn rows_as_entries(rows: Seq<(i64, String)>) -> Seq<(u32, Seq<char>)> {
    rows.map_values(|r: (i64, String)| (r.0 as u32, r.1@))
}

/// Reads the `(id, text)` rows of the table as entries. An id that does not
/// fit an entry id makes the whole read a query error, as a typed column read
/// does.
pub fn entries_from_rows(rows: Vec<(i64, String)>) -> (r: Result<Vec<TodoEntry>, TodoError>)
    ensures
        rows_fit(rows@) <==> r is Ok,
        r matches Ok(v) ==> entries_view(v@) == rows_as_entries(rows@),
        r matches Err(e) ==> e == TodoError::Query,
{
    let mut out: Vec<TodoEntry> = Vec::new();
    let mut i: usize = 0;
    while i < rows.len()
        invariant
            i <= rows@.len(),
            rows_fit(rows@.subrange(0, i as int)),
            entries_view(out@) == rows_as_entries(rows@.subrange(0, i as int)),
        decreases rows@.len() - i,
    {
        let id: i64 = rows[i].0;
        if id < 0 || id > u32::MAX as i64 {
            assert(!id_fits(rows@[i as int].0));
            return Err(TodoError::Query);
        }
        let text = rows[i].1.clone();
        let ghost before = out@;
        out.push(TodoEntry { id: id as u32, text });
        proof {
            assert(rows@.subrange(0, i + 1) =~= rows@.subrange(0, i as int).push(rows@[i as int]));
            assert(out@ =~= before.push(out@.last()));
            assert(entries_view(out@) =~= entries_view(before).push(out@.last()@));
            assert(rows_as_entries(rows@.subrange(0, i + 1)) =~= rows_as_entries(
                rows@.subrange(0, i as int),
            ).push((id as u32, rows@[i as int].1@)));
        }
        i = i + 1;
    }
    assert(rows@.subrange(0, i as int) == rows@);
    Ok(out)
}

} // verus!
