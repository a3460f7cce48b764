use vstd::prelude::*;

use crate::entry::{entries_view, rows_as_entries, rows_fit, TodoEntry};

verus! {

/// The abstract state of the to-do table: its rows in storage order, and the
/// id that the next insertion receives.
pub struct TableView {
    pub rows: Seq<(u32, Seq<char>)>,
    pub next: nat,
}

/// Ids grow along the rows, so no id occurs twice.
pub open spec fn ids_increasing(rows: Seq<(u32, Seq<char>)>) -> bool {
    forall|i: int, j: int| 0 <= i < j < rows.len() ==> #[trigger] rows[i].0 < #[trigger] rows[j].0
}

/// A table whose ids are positive, increasing along the rows, and all below
/// the next id to assign.
pub open spec fn table_wf(v: TableView) -> bool {
    &&& 1 <= v.next <= u32::MAX as nat + 1
    &&& ids_increasing(v.rows)
    &&& forall|i: int| 0 <= i < v.rows.len() ==> 1 <= #[trigger] v.rows[i].0 < v.next
}

/// Whether an id is left to assign.
pub open spec fn can_insert(v: TableView) -> bool {
    v.next <= u32::MAX
}

/// Insertion appends the text under the next id; with no id left the table
/// stays as it is.
pub open spec fn table_insert(v: TableView, text: Seq<char>) -> TableView {
    if can_insert(v) {
        TableView { rows: v.rows.push((v.next as u32, text)), next: v.next + 1 }
    } else {
        v
    }
}

/// Whether some row carries the id.
pub open spec fn has_id(rows: Seq<(u32, Seq<char>)>, id: u32) -> bool {
    exists|k: int| 0 <= k < rows.len() && rows[k].0 == id
}

/// The place of a row that carries the id.
pub open spec fn position_of(rows: Seq<(u32, Seq<char>)>, id: u32) -> int {
    choose|k: int| 0 <= k < rows.len() && rows[k].0 == id
}

/// Deletion removes the row with the id, if there is one.
pub open spec fn table_delete(v: TableView, id: u32) -> TableView {
    if has_id(v.rows, id) {
        TableView { rows: v.rows.remove(position_of(v.rows, id)), next: v.next }
    } else {
        v
    }
}

/// The number of rows a deletion removes.
pub open spec fn deleted_count(v: TableView, id: u32) -> nat {
    if has_id(v.rows, id) {
        1
    } else {
        0
    }
}

/// The table after inserting each text in turn.
pub open spec fn table_insert_all(v: TableView, texts: Seq<Seq<char>>) -> TableView
    decreases texts.len(),
{
    if texts.len() == 0 {
        v
    } else {
        table_insert(table_insert_all(v, texts.drop_last()), texts.last())
    }
}

/// In a well-formed table the row that carries an id is the only one.
proof fn lemma_position_unique(v: TableView, id: u32, k: int)
    requires
        table_wf(v),
        0 <= k < v.rows.len(),
        v.rows[k].0 == id,
    ensures
        has_id(v.rows, id),
        position_of(v.rows, id) == k,
{
    let p = position_of(v.rows, id);
    assert(0 <= p < v.rows.len() && v.rows[p].0 == id);
    if p < k {
        assert(v.rows[p].0 < v.rows[k].0);
    } else if k < p {
        assert(v.rows[k].0 < v.rows[p].0);
    }
}

/// Removing one row keeps the rest in order, and so keeps the table well formed.
proof fn lemma_remove_wf(v: TableView, k: int)
    requires
        table_wf(v),
        0 <= k < v.rows.len(),
    ensures
        table_wf(TableView { rows: v.rows.remove(k), next: v.next }),
{
    let r = v.rows.remove(k);
    v.rows.remove_ensures(k);
    assert forall|i: int, j: int| 0 <= i < j < r.len() implies #[trigger] r[i].0 < #[trigger] r[j].0 by {
        let a = if i < k { i } else { i + 1 };
        let b = if j < k { j } else { j + 1 };
        assert(r[i] == v.rows[a] && r[j] == v.rows[b]);
        assert(v.rows[a].0 < v.rows[b].0);
    }
    assert forall|i: int| 0 <= i < r.len() implies 1 <= #[trigger] r[i].0 < v.next by {
        let a = if i < k { i } else { i + 1 };
        assert(r[i] == v.rows[a]);
    }
}

/// Insertion keeps the table well formed.
proof fn lemma_insert_wf(v: TableView, text: Seq<char>)
    requires
        table_wf(v),
    ensures
        table_wf(table_insert(v, text)),
{
    if can_insert(v) {
        let w = table_insert(v, text);
        assert forall|i: int, j: int| 0 <= i < j < w.rows.len() implies #[trigger] w.rows[i].0
            < #[trigger] w.rows[j].0 by {
            if j == v.rows.len() {
                assert(w.rows[i] == v.rows[i]);
            } else {
                assert(w.rows[i] == v.rows[i] && w.rows[j] == v.rows[j]);
            }
        }
        assert forall|i: int| 0 <= i < w.rows.len() implies 1 <= #[trigger] w.rows[i].0
            < w.next by {
            if i < v.rows.len() {
                assert(w.rows[i] == v.rows[i]);
            }
        }
    }
}

/// Deletion keeps the table well formed.
proof fn lemma_delete_wf(v: TableView, id: u32)
    requires
        table_wf(v),
    ensures
        table_wf(table_delete(v, id)),
{
    if has_id(v.rows, id) {
        lemma_remove_wf(v, position_of(v.rows, id));
    }
}

/// After an entry is added, the table holds it under an id that no earlier
/// entry had, and it is the last one listed.
pub proof fn lemma_add_then_list(v: TableView, text: Seq<char>)
    requires
        table_wf(v),
        can_insert(v),
    ensures
        table_insert(v, text).rows.contains((v.next as u32, text)),
        table_insert(v, text).rows.last() == (v.next as u32, text),
        forall|i: int| 0 <= i < v.rows.len() ==> #[trigger] v.rows[i].0 != v.next,
        table_wf(table_insert(v, text)),
{
    let w = table_insert(v, text);
    assert(w.rows[v.rows.len() as int] == (v.next as u32, text));
    lemma_insert_wf(v, text);
}

/// Deleting an id a second time removes nothing and changes nothing.
pub proof fn lemma_delete_idempotent(v: TableView, id: u32)
    requires
        table_wf(v),
    ensures
        deleted_count(table_delete(v, id), id) == 0,
        table_delete(table_delete(v, id), id) == table_delete(v, id),
{
    let w = table_delete(v, id);
    if has_id(v.rows, id) {
        let k = position_of(v.rows, id);
        v.rows.remove_ensures(k);
        if has_id(w.rows, id) {
            let j = choose|j: int| 0 <= j < w.rows.len() && w.rows[j].0 == id;
            let a = if j < k { j } else { j + 1 };
            assert(w.rows[j] == v.rows[a]);
            lemma_position_unique(v, id, a);
        }
    }
}

/// Deleting an id removes exactly the row with that id: every other row stays.
pub proof fn lemma_delete_isolated(v: TableView, id: u32)
    requires
        table_wf(v),
    ensures
        forall|e: (u32, Seq<char>)| #[trigger] table_delete(v, id).rows.contains(e)
            <==> (v.rows.contains(e) && e.0 != id),
        table_delete(v, id).next == v.next,
        table_wf(table_delete(v, id)),
{
    lemma_delete_wf(v, id);
    let w = table_delete(v, id);
    if has_id(v.rows, id) {
        let k = position_of(v.rows, id);
        v.rows.remove_ensures(k);
        assert forall|e: (u32, Seq<char>)| #[trigger] w.rows.contains(e)
            <==> (v.rows.contains(e) && e.0 != id) by {
            if w.rows.contains(e) {
                let j = choose|j: int| 0 <= j < w.rows.len() && w.rows[j] == e;
                let a = if j < k { j } else { j + 1 };
                assert(w.rows[j] == v.rows[a]);
                if e.0 == id {
                    lemma_position_unique(v, id, a);
                }
            }
            if v.rows.contains(e) && e.0 != id {
                let a = choose|a: int| 0 <= a < v.rows.len() && v.rows[a] == e;
                assert(a != k);
                let j = if a < k { a } else { a - 1 };
                assert(w.rows[j] == e);
            }
        }
    } else {
        assert forall|e: (u32, Seq<char>)| #[trigger] w.rows.contains(e)
            <==> (v.rows.contains(e) && e.0 != id) by {
            if v.rows.contains(e) {
                let a = choose|a: int| 0 <= a < v.rows.len() && v.rows[a] == e;
                assert(v.rows[a].0 != id);
            }
        }
    }
}

/// A run of additions appends the texts in order under consecutive fresh
/// ids, so all ids stay distinct and grow in the order they were assigned.
pub proof fn lemma_adds_fresh_increasing(v: TableView, texts: Seq<Seq<char>>)
    requires
        table_wf(v),
        v.next + texts.len() <= u32::MAX as nat + 1,
    ensures
        table_insert_all(v, texts).rows == v.rows + Seq::new(
            texts.len(),
            |i: int| ((v.next + i) as u32, texts[i]),
        ),
        table_insert_all(v, texts).next == v.next + texts.len(),
        ids_increasing(table_insert_all(v, texts).rows),
        table_wf(table_insert_all(v, texts)),
    decreases texts.len(),
{
    if texts.len() > 0 {
        let init = texts.drop_last();
        lemma_adds_fresh_increasing(v, init);
        let u = table_insert_all(v, init);
        lemma_insert_wf(u, texts.last());
        assert(table_insert_all(v, texts).rows =~= v.rows + Seq::new(
            texts.len(),
            |i: int| ((v.next + i) as u32, texts[i]),
        ));
    } else {
        assert(v.rows + Seq::new(texts.len(), |i: int| ((v.next + i) as u32, texts[i])) =~= v.rows);
    }
}

/// An in-memory to-do table. It assigns ids as the stored table does: each
/// insertion takes the next id, and an id is never given out again.
pub struct TodoTable {
    entries: Vec<TodoEntry>,
    next_id: u64,
}

impl View for TodoTable {
    type V = TableView;

    closed spec fn view(&self) -> TableView {
        TableView { rows: entries_view(self.entries@), next: self.next_id as nat }
    }
}

impl TodoTable {
    /// Ids are positive, increase along the rows, and stay below the next id.
    pub open spec fn wf(&self) -> bool {
        table_wf(self@)
    }

    /// An empty table whose first entry gets id 1.
    pub fn new() -> (r: TodoTable)
        ensures
            r.wf(),
            r@.rows == Seq::<(u32, Seq<char>)>::empty(),
            r@.next == 1,
    {
        let r = TodoTable { entries: Vec::new(), next_id: 1 };
        assert(entries_view(r.entries@) =~= Seq::<(u32, Seq<char>)>::empty());
        r
    }

    /// The entries in storage order.
    pub fn list(&self) -> (r: Vec<TodoEntry>)
        ensures
            entries_view(r@) == self@.rows,
    {
        let mut out: Vec<TodoEntry> = Vec::new();
        let mut i: usize = 0;
        while i < self.entries.len()
            invariant
                i <= self.entries@.len(),
                entries_view(out@) == entries_view(self.entries@.subrange(0, i as int)),
            decreases self.entries@.len() - i,
        {
            let e = self.entries[i].clone();
            let ghost before = out@;
            out.push(e);
            proof {
                assert(self.entries@.subrange(0, i + 1) =~= self.entries@.subrange(0, i as int).push(
                    self.entries@[i as int],
                ));
                assert(out@ =~= before.push(out@.last()));
                assert(entries_view(out@) =~= entries_view(before).push(out@.last()@));
                assert(entries_view(self.entries@.subrange(0, i + 1)) =~= entries_view(
                    self.entries@.subrange(0, i as int),
                ).push(self.entries@[i as int]@));
            }
            i = i + 1;
        }
        assert(self.entries@.subrange(0, i as int) =~= self.entries@);
        out
    }

    /// The `(id, text)` rows in storage order, as a query of the table yields them.
    pub fn rows(&self) -> (r: Vec<(i64, String)>)
        requires
            self.wf(),
        ensures
            rows_fit(r@),
            rows_as_entries(r@) == self@.rows,
    {
        let mut out: Vec<(i64, String)> = Vec::new();
        let mut i: usize = 0;
        while i < self.entries.len()
            invariant
                i <= self.entries@.len(),
                rows_fit(out@),
                rows_as_entries(out@) == entries_view(self.entries@.subrange(0, i as int)),
            decreases self.entries@.len() - i,
        {
            let row: (i64, String) = (self.entries[i].id as i64, self.entries[i].text.clone());
            let ghost before = out@;
            out.push(row);
            proof {
                assert(self.entries@.subrange(0, i + 1) =~= self.entries@.subrange(0, i as int).push(
                    self.entries@[i as int],
                ));
                assert(out@ =~= before.push(out@.last()));
                assert(rows_as_entries(out@) =~= rows_as_entries(before).push(
                    (out@.last().0 as u32, out@.last().1@),
                ));
                assert(entries_view(self.entries@.subrange(0, i + 1)) =~= entries_view(
                    self.entries@.subrange(0, i as int),
                ).push(self.entries@[i as int]@));
            }
            i = i + 1;
        }
        assert(self.entries@.subrange(0, i as int) =~= self.entries@);
        out
    }

    /// Adds an entry under the next id and returns that id, or `None` when
    /// every id has been given out.
    pub fn insert(&mut self, text: String) -> (r: Option<u32>)
        requires
            old(self).wf(),
        ensures
            final(self).wf(),
            final(self)@ == table_insert(old(self)@, text@),
            r == (if can_insert(old(self)@) {
                Some(old(self)@.next as u32)
            } else {
                None::<u32>
            }),
    {
        proof {
            lemma_insert_wf(self@, text@);
        }
        if self.next_id > u32::MAX as u64 {
            return None;
        }
        let id = self.next_id as u32;
        let ghost before = self.entries@;
        let ghost text_view = text@;
        self.entries.push(TodoEntry { id, text });
        self.next_id = self.next_id + 1;
        proof {
            assert(entries_view(self.entries@) =~= entries_view(before).push((id, text_view)));
        }
        Some(id)
    }

    /// Removes the entry with the id, if there is one, and returns how many
    /// entries were removed.
    pub fn delete(&mut self, id: u32) -> (r: usize)
        requires
            old(self).wf(),
        ensures
            final(self).wf(),
            final(self)@ == table_delete(old(self)@, id),
            r == deleted_count(old(self)@, id),
    {
        proof {
            lemma_delete_wf(self@, id);
        }
        let mut i: usize = 0;
        while i < self.entries.len()
            invariant
                self.wf(),
                self@ == old(self)@,
                i <= self.entries@.len(),
                forall|j: int| 0 <= j < i ==> #[trigger] self.entries@[j].id != id,
            decreases self.entries@.len() - i,
        {
            if self.entries[i].id == id {
                let ghost v = self@;
                proof {
                    assert(v.rows[i as int] == self.entries@[i as int]@);
                    lemma_position_unique(v, id, i as int);
                }
                let ghost before = self.entries@;
                let _gone = self.entries.remove(i);
                proof {
                    assert(entries_view(self.entries@) =~= entries_view(before).remove(i as int));
                }
                return 1;
            }
            i = i + 1;
        }
        proof {
            assert forall|k: int| 0 <= k < self@.rows.len() implies self@.rows[k].0 != id by {
                assert(self@.rows[k] == self.entries@[k]@);
            }
        }
        0
    }
}

} // verus!
