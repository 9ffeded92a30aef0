//! History records with a kind. Clearing deletes nothing: it appends a
//! boundary, and the context is what follows the last one.

use vstd::prelude::*;
use vstd::string::*;

verus! {

/// The kind of a history record.
#[derive(Debug, Clone, Copy, PartialEq, Eq, Structural)]
pub enum HistoryKind {
    /// What is before this is not for the model.
    ClearBoundary,
    /// A user message.
    User,
    /// A message of the persona.
    Assistant,
    /// A tool call or its result.
    Tool,
}

/// The stored number of a kind.
pub open spec fn number_of(kind: HistoryKind) -> i64 {
    match kind {
        HistoryKind::ClearBoundary => 0,
        HistoryKind::User => 1,
        HistoryKind::Assistant => 2,
        HistoryKind::Tool => 3,
    }
}

/// The kind that a stored number stands for.
pub open spec fn kind_of(value: int) -> Option<HistoryKind> {
    if value == 0 {
        Some(HistoryKind::ClearBoundary)
    } else if value == 1 {
        Some(HistoryKind::User)
    } else if value == 2 {
        Some(HistoryKind::Assistant)
    } else if value == 3 {
        Some(HistoryKind::Tool)
    } else {
        None
    }
}

impl HistoryKind {
    pub fn as_i64(self) -> (r: i64)
        ensures
            r == number_of(self),
    {
        match self {
            HistoryKind::ClearBoundary => 0,
            HistoryKind::User => 1,
            HistoryKind::Assistant => 2,
            HistoryKind::Tool => 3,
        }
    }

    pub fn from_i64(value: i64) -> (r: Option<HistoryKind>)
        ensures
            r == kind_of(value as int),
    {
        if value == 0 {
            Some(HistoryKind::ClearBoundary)
        } else if value == 1 {
            Some(HistoryKind::User)
        } else if value == 2 {
            Some(HistoryKind::Assistant)
        } else if value == 3 {
            Some(HistoryKind::Tool)
        } else {
            None
        }
    }
}

/// A stored kind reads back as itself, and no other number reads as a kind.
pub proof fn law_kind_numbers_round_trip(kind: HistoryKind, value: i64)
    ensures
        kind_of(number_of(kind) as int) == Some(kind),
        kind_of(value as int) matches Some(k) ==> number_of(k) == value,
{
}

/// One record of history.
#[derive(Debug)]
pub struct HistoryEntry {
    pub kind: HistoryKind,
    pub content: String,
    pub timestamp: i64,
}

impl Clone for HistoryEntry {
    fn clone(&self) -> (r: Self)
        ensures
            r == *self,
    {
        HistoryEntry { kind: self.kind, content: self.content.clone(), timestamp: self.timestamp }
    }
}

/// A stored row: its id, the number of its kind, its content and its time.
#[derive(Debug)]
pub struct HistoryRow {
    pub id: i64,
    pub kind: i64,
    pub content: String,
    pub timestamp: i64,
}

/// The record that a row holds, where its kind is known.
pub open spec fn entry_of(row: HistoryRow) -> Option<HistoryEntry> {
    match kind_of(row.kind as int) {
        Some(kind) => Some(
            HistoryEntry { kind, content: row.content, timestamp: row.timestamp },
        ),
        None => None,
    }
}

/// The record that a row holds, where its kind is known.
pub fn row_to_entry(row: &HistoryRow) -> (r: Option<HistoryEntry>)
    ensures
        r == entry_of(*row),
{
    match HistoryKind::from_i64(row.kind) {
        Some(kind) => Some(
            HistoryEntry { kind, content: row.content.clone(), timestamp: row.timestamp },
        ),
        None => None,
    }
}

/// The records of rows; a row of unknown kind is skipped.
pub open spec fn entries_of(rows: Seq<HistoryRow>) -> Seq<(i64, HistoryEntry)>
    decreases rows.len(),
{
    if rows.len() == 0 {
        Seq::empty()
    } else {
        let before = entries_of(rows.drop_last());
        match entry_of(rows.last()) {
            Some(e) => before.push((rows.last().id, e)),
            None => before,
        }
    }
}

/// The rows after the last boundary.
pub open spec fn after_boundary(rows: Seq<HistoryRow>) -> Seq<HistoryRow>
    decreases rows.len(),
{
    if rows.len() == 0 || rows.last().kind == 0 {
        Seq::empty()
    } else {
        after_boundary(rows.drop_last()).push(rows.last())
    }
}

/// Every record with the id of its row, oldest first.
pub fn read_raw(rows: &Vec<HistoryRow>) -> (r: Vec<(i64, HistoryEntry)>)
    ensures
        r@ == entries_of(rows@),
{
    let mut r: Vec<(i64, HistoryEntry)> = Vec::new();
    let mut i: usize = 0;
    while i < rows.len()
        invariant
            i <= rows@.len(),
            r@ == entries_of(rows@.take(i as int)),
        decreases rows@.len() - i,
    {
        proof {
            let t = rows@.take(i + 1);
            assert(t.drop_last() =~= rows@.take(i as int));
            assert(t.last() == rows@[i as int]);
        }
        match row_to_entry(&rows[i]) {
            Some(e) => {
                r.push((rows[i].id, e));
            },
            None => {},
        }
        i = i + 1;
    }
    assert(rows@.take(i as int) =~= rows@);
    r
}

/// The records that the model sees: those after the last boundary.
pub fn read_context(rows: &Vec<HistoryRow>) -> (r: Vec<HistoryEntry>)
    ensures
        r@ == entries_of(after_boundary(rows@)).map_values(|e: (i64, HistoryEntry)| e.1),
{
    let mut r: Vec<HistoryEntry> = Vec::new();
    let mut i: usize = 0;
    assert(r@ =~= entries_of(after_boundary(rows@.take(0))).map_values(
        |e: (i64, HistoryEntry)| e.1,
    ));
    while i < rows.len()
        invariant
            i <= rows@.len(),
            r@ == entries_of(after_boundary(rows@.take(i as int))).map_values(
                |e: (i64, HistoryEntry)| e.1,
            ),
        decreases rows@.len() - i,
    {
        let ghost kept = after_boundary(rows@.take(i as int));
        proof {
            let t = rows@.take(i + 1);
            assert(t.drop_last() =~= rows@.take(i as int));
            assert(t.last() == rows@[i as int]);
            if rows@[i as int].kind != 0 {
                assert(kept.push(t.last()).drop_last() =~= kept);
            }
        }
        if rows[i].kind == 0 {
            r = Vec::new();
        } else {
            match row_to_entry(&rows[i]) {
                Some(e) => {
                    r.push(e);
                },
                None => {},
            }
        }
        i = i + 1;
        assert(r@ =~= entries_of(after_boundary(rows@.take(i as int))).map_values(
            |e: (i64, HistoryEntry)| e.1,
        ));
    }
    assert(rows@.take(i as int) =~= rows@);
    r
}

/// The boundary row that clearing appends, at a time.
pub fn clear_boundary(timestamp: i64) -> (r: HistoryEntry)
    ensures
        r.kind is ClearBoundary,
        r.content@ == Seq::<char>::empty(),
        r.timestamp == timestamp,
{
    let content = String::new();
    assert(content@ =~= Seq::<char>::empty());
    HistoryEntry { kind: HistoryKind::ClearBoundary, content, timestamp }
}

/// Clearing hides everything from the model and deletes nothing: the context
/// is empty right after a boundary, later records join it, and every earlier
/// record is still read back.
pub proof fn law_clearing_hides_and_keeps(
    rows: Seq<HistoryRow>,
    boundary: HistoryRow,
    later: Seq<HistoryRow>,
)
    requires
        boundary.kind == 0,
        forall|i: int| 0 <= i < later.len() ==> (#[trigger] later[i]).kind != 0,
    ensures
        after_boundary(rows.push(boundary)) == Seq::<HistoryRow>::empty(),
        after_boundary(rows.push(boundary) + later) == later,
        entries_of(rows).is_prefix_of(entries_of(rows.push(boundary) + later)),
    decreases later.len(),
{
    let cleared = rows.push(boundary);
    if later.len() == 0 {
        assert(cleared + later =~= cleared);
        assert(cleared.drop_last() =~= rows);
        assert(later =~= Seq::<HistoryRow>::empty());
    } else {
        law_clearing_hides_and_keeps(rows, boundary, later.drop_last());
        let all = cleared + later;
        assert(all.drop_last() =~= cleared + later.drop_last());
        assert(all.last() == later.last());
        assert(later.drop_last().push(later.last()) =~= later);
    }
}

/// Kinds are stored under fixed numbers.
pub proof fn law_kind_numbers_are_fixed()
    ensures
        number_of(HistoryKind::ClearBoundary) == 0,
        number_of(HistoryKind::User) == 1,
        number_of(HistoryKind::Assistant) == 2,
        number_of(HistoryKind::Tool) == 3,
{
}

/// Records are read back whole, each under the id of its row and in the order
/// of the rows; only rows of unknown kind are skipped.
pub proof fn law_records_are_read_back_whole(
    first: Seq<HistoryRow>,
    second: Seq<HistoryRow>,
    row: HistoryRow,
)
    ensures
        entries_of(Seq::empty()) == Seq::<(i64, HistoryEntry)>::empty(),
        entries_of(first + second) == entries_of(first) + entries_of(second),
        ({
            let read = entries_of(seq![row]);
            &&& 0 <= row.kind <= 3 ==> {
                &&& read.len() == 1
                &&& read[0].0 == row.id
                &&& number_of(read[0].1.kind) == row.kind
                &&& read[0].1.content@ == row.content@
                &&& read[0].1.timestamp == row.timestamp
            }
            &&& !(0 <= row.kind <= 3) ==> read.len() == 0
        }),
{
    lemma_entries_extend(first, second);
    reveal_with_fuel(entries_of, 2);
    assert(seq![row].drop_last() =~= Seq::empty());
    assert(seq![row].last() == row);
}

proof fn lemma_entries_extend(first: Seq<HistoryRow>, second: Seq<HistoryRow>)
    ensures
        entries_of(first + second) == entries_of(first) + entries_of(second),
    decreases second.len(),
{
    if second.len() == 0 {
        assert(first + second =~= first);
        assert(entries_of(first) + entries_of(second) =~= entries_of(first));
    } else {
        lemma_entries_extend(first, second.drop_last());
        assert((first + second).drop_last() =~= first + second.drop_last());
        assert((first + second).last() == second.last());
        assert(entries_of(first + second) =~= entries_of(first) + entries_of(second));
    }
}

/// Before the first boundary nothing is hidden.
pub proof fn law_nothing_is_hidden_without_a_boundary(rows: Seq<HistoryRow>)
    requires
        forall|i: int| 0 <= i < rows.len() ==> (#[trigger] rows[i]).kind != 0,
    ensures
        after_boundary(rows) == rows,
    decreases rows.len(),
{
    if rows.len() > 0 {
        assert(rows[rows.len() - 1].kind != 0);
        law_nothing_is_hidden_without_a_boundary(rows.drop_last());
        assert(rows.drop_last().push(rows.last()) =~= rows);
    } else {
        assert(rows =~= Seq::empty());
    }
}

} // verus!
