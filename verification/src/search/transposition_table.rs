//! A fixed-size cache of search results, indexed by position hash.

use vstd::prelude::*;
use crate::types::Move;

verus! {

/// How a stored score relates to the true value of its position.
#[derive(Clone, Copy, Debug, PartialEq, Eq, Structural)]
pub enum TranspositionTableEntryType {
    /// The score is the value.
    Exact,
    /// The value is at least the score.
    LowerBound,
    /// The value is at most the score.
    UpperBound,
}

/// One search result: the position's hash, the depth searched below it, the
/// score with its kind, the best move and the line expected after it.
#[derive(Clone, Debug)]
pub struct TranspositionTableEntry {
    pub depth: u8,
    pub score: i32,
    pub best_move: Option<Move>,
    pub entry_type: TranspositionTableEntryType,
    pub pv: Vec<Move>,
    pub hash: u64,
}

/// An entry as a mathematical value.
pub struct EntryView {
    pub depth: u8,
    pub score: i32,
    pub best_move: Option<Move>,
    pub entry_type: TranspositionTableEntryType,
    pub pv: Seq<Move>,
    pub hash: u64,
}

impl View for TranspositionTableEntry {
    type V = EntryView;

    open spec fn view(&self) -> EntryView {
        EntryView {
            depth: self.depth,
            score: self.score,
            best_move: self.best_move,
            entry_type: self.entry_type,
            pv: self.pv@,
            hash: self.hash,
        }
    }
}

/// The slot that a hash falls into in a table of `size` slots.
pub open spec fn slot_index(hash: u64, size: nat) -> int {
    (hash & ((size - 1) as u64)) as int
}

/// What a table answers for a hash: the entry in the hash's slot, if it was
/// stored under this very hash.
pub open spec fn lookup(slots: Seq<Option<EntryView>>, hash: u64) -> Option<EntryView> {
    match slots[slot_index(hash, slots.len())] {
        Some(entry) => if entry.hash == hash {
            Some(entry)
        } else {
            None
        },
        None => None,
    }
}

/// Whether a candidate entry takes the slot of a hash: the slot is free, or
/// what it holds was searched no deeper than the candidate.
pub open spec fn replaces(slots: Seq<Option<EntryView>>, hash: u64, entry: EntryView) -> bool {
    match slots[slot_index(hash, slots.len())] {
        Some(held) => held.depth <= entry.depth,
        None => true,
    }
}

/// The table after an entry was offered for the slot of a hash.
pub open spec fn store(slots: Seq<Option<EntryView>>, hash: u64, entry: EntryView) -> Seq<
    Option<EntryView>,
> {
    if replaces(slots, hash, entry) {
        slots.update(slot_index(hash, slots.len()), Some(entry))
    } else {
        slots
    }
}

/// Whether a slot has kept what it held or taken an entry searched at
/// least as deep.
pub open spec fn slot_kept_or_deepened(before: Option<EntryView>, after: Option<EntryView>) -> bool {
    after == before || (after is Some && (before is None || before->0.depth <= after->0.depth))
}

/// Whether a table has come from another by stores alone: it has as many
/// slots, and every slot has kept what it held or taken an entry searched
/// at least as deep. No entry is ever lost to a shallower one.
pub open spec fn kept_or_deepened(before: Seq<Option<EntryView>>, after: Seq<Option<EntryView>>) -> bool {
    &&& after.len() == before.len()
    &&& forall|i: int| 0 <= i < before.len() ==> slot_kept_or_deepened(#[trigger] before[i], after[i])
}

/// Offering an entry to a table keeps or deepens every slot.
pub proof fn lemma_store_keeps_or_deepens(slots: Seq<Option<EntryView>>, hash: u64, entry: EntryView)
    requires
        0 < slots.len() <= usize::MAX,
    ensures
        kept_or_deepened(slots, store(slots, hash, entry)),
{
    lemma_slot_index_in_range(hash, slots.len() as usize);
}

/// Tables that come from one another by stores form a chain: what holds
/// from the first to the second and from the second to the third holds
/// from the first to the third, and a table comes from itself.
pub proof fn lemma_kept_or_deepened_chain(
    first: Seq<Option<EntryView>>,
    second: Seq<Option<EntryView>>,
    third: Seq<Option<EntryView>>,
)
    requires
        kept_or_deepened(first, second),
        kept_or_deepened(second, third),
    ensures
        kept_or_deepened(first, third),
        kept_or_deepened(first, first),
{
    assert forall|i: int| 0 <= i < first.len() implies slot_kept_or_deepened(
        #[trigger] first[i],
        third[i],
    ) by {
        assert(slot_kept_or_deepened(first[i], second[i]));
        assert(slot_kept_or_deepened(second[i], third[i]));
    }
}

/// A table in order has at least one slot.
pub proof fn lemma_wf_has_slots(table: &TranspositionTable)
    requires
        table.wf(),
    ensures
        0 < table.slots().len() <= usize::MAX,
{
}

/// A hash's slot lies inside the table.
pub proof fn lemma_slot_index_in_range(hash: u64, size: usize)
    requires
        size > 0,
    ensures
        0 <= slot_index(hash, size as nat) < size,
{
    let mask: u64 = (size - 1) as u64;
    assert(hash & mask <= mask) by (bit_vector);
}

/// An entry stored under its own hash is what the table answers for that
/// hash right afterwards, in every field.
pub proof fn lemma_insert_then_get(slots: Seq<Option<EntryView>>, hash: u64, entry: EntryView)
    requires
        0 < slots.len() <= usize::MAX,
        entry.hash == hash,
        replaces(slots, hash, entry),
    ensures
        lookup(store(slots, hash, entry), hash) == Some(entry),
{
    lemma_slot_index_in_range(hash, slots.len() as usize);
}

/// What a table answers for a hash was stored under that hash: an entry
/// of another position that fell into the same slot is never handed out.
pub proof fn lemma_lookup_checks_the_hash(slots: Seq<Option<EntryView>>, hash: u64)
    ensures
        lookup(slots, hash) matches Some(entry) ==> entry.hash == hash,
{
}

/// A table whose slots are all free answers nothing.
pub proof fn lemma_free_table_answers_nothing(slots: Seq<Option<EntryView>>, hash: u64)
    requires
        0 < slots.len() <= usize::MAX,
        forall|i: int| 0 <= i < slots.len() ==> slots[i] is None,
    ensures
        lookup(slots, hash) is None,
{
    lemma_slot_index_in_range(hash, slots.len() as usize);
}

/// An entry offered for a slot that holds a deeper search leaves the table
/// as it was.
pub proof fn lemma_insert_keeps_deeper(slots: Seq<Option<EntryView>>, hash: u64, entry: EntryView)
    requires
        !replaces(slots, hash, entry),
    ensures
        store(slots, hash, entry) == slots,
{
}

/// A transposition table.
#[derive(Clone)]
pub struct TranspositionTable {
    table: Vec<Option<TranspositionTableEntry>>,
    table_size: usize,
}

impl TranspositionTable {
    /// Whether the table is in order: it has as many slots as it was made
    /// with, and at least one.
    pub closed spec fn wf(&self) -> bool {
        self.table@.len() == self.table_size && self.table_size > 0
    }

    /// The slots of the table as mathematical values.
    pub closed spec fn slots(&self) -> Seq<Option<EntryView>> {
        Seq::new(
            self.table@.len(),
            |i: int|
                match self.table@[i] {
                    Some(entry) => Some(entry@),
                    None => None,
                },
        )
    }

    /// A table of `table_size` free slots.
    pub fn new(table_size: usize) -> (table: Self)
        requires
            table_size > 0,
        ensures
            table.wf(),
            table.slots().len() == table_size,
            forall|i: int| 0 <= i < table_size ==> table.slots()[i] is None,
    {
        let mut table: Vec<Option<TranspositionTableEntry>> = Vec::new();
        while table.len() < table_size
            invariant
                table@.len() <= table_size,
                forall|i: int| 0 <= i < table@.len() ==> table@[i] is None,
            decreases table_size - table@.len(),
        {
            table.push(None);
        }
        TranspositionTable { table, table_size }
    }

    /// The entry stored under a hash, if the hash's slot holds one.
    pub fn get(&self, hash: u64) -> (found: Option<&TranspositionTableEntry>)
        requires
            self.wf(),
        ensures
            match found {
                Some(entry) => lookup(self.slots(), hash) == Some(entry@),
                None => lookup(self.slots(), hash) is None,
            },
    {
        proof {
            lemma_slot_index_in_range(hash, self.table_size);
        }
        let index: usize = (hash & (self.table_size as u64 - 1)) as usize;
        match &self.table[index] {
            Some(entry) => if entry.hash == hash {
                Some(entry)
            } else {
                None
            },
            None => None,
        }
    }

    /// Offers an entry for the slot of a hash. It is stored if the slot is
    /// free or holds a search no deeper than the entry's.
    pub fn insert(&mut self, hash: u64, entry: TranspositionTableEntry)
        requires
            old(self).wf(),
        ensures
            final(self).wf(),
            final(self).slots() == store(old(self).slots(), hash, entry@),
            kept_or_deepened(old(self).slots(), final(self).slots()),
    {
        proof {
            lemma_slot_index_in_range(hash, self.table_size);
        }
        proof {
            lemma_store_keeps_or_deepens(old(self).slots(), hash, entry@);
        }
        let index: usize = (hash & (self.table_size as u64 - 1)) as usize;
        let replace = match &self.table[index] {
            Some(held) => held.depth <= entry.depth,
            None => true,
        };
        if replace {
            self.table.set(index, Some(entry));
        }
        assert(self.slots() =~= store(old(self).slots(), hash, entry@));
    }

    /// The number of slots.
    pub fn len(&mut self) -> (size: usize)
        requires
            old(self).wf(),
        ensures
            size == old(self).slots().len(),
            size > 0,
            *final(self) == *old(self),
    {
        self.table.len()
    }

    /// Frees every slot.
    pub fn clear(&mut self)
        requires
            old(self).wf(),
        ensures
            final(self).wf(),
            final(self).slots().len() == old(self).slots().len(),
            forall|i: int| 0 <= i < final(self).slots().len() ==> final(self).slots()[i] is None,
    {
        let mut i: usize = 0;
        while i < self.table.len()
            invariant
                self.table@.len() == self.table_size,
                self.table_size == old(self).table_size,
                self.table_size > 0,
                i <= self.table@.len(),
                forall|k: int| 0 <= k < i ==> self.table@[k] is None,
            decreases self.table@.len() - i,
        {
            self.table.set(i, None);
            i = i + 1;
        }
    }
}

} // verus!
