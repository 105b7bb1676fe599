//! Which files were accessed of late: one bit for each of some sixteen million slots.

use vstd::prelude::*;

verus! {

pub const LRU_CACHE_SIZE: usize = 1_048_576;

/// How many table entries one cycle clears.
pub const CYCLE_ENTRIES: usize = 17;

/// Per-file LRU tracking.
#[derive(Debug)]
pub struct LruState {
    pub lru_cache_table: Vec<u16>,
    pub lru_clear_pointer: usize,
}

/// The table entry of a file: the five hexadecimal digits behind the first four bytes
/// of its ID, or zero where they are none.
pub open spec fn slot_index(id: Seq<u8>) -> int {
    match crate::number::parse_hex(id.subrange(4, 9)) {
        Some(n) => n as int,
        None => 0,
    }
}

/// The bit of a file within its entry: the next hexadecimal digit, or zero.
pub open spec fn slot_bit(id: Seq<u8>) -> u16 {
    match crate::number::parse_hex(id.subrange(9, 10)) {
        Some(n) => n as u16,
        None => 0,
    }
}

/// The mask that picks a file's bit out of its entry.
pub open spec fn slot_mask(id: Seq<u8>) -> u16 {
    1u16 << slot_bit(id)
}

/// Whether a file's bit is set.
pub open spec fn is_marked(table: Seq<u16>, id: Seq<u8>) -> bool {
    table[slot_index(id)] & slot_mask(id) != 0
}

/// The table with a file's bit set.
pub open spec fn marked(table: Seq<u16>, id: Seq<u8>) -> Seq<u16> {
    table.update(slot_index(id), table[slot_index(id)] | slot_mask(id))
}

/// Whether the slices that name the slot fall between characters.
pub open spec fn sliceable(id: Seq<u8>) -> bool {
    id.len() >= 10 ==> vstd::utf8::is_char_boundary(id, 4) && vstd::utf8::is_char_boundary(id, 9)
        && vstd::utf8::is_char_boundary(id, 10)
}

/// Where a cycle that begins at `pointer` stops.
pub open spec fn cycle_end(pointer: int) -> int {
    if pointer + CYCLE_ENTRIES < LRU_CACHE_SIZE {
        pointer + CYCLE_ENTRIES
    } else {
        LRU_CACHE_SIZE as int
    }
}

/// Where the cycle behind one that begins at `pointer` begins.
pub open spec fn next_pointer(pointer: int) -> int {
    if cycle_end(pointer) >= LRU_CACHE_SIZE {
        0
    } else {
        cycle_end(pointer)
    }
}

/// The table behind a cycle that begins at `pointer`.
pub open spec fn cycled(table: Seq<u16>, pointer: int) -> Seq<u16> {
    Seq::new(
        table.len(),
        |i: int|
            if pointer <= i < cycle_end(pointer) {
                0u16
            } else {
                table[i]
            },
    )
}

/// The pointer behind `n` cycles.
pub open spec fn pointer_behind(pointer: int, n: nat) -> int
    decreases n,
{
    if n == 0 {
        pointer
    } else {
        next_pointer(pointer_behind(pointer, (n - 1) as nat))
    }
}

/// The table behind `n` cycles.
pub open spec fn table_behind(table: Seq<u16>, pointer: int, n: nat) -> Seq<u16>
    decreases n,
{
    if n == 0 {
        table
    } else {
        cycled(
            table_behind(table, pointer, (n - 1) as nat),
            pointer_behind(pointer, (n - 1) as nat),
        )
    }
}

// ---------------------------------------------------------------------------
// Laws
// ---------------------------------------------------------------------------

proof fn lemma_slot(id: Seq<u8>)
    requires
        id.len() >= 10,
    ensures
        0 <= slot_index(id) < LRU_CACHE_SIZE,
        slot_bit(id) < 16,
{
    lemma_hex_bound(id.subrange(4, 9));
    lemma_hex_bound(id.subrange(9, 10));
    reveal_with_fuel(vstd::arithmetic::power::pow, 6);
}

proof fn lemma_hex_bound(s: Seq<u8>)
    ensures
        crate::number::parse_hex(s) matches Some(n) ==> n < vstd::arithmetic::power::pow(16, s.len()),
{
    lemma_hex_value_bound(s);
    if s.len() > 0 {
        lemma_hex_value_bound(s.skip(1));
        vstd::arithmetic::power::lemma_pow_increases(16, (s.len() - 1) as nat, s.len());
    }
}

proof fn lemma_hex_value_bound(s: Seq<u8>)
    ensures
        crate::number::hex_value(s) < vstd::arithmetic::power::pow(16, s.len()),
    decreases s.len(),
{
    reveal(vstd::arithmetic::power::pow);
    if s.len() > 0 {
        lemma_hex_value_bound(s.drop_last());
    }
}

/// Marking a file leaves it marked, and marking it once more changes nothing.
pub proof fn marking_is_idempotent(table: Seq<u16>, id: Seq<u8>)
    requires
        table.len() == LRU_CACHE_SIZE,
        id.len() >= 10,
    ensures
        is_marked(marked(table, id), id),
        marked(marked(table, id), id) == marked(table, id),
{
    lemma_slot(id);
    let e = table[slot_index(id)];
    let b = slot_bit(id);
    assert((e | (1u16 << b)) & (1u16 << b) != 0 && (e | (1u16 << b)) | (1u16 << b) == e | (1u16 << b))
        by (bit_vector)
        requires
            b < 16,
    ;
    assert(marked(marked(table, id), id) =~= marked(table, id));
}

/// Marking one file keeps every mark, and marks no file of another slot.
pub proof fn marking_keeps_other_files(table: Seq<u16>, id: Seq<u8>, other: Seq<u8>)
    requires
        table.len() == LRU_CACHE_SIZE,
        id.len() >= 10,
        other.len() >= 10,
    ensures
        is_marked(table, other) ==> is_marked(marked(table, id), other),
        (slot_index(id), slot_bit(id)) != (slot_index(other), slot_bit(other)) ==> is_marked(
            marked(table, id),
            other,
        ) == is_marked(table, other),
{
    lemma_slot(id);
    lemma_slot(other);
    let e = table[slot_index(id)];
    let b = slot_bit(id);
    let c = slot_bit(other);
    assert(e & (1u16 << c) != 0 ==> (e | (1u16 << b)) & (1u16 << c) != 0) by (bit_vector)
        requires
            b < 16,
            c < 16,
    ;
    assert(b != c ==> (e | (1u16 << b)) & (1u16 << c) == e & (1u16 << c)) by (bit_vector)
        requires
            b < 16,
            c < 16,
    ;
}

proof fn lemma_round(table: Seq<u16>, n: nat)
    requires
        table.len() == LRU_CACHE_SIZE,
        n <= 61_681,
    ensures
        table_behind(table, 0, n).len() == LRU_CACHE_SIZE,
        n < 61_681 ==> pointer_behind(0, n) == 17 * n,
        n == 61_681 ==> pointer_behind(0, n) == 0,
        forall|i: int|
            0 <= i < 17 * n && i < LRU_CACHE_SIZE ==> #[trigger] table_behind(table, 0, n)[i] == 0,
    decreases n,
{
    if n > 0 {
        lemma_round(table, (n - 1) as nat);
        let before = table_behind(table, 0, (n - 1) as nat);
        assert forall|i: int| 0 <= i < 17 * n && i < LRU_CACHE_SIZE implies #[trigger] table_behind(
            table,
            0,
            n,
        )[i] == 0 by {
            if i < 17 * (n - 1) {
                assert(before[i] == 0);
            }
        }
    }
}

/// A full round of 61,681 cycles clears the whole table and ends where it began.
pub proof fn full_round_clears_the_table(table: Seq<u16>)
    requires
        table.len() == LRU_CACHE_SIZE,
    ensures
        pointer_behind(0, 61_681) == 0,
        forall|i: int| 0 <= i < LRU_CACHE_SIZE ==> #[trigger] table_behind(table, 0, 61_681)[i] == 0,
{
    lemma_round(table, 61_681);
}

// ---------------------------------------------------------------------------
// Executable operations
// ---------------------------------------------------------------------------

impl LruState {
    /// The table has all its entries.
    pub open spec fn wf(&self) -> bool {
        self.lru_cache_table@.len() == LRU_CACHE_SIZE
    }

    pub fn new() -> (r: Self)
        ensures
            r.wf(),
            r.lru_clear_pointer == 0,
            forall|i: int| 0 <= i < LRU_CACHE_SIZE ==> r.lru_cache_table@[i] == 0,
    {
        LruState { lru_cache_table: vec![0u16; LRU_CACHE_SIZE], lru_clear_pointer: 0 }
    }

    /// Low-level LRU bit check/set. Returns `true` if the file's LRU bit was
    /// NOT previously set (i.e., the file hasn't been accessed recently).
    pub fn mark_recently_accessed(&mut self, fileid: &str) -> (r: bool)
        requires
            old(self).wf(),
            sliceable(vstd::utf8::encode_utf8(fileid@)),
        ensures
            final(self).wf(),
            final(self).lru_clear_pointer == old(self).lru_clear_pointer,
            ({
                let id = vstd::utf8::encode_utf8(fileid@);
                if id.len() < 10 {
                    !r && final(self).lru_cache_table@ == old(self).lru_cache_table@
                } else {
                    &&& r == !is_marked(old(self).lru_cache_table@, id)
                    &&& final(self).lru_cache_table@ == marked(old(self).lru_cache_table@, id)
                }
            }),
    {
        let id = fileid.as_bytes();
        if id.len() < 10 {
            return false;
        }
        proof {
            lemma_slot(id@);
        }
        let index: usize = match crate::number::read_hex(id, 4, 9) {
            Some(n) => n as usize,
            None => 0,
        };
        let bit: u16 = match crate::number::read_hex(id, 9, 10) {
            Some(n) => n as u16,
            None => 0,
        };
        let mask: u16 = 1u16 << bit;
        let entry: u16 = self.lru_cache_table[index];
        if entry & mask != 0 {
            assert(entry & (1u16 << bit) != 0 ==> entry | (1u16 << bit) == entry) by (bit_vector)
                requires
                    bit < 16,
            ;
            assert(marked(self.lru_cache_table@, id@) =~= self.lru_cache_table@);
            return false;
        }
        self.lru_cache_table.set(index, entry | mask);
        true
    }

    /// Clears the next entries of the table and moves the pointer behind them.
    pub fn cycle(&mut self)
        requires
            old(self).wf(),
            old(self).lru_clear_pointer <= LRU_CACHE_SIZE,
        ensures
            final(self).wf(),
            final(self).lru_clear_pointer < LRU_CACHE_SIZE,
            final(self).lru_clear_pointer == next_pointer(old(self).lru_clear_pointer as int),
            final(self).lru_cache_table@ == cycled(
                old(self).lru_cache_table@,
                old(self).lru_clear_pointer as int,
            ),
    {
        let start: usize = self.lru_clear_pointer;
        let until: usize = if start + CYCLE_ENTRIES < LRU_CACHE_SIZE {
            start + CYCLE_ENTRIES
        } else {
            LRU_CACHE_SIZE
        };
        let ghost before = self.lru_cache_table@;
        let mut i: usize = start;
        while i < until
            invariant
                start <= i <= until <= LRU_CACHE_SIZE,
                before.len() == LRU_CACHE_SIZE,
                self.lru_clear_pointer == start,
                self.lru_cache_table@.len() == LRU_CACHE_SIZE,
                forall|j: int|
                    0 <= j < LRU_CACHE_SIZE ==> #[trigger] self.lru_cache_table@[j] == (if start <= j
                        < i {
                        0u16
                    } else {
                        before[j]
                    }),
            decreases until - i,
        {
            self.lru_cache_table.set(i, 0);
            i += 1;
        }
        self.lru_clear_pointer = if until >= LRU_CACHE_SIZE {
            0
        } else {
            until
        };
        assert(self.lru_cache_table@ =~= cycled(before, start as int));
    }
}

impl Default for LruState {
    fn default() -> (r: Self)
        ensures
            r.wf(),
            r.lru_clear_pointer == 0,
            forall|i: int| 0 <= i < LRU_CACHE_SIZE ==> r.lru_cache_table@[i] == 0,
    {
        Self::new()
    }
}

} // verus!
