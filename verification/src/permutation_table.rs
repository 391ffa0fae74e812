//! A pseudo-random permutation of the byte range and the hash over it.

use crate::shuffle::{shuffle_seeded, shuffled};
use crate::text::{dump_text, render};
use vstd::prelude::*;

verus! {

/// Number of entries of a permutation table.
pub const TABLE_SIZE: usize = 256;

/// The low eight bits of `value`, read as a number in `0..256`.
///
/// For a negative `value` this is the two's-complement residue, so that
/// every integer folds into the index range of the table.
pub open spec fn low_byte(value: isize) -> int {
    (value as int) % 256
}

/// Bitwise exclusive or of two table indices.
pub open spec fn xor_index(a: int, b: int) -> int {
    ((a as usize) ^ (b as usize)) as int
}

/// The index that the chained hash has reached after folding `input` from
/// left to right: the first coordinate enters masked and unlooked-up, and
/// every later one is xored, masked, onto the running index, the result
/// being looked up in `table`.
pub open spec fn fold_index(table: Seq<u8>, input: Seq<isize>) -> int
    decreases input.len(),
{
    if input.len() <= 1 {
        if input.len() == 1 {
            low_byte(input[0])
        } else {
            0
        }
    } else {
        table[xor_index(fold_index(table, input.drop_last()), low_byte(input.last()))] as int
    }
}

/// The byte that the chained hash of `input` over `table` yields: one more
/// lookup at the folded index.
pub open spec fn hash_of(table: Seq<u8>, input: Seq<isize>) -> u8 {
    table[fold_index(table, input)]
}

/// Masks an integer to its low eight bits.
pub fn mask_low_byte(value: isize) -> (index: usize)
    ensures
        index == low_byte(value),
        index < 256,
{
    let wide: i64 = value as i64;
    let masked: i64 = wide & 0xff;
    assert(0 <= wide & 0xff < 256 && (wide & 0xff) == (wide as int) % 256) by (bit_vector);
    masked as usize
}

/// The sequence `0, 1, .., 255`.
pub open spec fn identity_sequence() -> Seq<u8> {
    Seq::new(256, |i: int| i as u8)
}

/// Whether `values` is a permutation of the byte range: 256 entries, no
/// byte twice and none missing.
pub open spec fn is_permutation(values: Seq<u8>) -> bool {
    &&& values.len() == 256
    &&& values.no_duplicates()
    &&& forall|v: u8| values.contains(v)
}

/// The table that a seed stands for: the identity sequence, shuffled by the
/// generator seeded with `seed`.
pub open spec fn seeded_permutation(seed: u64) -> Seq<u8> {
    shuffled(seed, identity_sequence())
}

/// The identity sequence is a permutation.
pub proof fn lemma_identity_is_permutation()
    ensures
        is_permutation(identity_sequence()),
{
    let id = identity_sequence();
    assert forall|v: u8| id.contains(v) by {
        assert(id[v as int] == v);
    }
}

/// A sequence that holds each byte as often as a permutation does is a
/// permutation too.
pub proof fn lemma_rearranged_permutation(before: Seq<u8>, after: Seq<u8>)
    requires
        is_permutation(before),
        after.to_multiset() == before.to_multiset(),
    ensures
        is_permutation(after),
{
    broadcast use vstd::seq_lib::group_to_multiset_ensures;

    before.lemma_multiset_has_no_duplicates();
    assert forall|v: u8| after.to_multiset().count(v) == 1 by {
        assert(before.contains(v));
        assert(before.to_multiset().contains(v));
    }
    after.lemma_multiset_has_no_duplicates_conv();
    assert(after.len() == after.to_multiset().len());
    assert(before.len() == before.to_multiset().len());
    assert forall|v: u8| after.contains(v) by {
        assert(after.to_multiset().count(v) > 0);
    }
}

/// No duplicates means no omissions: 256 bytes that are pairwise different
/// are all the bytes there are.
pub proof fn lemma_distinct_bytes_are_permutation(values: Seq<u8>)
    requires
        values.len() == 256,
        values.no_duplicates(),
    ensures
        is_permutation(values),
{
    let widen = |v: u8| v as int;
    let numbers = values.map_values(widen);
    assert(vstd::relations::injective(widen));
    values.lemma_no_duplicates_injective(widen);
    numbers.unique_seq_to_set();
    vstd::seq_lib::seq_to_set_is_finite(numbers);
    vstd::set_lib::lemma_int_range(0, 256);
    let range = vstd::set_lib::set_int_range(0, 256);
    assert(numbers.to_set().subset_of(range)) by {
        assert forall|n: int| numbers.to_set().contains(n) implies range.contains(n) by {
            let i = choose|i: int| 0 <= i < numbers.len() && numbers[i] == n;
            assert(numbers[i] == values[i] as int);
        }
    }
    vstd::set_lib::lemma_subset_equality(numbers.to_set(), range);
    assert forall|v: u8| values.contains(v) by {
        assert(range.contains(v as int));
        assert(numbers.to_set().contains(v as int));
        let i = choose|i: int| 0 <= i < numbers.len() && numbers[i] == v as int;
        assert(values[i] == v);
    }
}

/// A permutation table is a bijection between indices and bytes: every byte
/// stands at exactly one index.
pub proof fn lemma_permutation_is_bijection(values: Seq<u8>, v: u8) -> (index: int)
    requires
        is_permutation(values),
    ensures
        0 <= index < 256,
        values[index] == v,
        forall|other: int| 0 <= other < 256 && values[other] == v ==> other == index,
{
    assert(values.contains(v));
    choose|i: int| 0 <= i < values.len() && values[i] == v
}

/// The hash reads each coordinate by its low eight bits alone: inputs that
/// agree coordinate by coordinate in their low bytes hash alike.
pub proof fn lemma_hash_reads_low_bytes(table: Seq<u8>, first: Seq<isize>, second: Seq<isize>)
    requires
        first.len() == second.len(),
        forall|i: int| 0 <= i < first.len() ==> low_byte(first[i]) == low_byte(second[i]),
    ensures
        fold_index(table, first) == fold_index(table, second),
        hash_of(table, first) == hash_of(table, second),
    decreases first.len(),
{
    if first.len() > 1 {
        lemma_hash_reads_low_bytes(table, first.drop_last(), second.drop_last());
    }
}

/// Hash domain safety: whatever the coordinates are, negative or far
/// beyond the table's size, the folded index of a non-empty input lies
/// within a table of 256 entries, so that the hash is one of its entries.
pub proof fn lemma_hash_stays_in_table(table: Seq<u8>, input: Seq<isize>)
    requires
        table.len() == 256,
        input.len() > 0,
    ensures
        0 <= fold_index(table, input) < 256,
        table.contains(hash_of(table, input)),
    decreases input.len(),
{
    if input.len() > 1 {
        lemma_hash_stays_in_table(table, input.drop_last());
        let folded: usize = fold_index(table, input.drop_last()) as usize;
        let masked: usize = low_byte(input.last()) as usize;
        assert((folded ^ masked) < 256) by (bit_vector)
            requires
                folded < 256,
                masked < 256,
        ;
    }
}

/// Determinism: two tables made from the same seed hold the same values in
/// the same order, and so hash every input alike.
pub proof fn lemma_same_seed_same_table(
    first: PermutationTable,
    second: PermutationTable,
    seed: u64,
    input: Seq<isize>,
)
    requires
        first@ == seeded_permutation(seed),
        second@ == seeded_permutation(seed),
    ensures
        first@ == second@,
        first == second,
        hash_of(first@, input) == hash_of(second@, input),
{
    assert(first.values@ =~= second.values@);
    assert(first.values =~= second.values);
}

/// A pseudo-random permutation of the numbers `0..256`.
pub struct PermutationTable {
    values: [u8; 256],
}

impl View for PermutationTable {
    type V = Seq<u8>;

    closed spec fn view(&self) -> Seq<u8> {
        self.values@
    }
}

impl PermutationTable {
    #[verifier::type_invariant]
    spec fn holds_permutation(&self) -> bool {
        is_permutation(self.values@)
    }

    /// Generates the permutation table that belongs to `seed`.
    pub fn new(seed: u64) -> (table: PermutationTable)
        ensures
            table@ == seeded_permutation(seed),
            is_permutation(table@),
    {
        let mut sequence: Vec<u8> = Vec::new();
        let mut next: usize = 0;
        while next < TABLE_SIZE
            invariant
                next <= 256,
                sequence@ == Seq::new(next as nat, |i: int| i as u8),
            decreases 256 - next,
        {
            sequence.push(next as u8);
            next = next + 1;
        }
        assert(sequence@ == identity_sequence());
        shuffle_seeded(seed, &mut sequence);
        proof {
            lemma_identity_is_permutation();
            lemma_rearranged_permutation(identity_sequence(), sequence@);
        }
        Self::assemble(sequence.as_slice())
    }

    /// Stores a sequence that is known to be a permutation.
    fn assemble(sequence: &[u8]) -> (table: PermutationTable)
        requires
            is_permutation(sequence@),
        ensures
            table@ == sequence@,
    {
        let mut values: [u8; 256] = [0; 256];
        let mut slot: usize = 0;
        while slot < TABLE_SIZE
            invariant
                slot <= 256,
                sequence@.len() == 256,
                forall|i: int| 0 <= i < slot ==> values@[i] == sequence@[i],
            decreases 256 - slot,
        {
            values[slot] = sequence[slot];
            slot = slot + 1;
        }
        assert(values@ == sequence@);
        PermutationTable { values }
    }

    /// Makes a table of the given values, if they are a permutation of the
    /// byte range: 256 of them, each byte once.
    pub fn from_values(values: &[u8]) -> (table: Option<PermutationTable>)
        ensures
            table is Some <==> is_permutation(values@),
            table matches Some(made) ==> made@ == values@,
    {
        if values.len() != TABLE_SIZE {
            return None;
        }
        let mut seen: [bool; 256] = [false; 256];
        let mut next: usize = 0;
        while next < TABLE_SIZE
            invariant
                next <= 256,
                values@.len() == 256,
                forall|i: int, j: int| 0 <= i < j < next ==> values@[i] != values@[j],
                forall|v: int|
                    0 <= v < 256 ==> (#[trigger] seen@[v] <==> exists|i: int|
                        0 <= i < next && values@[i] == v),
            decreases 256 - next,
        {
            let value: u8 = values[next];
            if seen[value as usize] {
                proof {
                    let earlier = choose|i: int| 0 <= i < next && values@[i] == value;
                    assert(values@[earlier] == values@[next as int]);
                }
                return None;
            }
            let ghost before = seen@;
            seen[value as usize] = true;
            assert forall|v: int| 0 <= v < 256 implies (#[trigger] seen@[v] <==> exists|i: int|
                0 <= i < next + 1 && values@[i] == v) by {
                if v == value {
                    assert(values@[next as int] == v);
                } else {
                    assert(seen@[v] == before[v]);
                    if before[v] {
                        let i = choose|i: int| 0 <= i < next && values@[i] == v;
                        assert(0 <= i < next + 1 && values@[i] == v);
                    }
                }
            }
            next = next + 1;
        }
        proof {
            lemma_distinct_bytes_are_permutation(values@);
        }
        Some(Self::assemble(values))
    }

    /// The 256 entries of the table, in order.
    pub fn values(&self) -> (values: [u8; 256])
        ensures
            values@ == self@,
            is_permutation(values@),
    {
        proof {
            use_type_invariant(self);
        }
        self.values
    }

    /// A readable dump of the table: a heading line, sixteen rows of
    /// sixteen entries, each entry padded on the right to three
    /// characters, and a closing brace.
    pub fn dump(&self) -> (text: String)
        ensures
            text@ == dump_text(self@),
    {
        render(&self.values)
    }

    /// Hashes like [`PermutationTable::hash`], and refuses an input without
    /// coordinates.
    pub fn try_hash(&self, input: &[isize]) -> (result: Option<u8>)
        ensures
            result is None <==> input@.len() == 0,
            result matches Some(byte) ==> byte == hash_of(self@, input@),
    {
        if input.len() == 0 {
            None
        } else {
            Some(self.hash(input))
        }
    }

    /// Hashes an arbitrary number of lattice coordinates into one byte of
    /// the table, by a chained Pearson hash.
    pub fn hash(&self, input: &[isize]) -> (result: u8)
        requires
            input@.len() > 0,
        ensures
            result == hash_of(self@, input@),
            self@.contains(result),
    {
        proof {
            lemma_hash_stays_in_table(self@, input@);
        }
        let mut index: usize = mask_low_byte(input[0]);
        let mut k: usize = 1;
        assert(input@.subrange(0, 1) =~= seq![input@[0]]);
        while k < input.len()
            invariant
                1 <= k <= input@.len(),
                index < 256,
                index == fold_index(self@, input@.subrange(0, k as int)),
            decreases input@.len() - k,
        {
            let next: usize = mask_low_byte(input[k]);
            assert((index ^ next) < 256) by (bit_vector)
                requires
                    index < 256,
                    next < 256,
            ;
            proof {
                let prefix = input@.subrange(0, k as int + 1);
                assert(prefix.drop_last() =~= input@.subrange(0, k as int));
                assert(prefix.last() == input@[k as int]);
            }
            index = self.values[index ^ next] as usize;
            k = k + 1;
        }
        assert(input@.subrange(0, k as int) =~= input@);
        self.values[index]
    }
}

} // verus!
