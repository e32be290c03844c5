//! Where a counter or a record is stored: an address derived from the
//! program, the owner and, for a record, its sequence number.
//!
//! The seeds are this library's own: the owner's key, a tag that tells
//! counters from records, and for a record the sequence number as eight
//! little-endian bytes. The derivation itself is the program-address search
//! of `anchor_lang`'s `Pubkey`.

use vstd::prelude::*;
use vstd::bytes::{
    lemma_auto_spec_u64_to_from_le_bytes,
    spec_u64_from_le_bytes,
    spec_u64_to_le_bytes,
    u64_to_le_bytes,
};
use anchor_lang::prelude::Pubkey;

verus! {

/// A derived address, and the salt that the search settled on.
#[derive(Clone, Copy, Debug, PartialEq, Eq)]
pub struct DerivedAddress {
    pub key: [u8; 32],
    pub bump: u8,
}

/// The tag of the counter namespace: the bytes of `counter`.
pub open spec fn counter_tag() -> Seq<u8> {
    seq![99u8, 111u8, 117u8, 110u8, 116u8, 101u8, 114u8]
}

/// The tag of the record namespace: the bytes of `todo`.
pub open spec fn todo_tag() -> Seq<u8> {
    seq![116u8, 111u8, 100u8, 111u8]
}

/// The seeds of an owner's counter.
pub open spec fn counter_seeds(owner: Seq<u8>) -> Seq<Seq<u8>> {
    seq![owner, counter_tag()]
}

/// The seeds of the record that an owner holds under a sequence number.
pub open spec fn todo_seeds(owner: Seq<u8>, index: u64) -> Seq<Seq<u8>> {
    seq![owner, todo_tag(), spec_u64_to_le_bytes(index)]
}

/// The address and salt that `Pubkey::try_find_program_address` finds for
/// the seeds under the program, or `None` where it finds none.
pub uninterp spec fn program_address(seeds: Seq<Seq<u8>>, program_id: Seq<u8>) -> Option<
    (Seq<u8>, u8),
>;

/// A result of the search as plain values.
pub open spec fn derived(r: Option<DerivedAddress>) -> Option<(Seq<u8>, u8)> {
    match r {
        Some(a) => Some((a.key@, a.bump)),
        None => None,
    }
}

/// The seeds held in vectors, as sequences of bytes.
pub open spec fn seeds_view(seeds: Seq<Vec<u8>>) -> Seq<Seq<u8>> {
    Seq::new(seeds.len(), |i: int| seeds[i]@)
}

/// `Pubkey::try_find_program_address`: a search that reads nothing but the
/// seeds and the program's key, so that equal arguments give equal results.
/// Nothing is claimed of which address it finds.
#[verifier::external_body]
fn find_program_address(seeds: &Vec<Vec<u8>>, program_id: &[u8; 32]) -> (r: Option<DerivedAddress>)
    ensures
        derived(r) == program_address(seeds_view(seeds@), program_id@),
{
    let parts: Vec<&[u8]> = seeds.iter().map(|s| s.as_slice()).collect();
    let program = Pubkey::new_from_array(*program_id);
    Pubkey::try_find_program_address(&parts, &program).map(
        |(key, bump)| DerivedAddress { key: key.to_bytes(), bump },
    )
}

/// The bytes of a key, in a vector.
fn key_bytes(key: &[u8; 32]) -> (v: Vec<u8>)
    ensures
        v@ == key@,
{
    let mut v: Vec<u8> = Vec::new();
    let mut i: usize = 0;
    while i < 32
        invariant
            i <= 32,
            v@ == key@.subrange(0, i as int),
        decreases 32 - i,
    {
        v.push(key[i]);
        i += 1;
        assert(v@ =~= key@.subrange(0, i as int));
    }
    assert(v@ =~= key@);
    v
}

/// The address of an owner's counter under a program.
pub fn counter_address(program_id: &[u8; 32], owner: &[u8; 32]) -> (r: Option<DerivedAddress>)
    ensures
        derived(r) == program_address(counter_seeds(owner@), program_id@),
{
    let tag: Vec<u8> = vec![99u8, 111u8, 117u8, 110u8, 116u8, 101u8, 114u8];
    assert(tag@ =~= counter_tag());
    let mut seeds: Vec<Vec<u8>> = Vec::new();
    seeds.push(key_bytes(owner));
    seeds.push(tag);
    assert(seeds_view(seeds@) =~= counter_seeds(owner@));
    find_program_address(&seeds, program_id)
}

/// The address of the record that an owner holds under a sequence number.
pub fn todo_address(program_id: &[u8; 32], owner: &[u8; 32], index: u64) -> (r: Option<
    DerivedAddress,
>)
    ensures
        derived(r) == program_address(todo_seeds(owner@, index), program_id@),
{
    let tag: Vec<u8> = vec![116u8, 111u8, 100u8, 111u8];
    assert(tag@ =~= todo_tag());
    let mut seeds: Vec<Vec<u8>> = Vec::new();
    seeds.push(key_bytes(owner));
    seeds.push(tag);
    seeds.push(u64_to_le_bytes(index));
    assert(seeds_view(seeds@) =~= todo_seeds(owner@, index));
    find_program_address(&seeds, program_id)
}

/// No two things that the store keeps are derived from the same seeds: a
/// counter and a record never share theirs, two counters share theirs only
/// where the owner is the same, and two records only where the owner and the
/// sequence number are the same.
pub proof fn lemma_seeds_tell_apart(a: Seq<u8>, i: u64, b: Seq<u8>, j: u64)
    ensures
        counter_seeds(a) != todo_seeds(b, j),
        counter_seeds(a) == counter_seeds(b) ==> a == b,
        todo_seeds(a, i) == todo_seeds(b, j) ==> a == b && i == j,
{
    assert(counter_seeds(a).len() == 2);
    assert(todo_seeds(b, j).len() == 3);
    if counter_seeds(a) == counter_seeds(b) {
        assert(counter_seeds(a)[0] == a);
        assert(counter_seeds(b)[0] == b);
    }
    if todo_seeds(a, i) == todo_seeds(b, j) {
        assert(todo_seeds(a, i)[0] == a);
        assert(todo_seeds(b, j)[0] == b);
        assert(todo_seeds(a, i)[2] == spec_u64_to_le_bytes(i));
        assert(todo_seeds(b, j)[2] == spec_u64_to_le_bytes(j));
        lemma_auto_spec_u64_to_from_le_bytes();
        assert(spec_u64_from_le_bytes(spec_u64_to_le_bytes(i)) == i);
        assert(spec_u64_from_le_bytes(spec_u64_to_le_bytes(j)) == j);
    }
}

} // verus!
