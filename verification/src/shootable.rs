use vstd::prelude::*;
use std::collections::HashSet;

verus! {

broadcast use vstd::std_specs::hash::group_hash_axioms;

/// A collider handle's index and generation packed into one key.
pub open spec fn collider_key(index: u32, generation: u32) -> u64 {
    (index as nat * 0x1_0000_0000 + generation as nat) as u64
}

/// Distinct handles give distinct keys.
pub proof fn lemma_collider_key_injective(i1: u32, g1: u32, i2: u32, g2: u32)
    ensures
        collider_key(i1, g1) == collider_key(i2, g2) ==> i1 == i2 && g1 == g2,
{
    assert(i1 as nat * 0x1_0000_0000 + g1 as nat <= u64::MAX) by (nonlinear_arith);
    assert(i2 as nat * 0x1_0000_0000 + g2 as nat <= u64::MAX) by (nonlinear_arith);
    if collider_key(i1, g1) == collider_key(i2, g2) {
        assert(i1 as nat * 0x1_0000_0000 + g1 as nat == i2 as nat * 0x1_0000_0000 + g2 as nat);
        if i1 < i2 {
            assert(i1 as nat * 0x1_0000_0000 + 0x1_0000_0000 <= i2 as nat * 0x1_0000_0000) by (
            nonlinear_arith)
                requires
                    i1 < i2,
            ;
        } else if i2 < i1 {
            assert(i2 as nat * 0x1_0000_0000 + 0x1_0000_0000 <= i1 as nat * 0x1_0000_0000) by (
            nonlinear_arith)
                requires
                    i2 < i1,
            ;
        }
    }
}

/// Once retired, a collider can no longer be shot, and retiring it leaves
/// every other collider as shootable as it was.
pub proof fn lemma_retire_effect(s: Set<u64>, index: u32, generation: u32, other_index: u32, other_generation: u32)
    ensures
        !s.remove(collider_key(index, generation)).contains(collider_key(index, generation)),
        (other_index != index || other_generation != generation) ==> s.remove(
            collider_key(index, generation),
        ).contains(collider_key(other_index, other_generation)) == s.contains(
            collider_key(other_index, other_generation),
        ),
{
    lemma_collider_key_injective(index, generation, other_index, other_generation);
}

fn key_of(index: u32, generation: u32) -> (k: u64)
    ensures
        k == collider_key(index, generation),
{
    assert(index as u64 * 0x1_0000_0000 + generation as u64 <= u64::MAX) by (nonlinear_arith);
    index as u64 * 0x1_0000_0000 + generation as u64
}

/// The colliders that shots can hit, by the index and generation of their
/// handles. Everything else (the arena) is ignored by shots.
pub struct Shootable {
    keys: HashSet<u64>,
}

impl View for Shootable {
    type V = Set<u64>;

    closed spec fn view(&self) -> Set<u64> {
        self.keys@
    }
}

impl Shootable {
    /// No collider can be shot.
    pub fn new() -> (s: Self)
        ensures
            s@ == Set::<u64>::empty(),
    {
        Shootable { keys: HashSet::new() }
    }

    /// A new target's collider becomes shootable.
    pub fn register(&mut self, index: u32, generation: u32)
        ensures
            final(self)@ == old(self)@.insert(collider_key(index, generation)),
    {
        let k = key_of(index, generation);
        self.keys.insert(k);
    }

    /// A struck or removed target's collider can no longer be shot.
    pub fn retire(&mut self, index: u32, generation: u32)
        ensures
            final(self)@ == old(self)@.remove(collider_key(index, generation)),
    {
        let k = key_of(index, generation);
        self.keys.remove(&k);
    }

    /// Whether shots can hit this collider.
    pub fn is_shootable(&self, index: u32, generation: u32) -> (b: bool)
        ensures
            b == self@.contains(collider_key(index, generation)),
    {
        let k = key_of(index, generation);
        self.keys.contains(&k)
    }
}

} // verus!
