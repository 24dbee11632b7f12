//! The set of keys that are currently held down, one bit per key code.

use vstd::prelude::*;

verus! {

/// Whether bit number `bit` of `word` is one.
pub open spec fn bit_is_set(word: u64, bit: u64) -> bool {
    (word >> bit) & 1 == 1
}

proof fn lemma_bit_test(word: u64, bit: u64)
    by (bit_vector)
    requires
        bit < 64,
    ensures
        (word & (1u64 << bit)) != 0 <==> (word >> bit) & 1 == 1,
{
}

proof fn lemma_bit_raised(word: u64, bit: u64, other: u64)
    by (bit_vector)
    requires
        bit < 64,
        other < 64,
    ensures
        ((word | (1u64 << bit)) >> other) & 1 == 1 <==> (other == bit || (word >> other) & 1 == 1),
{
}

proof fn lemma_bit_lowered(word: u64, bit: u64, other: u64)
    by (bit_vector)
    requires
        bit < 64,
        other < 64,
    ensures
        ((word & !(1u64 << bit)) >> other) & 1 == 1 <==> (other != bit && (word >> other) & 1
            == 1),
{
}

proof fn lemma_bit_of_zero(other: u64)
    by (bit_vector)
    requires
        other < 64,
    ensures
        (0u64 >> other) & 1 == 0,
{
}

/// Tracks which of the 256 key codes are pressed, so that the repeated
/// key-down notifications of a held key can be told from a fresh press.
pub struct KeyStateTracker {
    bits: [u64; 4],
}

impl View for KeyStateTracker {
    type V = Set<u8>;

    /// The key codes that are marked as pressed.
    closed spec fn view(&self) -> Set<u8> {
        Set::new(|key: u8| bit_is_set(self.bits@[key as int / 64], (key % 64) as u64))
    }
}

impl KeyStateTracker {
    /// A tracker with no key pressed.
    pub fn new() -> (tracker: KeyStateTracker)
        ensures
            tracker@ == Set::<u8>::empty(),
    {
        let tracker = KeyStateTracker { bits: [0u64, 0u64, 0u64, 0u64] };
        proof {
            assert forall|key: u8| !tracker@.contains(key) by {
                lemma_bit_of_zero((key % 64) as u64);
            }
            assert(tracker@ =~= Set::<u8>::empty());
        }
        tracker
    }

    /// Whether `key` is marked as pressed.
    pub fn contains(&self, key: u8) -> (pressed: bool)
        ensures
            pressed == self@.contains(key),
    {
        let idx: usize = (key / 64) as usize;
        let bit: u64 = (key % 64) as u64;
        let word: u64 = self.bits[idx];
        proof {
            lemma_bit_test(word, bit);
        }
        word & (1u64 << bit) != 0
    }

    /// Marks `key` as pressed and tells whether it was not marked before.
    pub fn push(&mut self, key: u8) -> (fresh: bool)
        ensures
            fresh == !old(self)@.contains(key),
            final(self)@ == old(self)@.insert(key),
    {
        let idx: usize = (key / 64) as usize;
        let bit: u64 = (key % 64) as u64;
        let word: u64 = self.bits[idx];
        let mask: u64 = 1u64 << bit;
        proof {
            lemma_bit_test(word, bit);
        }
        let fresh: bool = word & mask == 0;
        self.bits[idx] = word | mask;
        proof {
            assert forall|other: u8| self@.contains(other) == old(self)@.insert(key).contains(
                other,
            ) by {
                if other as int / 64 == idx as int {
                    lemma_bit_raised(word, bit, (other % 64) as u64);
                }
            }
            assert(self@ =~= old(self)@.insert(key));
        }
        fresh
    }

    /// Clears the mark of `key`, whether or not it was set.
    pub fn remove(&mut self, key: u8)
        ensures
            final(self)@ == old(self)@.remove(key),
    {
        let idx: usize = (key / 64) as usize;
        let bit: u64 = (key % 64) as u64;
        let word: u64 = self.bits[idx];
        self.bits[idx] = word & !(1u64 << bit);
        proof {
            assert forall|other: u8| self@.contains(other) == old(self)@.remove(key).contains(
                other,
            ) by {
                if other as int / 64 == idx as int {
                    lemma_bit_lowered(word, bit, (other % 64) as u64);
                }
            }
            assert(self@ =~= old(self)@.remove(key));
        }
    }

    /// Clears every mark.
    pub fn clear(&mut self)
        ensures
            final(self)@ == Set::<u8>::empty(),
    {
        self.bits = [0u64, 0u64, 0u64, 0u64];
        proof {
            assert forall|key: u8| !self@.contains(key) by {
                lemma_bit_of_zero((key % 64) as u64);
            }
            assert(self@ =~= Set::<u8>::empty());
        }
    }
}

} // verus!
