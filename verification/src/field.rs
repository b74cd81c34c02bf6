//! The per-bar flag word shared between a bar's handle and the multibar runner.
use vstd::prelude::*;

verus! {

/// Position of the flag that marks a bar as finished.
pub const FINISHED_BIT: u8 = 1;

/// Position of the flag that hides a bar from the stack of bars.
pub const INVISIBLE_BIT: u8 = 2;

/// Whether bit `i` of `v` is set.
pub open spec fn bit_set(v: u8, i: u8) -> bool {
    (v >> i) & 1u8 == 1u8
}

/// `v` with bit `i` set to `value`, every other bit kept.
pub open spec fn with_bit(v: u8, i: u8, value: bool) -> u8 {
    if value {
        v | (1u8 << i)
    } else {
        v & !(1u8 << i)
    }
}

/// Writing bit `i` makes it read back as written and leaves every other bit as it was.
pub proof fn lemma_with_bit(v: u8, i: u8, value: bool)
    requires
        i < 8,
    ensures
        bit_set(with_bit(v, i, value), i) == value,
        forall|j: u8| j < 8 && j != i ==> bit_set(with_bit(v, i, value), j) == bit_set(v, j),
{
    if value {
        assert(((v | (1u8 << i)) >> i) & 1u8 == 1u8) by (bit_vector)
            requires
                i < 8,
        ;
        assert forall|j: u8| j < 8 && j != i implies (((v | (1u8 << i)) >> j) & 1u8 == 1u8) == ((
        v >> j) & 1u8 == 1u8) by {
            assert((((v | (1u8 << i)) >> j) & 1u8 == 1u8) == ((v >> j) & 1u8 == 1u8))
                by (bit_vector)
                requires
                    i < 8,
                    j < 8,
                    j != i,
            ;
        }
    } else {
        assert(((v & !(1u8 << i)) >> i) & 1u8 != 1u8) by (bit_vector)
            requires
                i < 8,
        ;
        assert forall|j: u8| j < 8 && j != i implies (((v & !(1u8 << i)) >> j) & 1u8 == 1u8) == (
        (v >> j) & 1u8 == 1u8) by {
            assert((((v & !(1u8 << i)) >> j) & 1u8 == 1u8) == ((v >> j) & 1u8 == 1u8))
                by (bit_vector)
                requires
                    i < 8,
                    j < 8,
                    j != i,
            ;
        }
    }
}

/// The flags of one bar, one bit each: bit 1 marks the bar finished (it is drawn once more,
/// before any active bar, and then left alone), bit 2 hides it from the stack of bars.
#[derive(Debug, Clone, Copy)]
pub struct BarStateField(pub u8);

impl BarStateField {
    /// The empty flag word: no flag is set.
    pub fn new() -> (f: BarStateField)
        ensures
            f.0 == 0,
            forall|i: u8| i < 8 ==> !bit_set(f.0, i),
    {
        assert(forall|i: u8| i < 8 ==> (0u8 >> i) & 1u8 != 1u8) by (bit_vector);
        BarStateField(0)
    }

    fn get_bit(&self, i: u8) -> (b: bool)
        requires
            i < 8,
        ensures
            b == bit_set(self.0, i),
    {
        (self.0 >> i) & 1u8 == 1u8
    }

    fn set_bit(&mut self, i: u8, value: bool)
        requires
            i < 8,
        ensures
            final(self).0 == with_bit(old(self).0, i, value),
    {
        if value {
            self.0 = self.0 | (1u8 << i);
        } else {
            self.0 = self.0 & !(1u8 << i);
        }
    }

    /// Whether the bar has been marked finished.
    pub fn finished(&self) -> (b: bool)
        ensures
            b == bit_set(self.0, FINISHED_BIT),
    {
        self.get_bit(FINISHED_BIT)
    }

    /// Mark the bar finished, or clear that mark; no other flag changes.
    pub fn set_finished(&mut self, value: bool)
        ensures
            final(self).0 == with_bit(old(self).0, FINISHED_BIT, value),
            final(self).finished_spec() == value,
            forall|j: u8|
                j < 8 && j != FINISHED_BIT ==> bit_set(final(self).0, j) == bit_set(old(self).0, j),
    {
        proof {
            lemma_with_bit(self.0, FINISHED_BIT, value);
        }
        self.set_bit(FINISHED_BIT, value)
    }

    /// Whether the bar is hidden from the stack of bars.
    pub fn invisible(&self) -> (b: bool)
        ensures
            b == bit_set(self.0, INVISIBLE_BIT),
    {
        self.get_bit(INVISIBLE_BIT)
    }

    /// Hide the bar, or show it again; no other flag changes.
    pub fn set_invisible(&mut self, value: bool)
        ensures
            final(self).0 == with_bit(old(self).0, INVISIBLE_BIT, value),
            final(self).invisible_spec() == value,
            forall|j: u8|
                j < 8 && j != INVISIBLE_BIT ==> bit_set(final(self).0, j) == bit_set(old(self).0, j),
    {
        proof {
            lemma_with_bit(self.0, INVISIBLE_BIT, value);
        }
        self.set_bit(INVISIBLE_BIT, value)
    }

    /// The finished flag of this word.
    pub open spec fn finished_spec(self) -> bool {
        bit_set(self.0, FINISHED_BIT)
    }

    /// The invisible flag of this word.
    pub open spec fn invisible_spec(self) -> bool {
        bit_set(self.0, INVISIBLE_BIT)
    }

    /// The word as the integer that is or-ed into a bar's shared flags.
    pub fn bits(&self) -> (r: usize)
        ensures
            r == self.0,
    {
        self.0 as usize
    }
}

/// Whether the finished flag is set in a bar's shared flags.
pub fn finished_in(bits: usize) -> (b: bool)
    ensures
        b == ((bits >> 1usize) & 1usize == 1usize),
{
    (bits >> 1usize) & 1usize == 1usize
}

/// A flag reads back what was last written to it, whatever was written to the other flag
/// in between.
pub proof fn law_flags_independent(v: u8, finished: bool, invisible: bool)
    ensures
        BarStateField(with_bit(with_bit(v, FINISHED_BIT, finished), INVISIBLE_BIT, invisible)).finished_spec()
            == finished,
        BarStateField(with_bit(with_bit(v, FINISHED_BIT, finished), INVISIBLE_BIT, invisible)).invisible_spec()
            == invisible,
        BarStateField(with_bit(with_bit(v, INVISIBLE_BIT, invisible), FINISHED_BIT, finished)).finished_spec()
            == finished,
        BarStateField(with_bit(with_bit(v, INVISIBLE_BIT, invisible), FINISHED_BIT, finished)).invisible_spec()
            == invisible,
{
    lemma_with_bit(v, FINISHED_BIT, finished);
    lemma_with_bit(with_bit(v, FINISHED_BIT, finished), INVISIBLE_BIT, invisible);
    lemma_with_bit(v, INVISIBLE_BIT, invisible);
    lemma_with_bit(with_bit(v, INVISIBLE_BIT, invisible), FINISHED_BIT, finished);
}

/// Writing a flag twice keeps only the second write.
pub proof fn law_last_write_wins(v: u8, i: u8, first: bool, second: bool)
    requires
        i < 8,
    ensures
        with_bit(with_bit(v, i, first), i, second) == with_bit(v, i, second),
{
    assert(with_bit(with_bit(v, i, first), i, second) == with_bit(v, i, second)) by (bit_vector)
        requires
            i < 8,
    ;
}

} // verus!
