//! The ten scale degrees a chord tone can take, with the tables that place a
//! natural degree above a root.

use vstd::prelude::*;

verus! {

/// A count of accidentals: positive for sharps, negative for flats.
pub type PitchOffset = i8;

/// A chord tone given by its degree and the alteration applied to it.
pub type ChordComponent = (PitchClass, PitchOffset);

/// A scale degree relative to the root of a chord.
#[derive(Copy, Clone, Debug, PartialEq, Eq, Structural)]
pub enum PitchClass {
    N1,
    N2,
    N3,
    N4,
    N5,
    N6,
    N7,
    N9,
    N11,
    N13,
}

/// The number of scale degrees.
pub const PITCH_CLASS_COUNT: usize = 10;

impl PitchClass {
    /// The storage slot of the degree: its position in the order
    /// unison, 2nd, .., 7th, 9th, 11th, 13th.
    pub open spec fn slot(self) -> int {
        match self {
            PitchClass::N1 => 0,
            PitchClass::N2 => 1,
            PitchClass::N3 => 2,
            PitchClass::N4 => 3,
            PitchClass::N5 => 4,
            PitchClass::N6 => 5,
            PitchClass::N7 => 6,
            PitchClass::N9 => 7,
            PitchClass::N11 => 8,
            PitchClass::N13 => 9,
        }
    }

    /// The degree stored in slot `i`; only slots 0 to 9 hold a degree.
    pub open spec fn at(i: int) -> PitchClass
        recommends
            0 <= i < 10,
    {
        if i == 0 {
            PitchClass::N1
        } else if i == 1 {
            PitchClass::N2
        } else if i == 2 {
            PitchClass::N3
        } else if i == 3 {
            PitchClass::N4
        } else if i == 4 {
            PitchClass::N5
        } else if i == 5 {
            PitchClass::N6
        } else if i == 6 {
            PitchClass::N7
        } else if i == 7 {
            PitchClass::N9
        } else if i == 8 {
            PitchClass::N11
        } else {
            PitchClass::N13
        }
    }

    /// Every degree, in slot order.
    pub open spec fn all() -> Seq<PitchClass> {
        Seq::new(10, |i: int| PitchClass::at(i))
    }

    /// The number the degree is called by: 1 for the unison, 13 for the 13th.
    pub open spec fn number(self) -> int {
        match self {
            PitchClass::N1 => 1,
            PitchClass::N2 => 2,
            PitchClass::N3 => 3,
            PitchClass::N4 => 4,
            PitchClass::N5 => 5,
            PitchClass::N6 => 6,
            PitchClass::N7 => 7,
            PitchClass::N9 => 9,
            PitchClass::N11 => 11,
            PitchClass::N13 => 13,
        }
    }

    /// How many letters above the root's letter the degree lands, within one
    /// octave: a compound degree shares the letter of the simple one.
    pub open spec fn letter_offset(self) -> int {
        (self.number() - 1) % 7
    }

    /// Semitones from the root up to the natural, unaltered degree; the
    /// compound degrees lie an octave above the simple ones.
    pub open spec fn semitones(self) -> int {
        match self {
            PitchClass::N1 => 0,
            PitchClass::N2 => 2,
            PitchClass::N3 => 4,
            PitchClass::N4 => 5,
            PitchClass::N5 => 7,
            PitchClass::N6 => 9,
            PitchClass::N7 => 11,
            PitchClass::N9 => 14,
            PitchClass::N11 => 17,
            PitchClass::N13 => 21,
        }
    }

    /// The degrees that naming this one implies, lowest first and each
    /// unaltered: from the 7th up to the degree itself for the 7th, 9th,
    /// 11th and 13th, and none for the others.
    pub open spec fn implied(self) -> Seq<ChordComponent> {
        if self.slot() >= 6 {
            Seq::new((self.slot() - 5) as nat, |i: int| (PitchClass::at(6 + i), 0i8))
        } else {
            Seq::empty()
        }
    }

    /// The degree stored in a slot, if the slot is below ten.
    pub fn from_int(input: usize) -> (r: Option<PitchClass>)
        ensures
            r == (if input < 10 {
                Some(PitchClass::at(input as int))
            } else {
                None
            }),
            r matches Some(p) ==> p.slot() == input,
    {
        match input {
            0 => Some(PitchClass::N1),
            1 => Some(PitchClass::N2),
            2 => Some(PitchClass::N3),
            3 => Some(PitchClass::N4),
            4 => Some(PitchClass::N5),
            5 => Some(PitchClass::N6),
            6 => Some(PitchClass::N7),
            7 => Some(PitchClass::N9),
            8 => Some(PitchClass::N11),
            9 => Some(PitchClass::N13),
            _ => None,
        }
    }

    /// The storage slot of the degree.
    pub fn index(&self) -> (r: usize)
        ensures
            r == self.slot(),
            r < PITCH_CLASS_COUNT,
            PitchClass::at(r as int) == *self,
    {
        match *self {
            PitchClass::N1 => 0,
            PitchClass::N2 => 1,
            PitchClass::N3 => 2,
            PitchClass::N4 => 3,
            PitchClass::N5 => 4,
            PitchClass::N6 => 5,
            PitchClass::N7 => 6,
            PitchClass::N9 => 7,
            PitchClass::N11 => 8,
            PitchClass::N13 => 9,
        }
    }

    /// The letter offset of the natural degree.
    pub fn to_int(&self) -> (r: usize)
        ensures
            r == self.letter_offset(),
            r < 7,
    {
        match *self {
            PitchClass::N1 => 0,
            PitchClass::N2 | PitchClass::N9 => 1,
            PitchClass::N3 => 2,
            PitchClass::N4 | PitchClass::N11 => 3,
            PitchClass::N5 => 4,
            PitchClass::N6 | PitchClass::N13 => 5,
            PitchClass::N7 => 6,
        }
    }

    /// The semitone distance of the natural degree from the root.
    pub fn to_relative_difference(&self) -> (r: usize)
        ensures
            r == self.semitones(),
            r <= 21,
    {
        match *self {
            PitchClass::N1 => 0,
            PitchClass::N2 => 2,
            PitchClass::N3 => 4,
            PitchClass::N4 => 5,
            PitchClass::N5 => 7,
            PitchClass::N6 => 9,
            PitchClass::N7 => 11,
            PitchClass::N9 => 14,
            PitchClass::N11 => 17,
            PitchClass::N13 => 21,
        }
    }

    /// The lower extensions that the degree stacks beneath itself, itself
    /// included, for a caller to insert; the structure never adds them.
    pub fn extended_intervals(&self) -> (r: &'static [ChordComponent])
        ensures
            r@ == self.implied(),
    {
        let r: &'static [ChordComponent] = match *self {
            PitchClass::N7 => &[(PitchClass::N7, 0)],
            PitchClass::N9 => &[(PitchClass::N7, 0), (PitchClass::N9, 0)],
            PitchClass::N11 => &[(PitchClass::N7, 0), (PitchClass::N9, 0), (PitchClass::N11, 0)],
            PitchClass::N13 => &[
                (PitchClass::N7, 0),
                (PitchClass::N9, 0),
                (PitchClass::N11, 0),
                (PitchClass::N13, 0),
            ],
            _ => &[],
        };
        assert(r@ =~= self.implied());
        r
    }
}

/// Every degree sits in exactly one of the ten slots.
pub proof fn lemma_slot_round_trip(class: PitchClass, i: int)
    ensures
        0 <= class.slot() < 10,
        PitchClass::at(class.slot()) == class,
        0 <= i < 10 ==> PitchClass::at(i).slot() == i,
{
}

} // verus!
