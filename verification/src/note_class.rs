//! The seven letter names and the semitone distance between them.

use vstd::prelude::*;
use vstd::string::*;

verus! {

/// A letter name, without accidentals.
#[derive(Copy, Clone, Debug, PartialEq, Eq, Structural)]
pub enum NoteClass {
    A,
    B,
    C,
    D,
    E,
    F,
    G,
}

/// The number of letter names.
pub const NOTE_CLASS_COUNT: usize = 7;

impl NoteClass {
    /// Position of the letter in the order A, B, .., G.
    pub open spec fn ordinal(self) -> int {
        match self {
            NoteClass::A => 0,
            NoteClass::B => 1,
            NoteClass::C => 2,
            NoteClass::D => 3,
            NoteClass::E => 4,
            NoteClass::F => 5,
            NoteClass::G => 6,
        }
    }

    /// The character that names the letter.
    pub open spec fn letter(self) -> char {
        match self {
            NoteClass::A => 'A',
            NoteClass::B => 'B',
            NoteClass::C => 'C',
            NoteClass::D => 'D',
            NoteClass::E => 'E',
            NoteClass::F => 'F',
            NoteClass::G => 'G',
        }
    }

    /// Semitones from A up to the natural note of this letter.
    pub open spec fn semitone(self) -> int {
        match self {
            NoteClass::A => 0,
            NoteClass::B => 2,
            NoteClass::C => 3,
            NoteClass::D => 5,
            NoteClass::E => 7,
            NoteClass::F => 8,
            NoteClass::G => 10,
        }
    }

    /// The letter at position `i`; only positions 0 to 6 name a letter.
    pub open spec fn at(i: int) -> NoteClass
        recommends
            0 <= i < 7,
    {
        if i == 0 {
            NoteClass::A
        } else if i == 1 {
            NoteClass::B
        } else if i == 2 {
            NoteClass::C
        } else if i == 3 {
            NoteClass::D
        } else if i == 4 {
            NoteClass::E
        } else if i == 5 {
            NoteClass::F
        } else {
            NoteClass::G
        }
    }

    /// Semitones from the natural note of `self` up to the next natural note
    /// of `other`, counted around the twelve-tone circle.
    pub open spec fn spec_difference(self, other: NoteClass) -> int {
        (other.semitone() + 12 - self.semitone()) % 12
    }

    /// The letter that a character names, if it names one.
    pub fn from_char(input: char) -> (r: Option<NoteClass>)
        ensures
            match r {
                Some(n) => n.letter() == input,
                None => forall|n: NoteClass| #[trigger] n.letter() != input,
            },
    {
        match input {
            'A' => Some(NoteClass::A),
            'B' => Some(NoteClass::B),
            'C' => Some(NoteClass::C),
            'D' => Some(NoteClass::D),
            'E' => Some(NoteClass::E),
            'F' => Some(NoteClass::F),
            'G' => Some(NoteClass::G),
            _ => None,
        }
    }

    /// The letter at a position, if the position is below seven.
    pub fn from_int(input: usize) -> (r: Option<NoteClass>)
        ensures
            r == (if input < 7 {
                Some(NoteClass::at(input as int))
            } else {
                None
            }),
            r matches Some(n) ==> n.ordinal() == input,
    {
        match input {
            0 => Some(NoteClass::A),
            1 => Some(NoteClass::B),
            2 => Some(NoteClass::C),
            3 => Some(NoteClass::D),
            4 => Some(NoteClass::E),
            5 => Some(NoteClass::F),
            6 => Some(NoteClass::G),
            _ => None,
        }
    }

    /// The position of the letter, for indexing.
    pub fn to_int(&self) -> (r: usize)
        ensures
            r == self.ordinal(),
            r < NOTE_CLASS_COUNT,
            NoteClass::at(r as int) == *self,
    {
        match *self {
            NoteClass::A => 0,
            NoteClass::B => 1,
            NoteClass::C => 2,
            NoteClass::D => 3,
            NoteClass::E => 4,
            NoteClass::F => 5,
            NoteClass::G => 6,
        }
    }

    /// The letter as text: one character, the one that names it.
    pub fn to_string(&self) -> (r: String)
        ensures
            r@ == seq![self.letter()],
    {
        let name: &'static str = match *self {
            NoteClass::A => "A",
            NoteClass::B => "B",
            NoteClass::C => "C",
            NoteClass::D => "D",
            NoteClass::E => "E",
            NoteClass::F => "F",
            NoteClass::G => "G",
        };
        proof {
            reveal_strlit("A");
            reveal_strlit("B");
            reveal_strlit("C");
            reveal_strlit("D");
            reveal_strlit("E");
            reveal_strlit("F");
            reveal_strlit("G");
        }
        assert(name@ =~= seq![self.letter()]);
        String::from_str(name)
    }

    fn semitone_offset(&self) -> (r: usize)
        ensures
            r == self.semitone(),
    {
        match *self {
            NoteClass::A => 0,
            NoteClass::B => 2,
            NoteClass::C => 3,
            NoteClass::D => 5,
            NoteClass::E => 7,
            NoteClass::F => 8,
            NoteClass::G => 10,
        }
    }

    /// Semitones from `self` up to `other`: never negative, below twelve,
    /// and zero from a letter to itself.
    pub fn difference(&self, other: &NoteClass) -> (r: usize)
        ensures
            r == self.spec_difference(*other),
            r < 12,
            *self == *other ==> r == 0,
    {
        let upper: usize = other.semitone_offset() + 12;
        let lower: usize = self.semitone_offset();
        (upper - lower) % 12
    }
}

/// The distance between two letters lies in the twelve-tone circle.
pub proof fn lemma_difference_in_range(x: NoteClass, y: NoteClass)
    ensures
        0 <= x.spec_difference(y) < 12,
{
}

/// From a letter to itself the distance is zero.
pub proof fn lemma_difference_to_self(x: NoteClass)
    ensures
        x.spec_difference(x) == 0,
{
}

} // verus!
