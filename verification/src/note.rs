//! A spelled note, and the rule that finds the note a given degree above it.

use vstd::prelude::*;
use vstd::string::*;
use crate::note_class::{NoteClass, NOTE_CLASS_COUNT};
use crate::pitch_class::{ChordComponent, PitchClass, PitchOffset};

verus! {

/// A letter name with the accidentals applied to it.
#[derive(Copy, Clone, Debug, PartialEq, Eq, Structural)]
pub struct Note {
    /// The letter name.
    pub root: NoteClass,
    /// The accidentals: sharps when positive, flats when negative.
    pub offset: PitchOffset,
}

impl Note {
    /// Semitones from A natural up to this note, accidentals included.
    pub open spec fn pitch(self) -> int {
        self.root.semitone() + self.offset
    }

    /// The letter that lies the degree `class` above this note's letter.
    pub open spec fn relative_letter(self, class: PitchClass) -> NoteClass {
        NoteClass::at((self.root.ordinal() + class.letter_offset()) % 7)
    }

    /// The accidentals that the note a component above this one carries:
    /// this note's own, the component's alteration, and what the natural
    /// degree asks for beyond the gap between the two natural letters.
    pub open spec fn relative_offset(self, component: ChordComponent) -> int {
        self.offset + component.1 + (component.0.semitones() - self.root.spec_difference(
            self.relative_letter(component.0),
        ))
    }

    /// Whether the accidentals of the note a component above this one can be
    /// counted in a `PitchOffset`.
    pub open spec fn resolves(self, component: ChordComponent) -> bool {
        i8::MIN <= self.relative_offset(component) <= i8::MAX
    }

    /// The note a component above this one, spelled on the diatonic letter.
    pub open spec fn relative(self, component: ChordComponent) -> Note
        recommends
            self.resolves(component),
    {
        Note {
            root: self.relative_letter(component.0),
            offset: self.relative_offset(component) as i8,
        }
    }

    /// The note as text: the letter, then one `#` for each sharp or one `b`
    /// for each flat.
    pub open spec fn text(self) -> Seq<char> {
        seq![self.root.letter()] + Seq::new(
            (if self.offset >= 0 {
                self.offset as int
            } else {
                -(self.offset as int)
            }) as nat,
            |i: int|
                if self.offset > 0 {
                    '#'
                } else {
                    'b'
                },
        )
    }

    /// A note from its letter and accidentals.
    pub fn new(root: NoteClass, offset: PitchOffset) -> (n: Note)
        ensures
            n.root == root,
            n.offset == offset,
    {
        Note { root, offset }
    }

    /// The note that lies the given component above this one. The letter is
    /// the diatonic one for the degree, and the accidentals make the distance
    /// exact. The accidentals of the result must fit a `PitchOffset`.
    pub fn get_relative(&self, component: ChordComponent) -> (r: Note)
        requires
            self.resolves(component),
        ensures
            r == self.relative(component),
            r.root.ordinal() == (self.root.ordinal() + component.0.letter_offset()) % 7,
            r.offset == self.offset + component.1 + component.0.semitones()
                - self.root.spec_difference(r.root),
    {
        let (letter, total) = self.resolve(component);
        Note { root: letter, offset: total as i8 }
    }

    /// The note a component above this one where its accidentals fit a
    /// `PitchOffset`, and nothing where they do not.
    pub fn checked_relative(&self, component: ChordComponent) -> (r: Option<Note>)
        ensures
            r == (if self.resolves(component) {
                Some(self.relative(component))
            } else {
                None
            }),
    {
        if self.can_resolve(component) {
            Some(self.get_relative(component))
        } else {
            None
        }
    }

    /// Whether `get_relative` accepts the component.
    pub fn can_resolve(&self, component: ChordComponent) -> (b: bool)
        ensures
            b == self.resolves(component),
    {
        let (_, total) = self.resolve(component);
        -128 <= total && total <= 127
    }

    /// The letter and the accidentals of the note a component above this
    /// one, the accidentals counted in a type wide enough for any input.
    fn resolve(&self, component: ChordComponent) -> (r: (NoteClass, i16))
        ensures
            r.0 == self.relative_letter(component.0),
            r.1 == self.relative_offset(component),
    {
        let class = component.0;
        let root_val: usize = (self.root.to_int() + class.to_int()) % NOTE_CLASS_COUNT;
        let root_note = NoteClass::from_int(root_val).unwrap();
        let ideal: i16 = class.to_relative_difference() as i16;
        let gap: i16 = self.root.difference(&root_note) as i16;
        (root_note, self.offset as i16 + component.1 as i16 + (ideal - gap))
    }

    /// The note as text.
    pub fn to_string(&self) -> (r: String)
        ensures
            r@ == self.text(),
    {
        let mut out = self.root.to_string();
        let count: i16 = if self.offset >= 0 {
            self.offset as i16
        } else {
            -(self.offset as i16)
        };
        let mark: &'static str = if self.offset > 0 {
            "#"
        } else {
            "b"
        };
        proof {
            reveal_strlit("#");
            reveal_strlit("b");
        }
        let mut i: i16 = 0;
        while i < count
            invariant
                0 <= i <= count,
                count == (if self.offset >= 0 {
                    self.offset as int
                } else {
                    -(self.offset as int)
                }),
                mark@ =~= seq![if self.offset > 0 {
                    '#'
                } else {
                    'b'
                }],
                out@ =~= seq![self.root.letter()] + Seq::new(
                    i as nat,
                    |k: int|
                        if self.offset > 0 {
                            '#'
                        } else {
                            'b'
                        },
                ),
            decreases count - i,
        {
            out.append(mark);
            i = i + 1;
        }
        out
    }
}

/// The note found a component above a root lies, around the twelve-tone
/// circle, exactly the natural degree's semitones plus the alteration above
/// the root, whatever letters spell the two.
pub proof fn lemma_relative_distance(root: Note, component: ChordComponent)
    requires
        root.resolves(component),
    ensures
        (root.relative(component).pitch() - root.pitch()) % 12 == (component.0.semitones()
            + component.1) % 12,
{
}

} // verus!
