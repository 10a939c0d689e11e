//! A chord: a root, an optional bass note and a structure, and the notes
//! that follow from them.

use vstd::prelude::*;
use crate::note::Note;
use crate::pitch_class::{PitchClass, PITCH_CLASS_COUNT};
use crate::structure::{lemma_degrees_determine_structure, ChordStructure};

verus! {

/// A chord built in thirds above a root.
#[derive(Debug)]
pub struct Chord {
    /// The bass note of a slash chord: sounded first, no part of the
    /// structure.
    pub slash_root: Option<Note>,
    /// The root that the degrees are counted from.
    pub root: Note,
    /// The degrees of the chord and their alterations.
    pub structure: ChordStructure,
}

impl Chord {
    /// Whether the chord holds a degree.
    pub open spec fn has(&self) -> spec_fn(PitchClass) -> bool {
        |class: PitchClass| self.structure@.contains_key(class)
    }

    /// The note that a degree of the chord sounds: the one that lies the
    /// degree, altered as the structure says, above the root.
    pub open spec fn sounded(&self) -> spec_fn(PitchClass) -> Note {
        |class: PitchClass| self.root.relative((class, self.structure@[class]))
    }

    /// The notes of the structure: one for each degree that is present, in
    /// slot order.
    pub open spec fn structural_notes(&self) -> Seq<Note> {
        PitchClass::all().filter(self.has()).map_values(self.sounded())
    }

    /// The notes of the chord in the order they are given out: the bass note
    /// of a slash chord, then the notes of the structure.
    pub open spec fn notes(&self) -> Seq<Note> {
        (match self.slash_root {
            Some(bass) => seq![bass],
            None => Seq::empty(),
        }) + self.structural_notes()
    }

    /// Whether every note of the structure can be spelled: the accidentals
    /// of each fit a `PitchOffset`.
    pub open spec fn resolvable(&self) -> bool {
        forall|class: PitchClass| #[trigger]
            self.structure@.contains_key(class) ==> self.root.resolves(
                (class, self.structure@[class]),
            )
    }

    /// Whether two chords have the same bass note and root, and hold the
    /// same degrees with the same alterations: what `==` tells.
    pub open spec fn same(&self, other: &Chord) -> bool {
        &&& self.slash_root == other.slash_root
        &&& self.root == other.root
        &&& self.structure@ == other.structure@
    }

    /// The notes of the degrees from slot `first` on.
    spec fn notes_from(&self, first: int) -> Seq<Note> {
        PitchClass::all().subrange(first, 10).filter(self.has()).map_values(self.sounded())
    }

    /// A chord without a bass note of its own.
    pub fn new(root: Note, structure: ChordStructure) -> (c: Chord)
        ensures
            c.slash_root is None,
            c.root == root,
            c.structure == structure,
    {
        Chord { slash_root: None, root, structure }
    }

    /// A slash chord: `slash_root` in the bass under the chord on `root`.
    pub fn new_slash(slash_root: Note, root: Note, structure: ChordStructure) -> (c: Chord)
        ensures
            c.slash_root == Some(slash_root),
            c.root == root,
            c.structure == structure,
    {
        Chord { slash_root: Some(slash_root), root, structure }
    }

    /// Whether `iter` accepts the chord.
    pub fn is_resolvable(&self) -> (b: bool)
        ensures
            b == self.resolvable(),
    {
        let mut i: usize = 0;
        while i < PITCH_CLASS_COUNT
            invariant
                0 <= i <= 10,
                forall|k: int|
                    0 <= k < i && self.structure@.contains_key(#[trigger] PitchClass::at(k))
                        ==> self.root.resolves((PitchClass::at(k), self.structure@[PitchClass::at(k)])),
            decreases 10 - i,
        {
            let class = PitchClass::from_int(i).unwrap();
            if let Some(offset) = self.structure.get(class) {
                if !self.root.can_resolve((class, offset)) {
                    return false;
                }
            }
            i = i + 1;
        }
        assert forall|class: PitchClass| #[trigger]
            self.structure@.contains_key(class) implies self.root.resolves(
            (class, self.structure@[class]),
        ) by {
            assert(PitchClass::at(class.slot()) == class);
        }
        true
    }

    /// A cursor over the notes of the chord, placed before the first. Each
    /// call gives a cursor of its own, and the chord is left as it was.
    pub fn iter(&self) -> (it: NoteIterator<'_>)
        requires
            self.resolvable(),
        ensures
            it.wf(),
            it.at_start(),
            it.source() == *self,
            it.remaining() == self.notes(),
    {
        NoteIterator { chord: self, state: NoteIteratorState::Slash }
    }
}

impl Clone for Chord {
    /// A copy of the chord.
    fn clone(&self) -> (r: Chord)
        ensures
            r == *self,
    {
        Chord { slash_root: self.slash_root, root: self.root, structure: self.structure.clone() }
    }
}

impl PartialEq for Chord {
    /// Whether two chords have the same bass note, root and structure.
    fn eq(&self, other: &Chord) -> (r: bool) {
        let same_bass = match (self.slash_root, other.slash_root) {
            (Some(a), Some(b)) => a == b,
            (None, None) => true,
            _ => false,
        };
        same_bass && self.root == other.root && self.structure == other.structure
    }
}

impl vstd::std_specs::cmp::PartialEqSpecImpl for Chord {
    open spec fn obeys_eq_spec() -> bool {
        true
    }

    open spec fn eq_spec(&self, other: &Chord) -> bool {
        self.same(other)
    }
}

/// A cursor over the notes of a chord.
#[derive(Debug)]
pub struct NoteIterator<'a> {
    /// The chord whose notes are given out.
    pub chord: &'a Chord,
    state: NoteIteratorState,
}

/// Where a cursor stands: before the bass note, before the degree of a slot,
/// or past the last degree.
#[derive(Clone, Copy, Debug)]
enum NoteIteratorState {
    Slash,
    Structure(usize),
    Exhausted,
}

impl<'a> Clone for NoteIterator<'a> {
    /// A second cursor at the same place; the two move apart from here.
    fn clone(&self) -> (r: NoteIterator<'a>)
        ensures
            r == *self,
    {
        NoteIterator { chord: self.chord, state: self.state }
    }
}

impl<'a> NoteIterator<'a> {
    /// Whether the cursor is one that `Chord::iter` made and `next` moved.
    pub closed spec fn wf(&self) -> bool {
        &&& self.chord.resolvable()
        &&& self.state matches NoteIteratorState::Structure(i) ==> i <= 10
    }

    /// The chord that the cursor goes over.
    pub closed spec fn source(&self) -> Chord {
        *self.chord
    }

    /// Whether the cursor stands before the first note.
    pub closed spec fn at_start(&self) -> bool {
        self.state is Slash
    }

    /// The notes still to come, the next one first.
    pub closed spec fn remaining(&self) -> Seq<Note> {
        match self.state {
            NoteIteratorState::Slash => self.chord.notes(),
            NoteIteratorState::Structure(i) => self.chord.notes_from(i as int),
            NoteIteratorState::Exhausted => Seq::empty(),
        }
    }

    /// The next note, if one is left: the first of those still to come,
    /// which then lies behind the cursor. The chord is not touched.
    pub fn next(&mut self) -> (r: Option<Note>)
        requires
            old(self).wf(),
        ensures
            final(self).wf(),
            final(self).source() == old(self).source(),
            r == (if old(self).remaining().len() > 0 {
                Some(old(self).remaining().first())
            } else {
                None
            }),
            final(self).remaining() == (if old(self).remaining().len() > 0 {
                old(self).remaining().drop_first()
            } else {
                old(self).remaining()
            }),
    {
        if let NoteIteratorState::Slash = self.state {
            self.state = NoteIteratorState::Structure(0);
            proof {
                lemma_notes_from_start(*self.chord);
            }
            if let Some(note) = self.chord.slash_root {
                assert(old(self).remaining().drop_first() =~= self.remaining());
                return Some(note);
            }
            assert(old(self).remaining() =~= self.remaining());
        }
        match self.state {
            NoteIteratorState::Structure(start) => {
                let mut i: usize = start;
                while i < PITCH_CLASS_COUNT
                    invariant
                        0 <= i <= 10,
                        self.chord == old(self).chord,
                        self.chord.resolvable(),
                        old(self).remaining() == self.chord.notes_from(i as int),
                    decreases 10 - i,
                {
                    let class = PitchClass::from_int(i).unwrap();
                    proof {
                        lemma_notes_from_step(*self.chord, i as int);
                    }
                    if let Some(offset) = self.chord.structure.get(class) {
                        self.state = NoteIteratorState::Structure(i + 1);
                        let note = self.chord.root.get_relative((class, offset));
                        assert(old(self).remaining().drop_first() =~= self.remaining());
                        return Some(note);
                    }
                    i = i + 1;
                }
                proof {
                    lemma_notes_from_end(*self.chord);
                }
                self.state = NoteIteratorState::Exhausted;
                None
            },
            NoteIteratorState::Slash | NoteIteratorState::Exhausted => None,
        }
    }

    /// All the notes still to come, in order.
    pub fn collect(self) -> (r: Vec<Note>)
        requires
            self.wf(),
        ensures
            r@ == self.remaining(),
    {
        let mut cursor = self;
        let mut out: Vec<Note> = Vec::new();
        loop
            invariant
                cursor.wf(),
                out@ + cursor.remaining() == self.remaining(),
            decreases cursor.remaining().len(),
        {
            match cursor.next() {
                Some(note) => {
                    out.push(note);
                    assert(out@ + cursor.remaining() =~= self.remaining());
                },
                None => {
                    assert(out@ =~= self.remaining());
                    return out;
                },
            }
        }
    }
}

/// From slot 0 on, the degrees give all the notes of the structure.
proof fn lemma_notes_from_start(chord: Chord)
    ensures
        chord.notes_from(0) == chord.structural_notes(),
{
    assert(PitchClass::all().subrange(0, 10) =~= PitchClass::all());
}

/// Past the last slot no note is left.
proof fn lemma_notes_from_end(chord: Chord)
    ensures
        chord.notes_from(10) == Seq::<Note>::empty(),
{
    let none = PitchClass::all().subrange(10, 10);
    none.lemma_filter_len(chord.has());
    assert(chord.notes_from(10) =~= Seq::<Note>::empty());
}

/// The notes from a slot on are the note of that slot, if its degree is
/// present, and then the notes from the next slot on.
proof fn lemma_notes_from_step(chord: Chord, i: int)
    requires
        0 <= i < 10,
    ensures
        chord.notes_from(i) == (if chord.structure@.contains_key(PitchClass::at(i)) {
            seq![chord.root.relative((PitchClass::at(i), chord.structure@[PitchClass::at(i)]))]
        } else {
            Seq::empty()
        }) + chord.notes_from(i + 1),
{
    let class = PitchClass::at(i);
    let rest = PitchClass::all().subrange(i + 1, 10);
    assert(PitchClass::all().subrange(i, 10) =~= seq![class] + rest);
    rest.lemma_filter_prepend(class, chord.has());
    let kept = if (chord.has())(class) {
        seq![class]
    } else {
        Seq::empty()
    };
    assert((kept + rest.filter(chord.has())).map_values(chord.sounded()) =~= kept.map_values(
        chord.sounded(),
    ) + rest.filter(chord.has()).map_values(chord.sounded()));
    assert(kept.map_values(chord.sounded()) =~= (if chord.structure@.contains_key(class) {
        seq![chord.root.relative((class, chord.structure@[class]))]
    } else {
        Seq::empty()
    }));
}

/// Chords that compare equal are the same value, and so have the same
/// notes.
pub proof fn lemma_equal_chords(a: Chord, b: Chord)
    ensures
        a.same(&b) <==> a == b,
        a.same(&b) ==> a.notes() == b.notes() && a.resolvable() == b.resolvable(),
{
    if a.same(&b) {
        lemma_degrees_determine_structure(a.structure, b.structure);
    }
}

/// A chord has at most eleven notes: its bass note, if it has one, and one
/// for each of the ten degrees.
pub proof fn lemma_notes_bounded(chord: Chord)
    ensures
        chord.structural_notes().len() <= 10,
        chord.notes().len() <= 11,
        chord.slash_root is None ==> chord.notes() == chord.structural_notes(),
        chord.slash_root is Some ==> chord.notes().first() == chord.slash_root->0,
{
    PitchClass::all().lemma_filter_len(chord.has());
    assert(chord.slash_root is None ==> chord.notes() =~= chord.structural_notes());
}

/// Two cursors placed at the start of one chord have the same notes ahead
/// of them, the notes of the chord: going over a chord again gives the same
/// sequence, whatever another cursor has done meanwhile.
pub proof fn lemma_iteration_repeats(first: NoteIterator, second: NoteIterator)
    requires
        first.at_start(),
        second.at_start(),
        first.source() == second.source(),
    ensures
        first.remaining() == second.remaining(),
        first.remaining() == first.source().notes(),
{
}

} // verus!
