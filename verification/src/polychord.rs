//! Two chords stacked, each on its own root.

use vstd::prelude::*;
use crate::chord::{Chord, NoteIterator};
use crate::note::Note;

verus! {

/// An upper chord sounded over a lower one; the two structures stay apart.
#[derive(Debug)]
pub struct PolyChord {
    /// The chord on top.
    pub upper: Chord,
    /// The chord below.
    pub lower: Chord,
}

impl PolyChord {
    /// The notes of the polychord in the order they are given out: all of
    /// the lower chord, then all of the upper chord.
    pub open spec fn notes(&self) -> Seq<Note> {
        self.lower.notes() + self.upper.notes()
    }

    /// Whether every note of both chords can be spelled.
    pub open spec fn resolvable(&self) -> bool {
        self.lower.resolvable() && self.upper.resolvable()
    }

    /// The polychord of `upper` over `lower`.
    pub fn new(upper: Chord, lower: Chord) -> (p: PolyChord)
        ensures
            p.upper == upper,
            p.lower == lower,
    {
        PolyChord { upper, lower }
    }

    /// Whether `iter` accepts the polychord.
    pub fn is_resolvable(&self) -> (b: bool)
        ensures
            b == self.resolvable(),
    {
        self.lower.is_resolvable() && self.upper.is_resolvable()
    }

    /// A cursor over the notes of the polychord, placed before the first.
    pub fn iter(&self) -> (it: NoteChain<'_>)
        requires
            self.resolvable(),
        ensures
            it.wf(),
            it.remaining() == self.notes(),
    {
        NoteChain { first: self.lower.iter(), second: self.upper.iter() }
    }
}

impl Clone for PolyChord {
    /// A copy of the polychord.
    fn clone(&self) -> (r: PolyChord)
        ensures
            r == *self,
    {
        PolyChord { upper: self.upper.clone(), lower: self.lower.clone() }
    }
}

impl PartialEq for PolyChord {
    /// Whether two polychords have the same upper and the same lower chord.
    fn eq(&self, other: &PolyChord) -> (r: bool) {
        self.upper == other.upper && self.lower == other.lower
    }
}

impl vstd::std_specs::cmp::PartialEqSpecImpl for PolyChord {
    open spec fn obeys_eq_spec() -> bool {
        true
    }

    open spec fn eq_spec(&self, other: &PolyChord) -> bool {
        self.upper.same(&other.upper) && self.lower.same(&other.lower)
    }
}

/// A cursor over the notes of two chords, one chord after the other.
#[derive(Debug)]
pub struct NoteChain<'a> {
    first: NoteIterator<'a>,
    second: NoteIterator<'a>,
}

impl<'a> Clone for NoteChain<'a> {
    /// A second cursor at the same place; the two move apart from here.
    fn clone(&self) -> (r: NoteChain<'a>)
        ensures
            r == *self,
    {
        NoteChain { first: self.first.clone(), second: self.second.clone() }
    }
}

impl<'a> NoteChain<'a> {
    /// Whether both cursors of the chain can be moved.
    pub closed spec fn wf(&self) -> bool {
        self.first.wf() && self.second.wf()
    }

    /// The notes still to come, the next one first.
    pub closed spec fn remaining(&self) -> Seq<Note> {
        self.first.remaining() + self.second.remaining()
    }

    /// The next note, if one is left: the first of those still to come,
    /// which then lies behind the cursor.
    pub fn next(&mut self) -> (r: Option<Note>)
        requires
            old(self).wf(),
        ensures
            final(self).wf(),
            r == (if old(self).remaining().len() > 0 {
                Some(old(self).remaining().first())
            } else {
                None
            }),
            final(self).remaining() == (if old(self).remaining().len() > 0 {
                old(self).remaining().drop_first()
            } else {
                old(self).remaining()
            }),
    {
        match self.first.next() {
            Some(note) => {
                assert(self.remaining() =~= old(self).remaining().drop_first());
                Some(note)
            },
            None => {
                let r = self.second.next();
                assert(self.remaining() =~= (if old(self).remaining().len() > 0 {
                    old(self).remaining().drop_first()
                } else {
                    old(self).remaining()
                }));
                r
            },
        }
    }

    /// All the notes still to come, in order.
    pub fn collect(self) -> (r: Vec<Note>)
        requires
            self.wf(),
        ensures
            r@ == self.remaining(),
    {
        let mut cursor = self;
        let mut out: Vec<Note> = Vec::new();
        loop
            invariant
                cursor.wf(),
                out@ + cursor.remaining() == self.remaining(),
            decreases cursor.remaining().len(),
        {
            match cursor.next() {
                Some(note) => {
                    out.push(note);
                    assert(out@ + cursor.remaining() =~= self.remaining());
                },
                None => {
                    assert(out@ =~= self.remaining());
                    return out;
                },
            }
        }
    }
}

} // verus!
