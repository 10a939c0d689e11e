//! Tertian harmony as plain values: letter names, scale degrees, spelled
//! notes, chord structures, chords and polychords, together with the rule
//! that derives every note of a chord from its root.
//!
//! Each type has a mathematical model, and every function states in its
//! contract what it returns in terms of that model.

pub mod chord;
pub mod note;
pub mod note_class;
pub mod pitch_class;
pub mod polychord;
pub mod structure;

pub use chord::{Chord, NoteIterator};
pub use note::Note;
pub use note_class::{NoteClass, NOTE_CLASS_COUNT};
pub use pitch_class::{ChordComponent, PitchClass, PitchOffset, PITCH_CLASS_COUNT};
pub use polychord::{NoteChain, PolyChord};
pub use structure::ChordStructure;
