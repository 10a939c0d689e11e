use quartic::NoteClass::{A, B, C, D, E, F, G};
use quartic::PitchClass::{N1, N11, N13, N2, N3, N4, N5, N6, N7, N9};
use quartic::{Chord, ChordStructure, Note, NoteClass, PitchClass, PolyChord};

#[test]
fn offset_calculation() {
    assert_eq!(Note::new(A, 0).get_relative((N5, 0)), Note::new(E, 0));
    assert_eq!(Note::new(A, 0).get_relative((N5, -1)), Note::new(E, -1));
    assert_eq!(Note::new(F, -1).get_relative((N2, -2)), Note::new(G, -3));
    assert_eq!(Note::new(D, 0).get_relative((N3, 0)), Note::new(F, 1));
    assert_eq!(Note::new(A, 0).get_relative((N3, 0)), Note::new(C, 1));
}

#[test]
fn chord_notes() {
    // A/C#
    let chord = Chord::new_slash(
        Note::new(C, 1),
        Note::new(A, 0),
        ChordStructure::new().insert_many(&[(N3, 0), (N5, 0)]),
    );

    let notes = vec![
        Note::new(C, 1),
        Note::new(A, 0),
        Note::new(C, 1),
        Note::new(E, 0),
    ];

    assert_eq!(chord.iter().collect(), notes);
}

#[test]
fn polychord_notes() {
    // F#(#5)|Bm
    let chord = PolyChord::new(
        Chord::new(
            Note::new(F, 1),
            ChordStructure::new().insert_many(&[(N3, 0), (N5, 1)]),
        ),
        Chord::new(
            Note::new(B, 0),
            ChordStructure::new().insert_many(&[(N3, -1), (N5, 0)]),
        ),
    );

    let notes = vec![
        Note::new(B, 0),
        Note::new(D, 0),
        Note::new(F, 1),
        Note::new(F, 1),
        Note::new(A, 1),
        Note::new(C, 2),
    ];

    assert_eq!(chord.iter().collect(), notes);
}

#[test]
fn relative_spells_on_the_diatonic_letter() {
    assert_eq!(Note::new(A, 0).get_relative((N1, 0)), Note::new(A, 0));
    assert_eq!(Note::new(A, 0).get_relative((N7, 0)), Note::new(G, 1));
    assert_eq!(Note::new(C, 0).get_relative((N7, 0)), Note::new(B, 0));
    assert_eq!(Note::new(B, 0).get_relative((N2, 0)), Note::new(C, 1));
    assert_eq!(Note::new(B, 0).get_relative((N5, 0)), Note::new(F, 1));
    assert_eq!(Note::new(F, 0).get_relative((N4, 0)), Note::new(B, -1));
    assert_eq!(Note::new(E, 0).get_relative((N6, 0)), Note::new(C, 1));
    assert_eq!(Note::new(G, 0).get_relative((N2, 0)), Note::new(A, 0));
    assert_eq!(Note::new(B, -1).get_relative((N3, -1)), Note::new(D, -1));
}

#[test]
fn compound_degrees_lie_an_octave_higher() {
    assert_eq!(Note::new(C, 0).get_relative((N9, 0)), Note::new(D, 12));
    assert_eq!(Note::new(C, 0).get_relative((N11, 0)), Note::new(F, 12));
    assert_eq!(Note::new(C, 0).get_relative((N13, 0)), Note::new(A, 12));
    assert_eq!(Note::new(A, 0).get_relative((N9, -1)), Note::new(B, 11));
}

#[test]
fn relative_distance_is_exact_around_the_circle() {
    let semitone = [0i32, 2, 3, 5, 7, 8, 10];
    for r in 0..7usize {
        for slot in 0..10usize {
            for alteration in -2i8..=2 {
                let root = Note::new(NoteClass::from_int(r).unwrap(), 1);
                let class = PitchClass::from_int(slot).unwrap();
                let got = root.get_relative((class, alteration));
                let from = semitone[r] + 1;
                let to = semitone[got.root.to_int()] + got.offset as i32;
                let ideal = class.to_relative_difference() as i32 + alteration as i32;
                assert_eq!((to - from - ideal).rem_euclid(12), 0);
                assert_eq!(got.root.to_int(), (r + class.to_int()) % 7);
            }
        }
    }
}

#[test]
fn checked_relative_refuses_what_does_not_fit() {
    assert_eq!(Note::new(A, 127).checked_relative((N3, 0)), None);
    assert!(!Note::new(A, 127).can_resolve((N3, 0)));
    assert_eq!(
        Note::new(A, 127).checked_relative((N3, -1)),
        Some(Note::new(C, 127))
    );
    assert!(Note::new(A, 127).can_resolve((N3, -1)));
    assert_eq!(
        Note::new(A, -128).checked_relative((N4, 0)),
        Some(Note::new(D, -128))
    );
    assert_eq!(Note::new(F, -128).checked_relative((N4, 0)), None);
    assert_eq!(Note::new(A, 100).checked_relative((N3, 100)), None);
    assert_eq!(
        Note::new(D, 0).checked_relative((N3, 0)),
        Some(Note::new(F, 1))
    );
}

#[test]
fn note_text_repeats_one_accidental() {
    assert_eq!(Note::new(A, 0).to_string(), "A");
    assert_eq!(Note::new(C, 1).to_string(), "C#");
    assert_eq!(Note::new(C, 2).to_string(), "C##");
    assert_eq!(Note::new(B, -1).to_string(), "Bb");
    assert_eq!(Note::new(B, -2).to_string(), "Bbb");
    assert_eq!(Note::new(G, 3).to_string(), "G###");
}

#[test]
fn note_text_at_the_ends_of_the_range() {
    let flat = Note::new(E, -128).to_string();
    assert_eq!(flat.len(), 129);
    assert!(flat.starts_with('E'));
    assert!(flat[1..].chars().all(|c| c == 'b'));
    let sharp = Note::new(D, 127).to_string();
    assert_eq!(sharp.len(), 128);
    assert!(sharp.starts_with('D'));
    assert!(sharp[1..].chars().all(|c| c == '#'));
}

#[test]
fn chord_without_slash_starts_on_the_root() {
    let chord = Chord::new(Note::new(D, 0), ChordStructure::new().insert((N3, -1)));
    assert_eq!(chord.slash_root, None);
    assert_eq!(chord.iter().collect(), vec![Note::new(D, 0), Note::new(F, 0)]);
}

#[test]
fn chord_gives_degrees_in_slot_order() {
    let structure = ChordStructure::new().insert_many(&[
        (N13, 0),
        (N7, 0),
        (N2, 0),
        (N11, 0),
        (N5, 0),
        (N9, 0),
        (N3, 0),
        (N6, 0),
        (N4, 0),
    ]);
    let chord = Chord::new(Note::new(C, 0), structure);
    let notes = vec![
        Note::new(C, 0),
        Note::new(D, 0),
        Note::new(E, 0),
        Note::new(F, 0),
        Note::new(G, 0),
        Note::new(A, 0),
        Note::new(B, 0),
        Note::new(D, 12),
        Note::new(F, 12),
        Note::new(A, 12),
    ];
    assert_eq!(chord.iter().collect(), notes);
}

#[test]
fn chord_without_unison_skips_the_root() {
    let chord = Chord::new(Note::new(A, 0), ChordStructure::from_component((N5, 0)));
    assert_eq!(chord.iter().collect(), vec![Note::new(E, 0)]);
    let empty = Chord::new(Note::new(A, 0), ChordStructure::default());
    assert_eq!(empty.iter().collect(), Vec::<Note>::new());
    let bass_only = Chord::new_slash(Note::new(G, 0), Note::new(A, 0), ChordStructure::default());
    assert_eq!(bass_only.iter().collect(), vec![Note::new(G, 0)]);
}

#[test]
fn cursor_gives_one_note_at_a_time_and_then_none() {
    let chord = Chord::new_slash(
        Note::new(C, 1),
        Note::new(A, 0),
        ChordStructure::new().insert_many(&[(N3, 0), (N5, 0)]),
    );
    let mut it = chord.iter();
    assert_eq!(it.next(), Some(Note::new(C, 1)));
    assert_eq!(it.next(), Some(Note::new(A, 0)));
    assert_eq!(it.next(), Some(Note::new(C, 1)));
    assert_eq!(it.next(), Some(Note::new(E, 0)));
    assert_eq!(it.next(), None);
    assert_eq!(it.next(), None);
    assert_eq!(it.collect(), Vec::<Note>::new());
}

#[test]
fn collect_gives_what_is_left() {
    let chord = Chord::new(
        Note::new(A, 0),
        ChordStructure::new().insert_many(&[(N3, 0), (N5, 0)]),
    );
    let mut it = chord.iter();
    assert_eq!(it.next(), Some(Note::new(A, 0)));
    assert_eq!(it.collect(), vec![Note::new(C, 1), Note::new(E, 0)]);
}

#[test]
fn iterating_twice_gives_the_same_notes() {
    let chord = Chord::new_slash(
        Note::new(E, -1),
        Note::new(C, 0),
        ChordStructure::new().insert_many(&[(N3, -1), (N5, 0), (N7, -1)]),
    );
    let before = chord.clone();
    let first = chord.iter().collect();
    let second = chord.iter().collect();
    assert_eq!(first, second);
    assert_eq!(
        first,
        vec![
            Note::new(E, -1),
            Note::new(C, 0),
            Note::new(E, -1),
            Note::new(G, 0),
            Note::new(B, -1),
        ]
    );
    assert_eq!(chord, before);
}

#[test]
fn cursors_on_one_chord_are_independent() {
    let chord = Chord::new(
        Note::new(G, 0),
        ChordStructure::new().insert_many(&[(N3, 0), (N5, 0)]),
    );
    let mut one = chord.iter();
    let mut two = chord.iter();
    assert_eq!(one.next(), Some(Note::new(G, 0)));
    assert_eq!(one.next(), Some(Note::new(B, 0)));
    assert_eq!(two.next(), Some(Note::new(G, 0)));
    assert_eq!(one.next(), Some(Note::new(D, 0)));
    assert_eq!(two.collect(), vec![Note::new(B, 0), Note::new(D, 0)]);
    assert_eq!(one.next(), None);
    assert!(std::ptr::eq(one.chord, &chord));
}

#[test]
fn polychord_cursor_runs_lower_then_upper() {
    let poly = PolyChord::new(
        Chord::new_slash(Note::new(G, 0), Note::new(C, 0), ChordStructure::new()),
        Chord::new(Note::new(A, 0), ChordStructure::new().insert((N3, -1))),
    );
    let mut it = poly.iter();
    assert_eq!(it.next(), Some(Note::new(A, 0)));
    assert_eq!(it.next(), Some(Note::new(C, 0)));
    assert_eq!(it.next(), Some(Note::new(G, 0)));
    assert_eq!(it.next(), Some(Note::new(C, 0)));
    assert_eq!(it.next(), None);
    assert_eq!(it.next(), None);
    assert_eq!(poly.iter().collect(), poly.iter().collect());
}

#[test]
fn polychord_keeps_its_halves() {
    let upper = Chord::new(Note::new(C, 0), ChordStructure::new());
    let lower = Chord::new(Note::new(A, 0), ChordStructure::new());
    let poly = PolyChord::new(upper.clone(), lower.clone());
    assert_eq!(poly.upper, upper);
    assert_eq!(poly.lower, lower);
}

#[test]
fn resolvable_tells_whether_every_note_fits() {
    let fits = Chord::new(Note::new(A, 126), ChordStructure::new().insert((N3, 0)));
    assert!(fits.is_resolvable());
    assert_eq!(fits.iter().collect(), vec![Note::new(A, 126), Note::new(C, 127)]);
    let too_sharp = Chord::new(Note::new(A, 127), ChordStructure::new().insert((N3, 0)));
    assert!(!too_sharp.is_resolvable());
    let too_flat = Chord::new(Note::new(F, -128), ChordStructure::new().insert((N4, 0)));
    assert!(!too_flat.is_resolvable());
    let absent_degree = Chord::new(Note::new(A, 127), ChordStructure::new());
    assert!(absent_degree.is_resolvable());
    let plain = Chord::new(Note::new(C, 0), ChordStructure::new());
    assert!(PolyChord::new(plain.clone(), fits.clone()).is_resolvable());
    assert!(!PolyChord::new(plain.clone(), too_sharp.clone()).is_resolvable());
    assert!(!PolyChord::new(too_flat, plain).is_resolvable());
}

#[test]
fn chords_compare_by_bass_root_and_structure() {
    let triad = || ChordStructure::new().insert_many(&[(N3, 0), (N5, 0)]);
    let a = Chord::new(Note::new(C, 0), triad());
    assert!(a == Chord::new(Note::new(C, 0), triad()));
    assert!(a == a.clone());
    assert!(a != Chord::new(Note::new(C, 1), triad()));
    assert!(a != Chord::new(Note::new(D, 0), triad()));
    assert!(a != Chord::new(Note::new(C, 0), triad().insert((N7, 0))));
    assert!(a != Chord::new_slash(Note::new(E, 0), Note::new(C, 0), triad()));
    let slash = Chord::new_slash(Note::new(E, 0), Note::new(C, 0), triad());
    assert!(slash == slash.clone());
    assert!(slash != Chord::new_slash(Note::new(G, 0), Note::new(C, 0), triad()));
}

#[test]
fn polychords_compare_half_by_half() {
    let c = Chord::new(Note::new(C, 0), ChordStructure::new());
    let a = Chord::new(Note::new(A, 0), ChordStructure::new());
    let p = PolyChord::new(c.clone(), a.clone());
    assert!(p == p.clone());
    assert!(p == PolyChord::new(c.clone(), a.clone()));
    assert!(p != PolyChord::new(a.clone(), c.clone()));
    assert!(p != PolyChord::new(c.clone(), c.clone()));
}

#[test]
fn a_cloned_cursor_goes_its_own_way() {
    let chord = Chord::new(
        Note::new(E, 0),
        ChordStructure::new().insert_many(&[(N3, -1), (N5, 0)]),
    );
    let mut one = chord.iter();
    assert_eq!(one.next(), Some(Note::new(E, 0)));
    let mut two = one.clone();
    assert_eq!(one.next(), Some(Note::new(G, 0)));
    assert_eq!(one.next(), Some(Note::new(B, 0)));
    assert_eq!(two.next(), Some(Note::new(G, 0)));
    assert_eq!(two.collect(), vec![Note::new(B, 0)]);
}
