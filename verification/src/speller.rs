//! Conversion between pitch classes, written notes, and Roman scale degrees.
//!
//! Pitch class answers "which sounding pitch?" while `SpelledNote` answers
//! "which diatonic letter and accidental express it?" Keeping both avoids
//! losing distinctions such as F# versus Gb during harmonic analysis.

use vstd::prelude::*;
use crate::domain::degree::{roman_at, roman_index, Degree, RomanDegree};
use crate::domain::note::{
    letter_at, letter_index, natural_semitones, NoteLetter, PitchClass, SpelledNote,
};

verus! {

pub const MAJOR_SCALE_STEPS: [u8; 7] = [0, 2, 4, 5, 7, 9, 11];

/// Semitones above the tonic of scale degree `i` (`0..7`) of the major scale.
pub open spec fn major_step(i: int) -> int {
    if i == 0 {
        0
    } else if i == 1 {
        2
    } else if i == 2 {
        4
    } else if i == 3 {
        5
    } else if i == 4 {
        7
    } else if i == 5 {
        9
    } else {
        11
    }
}

pub fn major_scale_step(index: usize) -> (r: u8)
    requires
        index < 7,
    ensures
        r == major_step(index as int),
{
    MAJOR_SCALE_STEPS[index]
}

/// A chromatic difference taken modulo 12 and read as the nearest signed
/// alteration in `-5..=6`.
pub open spec fn signed_alteration(diff: int) -> int {
    let d = diff % 12;
    if d > 6 {
        d - 12
    } else {
        d
    }
}

/// Upward semitone distance from `reference` to `target`.
pub fn semitone_distance(target: SpelledNote, reference: SpelledNote) -> (r: u8)
    ensures
        r == (target.spec_pitch_class() - reference.spec_pitch_class()) % 12,
{
    target.pitch_class().distance_from(reference.pitch_class())
}

/// Conventional sharp spelling of pitch class `v` (`C C# D D# E F ...`).
pub open spec fn sharp_name(v: int) -> (NoteLetter, i8) {
    if v == 0 {
        (NoteLetter::C, 0)
    } else if v == 1 {
        (NoteLetter::C, 1)
    } else if v == 2 {
        (NoteLetter::D, 0)
    } else if v == 3 {
        (NoteLetter::D, 1)
    } else if v == 4 {
        (NoteLetter::E, 0)
    } else if v == 5 {
        (NoteLetter::F, 0)
    } else if v == 6 {
        (NoteLetter::F, 1)
    } else if v == 7 {
        (NoteLetter::G, 0)
    } else if v == 8 {
        (NoteLetter::G, 1)
    } else if v == 9 {
        (NoteLetter::A, 0)
    } else if v == 10 {
        (NoteLetter::A, 1)
    } else {
        (NoteLetter::B, 0)
    }
}

/// Conventional flat spelling of pitch class `v` (`C Db D Eb E F ...`).
pub open spec fn flat_name(v: int) -> (NoteLetter, i8) {
    if v == 0 {
        (NoteLetter::C, 0)
    } else if v == 1 {
        (NoteLetter::D, -1i8)
    } else if v == 2 {
        (NoteLetter::D, 0)
    } else if v == 3 {
        (NoteLetter::E, -1i8)
    } else if v == 4 {
        (NoteLetter::E, 0)
    } else if v == 5 {
        (NoteLetter::F, 0)
    } else if v == 6 {
        (NoteLetter::G, -1i8)
    } else if v == 7 {
        (NoteLetter::G, 0)
    } else if v == 8 {
        (NoteLetter::A, -1i8)
    } else if v == 9 {
        (NoteLetter::A, 0)
    } else if v == 10 {
        (NoteLetter::B, -1i8)
    } else {
        (NoteLetter::B, 0)
    }
}

/// Spelling chosen for a pitch class: flats only when flats are explicitly
/// preferred, sharps otherwise.
pub open spec fn pitch_class_name(v: int, prefer_sharps: Option<bool>) -> SpelledNote {
    let (l, a) = if prefer_sharps == Some(false) {
        flat_name(v)
    } else {
        sharp_name(v)
    };
    SpelledNote { letter: l, accidental: a }
}

pub fn name_of_pitch_class(pitch_class: PitchClass, prefer_sharps: Option<bool>) -> (r: SpelledNote)
    ensures
        r == pitch_class_name(pitch_class@, prefer_sharps),
        r.spec_pitch_class() == pitch_class@,
        -1 <= r.accidental <= 1,
{
    let v = pitch_class.value();
    let flats = match prefer_sharps {
        Some(p) => !p,
        None => false,
    };
    let (letter, accidental) = if flats {
        if v == 0 {
            (NoteLetter::C, 0)
        } else if v == 1 {
            (NoteLetter::D, -1)
        } else if v == 2 {
            (NoteLetter::D, 0)
        } else if v == 3 {
            (NoteLetter::E, -1)
        } else if v == 4 {
            (NoteLetter::E, 0)
        } else if v == 5 {
            (NoteLetter::F, 0)
        } else if v == 6 {
            (NoteLetter::G, -1)
        } else if v == 7 {
            (NoteLetter::G, 0)
        } else if v == 8 {
            (NoteLetter::A, -1)
        } else if v == 9 {
            (NoteLetter::A, 0)
        } else if v == 10 {
            (NoteLetter::B, -1)
        } else {
            (NoteLetter::B, 0)
        }
    } else {
        if v == 0 {
            (NoteLetter::C, 0)
        } else if v == 1 {
            (NoteLetter::C, 1)
        } else if v == 2 {
            (NoteLetter::D, 0)
        } else if v == 3 {
            (NoteLetter::D, 1)
        } else if v == 4 {
            (NoteLetter::E, 0)
        } else if v == 5 {
            (NoteLetter::F, 0)
        } else if v == 6 {
            (NoteLetter::F, 1)
        } else if v == 7 {
            (NoteLetter::G, 0)
        } else if v == 8 {
            (NoteLetter::G, 1)
        } else if v == 9 {
            (NoteLetter::A, 0)
        } else if v == 10 {
            (NoteLetter::A, 1)
        } else {
            (NoteLetter::B, 0)
        }
    };
    SpelledNote::new(letter, accidental)
}

/// The pitch class `target` written with `base_letter` and the smallest
/// accidental (`-5..=6`).
pub fn spell_pitch_class(base_letter: NoteLetter, target: PitchClass) -> (r: SpelledNote)
    ensures
        r.letter == base_letter,
        r.accidental == signed_alteration(target@ - natural_semitones(base_letter)),
        r.spec_pitch_class() == target@,
{
    let diff = target.distance_from(base_letter.natural_pitch_class());
    let accidental: i8 = if diff > 6 {
        diff as i8 - 12
    } else {
        diff as i8
    };
    let _ = target.value();
    assert((natural_semitones(base_letter) + accidental) % 12 == target@) by {
        let v = target@;
        let n = natural_semitones(base_letter);
        assert(0 <= v < 12 ==> (n + signed_alteration(v - n)) % 12 == v) by (nonlinear_arith)
            requires
                0 <= n < 12,
        ;
    }
    SpelledNote::new(base_letter, accidental)
}

/// Alteration of scale degree `i` needed to reach `distance` semitones above
/// the tonic.
pub open spec fn degree_alteration(distance: int, i: int) -> int {
    signed_alteration(distance - major_step(i))
}

pub open spec fn abs(x: int) -> int {
    if x < 0 {
        -x
    } else {
        x
    }
}

/// `a` is at least as good as `b`: smaller absolute alteration, ties going to
/// the sharper alteration when sharps are preferred and to the flatter one
/// otherwise.
pub open spec fn alteration_not_worse(a: int, b: int, prefer_sharps: bool) -> bool {
    abs(a) < abs(b) || (abs(a) == abs(b) && (if prefer_sharps {
        a >= b
    } else {
        a <= b
    }))
}

/// The Roman degree that spells `distance` semitones above a tonic with the
/// smallest alteration; ties are notation choices resolved by the preference
/// (flats when none is given).
pub open spec fn is_best_degree(d: Degree, distance: int, prefer_sharps: Option<bool>) -> bool {
    let prefer = prefer_sharps == Some(true);
    let i = roman_index(d.degree);
    &&& d.accidental as int == degree_alteration(distance, i)
    &&& forall|j: int|
        0 <= j < 7 ==> alteration_not_worse(d.accidental as int, #[trigger] degree_alteration(distance, j), prefer)
}

/// Different scale degrees need different alterations for one distance.
proof fn lemma_degree_alteration_injective(distance: int, i: int, j: int)
    requires
        0 <= i < 7,
        0 <= j < 7,
        degree_alteration(distance, i) == degree_alteration(distance, j),
    ensures
        i == j,
{
    let a = (distance - major_step(i)) % 12;
    let b = (distance - major_step(j)) % 12;
    assert(a == b);
    assert((major_step(j) - major_step(i)) % 12 == 0) by {
        assert(((distance - major_step(i)) - (distance - major_step(j))) % 12 == 0);
    }
}

/// The best spelling of a distance is unique: `calc_degree_base` is a
/// function of its arguments.
pub proof fn lemma_best_degree_unique(d1: Degree, d2: Degree, distance: int, prefer_sharps: Option<bool>)
    requires
        is_best_degree(d1, distance, prefer_sharps),
        is_best_degree(d2, distance, prefer_sharps),
    ensures
        d1 == d2,
{
    let i = roman_index(d1.degree);
    let j = roman_index(d2.degree);
    let prefer = prefer_sharps == Some(true);
    assert(alteration_not_worse(d1.accidental as int, degree_alteration(distance, j), prefer));
    assert(alteration_not_worse(d2.accidental as int, degree_alteration(distance, i), prefer));
    assert(d1.accidental == d2.accidental);
    lemma_degree_alteration_injective(distance, i, j);
}

/// The best spelling of `distance` semitones above a tonic.
pub open spec fn best_degree(distance: int, prefer_sharps: Option<bool>) -> Degree {
    choose|d: Degree| is_best_degree(d, distance, prefer_sharps)
}

/// A degree meeting the best-spelling rules is the best spelling.
pub proof fn lemma_best_degree_is(d: Degree, distance: int, prefer_sharps: Option<bool>)
    requires
        is_best_degree(d, distance, prefer_sharps),
    ensures
        d == best_degree(distance, prefer_sharps),
{
    lemma_best_degree_unique(d, best_degree(distance, prefer_sharps), distance, prefer_sharps);
}

pub fn calc_degree_base(distance: u8, prefer_sharps: Option<bool>) -> (r: Degree)
    ensures
        is_best_degree(r, distance as int, prefer_sharps),
{
    let prefer = match prefer_sharps {
        Some(p) => p,
        None => false,
    };
    let mut best_score: i16 = i16::MAX;
    let mut best_index: usize = 0;
    let mut best_alteration: i16 = 0;
    let mut index: usize = 0;
    while index < 7
        invariant
            index <= 7,
            best_index < 7,
            prefer == (prefer_sharps == Some(true)),
            index > 0 ==> best_alteration == degree_alteration(distance as int, best_index as int),
            index > 0 ==> best_score == abs(best_alteration as int),
            index == 0 ==> best_score == i16::MAX,
            forall|j: int|
                0 <= j < index ==> alteration_not_worse(
                    best_alteration as int,
                    #[trigger] degree_alteration(distance as int, j),
                    prefer,
                ),
        decreases 7 - index,
    {
        let step = major_scale_step(index);
        let delta: i16 = ((distance as i16 - step as i16) + 12 * 22) % 12;
        assert(delta == (distance - major_step(index as int)) % 12) by {
            let x = distance - major_step(index as int);
            assert((x + 264) % 12 == x % 12) by (nonlinear_arith)
                requires
                    x >= -11,
            ;
        }
        let alteration: i16 = if delta <= 6 {
            delta
        } else {
            delta - 12
        };
        let score: i16 = if alteration < 0 {
            -alteration
        } else {
            alteration
        };
        if score < best_score {
            best_score = score;
            best_index = index;
            best_alteration = alteration;
        } else if score == best_score && ((prefer && alteration > best_alteration) || (!prefer
            && alteration < best_alteration)) {
            best_index = index;
            best_alteration = alteration;
        }
        index = index + 1;
    }
    let degree = match RomanDegree::from_index(best_index) {
        Some(d) => d,
        None => RomanDegree::I,
    };
    proof {
        crate::domain::degree::lemma_roman_index(roman_at(best_index as int));
    }
    Degree::new(best_alteration as i8, degree)
}

/// Scale degree written by `note` in the major key of `tonic`: the letter
/// fixes the Roman numeral, the accidental is the chromatic difference from
/// that degree's major-scale pitch.
pub open spec fn spelled_degree(note: SpelledNote, tonic: SpelledNote) -> Degree {
    let i = (letter_index(note.letter) + 7 - letter_index(tonic.letter)) % 7;
    Degree {
        degree: roman_at(i),
        accidental: signed_alteration(note.spec_pitch_class() - (tonic.spec_pitch_class() + major_step(i)))
            as i8,
    }
}

pub fn degree_from_spelling(note: SpelledNote, tonic: SpelledNote) -> (r: Degree)
    ensures
        r == spelled_degree(note, tonic),
{
    let degree_index = (note.letter.index() + 7 - tonic.letter.index()) % 7;
    let expected = tonic.pitch_class().offset(major_scale_step(degree_index) as i16);
    let diff = note.pitch_class().distance_from(expected);
    let accidental: i8 = if diff > 6 {
        diff as i8 - 12
    } else {
        diff as i8
    };
    let _ = expected.value();
    proof {
        let x = note.spec_pitch_class();
        let y = tonic.spec_pitch_class() + major_step(degree_index as int);
        assert((x - y % 12) % 12 == (x - y) % 12) by (nonlinear_arith);
    }
    let degree = match RomanDegree::from_index(degree_index) {
        Some(d) => d,
        None => RomanDegree::I,
    };
    Degree::new(accidental, degree)
}

/// The note that spells `degree` in the major key of `tonic`.
pub open spec fn degree_note(degree: Degree, tonic: SpelledNote) -> SpelledNote {
    let i = roman_index(degree.degree);
    let letter = letter_at(letter_index(tonic.letter) + i);
    let target = (tonic.spec_pitch_class() + major_step(i) + degree.accidental) % 12;
    SpelledNote { letter, accidental: signed_alteration(target - natural_semitones(letter)) as i8 }
}

pub fn spell_degree_note(degree: Degree, tonic: SpelledNote) -> (r: SpelledNote)
    ensures
        r == degree_note(degree, tonic),
        r.spec_pitch_class() == (tonic.spec_pitch_class() + major_step(roman_index(degree.degree))
            + degree.accidental) % 12,
{
    let degree_index = degree.degree.index();
    let tonic_pc = tonic.pitch_class();
    let _ = tonic_pc.value();
    let target = tonic_pc.offset(major_scale_step(degree_index) as i16 + degree.accidental as i16);
    spell_pitch_class(tonic.letter.shift(degree_index), target)
}

/// Law: spelling a degree and reading the spelling back gives the degree,
/// for every alteration the spelling can express (`-5..=6`).
pub proof fn lemma_degree_spelling_round_trip(degree: Degree, tonic: SpelledNote)
    requires
        -5 <= degree.accidental <= 6,
    ensures
        spelled_degree(degree_note(degree, tonic), tonic) == degree,
{
    let i = roman_index(degree.degree);
    let ti = letter_index(tonic.letter);
    let note = degree_note(degree, tonic);
    crate::domain::note::lemma_letter_at_index(tonic.letter);
    crate::domain::degree::lemma_roman_index(degree.degree);
    let l = letter_at(ti + i);
    assert(letter_index(l) == (ti + i) % 7);
    assert((letter_index(l) + 7 - ti) % 7 == i) by (nonlinear_arith)
        requires
            letter_index(l) == (ti + i) % 7,
            0 <= ti < 7,
            0 <= i < 7,
    ;
    let t = tonic.spec_pitch_class();
    let a = degree.accidental as int;
    let s = major_step(i);
    let n = natural_semitones(l);
    let target = (t + s + a) % 12;
    assert(note.spec_pitch_class() == target) by {
        assert((n + signed_alteration(target - n)) % 12 == target) by (nonlinear_arith)
            requires
                0 <= n < 12,
                0 <= target < 12,
        ;
    }
    assert(signed_alteration(target - (t + s)) == a) by (nonlinear_arith)
        requires
            target == (t + s + a) % 12,
            -5 <= a <= 6,
    ;
}

/// Display-only simplification of double (or larger) accidentals to the
/// conventional spelling of the same pitch class.
pub fn simplify_spelling(note: SpelledNote) -> (r: SpelledNote)
    ensures
        r == (if -2 < note.accidental < 2 {
            note
        } else {
            pitch_class_name(note.spec_pitch_class(), Some(note.accidental > 0))
        }),
        r.spec_pitch_class() == note.spec_pitch_class(),
        -2 < r.accidental < 2,
{
    if -2 < note.accidental && note.accidental < 2 {
        return note;
    }
    let pc = note.pitch_class();
    let _ = pc.value();
    name_of_pitch_class(pc, Some(note.accidental > 0))
}

/// Spelling preference suggested by a target chord's root: its accidental,
/// or for natural roots the side of the circle of fifths (F flat; G, D, A,
/// E, B sharp; C none).
pub open spec fn root_accidental_preference(root: SpelledNote) -> Option<bool> {
    if root.accidental < 0 {
        Some(false)
    } else if root.accidental > 0 {
        Some(true)
    } else {
        match root.letter {
            NoteLetter::F => Some(false),
            NoteLetter::C => None,
            _ => Some(true),
        }
    }
}

pub fn target_accidental_preference(root: SpelledNote) -> (r: Option<bool>)
    ensures
        r == root_accidental_preference(root),
{
    if root.accidental < 0 {
        return Some(false);
    }
    if root.accidental > 0 {
        return Some(true);
    }
    match root.letter {
        NoteLetter::F => Some(false),
        NoteLetter::G | NoteLetter::D | NoteLetter::A | NoteLetter::E | NoteLetter::B => Some(true),
        NoteLetter::C => None,
    }
}

} // verus!
