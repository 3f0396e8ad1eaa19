//! Chord formulas and structural predicates.
//!
//! Every StrictV1 operation that needs chord tones comes through
//! [`ChordFormula`], so inversion checks, written tone spelling, and
//! dominant/minor classification cannot disagree about the same symbol.
//! Legacy helpers reproduce the Python019 compatibility profile's substring
//! rules.

use vstd::prelude::*;
use std::collections::{HashMap, HashSet};
use crate::domain::chord::ParsedChord;
use crate::domain::note::{letter_at, letter_index, PitchClass, SpelledNote};
use crate::domain::quality::{
    chord_degree_number, ChordDegree, ChordQuality, DegreeModifier, ModifierKind, QualityClass, QualityParts, SeventhQuality,
};
use crate::profile::BehaviorProfile;
use crate::speller::{semitone_distance, signed_alteration, spell_pitch_class};
use crate::domain::note::natural_semitones;
use crate::text::{contains_char, contains_seq, contains_str, lower_chars, lower_seq, to_chars};

verus! {

broadcast use vstd::std_specs::hash::group_hash_axioms;

#[derive(Clone, Copy, Debug, Eq, PartialEq, Structural)]
/// One formula member with diatonic identity and chromatic distance.
pub struct StructuredTone {
    /// Chord-member identity (third, fifth, ninth, ...).
    pub degree: ChordDegree,
    /// Chromatic change relative to the natural major/perfect interval.
    pub alteration: i8,
    /// Semitone distance above the root, reduced only when a pitch class is
    /// requested.
    pub semitones: i8,
    /// Diatonic letter displacement used to spell the tone correctly.
    pub letter_steps: usize,
}

#[derive(Clone, Debug, Eq, PartialEq)]
/// Authoritative set of tones implied or stated by a parsed quality.
pub struct ChordFormula {
    pub tones: Vec<StructuredTone>,
}

/// Natural semitone size and letter displacement of a chord member.
pub open spec fn member_interval(d: ChordDegree) -> (int, int) {
    match d {
        ChordDegree::Root => (0, 0),
        ChordDegree::Second => (2, 1),
        ChordDegree::Ninth => (2, 1),
        ChordDegree::Third => (4, 2),
        ChordDegree::Fourth => (5, 3),
        ChordDegree::Eleventh => (5, 3),
        ChordDegree::Fifth => (7, 4),
        ChordDegree::Sixth => (9, 5),
        ChordDegree::Thirteenth => (9, 5),
        ChordDegree::Seventh => (11, 6),
    }
}

/// A chord member with the given alteration. Compound degrees share the
/// pitch of their simple equivalent but keep its letter displacement.
pub open spec fn tone_of(d: ChordDegree, alteration: i8) -> StructuredTone {
    StructuredTone {
        degree: d,
        alteration,
        semitones: (member_interval(d).0 + alteration) as i8,
        letter_steps: member_interval(d).1 as usize,
    }
}

/// Tones of the base structure; suspended chords replace the third, and
/// augmented/diminished classes alter the fifth.
pub open spec fn base_tones(class: QualityClass) -> Seq<StructuredTone> {
    match class {
        QualityClass::Major => seq![tone_of(ChordDegree::Root, 0), tone_of(ChordDegree::Third, 0), tone_of(ChordDegree::Fifth, 0)],
        QualityClass::Minor => seq![tone_of(ChordDegree::Root, 0), tone_of(ChordDegree::Third, -1i8), tone_of(ChordDegree::Fifth, 0)],
        QualityClass::Diminished => seq![tone_of(ChordDegree::Root, 0), tone_of(ChordDegree::Third, -1i8), tone_of(ChordDegree::Fifth, -1i8)],
        QualityClass::HalfDiminished => seq![tone_of(ChordDegree::Root, 0), tone_of(ChordDegree::Third, -1i8), tone_of(ChordDegree::Fifth, -1i8)],
        QualityClass::Augmented => seq![tone_of(ChordDegree::Root, 0), tone_of(ChordDegree::Third, 0), tone_of(ChordDegree::Fifth, 1)],
        QualityClass::Suspended2 => seq![tone_of(ChordDegree::Root, 0), tone_of(ChordDegree::Second, 0), tone_of(ChordDegree::Fifth, 0)],
        QualityClass::Suspended4 => seq![tone_of(ChordDegree::Root, 0), tone_of(ChordDegree::Fourth, 0), tone_of(ChordDegree::Fifth, 0)],
        QualityClass::Power => seq![tone_of(ChordDegree::Root, 0), tone_of(ChordDegree::Fifth, 0)],
        QualityClass::Unknown => Seq::empty(),
    }
}

pub open spec fn seventh_alteration(s: SeventhQuality) -> i8 {
    match s {
        SeventhQuality::Major => 0,
        SeventhQuality::Minor => -1i8,
        SeventhQuality::Diminished => -2i8,
    }
}

/// `tones` without the unaltered member `d`.
pub open spec fn without_natural(tones: Seq<StructuredTone>, d: ChordDegree) -> Seq<StructuredTone>
    decreases tones.len(),
{
    if tones.len() == 0 {
        tones
    } else {
        let rest = without_natural(tones.drop_last(), d);
        if tones.last().degree == d && tones.last().alteration == 0 {
            rest
        } else {
            rest.push(tones.last())
        }
    }
}

/// `tones` without the omitted members.
pub open spec fn without_omitted(tones: Seq<StructuredTone>, omissions: Seq<ChordDegree>) -> Seq<StructuredTone>
    decreases tones.len(),
{
    if tones.len() == 0 {
        tones
    } else {
        let rest = without_omitted(tones.drop_last(), omissions);
        if omissions.contains(tones.last().degree) {
            rest
        } else {
            rest.push(tones.last())
        }
    }
}

pub open spec fn has_member(tones: Seq<StructuredTone>, d: ChordDegree, a: i8) -> bool {
    exists|i: int| 0 <= i < tones.len() && #[trigger] tones[i].degree == d && tones[i].alteration == a
}

/// An explicit alteration replaces the natural member of the same degree
/// (`C9(b9)` keeps only `b9`); a member already present is not repeated.
pub open spec fn with_modifier(tones: Seq<StructuredTone>, m: DegreeModifier) -> Seq<StructuredTone> {
    let kept = if m.kind == ModifierKind::Altered {
        without_natural(tones, m.degree)
    } else {
        tones
    };
    if has_member(kept, m.degree, m.alteration) {
        kept
    } else {
        kept.push(tone_of(m.degree, m.alteration))
    }
}

pub open spec fn with_modifiers(tones: Seq<StructuredTone>, mods: Seq<DegreeModifier>) -> Seq<StructuredTone>
    decreases mods.len(),
{
    if mods.len() == 0 {
        tones
    } else {
        with_modifier(with_modifiers(tones, mods.drop_last()), mods.last())
    }
}

/// The StrictV1 formula of a parsed quality, or `None` when the quality is
/// not fully recognized.
pub open spec fn formula_of(q: QualityParts) -> Option<Seq<StructuredTone>> {
    if q.class == QualityClass::Unknown || q.unknown_tokens.len() != 0 {
        None
    } else {
        let base = base_tones(q.class);
        let with_seventh = match q.seventh {
            Some(s) => base.push(tone_of(ChordDegree::Seventh, seventh_alteration(s))),
            None => base,
        };
        Some(without_omitted(with_modifiers(with_seventh, q.modifiers), q.omissions))
    }
}

/// Semitones of the major scale `letters` letter names above its tonic.
pub open spec fn major_scale_step(letters: int) -> int {
    if letters == 0 {
        0
    } else if letters == 1 {
        2
    } else if letters == 2 {
        4
    } else if letters == 3 {
        5
    } else if letters == 4 {
        7
    } else if letters == 5 {
        9
    } else {
        11
    }
}

/// A chord member sits on the major scale above the root: its number less
/// one, within the octave, is how many letters it lies above the root, and
/// its size is that major-scale step moved by its alteration.
pub open spec fn on_major_scale(t: StructuredTone) -> bool {
    &&& t.letter_steps as int == (chord_degree_number(t.degree) - 1) % 7
    &&& t.semitones as int == major_scale_step(t.letter_steps as int) + t.alteration
}

pub open spec fn all_on_major_scale(tones: Seq<StructuredTone>) -> bool {
    forall|i: int| 0 <= i < tones.len() ==> on_major_scale(#[trigger] tones[i])
}

/// Every member, natural or altered, is placed on the major scale above the
/// root: the second and ninth 2 semitones up, the third 4, the fourth and
/// eleventh 5, the fifth 7, the sixth and thirteenth 9, the seventh 11,
/// each moved by its alteration.
pub proof fn lemma_member_on_major_scale(d: ChordDegree, alteration: i8)
    requires
        tone_fits(d, alteration as int),
    ensures
        on_major_scale(tone_of(d, alteration)),
{
}

/// The base structures and sevenths in semitones above the root: major
/// `{0,4,7}`, minor `{0,3,7}`, diminished and half-diminished `{0,3,6}`,
/// augmented `{0,4,8}`, sus2 `{0,2,7}`, sus4 `{0,5,7}`, power `{0,7}`; a major
/// seventh is 11, a minor seventh 10, a diminished seventh 9.
pub proof fn lemma_base_structures(class: QualityClass, seventh: SeventhQuality)
    ensures
        base_tones(class).map_values(|t: StructuredTone| t.semitones as int) == match class {
            QualityClass::Major => seq![0int, 4, 7],
            QualityClass::Minor => seq![0int, 3, 7],
            QualityClass::Diminished => seq![0int, 3, 6],
            QualityClass::HalfDiminished => seq![0int, 3, 6],
            QualityClass::Augmented => seq![0int, 4, 8],
            QualityClass::Suspended2 => seq![0int, 2, 7],
            QualityClass::Suspended4 => seq![0int, 5, 7],
            QualityClass::Power => seq![0int, 7],
            QualityClass::Unknown => Seq::<int>::empty(),
        },
        tone_of(ChordDegree::Seventh, seventh_alteration(seventh)).semitones == match seventh {
            SeventhQuality::Major => 11int,
            SeventhQuality::Minor => 10int,
            SeventhQuality::Diminished => 9int,
        },
{
    assert(base_tones(class).map_values(|t: StructuredTone| t.semitones as int) =~= match class {
        QualityClass::Major => seq![0int, 4, 7],
        QualityClass::Minor => seq![0int, 3, 7],
        QualityClass::Diminished => seq![0int, 3, 6],
        QualityClass::HalfDiminished => seq![0int, 3, 6],
        QualityClass::Augmented => seq![0int, 4, 8],
        QualityClass::Suspended2 => seq![0int, 2, 7],
        QualityClass::Suspended4 => seq![0int, 5, 7],
        QualityClass::Power => seq![0int, 7],
        QualityClass::Unknown => Seq::<int>::empty(),
    });
}

proof fn lemma_without_natural_on_scale(tones: Seq<StructuredTone>, d: ChordDegree)
    requires
        all_on_major_scale(tones),
    ensures
        all_on_major_scale(without_natural(tones, d)),
    decreases tones.len(),
{
    if tones.len() > 0 {
        lemma_without_natural_on_scale(tones.drop_last(), d);
        assert(on_major_scale(tones.last()));
    }
}

proof fn lemma_without_omitted_on_scale(tones: Seq<StructuredTone>, omissions: Seq<ChordDegree>)
    requires
        all_on_major_scale(tones),
    ensures
        all_on_major_scale(without_omitted(tones, omissions)),
    decreases tones.len(),
{
    if tones.len() > 0 {
        lemma_without_omitted_on_scale(tones.drop_last(), omissions);
        assert(on_major_scale(tones.last()));
    }
}

proof fn lemma_with_modifiers_on_scale(tones: Seq<StructuredTone>, mods: Seq<DegreeModifier>)
    requires
        all_on_major_scale(tones),
        forall|i: int| 0 <= i < mods.len() ==> tone_fits(#[trigger] mods[i].degree, mods[i].alteration as int),
    ensures
        all_on_major_scale(with_modifiers(tones, mods)),
    decreases mods.len(),
{
    if mods.len() > 0 {
        let m = mods.last();
        assert(tone_fits(mods[mods.len() - 1].degree, mods[mods.len() - 1].alteration as int));
        lemma_with_modifiers_on_scale(tones, mods.drop_last());
        let prev = with_modifiers(tones, mods.drop_last());
        lemma_without_natural_on_scale(prev, m.degree);
        lemma_member_on_major_scale(m.degree, m.alteration);
    }
}

/// Every tone of a recognized quality's formula sits on the major scale
/// above the root (see `on_major_scale`): e.g. `C6` is `{0, 4, 7, 9}` and
/// `Cm9` holds its ninth 2 semitones up.
pub proof fn lemma_formula_on_major_scale(q: QualityParts)
    requires
        alterations_fit(q),
    ensures
        formula_of(q) matches Some(tones) ==> all_on_major_scale(tones),
{
    if q.class != QualityClass::Unknown && q.unknown_tokens.len() == 0 {
        let base = base_tones(q.class);
        lemma_member_on_major_scale(ChordDegree::Root, 0);
        lemma_member_on_major_scale(ChordDegree::Second, 0);
        lemma_member_on_major_scale(ChordDegree::Third, 0);
        lemma_member_on_major_scale(ChordDegree::Third, -1i8);
        lemma_member_on_major_scale(ChordDegree::Fourth, 0);
        lemma_member_on_major_scale(ChordDegree::Fifth, 0);
        lemma_member_on_major_scale(ChordDegree::Fifth, -1i8);
        lemma_member_on_major_scale(ChordDegree::Fifth, 1i8);
        assert(all_on_major_scale(base));
        let with_seventh = match q.seventh {
            Some(s) => base.push(tone_of(ChordDegree::Seventh, seventh_alteration(s))),
            None => base,
        };
        if let Some(s) = q.seventh {
            lemma_member_on_major_scale(ChordDegree::Seventh, seventh_alteration(s));
        }
        assert(all_on_major_scale(with_seventh));
        lemma_with_modifiers_on_scale(with_seventh, q.modifiers);
        lemma_without_omitted_on_scale(with_modifiers(with_seventh, q.modifiers), q.omissions);
    }
}

/// Python019 interval rules, decided by substrings of the raw quality.
pub open spec fn legacy_intervals(quality: Seq<char>) -> Seq<u8> {
    let lower = lower_seq(quality);
    if contains_seq(quality, "M7"@) {
        seq![0, 4, 7, 11]
    } else if contains_seq(lower, "m7-5"@) || contains_seq(lower, "m7b5"@) {
        seq![0, 3, 6, 10]
    } else if contains_seq(lower, "dim"@) || contains_seq(lower, "o"@) {
        seq![0, 3, 6]
    } else if contains_seq(lower, "maj7"@) || contains_seq(lower, "ma7"@) {
        seq![0, 4, 7, 11]
    } else if contains_seq(lower, "m7"@) {
        seq![0, 3, 7, 10]
    } else if contains_seq(lower, "7"@) {
        seq![0, 4, 7, 10]
    } else if contains_seq(lower, "m"@) {
        seq![0, 3, 7]
    } else {
        seq![0, 4, 7]
    }
}

/// Formula of a chord under a behavior profile. Python019 falls back to its
/// substring intervals (tones in ascending order, each recorded as a root
/// member); StrictV1 declines unknown notation.
pub open spec fn chord_formula(chord: ParsedChord, behavior: BehaviorProfile) -> Option<Seq<StructuredTone>> {
    match behavior {
        BehaviorProfile::Python019 => Some(
            legacy_intervals(chord.quality@).map_values(
                |s: u8| StructuredTone { degree: ChordDegree::Root, alteration: 0, semitones: s as i8, letter_steps: 0 },
            ),
        ),
        BehaviorProfile::StrictV1 => formula_of(chord.quality_parsed.parts()),
    }
}

/// Pitch-class offsets (`0..12`) above the root of a list of tones.
pub open spec fn tone_offsets(tones: Seq<StructuredTone>) -> Set<u8> {
    tones.map_values(|t: StructuredTone| (t.semitones as int % 12) as u8).to_set()
}

/// The member `d` altered by `alteration` lies within the `i8` semitone range.
pub open spec fn tone_fits(d: ChordDegree, alteration: int) -> bool {
    -128 <= member_interval(d).0 + alteration <= 127
}

/// Every written alteration of a recognized quality yields a representable
/// semitone distance.
pub open spec fn alterations_fit(q: QualityParts) -> bool {
    (q.class != QualityClass::Unknown && q.unknown_tokens.len() == 0) ==> forall|i: int|
        0 <= i < q.modifiers.len() ==> tone_fits(#[trigger] q.modifiers[i].degree, q.modifiers[i].alteration as int)
}

/// Under StrictV1 the analyses build a chord's formula only when it has a
/// slash bass; its alterations must then yield representable semitones.
pub open spec fn slash_formula_fits(chord: ParsedChord, behavior: BehaviorProfile) -> bool {
    behavior == BehaviorProfile::StrictV1 && chord.bass is Some ==> alterations_fit(chord.quality_parsed.parts())
}

/// Whether the alterations of a parsed quality yield representable
/// semitone distances.
pub fn quality_alterations_fit(q: &ChordQuality) -> (r: bool)
    ensures
        r == alterations_fit(q.parts()),
{
    if !q.is_fully_recognized() {
        return true;
    }
    let mut i: usize = 0;
    while i < q.modifiers.len()
        invariant
            q.class != QualityClass::Unknown && q.unknown_tokens@.len() == 0,
            i <= q.modifiers.len(),
            forall|k: int| 0 <= k < i ==> tone_fits(#[trigger] q.modifiers@[k].degree, q.modifiers@[k].alteration as int),
        decreases q.modifiers.len() - i,
    {
        let m = &q.modifiers[i];
        let base: i16 = match m.degree {
            ChordDegree::Root => 0,
            ChordDegree::Second | ChordDegree::Ninth => 2,
            ChordDegree::Third => 4,
            ChordDegree::Fourth | ChordDegree::Eleventh => 5,
            ChordDegree::Fifth => 7,
            ChordDegree::Sixth | ChordDegree::Thirteenth => 9,
            ChordDegree::Seventh => 11,
        };
        let total: i16 = base + m.alteration as i16;
        if total < -128 || total > 127 {
            let ghost p = q.parts();
            assert(p.unknown_tokens.len() == 0);
            assert(p.class != QualityClass::Unknown);
            assert(0 <= i < p.modifiers.len());
            assert(!tone_fits(p.modifiers[i as int].degree, p.modifiers[i as int].alteration as int));
            assert(!alterations_fit(p));
            return false;
        }
        i = i + 1;
    }
    true
}

fn structured_tone(degree: ChordDegree, alteration: i8) -> (r: StructuredTone)
    requires
        tone_fits(degree, alteration as int),
    ensures
        r == tone_of(degree, alteration),
{
    let (base, letter_steps): (i8, usize) = match degree {
        ChordDegree::Root => (0, 0),
        ChordDegree::Second | ChordDegree::Ninth => (2, 1),
        ChordDegree::Third => (4, 2),
        ChordDegree::Fourth | ChordDegree::Eleventh => (5, 3),
        ChordDegree::Fifth => (7, 4),
        ChordDegree::Sixth | ChordDegree::Thirteenth => (9, 5),
        ChordDegree::Seventh => (11, 6),
    };
    StructuredTone { degree, alteration, semitones: base + alteration, letter_steps }
}

fn remove_natural(tones: &Vec<StructuredTone>, degree: ChordDegree) -> (r: Vec<StructuredTone>)
    ensures
        r@ == without_natural(tones@, degree),
{
    let mut r: Vec<StructuredTone> = Vec::new();
    let mut i: usize = 0;
    while i < tones.len()
        invariant
            i <= tones.len(),
            r@ == without_natural(tones@.take(i as int), degree),
        decreases tones.len() - i,
    {
        assert(tones@.take(i + 1).drop_last() =~= tones@.take(i as int));
        let t = tones[i];
        if !(t.degree == degree && t.alteration == 0) {
            r.push(t);
        }
        i = i + 1;
    }
    assert(tones@.take(tones.len() as int) =~= tones@);
    r
}

fn remove_omitted(tones: &Vec<StructuredTone>, omissions: &Vec<ChordDegree>) -> (r: Vec<StructuredTone>)
    ensures
        r@ == without_omitted(tones@, omissions@),
{
    let mut r: Vec<StructuredTone> = Vec::new();
    let mut i: usize = 0;
    while i < tones.len()
        invariant
            i <= tones.len(),
            r@ == without_omitted(tones@.take(i as int), omissions@),
        decreases tones.len() - i,
    {
        assert(tones@.take(i + 1).drop_last() =~= tones@.take(i as int));
        let t = tones[i];
        let mut omitted = false;
        let mut j: usize = 0;
        while j < omissions.len()
            invariant
                j <= omissions.len(),
                omitted == exists|k: int| 0 <= k < j && omissions@[k] == t.degree,
            decreases omissions.len() - j,
        {
            if omissions[j] == t.degree {
                omitted = true;
            }
            j = j + 1;
        }
        assert(omitted == omissions@.contains(t.degree));
        if !omitted {
            r.push(t);
        }
        i = i + 1;
    }
    assert(tones@.take(tones.len() as int) =~= tones@);
    r
}

fn contains_member(tones: &Vec<StructuredTone>, degree: ChordDegree, alteration: i8) -> (r: bool)
    ensures
        r == has_member(tones@, degree, alteration),
{
    let mut i: usize = 0;
    while i < tones.len()
        invariant
            i <= tones.len(),
            forall|k: int| 0 <= k < i ==> !(#[trigger] tones@[k].degree == degree && tones@[k].alteration == alteration),
        decreases tones.len() - i,
    {
        if tones[i].degree == degree && tones[i].alteration == alteration {
            return true;
        }
        i = i + 1;
    }
    false
}

/// Build a StrictV1 formula from a structured quality.
pub fn formula_from_quality(quality: &ChordQuality) -> (r: Option<ChordFormula>)
    requires
        alterations_fit(quality.parts()),
    ensures
        match r {
            Some(f) => formula_of(quality.parts()) == Some(f.tones@),
            None => formula_of(quality.parts()) is None,
        },
{
    if !quality.is_fully_recognized() {
        return None;
    }
    let mut tones: Vec<StructuredTone> = match quality.class {
        QualityClass::Major => vec![
            structured_tone(ChordDegree::Root, 0),
            structured_tone(ChordDegree::Third, 0),
            structured_tone(ChordDegree::Fifth, 0),
        ],
        QualityClass::Minor => vec![
            structured_tone(ChordDegree::Root, 0),
            structured_tone(ChordDegree::Third, -1),
            structured_tone(ChordDegree::Fifth, 0),
        ],
        QualityClass::Diminished | QualityClass::HalfDiminished => vec![
            structured_tone(ChordDegree::Root, 0),
            structured_tone(ChordDegree::Third, -1),
            structured_tone(ChordDegree::Fifth, -1),
        ],
        QualityClass::Augmented => vec![
            structured_tone(ChordDegree::Root, 0),
            structured_tone(ChordDegree::Third, 0),
            structured_tone(ChordDegree::Fifth, 1),
        ],
        QualityClass::Suspended2 => vec![
            structured_tone(ChordDegree::Root, 0),
            structured_tone(ChordDegree::Second, 0),
            structured_tone(ChordDegree::Fifth, 0),
        ],
        QualityClass::Suspended4 => vec![
            structured_tone(ChordDegree::Root, 0),
            structured_tone(ChordDegree::Fourth, 0),
            structured_tone(ChordDegree::Fifth, 0),
        ],
        QualityClass::Power => vec![structured_tone(ChordDegree::Root, 0), structured_tone(ChordDegree::Fifth, 0)],
        QualityClass::Unknown => {
            return None;
        },
    };
    assert(tones@ =~= base_tones(quality.class));
    // The seventh's quality is orthogonal to the triad (minor-major seventh).
    if let Some(seventh) = quality.seventh {
        let alteration: i8 = match seventh {
            SeventhQuality::Major => 0,
            SeventhQuality::Minor => -1,
            SeventhQuality::Diminished => -2,
        };
        tones.push(structured_tone(ChordDegree::Seventh, alteration));
    }
    let ghost start = tones@;
    let mut i: usize = 0;
    while i < quality.modifiers.len()
        invariant
            i <= quality.modifiers.len(),
            forall|k: int|
                0 <= k < quality.modifiers@.len() ==> tone_fits(
                    #[trigger] quality.modifiers@[k].degree,
                    quality.modifiers@[k].alteration as int,
                ),
            tones@ == with_modifiers(start, quality.modifiers@.take(i as int)),
        decreases quality.modifiers.len() - i,
    {
        assert(quality.modifiers@.take(i + 1).drop_last() =~= quality.modifiers@.take(i as int));
        let modifier = quality.modifiers[i];
        if matches!(modifier.kind, ModifierKind::Altered) {
            tones = remove_natural(&tones, modifier.degree);
        }
        if !contains_member(&tones, modifier.degree, modifier.alteration) {
            tones.push(structured_tone(modifier.degree, modifier.alteration));
        }
        i = i + 1;
    }
    assert(quality.modifiers@.take(quality.modifiers.len() as int) =~= quality.modifiers@);
    // Omissions run last so they also remove tones implied by 9/11/13.
    let tones = remove_omitted(&tones, &quality.omissions);
    Some(ChordFormula { tones })
}

fn set_of(values: &Vec<u8>) -> (r: HashSet<u8>)
    ensures
        r@ == values@.to_set(),
{
    let mut r: HashSet<u8> = HashSet::new();
    let mut i: usize = 0;
    while i < values.len()
        invariant
            i <= values.len(),
            r@ == values@.take(i as int).to_set(),
        decreases values.len() - i,
    {
        r.insert(values[i]);
        assert(values@.take(i + 1) =~= values@.take(i as int).push(values@[i as int]));
        proof {
            values@.take(i as int).lemma_push_to_set_commute(values@[i as int]);
        }
        i = i + 1;
    }
    assert(values@.take(values.len() as int) =~= values@);
    r
}

fn legacy_interval_list(quality: &str) -> (r: Vec<u8>)
    ensures
        r@ == legacy_intervals(quality@),
{
    let q = to_chars(quality);
    if contains_str(&q, "M7") {
        return vec![0, 4, 7, 11];
    }
    let lower = lower_chars(&q);
    if contains_str(&lower, "m7-5") || contains_str(&lower, "m7b5") {
        vec![0, 3, 6, 10]
    } else if contains_str(&lower, "dim") || contains_str(&lower, "o") {
        vec![0, 3, 6]
    } else if contains_str(&lower, "maj7") || contains_str(&lower, "ma7") {
        vec![0, 4, 7, 11]
    } else if contains_str(&lower, "m7") {
        vec![0, 3, 7, 10]
    } else if contains_str(&lower, "7") {
        vec![0, 4, 7, 10]
    } else if contains_str(&lower, "m") {
        vec![0, 3, 7]
    } else {
        vec![0, 4, 7]
    }
}

/// Python019 chord intervals decided by substrings of the raw quality.
pub fn intervals(quality: &str) -> (r: HashSet<u8>)
    ensures
        r@ == legacy_intervals(quality@).to_set(),
{
    set_of(&legacy_interval_list(quality))
}

fn legacy_formula(quality: &str) -> (r: ChordFormula)
    ensures
        r.tones@ == legacy_intervals(quality@).map_values(
            |s: u8| StructuredTone { degree: ChordDegree::Root, alteration: 0, semitones: s as i8, letter_steps: 0 },
        ),
{
    let list = legacy_interval_list(quality);
    let mut tones: Vec<StructuredTone> = Vec::new();
    let mut i: usize = 0;
    while i < list.len()
        invariant
            i <= list.len(),
            list@ == legacy_intervals(quality@),
            forall|k: int| 0 <= k < list@.len() ==> #[trigger] list@[k] < 12,
            tones@ == list@.take(i as int).map_values(
                |s: u8| StructuredTone { degree: ChordDegree::Root, alteration: 0, semitones: s as i8, letter_steps: 0 },
            ),
        decreases list.len() - i,
    {
        tones.push(StructuredTone { degree: ChordDegree::Root, alteration: 0, semitones: list[i] as i8, letter_steps: 0 });
        assert(list@.take(i + 1) =~= list@.take(i as int).push(list@[i as int]));
        i = i + 1;
    }
    assert(list@.take(list.len() as int) =~= list@);
    ChordFormula { tones }
}

/// Select the formula rules belonging to the requested behavior profile.
///
/// Python019 preserves its permissive major-triad fallback. StrictV1 returns
/// `None` for unknown notation so callers can report indeterminate structure.
pub fn formula(chord: &ParsedChord, behavior: BehaviorProfile) -> (r: Option<ChordFormula>)
    requires
        behavior == BehaviorProfile::StrictV1 ==> alterations_fit(chord.quality_parsed.parts()),
    ensures
        match r {
            Some(f) => chord_formula(*chord, behavior) == Some(f.tones@),
            None => chord_formula(*chord, behavior) is None,
        },
{
    match behavior {
        BehaviorProfile::Python019 => Some(legacy_formula(chord.quality.as_str())),
        BehaviorProfile::StrictV1 => formula_from_quality(&chord.quality_parsed),
    }
}


/// Pitch-class offsets of the formula a profile gives the chord, if any.
pub open spec fn formula_offsets(chord: ParsedChord, behavior: BehaviorProfile) -> Option<Set<u8>> {
    match chord_formula(chord, behavior) {
        Some(tones) => Some(tone_offsets(tones)),
        None => None,
    }
}

/// A slash chord is an inversion when its bass is a pitch class of its
/// formula; without a bass or a formula it is not.
pub open spec fn inversion_for(chord: ParsedChord, behavior: BehaviorProfile) -> bool {
    match (chord.bass, formula_offsets(chord, behavior)) {
        (Some(bass), Some(offsets)) => offsets.contains(
            ((bass.spec_pitch_class() - chord.root.spec_pitch_class()) % 12) as u8,
        ),
        _ => false,
    }
}

fn offsets_of(tones: &Vec<StructuredTone>) -> (r: HashSet<u8>)
    ensures
        r@ == tone_offsets(tones@),
{
    let mut values: Vec<u8> = Vec::new();
    let mut i: usize = 0;
    while i < tones.len()
        invariant
            i <= tones.len(),
            values@ == tones@.take(i as int).map_values(|t: StructuredTone| (t.semitones as int % 12) as u8),
        decreases tones.len() - i,
    {
        let s: i16 = tones[i].semitones as i16 + 132;
        let v: u8 = (s % 12) as u8;
        assert(v == (tones@[i as int].semitones as int % 12) as u8) by {
            let t = tones@[i as int].semitones as int;
            assert((t + 132) % 12 == t % 12) by (nonlinear_arith);
        }
        values.push(v);
        assert(tones@.take(i + 1) =~= tones@.take(i as int).push(tones@[i as int]));
        i = i + 1;
    }
    assert(tones@.take(tones.len() as int) =~= tones@);
    set_of(&values)
}

/// Pitch-class offsets (`0..12`) above the root of the chord's formula.
pub fn formula_intervals(chord: &ParsedChord, behavior: BehaviorProfile) -> (r: Option<HashSet<u8>>)
    requires
        behavior == BehaviorProfile::StrictV1 ==> alterations_fit(chord.quality_parsed.parts()),
    ensures
        match r {
            Some(s) => formula_offsets(*chord, behavior) == Some(s@),
            None => formula_offsets(*chord, behavior) is None,
        },
{
    match formula(chord, behavior) {
        Some(f) => Some(offsets_of(&f.tones)),
        None => None,
    }
}

/// Whether a slash chord's bass is one of its own chord tones.
///
/// A chord symbol does not encode octave or voicing, so membership by pitch
/// class is the strongest inversion test available.
pub fn is_inversion_for(chord: &ParsedChord, behavior: BehaviorProfile) -> (r: bool)
    requires
        slash_formula_fits(*chord, behavior),
    ensures
        r == inversion_for(*chord, behavior),
{
    let bass = match chord.bass {
        Some(bass) => bass,
        None => {
            return false;
        },
    };
    match formula_intervals(chord, behavior) {
        Some(tones) => tones.contains(&semitone_distance(bass, chord.root)),
        None => false,
    }
}

/// The chord member `semitones` above `root`, spelled on the letter
/// `letter_steps` above the root's letter, keyed by its pitch class.
pub open spec fn spelled_member(root: SpelledNote, semitones: int, letter_steps: int) -> (u8, SpelledNote) {
    let pc = (root.spec_pitch_class() + semitones) % 12;
    let letter = letter_at(letter_index(root.letter) + letter_steps);
    (pc as u8, SpelledNote { letter, accidental: signed_alteration(pc - natural_semitones(letter)) as i8 })
}

/// Spelled members by pitch class; a later member replaces an earlier one
/// with the same pitch class.
pub open spec fn spelled_map(root: SpelledNote, members: Seq<(int, int)>) -> Map<u8, SpelledNote>
    decreases members.len(),
{
    if members.len() == 0 {
        Map::empty()
    } else {
        let m = spelled_member(root, members.last().0, members.last().1);
        spelled_map(root, members.drop_last()).insert(m.0, m.1)
    }
}

/// (semitones, letter steps) of each formula tone.
pub open spec fn formula_members(tones: Seq<StructuredTone>) -> Seq<(int, int)> {
    tones.map_values(|t: StructuredTone| (t.semitones as int, t.letter_steps as int))
}

/// Python019 spelling members, decided by substrings of the raw quality.
pub open spec fn legacy_members(quality: Seq<char>) -> Seq<(int, int)> {
    let lower = lower_seq(quality);
    let major: Seq<(int, int)> = seq![(0, 0), (4, 2), (7, 4)];
    let minor: Seq<(int, int)> = seq![(0, 0), (3, 2), (7, 4)];
    if contains_seq(quality, "M7"@) {
        major.push((11, 6))
    } else if contains_seq(lower, "m7"@) {
        minor.push((10, 6))
    } else if contains_seq(lower, "maj7"@) {
        major.push((11, 6))
    } else if contains_seq(lower, "7"@) {
        major.push((10, 6))
    } else if contains_seq(lower, "m"@) {
        minor
    } else {
        major
    }
}

/// Spelled chord tones of a chord under a profile, keyed by pitch-class
/// value; empty when StrictV1 has no formula.
pub open spec fn spelled_tones_of(chord: ParsedChord, root: SpelledNote, behavior: BehaviorProfile) -> Map<u8, SpelledNote> {
    match behavior {
        BehaviorProfile::Python019 => spelled_map(root, legacy_members(chord.quality@)),
        BehaviorProfile::StrictV1 => match formula_of(chord.quality_parsed.parts()) {
            Some(tones) => spelled_map(root, formula_members(tones)),
            None => Map::empty(),
        },
    }
}

/// Members widened to mathematical integers.
pub open spec fn widen_members(members: Seq<(i8, usize)>) -> Seq<(int, int)> {
    members.map_values(|m: (i8, usize)| (m.0 as int, m.1 as int))
}

fn spell_members(root: SpelledNote, members: &Vec<(i8, usize)>) -> (r: HashMap<u8, SpelledNote>)
    requires
        forall|i: int| 0 <= i < members@.len() ==> #[trigger] members@[i].1 <= 6,
    ensures
        r@ == spelled_map(root, widen_members(members@)),
{
    let root_pc = root.pitch_class();
    let mut tones: HashMap<u8, SpelledNote> = HashMap::new();
    let mut i: usize = 0;
    while i < members.len()
        invariant
            i <= members.len(),
            root_pc@ == root.spec_pitch_class(),
            forall|k: int| 0 <= k < members@.len() ==> #[trigger] members@[k].1 <= 6,
            tones@ == spelled_map(root, widen_members(members@.take(i as int))),
        decreases members.len() - i,
    {
        let member = members[i];
        let semitones = member.0;
        let letter_steps = member.1;
        proof {
            use_type_invariant(&root_pc);
        }
        let pc = root_pc.offset(semitones as i16);
        let letter = root.letter.shift(letter_steps);
        let spelled = spell_pitch_class(letter, pc);
        let key = pc.value();
        tones.insert(key, spelled);
        proof {
            let taken = widen_members(members@.take(i as int));
            let next = widen_members(members@.take(i + 1));
            assert(next.drop_last() =~= taken);
            assert(next.last() == (semitones as int, letter_steps as int));
            let m = spelled_member(root, semitones as int, letter_steps as int);
            assert(m.0 == key);
            assert(m.1 == spelled);
        }
        i = i + 1;
    }
    assert(members@.take(members.len() as int) =~= members@);
    tones
}

/// All tones of a list use a letter displacement of at most a seventh.
pub open spec fn letter_steps_bounded(tones: Seq<StructuredTone>) -> bool {
    forall|i: int| 0 <= i < tones.len() ==> #[trigger] tones[i].letter_steps <= 6
}

proof fn lemma_without_natural_bounded(tones: Seq<StructuredTone>, d: ChordDegree)
    requires
        letter_steps_bounded(tones),
    ensures
        letter_steps_bounded(without_natural(tones, d)),
    decreases tones.len(),
{
    if tones.len() > 0 {
        assert(letter_steps_bounded(tones.drop_last()));
        lemma_without_natural_bounded(tones.drop_last(), d);
        assert(tones.last().letter_steps <= 6);
    }
}

proof fn lemma_without_omitted_bounded(tones: Seq<StructuredTone>, omissions: Seq<ChordDegree>)
    requires
        letter_steps_bounded(tones),
    ensures
        letter_steps_bounded(without_omitted(tones, omissions)),
    decreases tones.len(),
{
    if tones.len() > 0 {
        assert(letter_steps_bounded(tones.drop_last()));
        lemma_without_omitted_bounded(tones.drop_last(), omissions);
        assert(tones.last().letter_steps <= 6);
    }
}

proof fn lemma_with_modifiers_bounded(tones: Seq<StructuredTone>, mods: Seq<DegreeModifier>)
    requires
        letter_steps_bounded(tones),
    ensures
        letter_steps_bounded(with_modifiers(tones, mods)),
    decreases mods.len(),
{
    if mods.len() > 0 {
        lemma_with_modifiers_bounded(tones, mods.drop_last());
        let prev = with_modifiers(tones, mods.drop_last());
        lemma_without_natural_bounded(prev, mods.last().degree);
    }
}

/// Every tone of a formula is spelled at most a seventh above the root letter.
pub proof fn lemma_formula_letter_steps(q: QualityParts)
    requires
        formula_of(q) is Some,
    ensures
        letter_steps_bounded(formula_of(q).unwrap()),
{
    let base = base_tones(q.class);
    let with_seventh = match q.seventh {
        Some(s) => base.push(tone_of(ChordDegree::Seventh, seventh_alteration(s))),
        None => base,
    };
    assert(letter_steps_bounded(with_seventh));
    lemma_with_modifiers_bounded(with_seventh, q.modifiers);
    lemma_without_omitted_bounded(with_modifiers(with_seventh, q.modifiers), q.omissions);
}

/// Python019 chord tones of `root` + `quality`, spelled by chord degree and
/// keyed by pitch-class value.
pub fn spelled_tones(root: SpelledNote, quality: &str) -> (r: HashMap<u8, SpelledNote>)
    ensures
        r@ == spelled_map(root, legacy_members(quality@)),
{
    let q = to_chars(quality);
    let lower = lower_chars(&q);
    let mut members: Vec<(i8, usize)> = if contains_str(&q, "M7") || (!contains_str(&lower, "m7") && contains_str(&lower, "maj7")) {
        vec![(0, 0), (4, 2), (7, 4), (11, 6)]
    } else if contains_str(&lower, "m7") {
        vec![(0, 0), (3, 2), (7, 4), (10, 6)]
    } else if contains_str(&lower, "7") {
        vec![(0, 0), (4, 2), (7, 4), (10, 6)]
    } else if contains_str(&lower, "m") {
        vec![(0, 0), (3, 2), (7, 4)]
    } else {
        vec![(0, 0), (4, 2), (7, 4)]
    };
    assert(widen_members(members@) =~= legacy_members(quality@));
    spell_members(root, &members)
}

/// Chord tones spelled from the formula's chord degrees, keyed by
/// pitch-class value.
///
/// Letters come from the chord degree rather than the pitch class, which
/// keeps spellings such as `Gb` (not `F#`) in `Cdim`.
pub fn spelled_tones_for(chord: &ParsedChord, root: SpelledNote, behavior: BehaviorProfile) -> (r: HashMap<
    u8,
    SpelledNote,
>)
    requires
        behavior == BehaviorProfile::StrictV1 ==> alterations_fit(chord.quality_parsed.parts()),
    ensures
        r@ == spelled_tones_of(*chord, root, behavior),
{
    if matches!(behavior, BehaviorProfile::Python019) {
        return spelled_tones(root, chord.quality.as_str());
    }
    let f = match formula(chord, behavior) {
        Some(f) => f,
        None => {
            return HashMap::new();
        },
    };
    proof {
        lemma_formula_letter_steps(chord.quality_parsed.parts());
    }
    let mut members: Vec<(i8, usize)> = Vec::new();
    let mut i: usize = 0;
    while i < f.tones.len()
        invariant
            i <= f.tones.len(),
            letter_steps_bounded(f.tones@),
            members@.len() == i,
            forall|k: int| 0 <= k < i ==> #[trigger] members@[k] == (f.tones@[k].semitones, f.tones@[k].letter_steps),
        decreases f.tones.len() - i,
    {
        members.push((f.tones[i].semitones, f.tones[i].letter_steps));
        i = i + 1;
    }
    assert(widen_members(members@) =~= formula_members(f.tones@));
    spell_members(root, &members)
}

/// Python019 dominant test on the raw quality text.
pub open spec fn legacy_dominant(quality: Seq<char>) -> bool {
    let lower = lower_seq(quality);
    if contains_seq(quality, "M7"@) {
        false
    } else if contains_seq(lower, "maj7"@) || contains_seq(lower, "ma7"@) {
        false
    } else if contains_seq(lower, "m"@) && !contains_seq(lower, "dim"@) {
        false
    } else {
        contains_seq(lower, "7"@)
    }
}

/// Python019 minor test on the raw quality text.
pub open spec fn legacy_minor(quality: Seq<char>) -> bool {
    let lower = lower_seq(quality);
    !contains_seq(quality, "M7"@) && contains_seq(lower, "m"@) && !contains_seq(lower, "maj"@) && !contains_seq(
        lower,
        "dim"@,
    )
}

/// Python019 diminished test on the raw quality text.
pub open spec fn legacy_diminished(quality: Seq<char>) -> bool {
    let lower = lower_seq(quality);
    contains_seq(lower, "dim"@) || contains_seq(lower, "m7-5"@) || contains_seq(lower, "m7b5"@)
}

/// A chord with a minor seventh over a major, augmented or suspended triad
/// (StrictV1), or the Python019 text rule.
pub open spec fn dominant_for(chord: ParsedChord, behavior: BehaviorProfile) -> bool {
    match behavior {
        BehaviorProfile::Python019 => legacy_dominant(chord.quality@),
        BehaviorProfile::StrictV1 => {
            let q = chord.quality_parsed;
            q.seventh == Some(SeventhQuality::Minor) && (q.class == QualityClass::Major || q.class
                == QualityClass::Augmented || q.class == QualityClass::Suspended2 || q.class
                == QualityClass::Suspended4)
        },
    }
}

/// StrictV1 admits only stable major/minor structures that are not
/// dominant; Python019 takes every non-dominant chord.
pub open spec fn tonic_for(chord: ParsedChord, behavior: BehaviorProfile) -> bool {
    match behavior {
        BehaviorProfile::Python019 => !dominant_for(chord, behavior),
        BehaviorProfile::StrictV1 => (chord.quality_parsed.class == QualityClass::Major
            || chord.quality_parsed.class == QualityClass::Minor) && !dominant_for(chord, behavior),
    }
}

pub open spec fn minor_for(chord: ParsedChord, behavior: BehaviorProfile) -> bool {
    match behavior {
        BehaviorProfile::Python019 => legacy_minor(chord.quality@),
        BehaviorProfile::StrictV1 => chord.quality_parsed.class == QualityClass::Minor
            || chord.quality_parsed.class == QualityClass::HalfDiminished,
    }
}

pub open spec fn diminished_for(chord: ParsedChord, behavior: BehaviorProfile) -> bool {
    match behavior {
        BehaviorProfile::Python019 => legacy_diminished(chord.quality@),
        BehaviorProfile::StrictV1 => chord.quality_parsed.class == QualityClass::Diminished
            || chord.quality_parsed.class == QualityClass::HalfDiminished,
    }
}

pub fn is_dominant_for(chord: &ParsedChord, behavior: BehaviorProfile) -> (r: bool)
    ensures
        r == dominant_for(*chord, behavior),
{
    if matches!(behavior, BehaviorProfile::Python019) {
        return is_dominant_quality(chord.quality.as_str());
    }
    matches!(chord.quality_parsed.seventh, Some(SeventhQuality::Minor)) && matches!(
        chord.quality_parsed.class,
        QualityClass::Major | QualityClass::Augmented | QualityClass::Suspended2 | QualityClass::Suspended4
    )
}

/// Whether the chord can be a tonic-resolution target. Under StrictV1 "not
/// dominant" is not enough: `Cdim` must not complete `G7-C`.
pub fn is_tonic_for(chord: &ParsedChord, behavior: BehaviorProfile) -> (r: bool)
    ensures
        r == tonic_for(*chord, behavior),
{
    if matches!(behavior, BehaviorProfile::Python019) {
        return !is_dominant_for(chord, behavior);
    }
    matches!(chord.quality_parsed.class, QualityClass::Major | QualityClass::Minor) && !is_dominant_for(
        chord,
        behavior,
    )
}

pub fn is_minor_for(chord: &ParsedChord, behavior: BehaviorProfile) -> (r: bool)
    ensures
        r == minor_for(*chord, behavior),
{
    if matches!(behavior, BehaviorProfile::Python019) {
        return is_minor_quality(chord.quality.as_str());
    }
    matches!(chord.quality_parsed.class, QualityClass::Minor | QualityClass::HalfDiminished)
}

pub fn is_diminished_for(chord: &ParsedChord, behavior: BehaviorProfile) -> (r: bool)
    ensures
        r == diminished_for(*chord, behavior),
{
    if matches!(behavior, BehaviorProfile::Python019) {
        let lower = lower_chars(&to_chars(chord.quality.as_str()));
        return contains_str(&lower, "dim") || contains_str(&lower, "m7-5") || contains_str(&lower, "m7b5");
    }
    matches!(chord.quality_parsed.class, QualityClass::Diminished | QualityClass::HalfDiminished)
}

/// Python019 inversion test: the bass is one of the substring intervals.
pub fn is_inversion(root: SpelledNote, bass: SpelledNote, quality: &str) -> (r: bool)
    ensures
        r == legacy_intervals(quality@).contains(
            ((bass.spec_pitch_class() - root.spec_pitch_class()) % 12) as u8,
        ),
{
    intervals(quality).contains(&semitone_distance(bass, root))
}

/// Augmented spelled as `aug` (any case) or `+`.
pub open spec fn legacy_augmented(quality: Seq<char>) -> bool {
    contains_seq(lower_seq(quality), "aug"@) || quality.contains('+')
}

pub fn is_aug_quality(quality: &str) -> (r: bool)
    ensures
        r == legacy_augmented(quality@),
{
    let q = to_chars(quality);
    contains_str(&lower_chars(&q), "aug") || contains_char(&q, '+')
}

/// Pitch-class values of the augmented triad built on `root`.
pub fn aug_triad_pitch_classes(root: SpelledNote) -> (r: HashSet<u8>)
    ensures
        r@ == set![
            root.spec_pitch_class() as u8,
            ((root.spec_pitch_class() + 4) % 12) as u8,
            ((root.spec_pitch_class() + 8) % 12) as u8,
        ],
{
    let pc = root.pitch_class();
    let mut r: HashSet<u8> = HashSet::new();
    r.insert(pc.value());
    r.insert(pc.offset(4).value());
    r.insert(pc.offset(8).value());
    r
}

pub fn is_dominant_quality(quality: &str) -> (r: bool)
    ensures
        r == legacy_dominant(quality@),
{
    let q = to_chars(quality);
    if contains_str(&q, "M7") {
        return false;
    }
    let lower = lower_chars(&q);
    if contains_str(&lower, "maj7") || contains_str(&lower, "ma7") {
        return false;
    }
    if contains_str(&lower, "m") && !contains_str(&lower, "dim") {
        return false;
    }
    contains_str(&lower, "7")
}

pub fn is_tonic_quality(quality: &str) -> (r: bool)
    ensures
        r == !legacy_dominant(quality@),
{
    !is_dominant_quality(quality)
}

pub fn is_minor_quality(quality: &str) -> (r: bool)
    ensures
        r == legacy_minor(quality@),
{
    let q = to_chars(quality);
    if contains_str(&q, "M7") {
        return false;
    }
    let lower = lower_chars(&q);
    contains_str(&lower, "m") && !contains_str(&lower, "maj") && !contains_str(&lower, "dim")
}


/// Every spelled chord tone is a spelling of the pitch class it is keyed by.
pub proof fn lemma_spelled_map_keys(root: SpelledNote, members: Seq<(int, int)>, k: u8)
    requires
        spelled_map(root, members).contains_key(k),
    ensures
        k < 12,
        spelled_map(root, members)[k].spec_pitch_class() == k,
    decreases members.len(),
{
    let m = spelled_member(root, members.last().0, members.last().1);
    if m.0 != k {
        lemma_spelled_map_keys(root, members.drop_last(), k);
    } else {
        let pc = (root.spec_pitch_class() + members.last().0) % 12;
        let n = natural_semitones(m.1.letter);
        assert(0 <= n < 12);
        assert(-5 <= signed_alteration(pc - n) <= 6);
        assert((n + signed_alteration(pc - n)) % 12 == pc) by (nonlinear_arith)
            requires
                0 <= n < 12,
                0 <= pc < 12,
        ;
    }
}

} // verus!
