//! Structured chord-quality syntax.
//!
//! A chord suffix is kept verbatim (`raw`) and also parsed into the semantic
//! pieces needed to build one authoritative chord formula: the base triad
//! class, the seventh, degree modifiers, omissions, and any unrecognized
//! fragments. Unknown notation is retained rather than guessed.

use vstd::prelude::*;
use crate::text::{is_prefix, matches_in, remove_char, string_of, to_chars, without_char};

verus! {

#[derive(Clone, Copy, Debug, Eq, Hash, PartialEq, Structural)]
/// Base triad or suspended/power structure.
pub enum QualityClass {
    Major,
    Minor,
    Diminished,
    HalfDiminished,
    Augmented,
    Suspended2,
    Suspended4,
    Power,
    Unknown,
}

#[derive(Clone, Copy, Debug, Eq, Hash, PartialEq, Structural)]
/// Quality of the seventh independently of the base triad.
pub enum SeventhQuality {
    Major,
    Minor,
    Diminished,
}

#[derive(Clone, Copy, Debug, Eq, Hash, PartialEq, Structural)]
/// Chord-member number rather than a scale degree relative to the song key.
pub enum ChordDegree {
    Root,
    Second,
    Third,
    Fourth,
    Fifth,
    Sixth,
    Seventh,
    Ninth,
    Eleventh,
    Thirteenth,
}

pub open spec fn chord_degree_number(d: ChordDegree) -> u8 {
    match d {
        ChordDegree::Root => 1,
        ChordDegree::Second => 2,
        ChordDegree::Third => 3,
        ChordDegree::Fourth => 4,
        ChordDegree::Fifth => 5,
        ChordDegree::Sixth => 6,
        ChordDegree::Seventh => 7,
        ChordDegree::Ninth => 9,
        ChordDegree::Eleventh => 11,
        ChordDegree::Thirteenth => 13,
    }
}

pub open spec fn chord_degree_of_number(n: u8) -> Option<ChordDegree> {
    if n == 1 {
        Some(ChordDegree::Root)
    } else if n == 2 {
        Some(ChordDegree::Second)
    } else if n == 3 {
        Some(ChordDegree::Third)
    } else if n == 4 {
        Some(ChordDegree::Fourth)
    } else if n == 5 {
        Some(ChordDegree::Fifth)
    } else if n == 6 {
        Some(ChordDegree::Sixth)
    } else if n == 7 {
        Some(ChordDegree::Seventh)
    } else if n == 9 {
        Some(ChordDegree::Ninth)
    } else if n == 11 {
        Some(ChordDegree::Eleventh)
    } else if n == 13 {
        Some(ChordDegree::Thirteenth)
    } else {
        None
    }
}

/// Law: a chord member's number names that member again.
pub proof fn lemma_chord_degree_number_round_trip(d: ChordDegree)
    ensures
        chord_degree_of_number(chord_degree_number(d)) == Some(d),
{
}

impl ChordDegree {
    pub fn number(self) -> (r: u8)
        ensures
            r == chord_degree_number(self),
    {
        match self {
            ChordDegree::Root => 1,
            ChordDegree::Second => 2,
            ChordDegree::Third => 3,
            ChordDegree::Fourth => 4,
            ChordDegree::Fifth => 5,
            ChordDegree::Sixth => 6,
            ChordDegree::Seventh => 7,
            ChordDegree::Ninth => 9,
            ChordDegree::Eleventh => 11,
            ChordDegree::Thirteenth => 13,
        }
    }

    pub fn parse(number: u8) -> (r: Option<Self>)
        ensures
            r == chord_degree_of_number(number),
    {
        if number == 1 {
            Some(ChordDegree::Root)
        } else if number == 2 {
            Some(ChordDegree::Second)
        } else if number == 3 {
            Some(ChordDegree::Third)
        } else if number == 4 {
            Some(ChordDegree::Fourth)
        } else if number == 5 {
            Some(ChordDegree::Fifth)
        } else if number == 6 {
            Some(ChordDegree::Sixth)
        } else if number == 7 {
            Some(ChordDegree::Seventh)
        } else if number == 9 {
            Some(ChordDegree::Ninth)
        } else if number == 11 {
            Some(ChordDegree::Eleventh)
        } else if number == 13 {
            Some(ChordDegree::Thirteenth)
        } else {
            None
        }
    }
}

#[derive(Clone, Copy, Debug, Eq, Hash, PartialEq, Structural)]
/// How a degree entered the chord formula.
pub enum ModifierKind {
    /// Implied by an extension symbol such as the natural ninth in `C9`.
    Implied,
    /// Explicitly added without implying the lower extension stack (`Cadd9`).
    Added,
    /// Explicitly chromatically altered (`b9`, `#11`).
    Altered,
}

#[derive(Clone, Copy, Debug, Eq, Hash, PartialEq, Structural)]
pub struct DegreeModifier {
    pub degree: ChordDegree,
    pub alteration: i8,
    pub kind: ModifierKind,
}

#[derive(Clone, Debug, Eq, PartialEq)]
/// Parsed quality plus the untouched suffix needed for faithful rendering.
pub struct ChordQuality {
    pub raw: String,
    pub class: QualityClass,
    pub seventh: Option<SeventhQuality>,
    pub modifiers: Vec<DegreeModifier>,
    pub omissions: Vec<ChordDegree>,
    pub unknown_tokens: Vec<String>,
}

/// The semantic fields of a parsed quality.
#[verifier::ext_equal]
pub struct QualityParts {
    pub class: QualityClass,
    pub seventh: Option<SeventhQuality>,
    pub modifiers: Seq<DegreeModifier>,
    pub omissions: Seq<ChordDegree>,
    pub unknown_tokens: Seq<Seq<char>>,
}

impl ChordQuality {
    pub open spec fn parts(&self) -> QualityParts {
        QualityParts {
            class: self.class,
            seventh: self.seventh,
            modifiers: self.modifiers@,
            omissions: self.omissions@,
            unknown_tokens: self.unknown_tokens@.map_values(|t: String| t@),
        }
    }
}

/// Entry `i` of the base-quality table: spelling, class, seventh and the
/// implied extension stack (0 none, 1 ninth, 2 ninth and eleventh,
/// 3 ninth to thirteenth, 4 sixth).
///
/// Longer or more specific spellings come first: `mMaj9` before `m`, and
/// `maj7` before a bare major default.
pub open spec fn base_entry(i: int) -> (Seq<char>, QualityClass, Option<SeventhQuality>, u8) {
    if i == 0 {
        ("minMaj13"@, QualityClass::Minor, Some(SeventhQuality::Major), 3u8)
    } else if i == 1 {
        ("minMaj11"@, QualityClass::Minor, Some(SeventhQuality::Major), 2u8)
    } else if i == 2 {
        ("minMaj9"@, QualityClass::Minor, Some(SeventhQuality::Major), 1u8)
    } else if i == 3 {
        ("minMaj7"@, QualityClass::Minor, Some(SeventhQuality::Major), 0u8)
    } else if i == 4 {
        ("mMaj13"@, QualityClass::Minor, Some(SeventhQuality::Major), 3u8)
    } else if i == 5 {
        ("mMaj11"@, QualityClass::Minor, Some(SeventhQuality::Major), 2u8)
    } else if i == 6 {
        ("mMaj9"@, QualityClass::Minor, Some(SeventhQuality::Major), 1u8)
    } else if i == 7 {
        ("mMaj7"@, QualityClass::Minor, Some(SeventhQuality::Major), 0u8)
    } else if i == 8 {
        ("mM7"@, QualityClass::Minor, Some(SeventhQuality::Major), 0u8)
    } else if i == 9 {
        ("m7-5"@, QualityClass::HalfDiminished, Some(SeventhQuality::Minor), 0u8)
    } else if i == 10 {
        ("m7b5"@, QualityClass::HalfDiminished, Some(SeventhQuality::Minor), 0u8)
    } else if i == 11 {
        ("maj13"@, QualityClass::Major, Some(SeventhQuality::Major), 3u8)
    } else if i == 12 {
        ("maj11"@, QualityClass::Major, Some(SeventhQuality::Major), 2u8)
    } else if i == 13 {
        ("maj9"@, QualityClass::Major, Some(SeventhQuality::Major), 1u8)
    } else if i == 14 {
        ("maj7"@, QualityClass::Major, Some(SeventhQuality::Major), 0u8)
    } else if i == 15 {
        ("ma13"@, QualityClass::Major, Some(SeventhQuality::Major), 3u8)
    } else if i == 16 {
        ("ma11"@, QualityClass::Major, Some(SeventhQuality::Major), 2u8)
    } else if i == 17 {
        ("ma9"@, QualityClass::Major, Some(SeventhQuality::Major), 1u8)
    } else if i == 18 {
        ("ma7"@, QualityClass::Major, Some(SeventhQuality::Major), 0u8)
    } else if i == 19 {
        ("M13"@, QualityClass::Major, Some(SeventhQuality::Major), 3u8)
    } else if i == 20 {
        ("M11"@, QualityClass::Major, Some(SeventhQuality::Major), 2u8)
    } else if i == 21 {
        ("M9"@, QualityClass::Major, Some(SeventhQuality::Major), 1u8)
    } else if i == 22 {
        ("M7"@, QualityClass::Major, Some(SeventhQuality::Major), 0u8)
    } else if i == 23 {
        ("dim7"@, QualityClass::Diminished, Some(SeventhQuality::Diminished), 0u8)
    } else if i == 24 {
        ("o7"@, QualityClass::Diminished, Some(SeventhQuality::Diminished), 0u8)
    } else if i == 25 {
        ("ø7"@, QualityClass::HalfDiminished, Some(SeventhQuality::Minor), 0u8)
    } else if i == 26 {
        ("sus2"@, QualityClass::Suspended2, None, 0u8)
    } else if i == 27 {
        ("sus4"@, QualityClass::Suspended4, None, 0u8)
    } else if i == 28 {
        ("aug"@, QualityClass::Augmented, None, 0u8)
    } else if i == 29 {
        ("dim"@, QualityClass::Diminished, None, 0u8)
    } else if i == 30 {
        ("min13"@, QualityClass::Minor, Some(SeventhQuality::Minor), 3u8)
    } else if i == 31 {
        ("min11"@, QualityClass::Minor, Some(SeventhQuality::Minor), 2u8)
    } else if i == 32 {
        ("min9"@, QualityClass::Minor, Some(SeventhQuality::Minor), 1u8)
    } else if i == 33 {
        ("min7"@, QualityClass::Minor, Some(SeventhQuality::Minor), 0u8)
    } else if i == 34 {
        ("min6"@, QualityClass::Minor, None, 4u8)
    } else if i == 35 {
        ("min"@, QualityClass::Minor, None, 0u8)
    } else if i == 36 {
        ("m13"@, QualityClass::Minor, Some(SeventhQuality::Minor), 3u8)
    } else if i == 37 {
        ("m11"@, QualityClass::Minor, Some(SeventhQuality::Minor), 2u8)
    } else if i == 38 {
        ("m9"@, QualityClass::Minor, Some(SeventhQuality::Minor), 1u8)
    } else if i == 39 {
        ("m7"@, QualityClass::Minor, Some(SeventhQuality::Minor), 0u8)
    } else if i == 40 {
        ("m6"@, QualityClass::Minor, None, 4u8)
    } else if i == 41 {
        ("m"@, QualityClass::Minor, None, 0u8)
    } else if i == 42 {
        ("13"@, QualityClass::Major, Some(SeventhQuality::Minor), 3u8)
    } else if i == 43 {
        ("11"@, QualityClass::Major, Some(SeventhQuality::Minor), 2u8)
    } else if i == 44 {
        ("9"@, QualityClass::Major, Some(SeventhQuality::Minor), 1u8)
    } else if i == 45 {
        ("7"@, QualityClass::Major, Some(SeventhQuality::Minor), 0u8)
    } else if i == 46 {
        ("6"@, QualityClass::Major, None, 4u8)
    } else if i == 47 {
        ("5"@, QualityClass::Power, None, 0u8)
    } else if i == 48 {
        ("+"@, QualityClass::Augmented, None, 0u8)
    } else if i == 49 {
        ("o"@, QualityClass::Diminished, None, 0u8)
    } else {
        (Seq::empty(), QualityClass::Unknown, None, 0u8)
    }
}

/// A major-seventh marker at position `k`: a capital `M`, or `ma`.
pub open spec fn major_marker_at(s: Seq<char>, k: int) -> bool {
    &&& 0 <= k < s.len()
    &&& (s[k] == 'M' || (s[k] == 'm' && k + 1 < s.len() && s[k + 1] == 'a'))
}

pub open spec fn has_major_marker(s: Seq<char>) -> bool {
    exists|k: int| #[trigger] major_marker_at(s, k)
}

pub open spec fn has_seven(s: Seq<char>) -> bool {
    exists|k: int| 0 <= k < s.len() && #[trigger] s[k] == '7'
}

/// What a base spelling says of its seventh: a major seventh exactly when
/// the spelling carries a major marker (`Maj`, `maj`, `ma`, `M`); every
/// spelling that names a seventh or an extension stack (`7`, `9`, `11`,
/// `13`) has a seventh; so a minor chord spelled with a number and no major
/// marker (`m7`, `m9`, `m11`, `m13`, `min9`...) has a minor seventh, and a
/// sixth chord none.
pub proof fn lemma_base_seventh_follows_spelling(i: int)
    requires
        0 <= i < base_table_len(),
    ensures
        (base_entry(i).2 == Some(SeventhQuality::Major)) == has_major_marker(base_entry(i).0),
        (has_seven(base_entry(i).0) || 1 <= base_entry(i).3 <= 3) ==> base_entry(i).2 is Some,
        base_entry(i).3 == 4 ==> base_entry(i).2 is None,
        base_entry(i).1 == QualityClass::Minor && (has_seven(base_entry(i).0) || 1 <= base_entry(i).3 <= 3)
            && !has_major_marker(base_entry(i).0) ==> base_entry(i).2 == Some(SeventhQuality::Minor),
{
    if i == 0 {
        reveal_strlit("minMaj13");
        assert(major_marker_at(base_entry(i).0, 3));
        assert forall|k: int| 0 <= k < base_entry(i).0.len() implies base_entry(i).0[k] != '7' by {
            if k == 0 { assert(base_entry(i).0[0] == 'm'); }
            if k == 1 { assert(base_entry(i).0[1] == 'i'); }
            if k == 2 { assert(base_entry(i).0[2] == 'n'); }
            if k == 3 { assert(base_entry(i).0[3] == 'M'); }
            if k == 4 { assert(base_entry(i).0[4] == 'a'); }
            if k == 5 { assert(base_entry(i).0[5] == 'j'); }
            if k == 6 { assert(base_entry(i).0[6] == '1'); }
            if k == 7 { assert(base_entry(i).0[7] == '3'); }
        }
    } else if i == 1 {
        reveal_strlit("minMaj11");
        assert(major_marker_at(base_entry(i).0, 3));
        assert forall|k: int| 0 <= k < base_entry(i).0.len() implies base_entry(i).0[k] != '7' by {
            if k == 0 { assert(base_entry(i).0[0] == 'm'); }
            if k == 1 { assert(base_entry(i).0[1] == 'i'); }
            if k == 2 { assert(base_entry(i).0[2] == 'n'); }
            if k == 3 { assert(base_entry(i).0[3] == 'M'); }
            if k == 4 { assert(base_entry(i).0[4] == 'a'); }
            if k == 5 { assert(base_entry(i).0[5] == 'j'); }
            if k == 6 { assert(base_entry(i).0[6] == '1'); }
            if k == 7 { assert(base_entry(i).0[7] == '1'); }
        }
    } else if i == 2 {
        reveal_strlit("minMaj9");
        assert(major_marker_at(base_entry(i).0, 3));
        assert forall|k: int| 0 <= k < base_entry(i).0.len() implies base_entry(i).0[k] != '7' by {
            if k == 0 { assert(base_entry(i).0[0] == 'm'); }
            if k == 1 { assert(base_entry(i).0[1] == 'i'); }
            if k == 2 { assert(base_entry(i).0[2] == 'n'); }
            if k == 3 { assert(base_entry(i).0[3] == 'M'); }
            if k == 4 { assert(base_entry(i).0[4] == 'a'); }
            if k == 5 { assert(base_entry(i).0[5] == 'j'); }
            if k == 6 { assert(base_entry(i).0[6] == '9'); }
        }
    } else if i == 3 {
        reveal_strlit("minMaj7");
        assert(major_marker_at(base_entry(i).0, 3));
        assert(base_entry(i).0[6] == '7');
    } else if i == 4 {
        reveal_strlit("mMaj13");
        assert(major_marker_at(base_entry(i).0, 1));
        assert forall|k: int| 0 <= k < base_entry(i).0.len() implies base_entry(i).0[k] != '7' by {
            if k == 0 { assert(base_entry(i).0[0] == 'm'); }
            if k == 1 { assert(base_entry(i).0[1] == 'M'); }
            if k == 2 { assert(base_entry(i).0[2] == 'a'); }
            if k == 3 { assert(base_entry(i).0[3] == 'j'); }
            if k == 4 { assert(base_entry(i).0[4] == '1'); }
            if k == 5 { assert(base_entry(i).0[5] == '3'); }
        }
    } else if i == 5 {
        reveal_strlit("mMaj11");
        assert(major_marker_at(base_entry(i).0, 1));
        assert forall|k: int| 0 <= k < base_entry(i).0.len() implies base_entry(i).0[k] != '7' by {
            if k == 0 { assert(base_entry(i).0[0] == 'm'); }
            if k == 1 { assert(base_entry(i).0[1] == 'M'); }
            if k == 2 { assert(base_entry(i).0[2] == 'a'); }
            if k == 3 { assert(base_entry(i).0[3] == 'j'); }
            if k == 4 { assert(base_entry(i).0[4] == '1'); }
            if k == 5 { assert(base_entry(i).0[5] == '1'); }
        }
    } else if i == 6 {
        reveal_strlit("mMaj9");
        assert(major_marker_at(base_entry(i).0, 1));
        assert forall|k: int| 0 <= k < base_entry(i).0.len() implies base_entry(i).0[k] != '7' by {
            if k == 0 { assert(base_entry(i).0[0] == 'm'); }
            if k == 1 { assert(base_entry(i).0[1] == 'M'); }
            if k == 2 { assert(base_entry(i).0[2] == 'a'); }
            if k == 3 { assert(base_entry(i).0[3] == 'j'); }
            if k == 4 { assert(base_entry(i).0[4] == '9'); }
        }
    } else if i == 7 {
        reveal_strlit("mMaj7");
        assert(major_marker_at(base_entry(i).0, 1));
        assert(base_entry(i).0[4] == '7');
    } else if i == 8 {
        reveal_strlit("mM7");
        assert(major_marker_at(base_entry(i).0, 1));
        assert(base_entry(i).0[2] == '7');
    } else if i == 9 {
        reveal_strlit("m7-5");
        assert forall|k: int| 0 <= k < base_entry(i).0.len() implies !major_marker_at(base_entry(i).0, k) by {
            if k == 0 { assert(base_entry(i).0[0] == 'm'); }
            if k == 1 { assert(base_entry(i).0[1] == '7'); }
            if k == 2 { assert(base_entry(i).0[2] == '-'); }
            if k == 3 { assert(base_entry(i).0[3] == '5'); }
        }
        assert(base_entry(i).0[1] == '7');
    } else if i == 10 {
        reveal_strlit("m7b5");
        assert forall|k: int| 0 <= k < base_entry(i).0.len() implies !major_marker_at(base_entry(i).0, k) by {
            if k == 0 { assert(base_entry(i).0[0] == 'm'); }
            if k == 1 { assert(base_entry(i).0[1] == '7'); }
            if k == 2 { assert(base_entry(i).0[2] == 'b'); }
            if k == 3 { assert(base_entry(i).0[3] == '5'); }
        }
        assert(base_entry(i).0[1] == '7');
    } else if i == 11 {
        reveal_strlit("maj13");
        assert(major_marker_at(base_entry(i).0, 0));
        assert forall|k: int| 0 <= k < base_entry(i).0.len() implies base_entry(i).0[k] != '7' by {
            if k == 0 { assert(base_entry(i).0[0] == 'm'); }
            if k == 1 { assert(base_entry(i).0[1] == 'a'); }
            if k == 2 { assert(base_entry(i).0[2] == 'j'); }
            if k == 3 { assert(base_entry(i).0[3] == '1'); }
            if k == 4 { assert(base_entry(i).0[4] == '3'); }
        }
    } else if i == 12 {
        reveal_strlit("maj11");
        assert(major_marker_at(base_entry(i).0, 0));
        assert forall|k: int| 0 <= k < base_entry(i).0.len() implies base_entry(i).0[k] != '7' by {
            if k == 0 { assert(base_entry(i).0[0] == 'm'); }
            if k == 1 { assert(base_entry(i).0[1] == 'a'); }
            if k == 2 { assert(base_entry(i).0[2] == 'j'); }
            if k == 3 { assert(base_entry(i).0[3] == '1'); }
            if k == 4 { assert(base_entry(i).0[4] == '1'); }
        }
    } else if i == 13 {
        reveal_strlit("maj9");
        assert(major_marker_at(base_entry(i).0, 0));
        assert forall|k: int| 0 <= k < base_entry(i).0.len() implies base_entry(i).0[k] != '7' by {
            if k == 0 { assert(base_entry(i).0[0] == 'm'); }
            if k == 1 { assert(base_entry(i).0[1] == 'a'); }
            if k == 2 { assert(base_entry(i).0[2] == 'j'); }
            if k == 3 { assert(base_entry(i).0[3] == '9'); }
        }
    } else if i == 14 {
        reveal_strlit("maj7");
        assert(major_marker_at(base_entry(i).0, 0));
        assert(base_entry(i).0[3] == '7');
    } else if i == 15 {
        reveal_strlit("ma13");
        assert(major_marker_at(base_entry(i).0, 0));
        assert forall|k: int| 0 <= k < base_entry(i).0.len() implies base_entry(i).0[k] != '7' by {
            if k == 0 { assert(base_entry(i).0[0] == 'm'); }
            if k == 1 { assert(base_entry(i).0[1] == 'a'); }
            if k == 2 { assert(base_entry(i).0[2] == '1'); }
            if k == 3 { assert(base_entry(i).0[3] == '3'); }
        }
    } else if i == 16 {
        reveal_strlit("ma11");
        assert(major_marker_at(base_entry(i).0, 0));
        assert forall|k: int| 0 <= k < base_entry(i).0.len() implies base_entry(i).0[k] != '7' by {
            if k == 0 { assert(base_entry(i).0[0] == 'm'); }
            if k == 1 { assert(base_entry(i).0[1] == 'a'); }
            if k == 2 { assert(base_entry(i).0[2] == '1'); }
            if k == 3 { assert(base_entry(i).0[3] == '1'); }
        }
    } else if i == 17 {
        reveal_strlit("ma9");
        assert(major_marker_at(base_entry(i).0, 0));
        assert forall|k: int| 0 <= k < base_entry(i).0.len() implies base_entry(i).0[k] != '7' by {
            if k == 0 { assert(base_entry(i).0[0] == 'm'); }
            if k == 1 { assert(base_entry(i).0[1] == 'a'); }
            if k == 2 { assert(base_entry(i).0[2] == '9'); }
        }
    } else if i == 18 {
        reveal_strlit("ma7");
        assert(major_marker_at(base_entry(i).0, 0));
        assert(base_entry(i).0[2] == '7');
    } else if i == 19 {
        reveal_strlit("M13");
        assert(major_marker_at(base_entry(i).0, 0));
        assert forall|k: int| 0 <= k < base_entry(i).0.len() implies base_entry(i).0[k] != '7' by {
            if k == 0 { assert(base_entry(i).0[0] == 'M'); }
            if k == 1 { assert(base_entry(i).0[1] == '1'); }
            if k == 2 { assert(base_entry(i).0[2] == '3'); }
        }
    } else if i == 20 {
        reveal_strlit("M11");
        assert(major_marker_at(base_entry(i).0, 0));
        assert forall|k: int| 0 <= k < base_entry(i).0.len() implies base_entry(i).0[k] != '7' by {
            if k == 0 { assert(base_entry(i).0[0] == 'M'); }
            if k == 1 { assert(base_entry(i).0[1] == '1'); }
            if k == 2 { assert(base_entry(i).0[2] == '1'); }
        }
    } else if i == 21 {
        reveal_strlit("M9");
        assert(major_marker_at(base_entry(i).0, 0));
        assert forall|k: int| 0 <= k < base_entry(i).0.len() implies base_entry(i).0[k] != '7' by {
            if k == 0 { assert(base_entry(i).0[0] == 'M'); }
            if k == 1 { assert(base_entry(i).0[1] == '9'); }
        }
    } else if i == 22 {
        reveal_strlit("M7");
        assert(major_marker_at(base_entry(i).0, 0));
        assert(base_entry(i).0[1] == '7');
    } else if i == 23 {
        reveal_strlit("dim7");
        assert forall|k: int| 0 <= k < base_entry(i).0.len() implies !major_marker_at(base_entry(i).0, k) by {
            if k == 0 { assert(base_entry(i).0[0] == 'd'); }
            if k == 1 { assert(base_entry(i).0[1] == 'i'); }
            if k == 2 { assert(base_entry(i).0[2] == 'm'); }
            if k == 3 { assert(base_entry(i).0[3] == '7'); }
        }
        assert(base_entry(i).0[3] == '7');
    } else if i == 24 {
        reveal_strlit("o7");
        assert forall|k: int| 0 <= k < base_entry(i).0.len() implies !major_marker_at(base_entry(i).0, k) by {
            if k == 0 { assert(base_entry(i).0[0] == 'o'); }
            if k == 1 { assert(base_entry(i).0[1] == '7'); }
        }
        assert(base_entry(i).0[1] == '7');
    } else if i == 25 {
        reveal_strlit("ø7");
        assert forall|k: int| 0 <= k < base_entry(i).0.len() implies !major_marker_at(base_entry(i).0, k) by {
            if k == 0 { assert(base_entry(i).0[0] == 'ø'); }
            if k == 1 { assert(base_entry(i).0[1] == '7'); }
        }
        assert(base_entry(i).0[1] == '7');
    } else if i == 26 {
        reveal_strlit("sus2");
        assert forall|k: int| 0 <= k < base_entry(i).0.len() implies !major_marker_at(base_entry(i).0, k) by {
            if k == 0 { assert(base_entry(i).0[0] == 's'); }
            if k == 1 { assert(base_entry(i).0[1] == 'u'); }
            if k == 2 { assert(base_entry(i).0[2] == 's'); }
            if k == 3 { assert(base_entry(i).0[3] == '2'); }
        }
        assert forall|k: int| 0 <= k < base_entry(i).0.len() implies base_entry(i).0[k] != '7' by {
            if k == 0 { assert(base_entry(i).0[0] == 's'); }
            if k == 1 { assert(base_entry(i).0[1] == 'u'); }
            if k == 2 { assert(base_entry(i).0[2] == 's'); }
            if k == 3 { assert(base_entry(i).0[3] == '2'); }
        }
    } else if i == 27 {
        reveal_strlit("sus4");
        assert forall|k: int| 0 <= k < base_entry(i).0.len() implies !major_marker_at(base_entry(i).0, k) by {
            if k == 0 { assert(base_entry(i).0[0] == 's'); }
            if k == 1 { assert(base_entry(i).0[1] == 'u'); }
            if k == 2 { assert(base_entry(i).0[2] == 's'); }
            if k == 3 { assert(base_entry(i).0[3] == '4'); }
        }
        assert forall|k: int| 0 <= k < base_entry(i).0.len() implies base_entry(i).0[k] != '7' by {
            if k == 0 { assert(base_entry(i).0[0] == 's'); }
            if k == 1 { assert(base_entry(i).0[1] == 'u'); }
            if k == 2 { assert(base_entry(i).0[2] == 's'); }
            if k == 3 { assert(base_entry(i).0[3] == '4'); }
        }
    } else if i == 28 {
        reveal_strlit("aug");
        assert forall|k: int| 0 <= k < base_entry(i).0.len() implies !major_marker_at(base_entry(i).0, k) by {
            if k == 0 { assert(base_entry(i).0[0] == 'a'); }
            if k == 1 { assert(base_entry(i).0[1] == 'u'); }
            if k == 2 { assert(base_entry(i).0[2] == 'g'); }
        }
        assert forall|k: int| 0 <= k < base_entry(i).0.len() implies base_entry(i).0[k] != '7' by {
            if k == 0 { assert(base_entry(i).0[0] == 'a'); }
            if k == 1 { assert(base_entry(i).0[1] == 'u'); }
            if k == 2 { assert(base_entry(i).0[2] == 'g'); }
        }
    } else if i == 29 {
        reveal_strlit("dim");
        assert forall|k: int| 0 <= k < base_entry(i).0.len() implies !major_marker_at(base_entry(i).0, k) by {
            if k == 0 { assert(base_entry(i).0[0] == 'd'); }
            if k == 1 { assert(base_entry(i).0[1] == 'i'); }
            if k == 2 { assert(base_entry(i).0[2] == 'm'); }
        }
        assert forall|k: int| 0 <= k < base_entry(i).0.len() implies base_entry(i).0[k] != '7' by {
            if k == 0 { assert(base_entry(i).0[0] == 'd'); }
            if k == 1 { assert(base_entry(i).0[1] == 'i'); }
            if k == 2 { assert(base_entry(i).0[2] == 'm'); }
        }
    } else if i == 30 {
        reveal_strlit("min13");
        assert forall|k: int| 0 <= k < base_entry(i).0.len() implies !major_marker_at(base_entry(i).0, k) by {
            if k == 0 { assert(base_entry(i).0[0] == 'm'); }
            if k == 1 { assert(base_entry(i).0[1] == 'i'); }
            if k == 2 { assert(base_entry(i).0[2] == 'n'); }
            if k == 3 { assert(base_entry(i).0[3] == '1'); }
            if k == 4 { assert(base_entry(i).0[4] == '3'); }
        }
        assert forall|k: int| 0 <= k < base_entry(i).0.len() implies base_entry(i).0[k] != '7' by {
            if k == 0 { assert(base_entry(i).0[0] == 'm'); }
            if k == 1 { assert(base_entry(i).0[1] == 'i'); }
            if k == 2 { assert(base_entry(i).0[2] == 'n'); }
            if k == 3 { assert(base_entry(i).0[3] == '1'); }
            if k == 4 { assert(base_entry(i).0[4] == '3'); }
        }
    } else if i == 31 {
        reveal_strlit("min11");
        assert forall|k: int| 0 <= k < base_entry(i).0.len() implies !major_marker_at(base_entry(i).0, k) by {
            if k == 0 { assert(base_entry(i).0[0] == 'm'); }
            if k == 1 { assert(base_entry(i).0[1] == 'i'); }
            if k == 2 { assert(base_entry(i).0[2] == 'n'); }
            if k == 3 { assert(base_entry(i).0[3] == '1'); }
            if k == 4 { assert(base_entry(i).0[4] == '1'); }
        }
        assert forall|k: int| 0 <= k < base_entry(i).0.len() implies base_entry(i).0[k] != '7' by {
            if k == 0 { assert(base_entry(i).0[0] == 'm'); }
            if k == 1 { assert(base_entry(i).0[1] == 'i'); }
            if k == 2 { assert(base_entry(i).0[2] == 'n'); }
            if k == 3 { assert(base_entry(i).0[3] == '1'); }
            if k == 4 { assert(base_entry(i).0[4] == '1'); }
        }
    } else if i == 32 {
        reveal_strlit("min9");
        assert forall|k: int| 0 <= k < base_entry(i).0.len() implies !major_marker_at(base_entry(i).0, k) by {
            if k == 0 { assert(base_entry(i).0[0] == 'm'); }
            if k == 1 { assert(base_entry(i).0[1] == 'i'); }
            if k == 2 { assert(base_entry(i).0[2] == 'n'); }
            if k == 3 { assert(base_entry(i).0[3] == '9'); }
        }
        assert forall|k: int| 0 <= k < base_entry(i).0.len() implies base_entry(i).0[k] != '7' by {
            if k == 0 { assert(base_entry(i).0[0] == 'm'); }
            if k == 1 { assert(base_entry(i).0[1] == 'i'); }
            if k == 2 { assert(base_entry(i).0[2] == 'n'); }
            if k == 3 { assert(base_entry(i).0[3] == '9'); }
        }
    } else if i == 33 {
        reveal_strlit("min7");
        assert forall|k: int| 0 <= k < base_entry(i).0.len() implies !major_marker_at(base_entry(i).0, k) by {
            if k == 0 { assert(base_entry(i).0[0] == 'm'); }
            if k == 1 { assert(base_entry(i).0[1] == 'i'); }
            if k == 2 { assert(base_entry(i).0[2] == 'n'); }
            if k == 3 { assert(base_entry(i).0[3] == '7'); }
        }
        assert(base_entry(i).0[3] == '7');
    } else if i == 34 {
        reveal_strlit("min6");
        assert forall|k: int| 0 <= k < base_entry(i).0.len() implies !major_marker_at(base_entry(i).0, k) by {
            if k == 0 { assert(base_entry(i).0[0] == 'm'); }
            if k == 1 { assert(base_entry(i).0[1] == 'i'); }
            if k == 2 { assert(base_entry(i).0[2] == 'n'); }
            if k == 3 { assert(base_entry(i).0[3] == '6'); }
        }
        assert forall|k: int| 0 <= k < base_entry(i).0.len() implies base_entry(i).0[k] != '7' by {
            if k == 0 { assert(base_entry(i).0[0] == 'm'); }
            if k == 1 { assert(base_entry(i).0[1] == 'i'); }
            if k == 2 { assert(base_entry(i).0[2] == 'n'); }
            if k == 3 { assert(base_entry(i).0[3] == '6'); }
        }
    } else if i == 35 {
        reveal_strlit("min");
        assert forall|k: int| 0 <= k < base_entry(i).0.len() implies !major_marker_at(base_entry(i).0, k) by {
            if k == 0 { assert(base_entry(i).0[0] == 'm'); }
            if k == 1 { assert(base_entry(i).0[1] == 'i'); }
            if k == 2 { assert(base_entry(i).0[2] == 'n'); }
        }
        assert forall|k: int| 0 <= k < base_entry(i).0.len() implies base_entry(i).0[k] != '7' by {
            if k == 0 { assert(base_entry(i).0[0] == 'm'); }
            if k == 1 { assert(base_entry(i).0[1] == 'i'); }
            if k == 2 { assert(base_entry(i).0[2] == 'n'); }
        }
    } else if i == 36 {
        reveal_strlit("m13");
        assert forall|k: int| 0 <= k < base_entry(i).0.len() implies !major_marker_at(base_entry(i).0, k) by {
            if k == 0 { assert(base_entry(i).0[0] == 'm'); }
            if k == 1 { assert(base_entry(i).0[1] == '1'); }
            if k == 2 { assert(base_entry(i).0[2] == '3'); }
        }
        assert forall|k: int| 0 <= k < base_entry(i).0.len() implies base_entry(i).0[k] != '7' by {
            if k == 0 { assert(base_entry(i).0[0] == 'm'); }
            if k == 1 { assert(base_entry(i).0[1] == '1'); }
            if k == 2 { assert(base_entry(i).0[2] == '3'); }
        }
    } else if i == 37 {
        reveal_strlit("m11");
        assert forall|k: int| 0 <= k < base_entry(i).0.len() implies !major_marker_at(base_entry(i).0, k) by {
            if k == 0 { assert(base_entry(i).0[0] == 'm'); }
            if k == 1 { assert(base_entry(i).0[1] == '1'); }
            if k == 2 { assert(base_entry(i).0[2] == '1'); }
        }
        assert forall|k: int| 0 <= k < base_entry(i).0.len() implies base_entry(i).0[k] != '7' by {
            if k == 0 { assert(base_entry(i).0[0] == 'm'); }
            if k == 1 { assert(base_entry(i).0[1] == '1'); }
            if k == 2 { assert(base_entry(i).0[2] == '1'); }
        }
    } else if i == 38 {
        reveal_strlit("m9");
        assert forall|k: int| 0 <= k < base_entry(i).0.len() implies !major_marker_at(base_entry(i).0, k) by {
            if k == 0 { assert(base_entry(i).0[0] == 'm'); }
            if k == 1 { assert(base_entry(i).0[1] == '9'); }
        }
        assert forall|k: int| 0 <= k < base_entry(i).0.len() implies base_entry(i).0[k] != '7' by {
            if k == 0 { assert(base_entry(i).0[0] == 'm'); }
            if k == 1 { assert(base_entry(i).0[1] == '9'); }
        }
    } else if i == 39 {
        reveal_strlit("m7");
        assert forall|k: int| 0 <= k < base_entry(i).0.len() implies !major_marker_at(base_entry(i).0, k) by {
            if k == 0 { assert(base_entry(i).0[0] == 'm'); }
            if k == 1 { assert(base_entry(i).0[1] == '7'); }
        }
        assert(base_entry(i).0[1] == '7');
    } else if i == 40 {
        reveal_strlit("m6");
        assert forall|k: int| 0 <= k < base_entry(i).0.len() implies !major_marker_at(base_entry(i).0, k) by {
            if k == 0 { assert(base_entry(i).0[0] == 'm'); }
            if k == 1 { assert(base_entry(i).0[1] == '6'); }
        }
        assert forall|k: int| 0 <= k < base_entry(i).0.len() implies base_entry(i).0[k] != '7' by {
            if k == 0 { assert(base_entry(i).0[0] == 'm'); }
            if k == 1 { assert(base_entry(i).0[1] == '6'); }
        }
    } else if i == 41 {
        reveal_strlit("m");
        assert forall|k: int| 0 <= k < base_entry(i).0.len() implies !major_marker_at(base_entry(i).0, k) by {
            if k == 0 { assert(base_entry(i).0[0] == 'm'); }
        }
        assert forall|k: int| 0 <= k < base_entry(i).0.len() implies base_entry(i).0[k] != '7' by {
            if k == 0 { assert(base_entry(i).0[0] == 'm'); }
        }
    } else if i == 42 {
        reveal_strlit("13");
        assert forall|k: int| 0 <= k < base_entry(i).0.len() implies !major_marker_at(base_entry(i).0, k) by {
            if k == 0 { assert(base_entry(i).0[0] == '1'); }
            if k == 1 { assert(base_entry(i).0[1] == '3'); }
        }
        assert forall|k: int| 0 <= k < base_entry(i).0.len() implies base_entry(i).0[k] != '7' by {
            if k == 0 { assert(base_entry(i).0[0] == '1'); }
            if k == 1 { assert(base_entry(i).0[1] == '3'); }
        }
    } else if i == 43 {
        reveal_strlit("11");
        assert forall|k: int| 0 <= k < base_entry(i).0.len() implies !major_marker_at(base_entry(i).0, k) by {
            if k == 0 { assert(base_entry(i).0[0] == '1'); }
            if k == 1 { assert(base_entry(i).0[1] == '1'); }
        }
        assert forall|k: int| 0 <= k < base_entry(i).0.len() implies base_entry(i).0[k] != '7' by {
            if k == 0 { assert(base_entry(i).0[0] == '1'); }
            if k == 1 { assert(base_entry(i).0[1] == '1'); }
        }
    } else if i == 44 {
        reveal_strlit("9");
        assert forall|k: int| 0 <= k < base_entry(i).0.len() implies !major_marker_at(base_entry(i).0, k) by {
            if k == 0 { assert(base_entry(i).0[0] == '9'); }
        }
        assert forall|k: int| 0 <= k < base_entry(i).0.len() implies base_entry(i).0[k] != '7' by {
            if k == 0 { assert(base_entry(i).0[0] == '9'); }
        }
    } else if i == 45 {
        reveal_strlit("7");
        assert forall|k: int| 0 <= k < base_entry(i).0.len() implies !major_marker_at(base_entry(i).0, k) by {
            if k == 0 { assert(base_entry(i).0[0] == '7'); }
        }
        assert(base_entry(i).0[0] == '7');
    } else if i == 46 {
        reveal_strlit("6");
        assert forall|k: int| 0 <= k < base_entry(i).0.len() implies !major_marker_at(base_entry(i).0, k) by {
            if k == 0 { assert(base_entry(i).0[0] == '6'); }
        }
        assert forall|k: int| 0 <= k < base_entry(i).0.len() implies base_entry(i).0[k] != '7' by {
            if k == 0 { assert(base_entry(i).0[0] == '6'); }
        }
    } else if i == 47 {
        reveal_strlit("5");
        assert forall|k: int| 0 <= k < base_entry(i).0.len() implies !major_marker_at(base_entry(i).0, k) by {
            if k == 0 { assert(base_entry(i).0[0] == '5'); }
        }
        assert forall|k: int| 0 <= k < base_entry(i).0.len() implies base_entry(i).0[k] != '7' by {
            if k == 0 { assert(base_entry(i).0[0] == '5'); }
        }
    } else if i == 48 {
        reveal_strlit("+");
        assert forall|k: int| 0 <= k < base_entry(i).0.len() implies !major_marker_at(base_entry(i).0, k) by {
            if k == 0 { assert(base_entry(i).0[0] == '+'); }
        }
        assert forall|k: int| 0 <= k < base_entry(i).0.len() implies base_entry(i).0[k] != '7' by {
            if k == 0 { assert(base_entry(i).0[0] == '+'); }
        }
    } else if i == 49 {
        reveal_strlit("o");
        assert forall|k: int| 0 <= k < base_entry(i).0.len() implies !major_marker_at(base_entry(i).0, k) by {
            if k == 0 { assert(base_entry(i).0[0] == 'o'); }
        }
        assert forall|k: int| 0 <= k < base_entry(i).0.len() implies base_entry(i).0[k] != '7' by {
            if k == 0 { assert(base_entry(i).0[0] == 'o'); }
        }
    }
}

proof fn lemma_base_m9(rest: Seq<char>)
    ensures
        parse_base_spec("m9"@ + rest) == (QualityClass::Minor, Some(SeventhQuality::Minor), implied_modifiers(1u8), 2int),
{
    let s = "m9"@ + rest;
    reveal_strlit("m9");
    assert(s[0] == 'm');
    assert(s[1] == '9');
    assert(is_prefix(base_entry(38).0, s)) by {
        assert(s.subrange(0, 2) =~= "m9"@);
    }
    assert(first_base_match(s, 38) == Some(38int));
    reveal_strlit("m11");
    assert(!is_prefix(base_entry(37).0, s)) by {
        if is_prefix(base_entry(37).0, s) {
            assert(s.subrange(0, base_entry(37).0.len() as int)[1] == s[1]);
        }
    }
    assert(first_base_match(s, 37) == Some(38int));
    reveal_strlit("m13");
    assert(!is_prefix(base_entry(36).0, s)) by {
        if is_prefix(base_entry(36).0, s) {
            assert(s.subrange(0, base_entry(36).0.len() as int)[1] == s[1]);
        }
    }
    assert(first_base_match(s, 36) == Some(38int));
    reveal_strlit("min");
    assert(!is_prefix(base_entry(35).0, s)) by {
        if is_prefix(base_entry(35).0, s) {
            assert(s.subrange(0, base_entry(35).0.len() as int)[1] == s[1]);
        }
    }
    assert(first_base_match(s, 35) == Some(38int));
    reveal_strlit("min6");
    assert(!is_prefix(base_entry(34).0, s)) by {
        if is_prefix(base_entry(34).0, s) {
            assert(s.subrange(0, base_entry(34).0.len() as int)[1] == s[1]);
        }
    }
    assert(first_base_match(s, 34) == Some(38int));
    reveal_strlit("min7");
    assert(!is_prefix(base_entry(33).0, s)) by {
        if is_prefix(base_entry(33).0, s) {
            assert(s.subrange(0, base_entry(33).0.len() as int)[1] == s[1]);
        }
    }
    assert(first_base_match(s, 33) == Some(38int));
    reveal_strlit("min9");
    assert(!is_prefix(base_entry(32).0, s)) by {
        if is_prefix(base_entry(32).0, s) {
            assert(s.subrange(0, base_entry(32).0.len() as int)[1] == s[1]);
        }
    }
    assert(first_base_match(s, 32) == Some(38int));
    reveal_strlit("min11");
    assert(!is_prefix(base_entry(31).0, s)) by {
        if is_prefix(base_entry(31).0, s) {
            assert(s.subrange(0, base_entry(31).0.len() as int)[1] == s[1]);
        }
    }
    assert(first_base_match(s, 31) == Some(38int));
    reveal_strlit("min13");
    assert(!is_prefix(base_entry(30).0, s)) by {
        if is_prefix(base_entry(30).0, s) {
            assert(s.subrange(0, base_entry(30).0.len() as int)[1] == s[1]);
        }
    }
    assert(first_base_match(s, 30) == Some(38int));
    reveal_strlit("dim");
    assert(!is_prefix(base_entry(29).0, s)) by {
        if is_prefix(base_entry(29).0, s) {
            assert(s.subrange(0, base_entry(29).0.len() as int)[0] == s[0]);
        }
    }
    assert(first_base_match(s, 29) == Some(38int));
    reveal_strlit("aug");
    assert(!is_prefix(base_entry(28).0, s)) by {
        if is_prefix(base_entry(28).0, s) {
            assert(s.subrange(0, base_entry(28).0.len() as int)[0] == s[0]);
        }
    }
    assert(first_base_match(s, 28) == Some(38int));
    reveal_strlit("sus4");
    assert(!is_prefix(base_entry(27).0, s)) by {
        if is_prefix(base_entry(27).0, s) {
            assert(s.subrange(0, base_entry(27).0.len() as int)[0] == s[0]);
        }
    }
    assert(first_base_match(s, 27) == Some(38int));
    reveal_strlit("sus2");
    assert(!is_prefix(base_entry(26).0, s)) by {
        if is_prefix(base_entry(26).0, s) {
            assert(s.subrange(0, base_entry(26).0.len() as int)[0] == s[0]);
        }
    }
    assert(first_base_match(s, 26) == Some(38int));
    reveal_strlit("ø7");
    assert(!is_prefix(base_entry(25).0, s)) by {
        if is_prefix(base_entry(25).0, s) {
            assert(s.subrange(0, base_entry(25).0.len() as int)[0] == s[0]);
        }
    }
    assert(first_base_match(s, 25) == Some(38int));
    reveal_strlit("o7");
    assert(!is_prefix(base_entry(24).0, s)) by {
        if is_prefix(base_entry(24).0, s) {
            assert(s.subrange(0, base_entry(24).0.len() as int)[0] == s[0]);
        }
    }
    assert(first_base_match(s, 24) == Some(38int));
    reveal_strlit("dim7");
    assert(!is_prefix(base_entry(23).0, s)) by {
        if is_prefix(base_entry(23).0, s) {
            assert(s.subrange(0, base_entry(23).0.len() as int)[0] == s[0]);
        }
    }
    assert(first_base_match(s, 23) == Some(38int));
    reveal_strlit("M7");
    assert(!is_prefix(base_entry(22).0, s)) by {
        if is_prefix(base_entry(22).0, s) {
            assert(s.subrange(0, base_entry(22).0.len() as int)[0] == s[0]);
        }
    }
    assert(first_base_match(s, 22) == Some(38int));
    reveal_strlit("M9");
    assert(!is_prefix(base_entry(21).0, s)) by {
        if is_prefix(base_entry(21).0, s) {
            assert(s.subrange(0, base_entry(21).0.len() as int)[0] == s[0]);
        }
    }
    assert(first_base_match(s, 21) == Some(38int));
    reveal_strlit("M11");
    assert(!is_prefix(base_entry(20).0, s)) by {
        if is_prefix(base_entry(20).0, s) {
            assert(s.subrange(0, base_entry(20).0.len() as int)[0] == s[0]);
        }
    }
    assert(first_base_match(s, 20) == Some(38int));
    reveal_strlit("M13");
    assert(!is_prefix(base_entry(19).0, s)) by {
        if is_prefix(base_entry(19).0, s) {
            assert(s.subrange(0, base_entry(19).0.len() as int)[0] == s[0]);
        }
    }
    assert(first_base_match(s, 19) == Some(38int));
    reveal_strlit("ma7");
    assert(!is_prefix(base_entry(18).0, s)) by {
        if is_prefix(base_entry(18).0, s) {
            assert(s.subrange(0, base_entry(18).0.len() as int)[1] == s[1]);
        }
    }
    assert(first_base_match(s, 18) == Some(38int));
    reveal_strlit("ma9");
    assert(!is_prefix(base_entry(17).0, s)) by {
        if is_prefix(base_entry(17).0, s) {
            assert(s.subrange(0, base_entry(17).0.len() as int)[1] == s[1]);
        }
    }
    assert(first_base_match(s, 17) == Some(38int));
    reveal_strlit("ma11");
    assert(!is_prefix(base_entry(16).0, s)) by {
        if is_prefix(base_entry(16).0, s) {
            assert(s.subrange(0, base_entry(16).0.len() as int)[1] == s[1]);
        }
    }
    assert(first_base_match(s, 16) == Some(38int));
    reveal_strlit("ma13");
    assert(!is_prefix(base_entry(15).0, s)) by {
        if is_prefix(base_entry(15).0, s) {
            assert(s.subrange(0, base_entry(15).0.len() as int)[1] == s[1]);
        }
    }
    assert(first_base_match(s, 15) == Some(38int));
    reveal_strlit("maj7");
    assert(!is_prefix(base_entry(14).0, s)) by {
        if is_prefix(base_entry(14).0, s) {
            assert(s.subrange(0, base_entry(14).0.len() as int)[1] == s[1]);
        }
    }
    assert(first_base_match(s, 14) == Some(38int));
    reveal_strlit("maj9");
    assert(!is_prefix(base_entry(13).0, s)) by {
        if is_prefix(base_entry(13).0, s) {
            assert(s.subrange(0, base_entry(13).0.len() as int)[1] == s[1]);
        }
    }
    assert(first_base_match(s, 13) == Some(38int));
    reveal_strlit("maj11");
    assert(!is_prefix(base_entry(12).0, s)) by {
        if is_prefix(base_entry(12).0, s) {
            assert(s.subrange(0, base_entry(12).0.len() as int)[1] == s[1]);
        }
    }
    assert(first_base_match(s, 12) == Some(38int));
    reveal_strlit("maj13");
    assert(!is_prefix(base_entry(11).0, s)) by {
        if is_prefix(base_entry(11).0, s) {
            assert(s.subrange(0, base_entry(11).0.len() as int)[1] == s[1]);
        }
    }
    assert(first_base_match(s, 11) == Some(38int));
    reveal_strlit("m7b5");
    assert(!is_prefix(base_entry(10).0, s)) by {
        if is_prefix(base_entry(10).0, s) {
            assert(s.subrange(0, base_entry(10).0.len() as int)[1] == s[1]);
        }
    }
    assert(first_base_match(s, 10) == Some(38int));
    reveal_strlit("m7-5");
    assert(!is_prefix(base_entry(9).0, s)) by {
        if is_prefix(base_entry(9).0, s) {
            assert(s.subrange(0, base_entry(9).0.len() as int)[1] == s[1]);
        }
    }
    assert(first_base_match(s, 9) == Some(38int));
    reveal_strlit("mM7");
    assert(!is_prefix(base_entry(8).0, s)) by {
        if is_prefix(base_entry(8).0, s) {
            assert(s.subrange(0, base_entry(8).0.len() as int)[1] == s[1]);
        }
    }
    assert(first_base_match(s, 8) == Some(38int));
    reveal_strlit("mMaj7");
    assert(!is_prefix(base_entry(7).0, s)) by {
        if is_prefix(base_entry(7).0, s) {
            assert(s.subrange(0, base_entry(7).0.len() as int)[1] == s[1]);
        }
    }
    assert(first_base_match(s, 7) == Some(38int));
    reveal_strlit("mMaj9");
    assert(!is_prefix(base_entry(6).0, s)) by {
        if is_prefix(base_entry(6).0, s) {
            assert(s.subrange(0, base_entry(6).0.len() as int)[1] == s[1]);
        }
    }
    assert(first_base_match(s, 6) == Some(38int));
    reveal_strlit("mMaj11");
    assert(!is_prefix(base_entry(5).0, s)) by {
        if is_prefix(base_entry(5).0, s) {
            assert(s.subrange(0, base_entry(5).0.len() as int)[1] == s[1]);
        }
    }
    assert(first_base_match(s, 5) == Some(38int));
    reveal_strlit("mMaj13");
    assert(!is_prefix(base_entry(4).0, s)) by {
        if is_prefix(base_entry(4).0, s) {
            assert(s.subrange(0, base_entry(4).0.len() as int)[1] == s[1]);
        }
    }
    assert(first_base_match(s, 4) == Some(38int));
    reveal_strlit("minMaj7");
    assert(!is_prefix(base_entry(3).0, s)) by {
        if is_prefix(base_entry(3).0, s) {
            assert(s.subrange(0, base_entry(3).0.len() as int)[1] == s[1]);
        }
    }
    assert(first_base_match(s, 3) == Some(38int));
    reveal_strlit("minMaj9");
    assert(!is_prefix(base_entry(2).0, s)) by {
        if is_prefix(base_entry(2).0, s) {
            assert(s.subrange(0, base_entry(2).0.len() as int)[1] == s[1]);
        }
    }
    assert(first_base_match(s, 2) == Some(38int));
    reveal_strlit("minMaj11");
    assert(!is_prefix(base_entry(1).0, s)) by {
        if is_prefix(base_entry(1).0, s) {
            assert(s.subrange(0, base_entry(1).0.len() as int)[1] == s[1]);
        }
    }
    assert(first_base_match(s, 1) == Some(38int));
    reveal_strlit("minMaj13");
    assert(!is_prefix(base_entry(0).0, s)) by {
        if is_prefix(base_entry(0).0, s) {
            assert(s.subrange(0, base_entry(0).0.len() as int)[1] == s[1]);
        }
    }
    assert(first_base_match(s, 0) == Some(38int));
}

proof fn lemma_base_m11(rest: Seq<char>)
    ensures
        parse_base_spec("m11"@ + rest) == (QualityClass::Minor, Some(SeventhQuality::Minor), implied_modifiers(2u8), 3int),
{
    let s = "m11"@ + rest;
    reveal_strlit("m11");
    assert(s[0] == 'm');
    assert(s[1] == '1');
    assert(s[2] == '1');
    assert(is_prefix(base_entry(37).0, s)) by {
        assert(s.subrange(0, 3) =~= "m11"@);
    }
    assert(first_base_match(s, 37) == Some(37int));
    reveal_strlit("m13");
    assert(!is_prefix(base_entry(36).0, s)) by {
        if is_prefix(base_entry(36).0, s) {
            assert(s.subrange(0, base_entry(36).0.len() as int)[2] == s[2]);
        }
    }
    assert(first_base_match(s, 36) == Some(37int));
    reveal_strlit("min");
    assert(!is_prefix(base_entry(35).0, s)) by {
        if is_prefix(base_entry(35).0, s) {
            assert(s.subrange(0, base_entry(35).0.len() as int)[1] == s[1]);
        }
    }
    assert(first_base_match(s, 35) == Some(37int));
    reveal_strlit("min6");
    assert(!is_prefix(base_entry(34).0, s)) by {
        if is_prefix(base_entry(34).0, s) {
            assert(s.subrange(0, base_entry(34).0.len() as int)[1] == s[1]);
        }
    }
    assert(first_base_match(s, 34) == Some(37int));
    reveal_strlit("min7");
    assert(!is_prefix(base_entry(33).0, s)) by {
        if is_prefix(base_entry(33).0, s) {
            assert(s.subrange(0, base_entry(33).0.len() as int)[1] == s[1]);
        }
    }
    assert(first_base_match(s, 33) == Some(37int));
    reveal_strlit("min9");
    assert(!is_prefix(base_entry(32).0, s)) by {
        if is_prefix(base_entry(32).0, s) {
            assert(s.subrange(0, base_entry(32).0.len() as int)[1] == s[1]);
        }
    }
    assert(first_base_match(s, 32) == Some(37int));
    reveal_strlit("min11");
    assert(!is_prefix(base_entry(31).0, s)) by {
        if is_prefix(base_entry(31).0, s) {
            assert(s.subrange(0, base_entry(31).0.len() as int)[1] == s[1]);
        }
    }
    assert(first_base_match(s, 31) == Some(37int));
    reveal_strlit("min13");
    assert(!is_prefix(base_entry(30).0, s)) by {
        if is_prefix(base_entry(30).0, s) {
            assert(s.subrange(0, base_entry(30).0.len() as int)[1] == s[1]);
        }
    }
    assert(first_base_match(s, 30) == Some(37int));
    reveal_strlit("dim");
    assert(!is_prefix(base_entry(29).0, s)) by {
        if is_prefix(base_entry(29).0, s) {
            assert(s.subrange(0, base_entry(29).0.len() as int)[0] == s[0]);
        }
    }
    assert(first_base_match(s, 29) == Some(37int));
    reveal_strlit("aug");
    assert(!is_prefix(base_entry(28).0, s)) by {
        if is_prefix(base_entry(28).0, s) {
            assert(s.subrange(0, base_entry(28).0.len() as int)[0] == s[0]);
        }
    }
    assert(first_base_match(s, 28) == Some(37int));
    reveal_strlit("sus4");
    assert(!is_prefix(base_entry(27).0, s)) by {
        if is_prefix(base_entry(27).0, s) {
            assert(s.subrange(0, base_entry(27).0.len() as int)[0] == s[0]);
        }
    }
    assert(first_base_match(s, 27) == Some(37int));
    reveal_strlit("sus2");
    assert(!is_prefix(base_entry(26).0, s)) by {
        if is_prefix(base_entry(26).0, s) {
            assert(s.subrange(0, base_entry(26).0.len() as int)[0] == s[0]);
        }
    }
    assert(first_base_match(s, 26) == Some(37int));
    reveal_strlit("ø7");
    assert(!is_prefix(base_entry(25).0, s)) by {
        if is_prefix(base_entry(25).0, s) {
            assert(s.subrange(0, base_entry(25).0.len() as int)[0] == s[0]);
        }
    }
    assert(first_base_match(s, 25) == Some(37int));
    reveal_strlit("o7");
    assert(!is_prefix(base_entry(24).0, s)) by {
        if is_prefix(base_entry(24).0, s) {
            assert(s.subrange(0, base_entry(24).0.len() as int)[0] == s[0]);
        }
    }
    assert(first_base_match(s, 24) == Some(37int));
    reveal_strlit("dim7");
    assert(!is_prefix(base_entry(23).0, s)) by {
        if is_prefix(base_entry(23).0, s) {
            assert(s.subrange(0, base_entry(23).0.len() as int)[0] == s[0]);
        }
    }
    assert(first_base_match(s, 23) == Some(37int));
    reveal_strlit("M7");
    assert(!is_prefix(base_entry(22).0, s)) by {
        if is_prefix(base_entry(22).0, s) {
            assert(s.subrange(0, base_entry(22).0.len() as int)[0] == s[0]);
        }
    }
    assert(first_base_match(s, 22) == Some(37int));
    reveal_strlit("M9");
    assert(!is_prefix(base_entry(21).0, s)) by {
        if is_prefix(base_entry(21).0, s) {
            assert(s.subrange(0, base_entry(21).0.len() as int)[0] == s[0]);
        }
    }
    assert(first_base_match(s, 21) == Some(37int));
    reveal_strlit("M11");
    assert(!is_prefix(base_entry(20).0, s)) by {
        if is_prefix(base_entry(20).0, s) {
            assert(s.subrange(0, base_entry(20).0.len() as int)[0] == s[0]);
        }
    }
    assert(first_base_match(s, 20) == Some(37int));
    reveal_strlit("M13");
    assert(!is_prefix(base_entry(19).0, s)) by {
        if is_prefix(base_entry(19).0, s) {
            assert(s.subrange(0, base_entry(19).0.len() as int)[0] == s[0]);
        }
    }
    assert(first_base_match(s, 19) == Some(37int));
    reveal_strlit("ma7");
    assert(!is_prefix(base_entry(18).0, s)) by {
        if is_prefix(base_entry(18).0, s) {
            assert(s.subrange(0, base_entry(18).0.len() as int)[1] == s[1]);
        }
    }
    assert(first_base_match(s, 18) == Some(37int));
    reveal_strlit("ma9");
    assert(!is_prefix(base_entry(17).0, s)) by {
        if is_prefix(base_entry(17).0, s) {
            assert(s.subrange(0, base_entry(17).0.len() as int)[1] == s[1]);
        }
    }
    assert(first_base_match(s, 17) == Some(37int));
    reveal_strlit("ma11");
    assert(!is_prefix(base_entry(16).0, s)) by {
        if is_prefix(base_entry(16).0, s) {
            assert(s.subrange(0, base_entry(16).0.len() as int)[1] == s[1]);
        }
    }
    assert(first_base_match(s, 16) == Some(37int));
    reveal_strlit("ma13");
    assert(!is_prefix(base_entry(15).0, s)) by {
        if is_prefix(base_entry(15).0, s) {
            assert(s.subrange(0, base_entry(15).0.len() as int)[1] == s[1]);
        }
    }
    assert(first_base_match(s, 15) == Some(37int));
    reveal_strlit("maj7");
    assert(!is_prefix(base_entry(14).0, s)) by {
        if is_prefix(base_entry(14).0, s) {
            assert(s.subrange(0, base_entry(14).0.len() as int)[1] == s[1]);
        }
    }
    assert(first_base_match(s, 14) == Some(37int));
    reveal_strlit("maj9");
    assert(!is_prefix(base_entry(13).0, s)) by {
        if is_prefix(base_entry(13).0, s) {
            assert(s.subrange(0, base_entry(13).0.len() as int)[1] == s[1]);
        }
    }
    assert(first_base_match(s, 13) == Some(37int));
    reveal_strlit("maj11");
    assert(!is_prefix(base_entry(12).0, s)) by {
        if is_prefix(base_entry(12).0, s) {
            assert(s.subrange(0, base_entry(12).0.len() as int)[1] == s[1]);
        }
    }
    assert(first_base_match(s, 12) == Some(37int));
    reveal_strlit("maj13");
    assert(!is_prefix(base_entry(11).0, s)) by {
        if is_prefix(base_entry(11).0, s) {
            assert(s.subrange(0, base_entry(11).0.len() as int)[1] == s[1]);
        }
    }
    assert(first_base_match(s, 11) == Some(37int));
    reveal_strlit("m7b5");
    assert(!is_prefix(base_entry(10).0, s)) by {
        if is_prefix(base_entry(10).0, s) {
            assert(s.subrange(0, base_entry(10).0.len() as int)[1] == s[1]);
        }
    }
    assert(first_base_match(s, 10) == Some(37int));
    reveal_strlit("m7-5");
    assert(!is_prefix(base_entry(9).0, s)) by {
        if is_prefix(base_entry(9).0, s) {
            assert(s.subrange(0, base_entry(9).0.len() as int)[1] == s[1]);
        }
    }
    assert(first_base_match(s, 9) == Some(37int));
    reveal_strlit("mM7");
    assert(!is_prefix(base_entry(8).0, s)) by {
        if is_prefix(base_entry(8).0, s) {
            assert(s.subrange(0, base_entry(8).0.len() as int)[1] == s[1]);
        }
    }
    assert(first_base_match(s, 8) == Some(37int));
    reveal_strlit("mMaj7");
    assert(!is_prefix(base_entry(7).0, s)) by {
        if is_prefix(base_entry(7).0, s) {
            assert(s.subrange(0, base_entry(7).0.len() as int)[1] == s[1]);
        }
    }
    assert(first_base_match(s, 7) == Some(37int));
    reveal_strlit("mMaj9");
    assert(!is_prefix(base_entry(6).0, s)) by {
        if is_prefix(base_entry(6).0, s) {
            assert(s.subrange(0, base_entry(6).0.len() as int)[1] == s[1]);
        }
    }
    assert(first_base_match(s, 6) == Some(37int));
    reveal_strlit("mMaj11");
    assert(!is_prefix(base_entry(5).0, s)) by {
        if is_prefix(base_entry(5).0, s) {
            assert(s.subrange(0, base_entry(5).0.len() as int)[1] == s[1]);
        }
    }
    assert(first_base_match(s, 5) == Some(37int));
    reveal_strlit("mMaj13");
    assert(!is_prefix(base_entry(4).0, s)) by {
        if is_prefix(base_entry(4).0, s) {
            assert(s.subrange(0, base_entry(4).0.len() as int)[1] == s[1]);
        }
    }
    assert(first_base_match(s, 4) == Some(37int));
    reveal_strlit("minMaj7");
    assert(!is_prefix(base_entry(3).0, s)) by {
        if is_prefix(base_entry(3).0, s) {
            assert(s.subrange(0, base_entry(3).0.len() as int)[1] == s[1]);
        }
    }
    assert(first_base_match(s, 3) == Some(37int));
    reveal_strlit("minMaj9");
    assert(!is_prefix(base_entry(2).0, s)) by {
        if is_prefix(base_entry(2).0, s) {
            assert(s.subrange(0, base_entry(2).0.len() as int)[1] == s[1]);
        }
    }
    assert(first_base_match(s, 2) == Some(37int));
    reveal_strlit("minMaj11");
    assert(!is_prefix(base_entry(1).0, s)) by {
        if is_prefix(base_entry(1).0, s) {
            assert(s.subrange(0, base_entry(1).0.len() as int)[1] == s[1]);
        }
    }
    assert(first_base_match(s, 1) == Some(37int));
    reveal_strlit("minMaj13");
    assert(!is_prefix(base_entry(0).0, s)) by {
        if is_prefix(base_entry(0).0, s) {
            assert(s.subrange(0, base_entry(0).0.len() as int)[1] == s[1]);
        }
    }
    assert(first_base_match(s, 0) == Some(37int));
}

proof fn lemma_base_m13(rest: Seq<char>)
    ensures
        parse_base_spec("m13"@ + rest) == (QualityClass::Minor, Some(SeventhQuality::Minor), implied_modifiers(3u8), 3int),
{
    let s = "m13"@ + rest;
    reveal_strlit("m13");
    assert(s[0] == 'm');
    assert(s[1] == '1');
    assert(s[2] == '3');
    assert(is_prefix(base_entry(36).0, s)) by {
        assert(s.subrange(0, 3) =~= "m13"@);
    }
    assert(first_base_match(s, 36) == Some(36int));
    reveal_strlit("min");
    assert(!is_prefix(base_entry(35).0, s)) by {
        if is_prefix(base_entry(35).0, s) {
            assert(s.subrange(0, base_entry(35).0.len() as int)[1] == s[1]);
        }
    }
    assert(first_base_match(s, 35) == Some(36int));
    reveal_strlit("min6");
    assert(!is_prefix(base_entry(34).0, s)) by {
        if is_prefix(base_entry(34).0, s) {
            assert(s.subrange(0, base_entry(34).0.len() as int)[1] == s[1]);
        }
    }
    assert(first_base_match(s, 34) == Some(36int));
    reveal_strlit("min7");
    assert(!is_prefix(base_entry(33).0, s)) by {
        if is_prefix(base_entry(33).0, s) {
            assert(s.subrange(0, base_entry(33).0.len() as int)[1] == s[1]);
        }
    }
    assert(first_base_match(s, 33) == Some(36int));
    reveal_strlit("min9");
    assert(!is_prefix(base_entry(32).0, s)) by {
        if is_prefix(base_entry(32).0, s) {
            assert(s.subrange(0, base_entry(32).0.len() as int)[1] == s[1]);
        }
    }
    assert(first_base_match(s, 32) == Some(36int));
    reveal_strlit("min11");
    assert(!is_prefix(base_entry(31).0, s)) by {
        if is_prefix(base_entry(31).0, s) {
            assert(s.subrange(0, base_entry(31).0.len() as int)[1] == s[1]);
        }
    }
    assert(first_base_match(s, 31) == Some(36int));
    reveal_strlit("min13");
    assert(!is_prefix(base_entry(30).0, s)) by {
        if is_prefix(base_entry(30).0, s) {
            assert(s.subrange(0, base_entry(30).0.len() as int)[1] == s[1]);
        }
    }
    assert(first_base_match(s, 30) == Some(36int));
    reveal_strlit("dim");
    assert(!is_prefix(base_entry(29).0, s)) by {
        if is_prefix(base_entry(29).0, s) {
            assert(s.subrange(0, base_entry(29).0.len() as int)[0] == s[0]);
        }
    }
    assert(first_base_match(s, 29) == Some(36int));
    reveal_strlit("aug");
    assert(!is_prefix(base_entry(28).0, s)) by {
        if is_prefix(base_entry(28).0, s) {
            assert(s.subrange(0, base_entry(28).0.len() as int)[0] == s[0]);
        }
    }
    assert(first_base_match(s, 28) == Some(36int));
    reveal_strlit("sus4");
    assert(!is_prefix(base_entry(27).0, s)) by {
        if is_prefix(base_entry(27).0, s) {
            assert(s.subrange(0, base_entry(27).0.len() as int)[0] == s[0]);
        }
    }
    assert(first_base_match(s, 27) == Some(36int));
    reveal_strlit("sus2");
    assert(!is_prefix(base_entry(26).0, s)) by {
        if is_prefix(base_entry(26).0, s) {
            assert(s.subrange(0, base_entry(26).0.len() as int)[0] == s[0]);
        }
    }
    assert(first_base_match(s, 26) == Some(36int));
    reveal_strlit("ø7");
    assert(!is_prefix(base_entry(25).0, s)) by {
        if is_prefix(base_entry(25).0, s) {
            assert(s.subrange(0, base_entry(25).0.len() as int)[0] == s[0]);
        }
    }
    assert(first_base_match(s, 25) == Some(36int));
    reveal_strlit("o7");
    assert(!is_prefix(base_entry(24).0, s)) by {
        if is_prefix(base_entry(24).0, s) {
            assert(s.subrange(0, base_entry(24).0.len() as int)[0] == s[0]);
        }
    }
    assert(first_base_match(s, 24) == Some(36int));
    reveal_strlit("dim7");
    assert(!is_prefix(base_entry(23).0, s)) by {
        if is_prefix(base_entry(23).0, s) {
            assert(s.subrange(0, base_entry(23).0.len() as int)[0] == s[0]);
        }
    }
    assert(first_base_match(s, 23) == Some(36int));
    reveal_strlit("M7");
    assert(!is_prefix(base_entry(22).0, s)) by {
        if is_prefix(base_entry(22).0, s) {
            assert(s.subrange(0, base_entry(22).0.len() as int)[0] == s[0]);
        }
    }
    assert(first_base_match(s, 22) == Some(36int));
    reveal_strlit("M9");
    assert(!is_prefix(base_entry(21).0, s)) by {
        if is_prefix(base_entry(21).0, s) {
            assert(s.subrange(0, base_entry(21).0.len() as int)[0] == s[0]);
        }
    }
    assert(first_base_match(s, 21) == Some(36int));
    reveal_strlit("M11");
    assert(!is_prefix(base_entry(20).0, s)) by {
        if is_prefix(base_entry(20).0, s) {
            assert(s.subrange(0, base_entry(20).0.len() as int)[0] == s[0]);
        }
    }
    assert(first_base_match(s, 20) == Some(36int));
    reveal_strlit("M13");
    assert(!is_prefix(base_entry(19).0, s)) by {
        if is_prefix(base_entry(19).0, s) {
            assert(s.subrange(0, base_entry(19).0.len() as int)[0] == s[0]);
        }
    }
    assert(first_base_match(s, 19) == Some(36int));
    reveal_strlit("ma7");
    assert(!is_prefix(base_entry(18).0, s)) by {
        if is_prefix(base_entry(18).0, s) {
            assert(s.subrange(0, base_entry(18).0.len() as int)[1] == s[1]);
        }
    }
    assert(first_base_match(s, 18) == Some(36int));
    reveal_strlit("ma9");
    assert(!is_prefix(base_entry(17).0, s)) by {
        if is_prefix(base_entry(17).0, s) {
            assert(s.subrange(0, base_entry(17).0.len() as int)[1] == s[1]);
        }
    }
    assert(first_base_match(s, 17) == Some(36int));
    reveal_strlit("ma11");
    assert(!is_prefix(base_entry(16).0, s)) by {
        if is_prefix(base_entry(16).0, s) {
            assert(s.subrange(0, base_entry(16).0.len() as int)[1] == s[1]);
        }
    }
    assert(first_base_match(s, 16) == Some(36int));
    reveal_strlit("ma13");
    assert(!is_prefix(base_entry(15).0, s)) by {
        if is_prefix(base_entry(15).0, s) {
            assert(s.subrange(0, base_entry(15).0.len() as int)[1] == s[1]);
        }
    }
    assert(first_base_match(s, 15) == Some(36int));
    reveal_strlit("maj7");
    assert(!is_prefix(base_entry(14).0, s)) by {
        if is_prefix(base_entry(14).0, s) {
            assert(s.subrange(0, base_entry(14).0.len() as int)[1] == s[1]);
        }
    }
    assert(first_base_match(s, 14) == Some(36int));
    reveal_strlit("maj9");
    assert(!is_prefix(base_entry(13).0, s)) by {
        if is_prefix(base_entry(13).0, s) {
            assert(s.subrange(0, base_entry(13).0.len() as int)[1] == s[1]);
        }
    }
    assert(first_base_match(s, 13) == Some(36int));
    reveal_strlit("maj11");
    assert(!is_prefix(base_entry(12).0, s)) by {
        if is_prefix(base_entry(12).0, s) {
            assert(s.subrange(0, base_entry(12).0.len() as int)[1] == s[1]);
        }
    }
    assert(first_base_match(s, 12) == Some(36int));
    reveal_strlit("maj13");
    assert(!is_prefix(base_entry(11).0, s)) by {
        if is_prefix(base_entry(11).0, s) {
            assert(s.subrange(0, base_entry(11).0.len() as int)[1] == s[1]);
        }
    }
    assert(first_base_match(s, 11) == Some(36int));
    reveal_strlit("m7b5");
    assert(!is_prefix(base_entry(10).0, s)) by {
        if is_prefix(base_entry(10).0, s) {
            assert(s.subrange(0, base_entry(10).0.len() as int)[1] == s[1]);
        }
    }
    assert(first_base_match(s, 10) == Some(36int));
    reveal_strlit("m7-5");
    assert(!is_prefix(base_entry(9).0, s)) by {
        if is_prefix(base_entry(9).0, s) {
            assert(s.subrange(0, base_entry(9).0.len() as int)[1] == s[1]);
        }
    }
    assert(first_base_match(s, 9) == Some(36int));
    reveal_strlit("mM7");
    assert(!is_prefix(base_entry(8).0, s)) by {
        if is_prefix(base_entry(8).0, s) {
            assert(s.subrange(0, base_entry(8).0.len() as int)[1] == s[1]);
        }
    }
    assert(first_base_match(s, 8) == Some(36int));
    reveal_strlit("mMaj7");
    assert(!is_prefix(base_entry(7).0, s)) by {
        if is_prefix(base_entry(7).0, s) {
            assert(s.subrange(0, base_entry(7).0.len() as int)[1] == s[1]);
        }
    }
    assert(first_base_match(s, 7) == Some(36int));
    reveal_strlit("mMaj9");
    assert(!is_prefix(base_entry(6).0, s)) by {
        if is_prefix(base_entry(6).0, s) {
            assert(s.subrange(0, base_entry(6).0.len() as int)[1] == s[1]);
        }
    }
    assert(first_base_match(s, 6) == Some(36int));
    reveal_strlit("mMaj11");
    assert(!is_prefix(base_entry(5).0, s)) by {
        if is_prefix(base_entry(5).0, s) {
            assert(s.subrange(0, base_entry(5).0.len() as int)[1] == s[1]);
        }
    }
    assert(first_base_match(s, 5) == Some(36int));
    reveal_strlit("mMaj13");
    assert(!is_prefix(base_entry(4).0, s)) by {
        if is_prefix(base_entry(4).0, s) {
            assert(s.subrange(0, base_entry(4).0.len() as int)[1] == s[1]);
        }
    }
    assert(first_base_match(s, 4) == Some(36int));
    reveal_strlit("minMaj7");
    assert(!is_prefix(base_entry(3).0, s)) by {
        if is_prefix(base_entry(3).0, s) {
            assert(s.subrange(0, base_entry(3).0.len() as int)[1] == s[1]);
        }
    }
    assert(first_base_match(s, 3) == Some(36int));
    reveal_strlit("minMaj9");
    assert(!is_prefix(base_entry(2).0, s)) by {
        if is_prefix(base_entry(2).0, s) {
            assert(s.subrange(0, base_entry(2).0.len() as int)[1] == s[1]);
        }
    }
    assert(first_base_match(s, 2) == Some(36int));
    reveal_strlit("minMaj11");
    assert(!is_prefix(base_entry(1).0, s)) by {
        if is_prefix(base_entry(1).0, s) {
            assert(s.subrange(0, base_entry(1).0.len() as int)[1] == s[1]);
        }
    }
    assert(first_base_match(s, 1) == Some(36int));
    reveal_strlit("minMaj13");
    assert(!is_prefix(base_entry(0).0, s)) by {
        if is_prefix(base_entry(0).0, s) {
            assert(s.subrange(0, base_entry(0).0.len() as int)[1] == s[1]);
        }
    }
    assert(first_base_match(s, 0) == Some(36int));
}

proof fn lemma_base_min9(rest: Seq<char>)
    ensures
        parse_base_spec("min9"@ + rest) == (QualityClass::Minor, Some(SeventhQuality::Minor), implied_modifiers(1u8), 4int),
{
    let s = "min9"@ + rest;
    reveal_strlit("min9");
    assert(s[0] == 'm');
    assert(s[1] == 'i');
    assert(s[2] == 'n');
    assert(s[3] == '9');
    assert(is_prefix(base_entry(32).0, s)) by {
        assert(s.subrange(0, 4) =~= "min9"@);
    }
    assert(first_base_match(s, 32) == Some(32int));
    reveal_strlit("min11");
    assert(!is_prefix(base_entry(31).0, s)) by {
        if is_prefix(base_entry(31).0, s) {
            assert(s.subrange(0, base_entry(31).0.len() as int)[3] == s[3]);
        }
    }
    assert(first_base_match(s, 31) == Some(32int));
    reveal_strlit("min13");
    assert(!is_prefix(base_entry(30).0, s)) by {
        if is_prefix(base_entry(30).0, s) {
            assert(s.subrange(0, base_entry(30).0.len() as int)[3] == s[3]);
        }
    }
    assert(first_base_match(s, 30) == Some(32int));
    reveal_strlit("dim");
    assert(!is_prefix(base_entry(29).0, s)) by {
        if is_prefix(base_entry(29).0, s) {
            assert(s.subrange(0, base_entry(29).0.len() as int)[0] == s[0]);
        }
    }
    assert(first_base_match(s, 29) == Some(32int));
    reveal_strlit("aug");
    assert(!is_prefix(base_entry(28).0, s)) by {
        if is_prefix(base_entry(28).0, s) {
            assert(s.subrange(0, base_entry(28).0.len() as int)[0] == s[0]);
        }
    }
    assert(first_base_match(s, 28) == Some(32int));
    reveal_strlit("sus4");
    assert(!is_prefix(base_entry(27).0, s)) by {
        if is_prefix(base_entry(27).0, s) {
            assert(s.subrange(0, base_entry(27).0.len() as int)[0] == s[0]);
        }
    }
    assert(first_base_match(s, 27) == Some(32int));
    reveal_strlit("sus2");
    assert(!is_prefix(base_entry(26).0, s)) by {
        if is_prefix(base_entry(26).0, s) {
            assert(s.subrange(0, base_entry(26).0.len() as int)[0] == s[0]);
        }
    }
    assert(first_base_match(s, 26) == Some(32int));
    reveal_strlit("ø7");
    assert(!is_prefix(base_entry(25).0, s)) by {
        if is_prefix(base_entry(25).0, s) {
            assert(s.subrange(0, base_entry(25).0.len() as int)[0] == s[0]);
        }
    }
    assert(first_base_match(s, 25) == Some(32int));
    reveal_strlit("o7");
    assert(!is_prefix(base_entry(24).0, s)) by {
        if is_prefix(base_entry(24).0, s) {
            assert(s.subrange(0, base_entry(24).0.len() as int)[0] == s[0]);
        }
    }
    assert(first_base_match(s, 24) == Some(32int));
    reveal_strlit("dim7");
    assert(!is_prefix(base_entry(23).0, s)) by {
        if is_prefix(base_entry(23).0, s) {
            assert(s.subrange(0, base_entry(23).0.len() as int)[0] == s[0]);
        }
    }
    assert(first_base_match(s, 23) == Some(32int));
    reveal_strlit("M7");
    assert(!is_prefix(base_entry(22).0, s)) by {
        if is_prefix(base_entry(22).0, s) {
            assert(s.subrange(0, base_entry(22).0.len() as int)[0] == s[0]);
        }
    }
    assert(first_base_match(s, 22) == Some(32int));
    reveal_strlit("M9");
    assert(!is_prefix(base_entry(21).0, s)) by {
        if is_prefix(base_entry(21).0, s) {
            assert(s.subrange(0, base_entry(21).0.len() as int)[0] == s[0]);
        }
    }
    assert(first_base_match(s, 21) == Some(32int));
    reveal_strlit("M11");
    assert(!is_prefix(base_entry(20).0, s)) by {
        if is_prefix(base_entry(20).0, s) {
            assert(s.subrange(0, base_entry(20).0.len() as int)[0] == s[0]);
        }
    }
    assert(first_base_match(s, 20) == Some(32int));
    reveal_strlit("M13");
    assert(!is_prefix(base_entry(19).0, s)) by {
        if is_prefix(base_entry(19).0, s) {
            assert(s.subrange(0, base_entry(19).0.len() as int)[0] == s[0]);
        }
    }
    assert(first_base_match(s, 19) == Some(32int));
    reveal_strlit("ma7");
    assert(!is_prefix(base_entry(18).0, s)) by {
        if is_prefix(base_entry(18).0, s) {
            assert(s.subrange(0, base_entry(18).0.len() as int)[1] == s[1]);
        }
    }
    assert(first_base_match(s, 18) == Some(32int));
    reveal_strlit("ma9");
    assert(!is_prefix(base_entry(17).0, s)) by {
        if is_prefix(base_entry(17).0, s) {
            assert(s.subrange(0, base_entry(17).0.len() as int)[1] == s[1]);
        }
    }
    assert(first_base_match(s, 17) == Some(32int));
    reveal_strlit("ma11");
    assert(!is_prefix(base_entry(16).0, s)) by {
        if is_prefix(base_entry(16).0, s) {
            assert(s.subrange(0, base_entry(16).0.len() as int)[1] == s[1]);
        }
    }
    assert(first_base_match(s, 16) == Some(32int));
    reveal_strlit("ma13");
    assert(!is_prefix(base_entry(15).0, s)) by {
        if is_prefix(base_entry(15).0, s) {
            assert(s.subrange(0, base_entry(15).0.len() as int)[1] == s[1]);
        }
    }
    assert(first_base_match(s, 15) == Some(32int));
    reveal_strlit("maj7");
    assert(!is_prefix(base_entry(14).0, s)) by {
        if is_prefix(base_entry(14).0, s) {
            assert(s.subrange(0, base_entry(14).0.len() as int)[1] == s[1]);
        }
    }
    assert(first_base_match(s, 14) == Some(32int));
    reveal_strlit("maj9");
    assert(!is_prefix(base_entry(13).0, s)) by {
        if is_prefix(base_entry(13).0, s) {
            assert(s.subrange(0, base_entry(13).0.len() as int)[1] == s[1]);
        }
    }
    assert(first_base_match(s, 13) == Some(32int));
    reveal_strlit("maj11");
    assert(!is_prefix(base_entry(12).0, s)) by {
        if is_prefix(base_entry(12).0, s) {
            assert(s.subrange(0, base_entry(12).0.len() as int)[1] == s[1]);
        }
    }
    assert(first_base_match(s, 12) == Some(32int));
    reveal_strlit("maj13");
    assert(!is_prefix(base_entry(11).0, s)) by {
        if is_prefix(base_entry(11).0, s) {
            assert(s.subrange(0, base_entry(11).0.len() as int)[1] == s[1]);
        }
    }
    assert(first_base_match(s, 11) == Some(32int));
    reveal_strlit("m7b5");
    assert(!is_prefix(base_entry(10).0, s)) by {
        if is_prefix(base_entry(10).0, s) {
            assert(s.subrange(0, base_entry(10).0.len() as int)[1] == s[1]);
        }
    }
    assert(first_base_match(s, 10) == Some(32int));
    reveal_strlit("m7-5");
    assert(!is_prefix(base_entry(9).0, s)) by {
        if is_prefix(base_entry(9).0, s) {
            assert(s.subrange(0, base_entry(9).0.len() as int)[1] == s[1]);
        }
    }
    assert(first_base_match(s, 9) == Some(32int));
    reveal_strlit("mM7");
    assert(!is_prefix(base_entry(8).0, s)) by {
        if is_prefix(base_entry(8).0, s) {
            assert(s.subrange(0, base_entry(8).0.len() as int)[1] == s[1]);
        }
    }
    assert(first_base_match(s, 8) == Some(32int));
    reveal_strlit("mMaj7");
    assert(!is_prefix(base_entry(7).0, s)) by {
        if is_prefix(base_entry(7).0, s) {
            assert(s.subrange(0, base_entry(7).0.len() as int)[1] == s[1]);
        }
    }
    assert(first_base_match(s, 7) == Some(32int));
    reveal_strlit("mMaj9");
    assert(!is_prefix(base_entry(6).0, s)) by {
        if is_prefix(base_entry(6).0, s) {
            assert(s.subrange(0, base_entry(6).0.len() as int)[1] == s[1]);
        }
    }
    assert(first_base_match(s, 6) == Some(32int));
    reveal_strlit("mMaj11");
    assert(!is_prefix(base_entry(5).0, s)) by {
        if is_prefix(base_entry(5).0, s) {
            assert(s.subrange(0, base_entry(5).0.len() as int)[1] == s[1]);
        }
    }
    assert(first_base_match(s, 5) == Some(32int));
    reveal_strlit("mMaj13");
    assert(!is_prefix(base_entry(4).0, s)) by {
        if is_prefix(base_entry(4).0, s) {
            assert(s.subrange(0, base_entry(4).0.len() as int)[1] == s[1]);
        }
    }
    assert(first_base_match(s, 4) == Some(32int));
    reveal_strlit("minMaj7");
    assert(!is_prefix(base_entry(3).0, s)) by {
        if is_prefix(base_entry(3).0, s) {
            assert(s.subrange(0, base_entry(3).0.len() as int)[3] == s[3]);
        }
    }
    assert(first_base_match(s, 3) == Some(32int));
    reveal_strlit("minMaj9");
    assert(!is_prefix(base_entry(2).0, s)) by {
        if is_prefix(base_entry(2).0, s) {
            assert(s.subrange(0, base_entry(2).0.len() as int)[3] == s[3]);
        }
    }
    assert(first_base_match(s, 2) == Some(32int));
    reveal_strlit("minMaj11");
    assert(!is_prefix(base_entry(1).0, s)) by {
        if is_prefix(base_entry(1).0, s) {
            assert(s.subrange(0, base_entry(1).0.len() as int)[3] == s[3]);
        }
    }
    assert(first_base_match(s, 1) == Some(32int));
    reveal_strlit("minMaj13");
    assert(!is_prefix(base_entry(0).0, s)) by {
        if is_prefix(base_entry(0).0, s) {
            assert(s.subrange(0, base_entry(0).0.len() as int)[3] == s[3]);
        }
    }
    assert(first_base_match(s, 0) == Some(32int));
}

proof fn lemma_base_min11(rest: Seq<char>)
    ensures
        parse_base_spec("min11"@ + rest) == (QualityClass::Minor, Some(SeventhQuality::Minor), implied_modifiers(2u8), 5int),
{
    let s = "min11"@ + rest;
    reveal_strlit("min11");
    assert(s[0] == 'm');
    assert(s[1] == 'i');
    assert(s[2] == 'n');
    assert(s[3] == '1');
    assert(s[4] == '1');
    assert(is_prefix(base_entry(31).0, s)) by {
        assert(s.subrange(0, 5) =~= "min11"@);
    }
    assert(first_base_match(s, 31) == Some(31int));
    reveal_strlit("min13");
    assert(!is_prefix(base_entry(30).0, s)) by {
        if is_prefix(base_entry(30).0, s) {
            assert(s.subrange(0, base_entry(30).0.len() as int)[4] == s[4]);
        }
    }
    assert(first_base_match(s, 30) == Some(31int));
    reveal_strlit("dim");
    assert(!is_prefix(base_entry(29).0, s)) by {
        if is_prefix(base_entry(29).0, s) {
            assert(s.subrange(0, base_entry(29).0.len() as int)[0] == s[0]);
        }
    }
    assert(first_base_match(s, 29) == Some(31int));
    reveal_strlit("aug");
    assert(!is_prefix(base_entry(28).0, s)) by {
        if is_prefix(base_entry(28).0, s) {
            assert(s.subrange(0, base_entry(28).0.len() as int)[0] == s[0]);
        }
    }
    assert(first_base_match(s, 28) == Some(31int));
    reveal_strlit("sus4");
    assert(!is_prefix(base_entry(27).0, s)) by {
        if is_prefix(base_entry(27).0, s) {
            assert(s.subrange(0, base_entry(27).0.len() as int)[0] == s[0]);
        }
    }
    assert(first_base_match(s, 27) == Some(31int));
    reveal_strlit("sus2");
    assert(!is_prefix(base_entry(26).0, s)) by {
        if is_prefix(base_entry(26).0, s) {
            assert(s.subrange(0, base_entry(26).0.len() as int)[0] == s[0]);
        }
    }
    assert(first_base_match(s, 26) == Some(31int));
    reveal_strlit("ø7");
    assert(!is_prefix(base_entry(25).0, s)) by {
        if is_prefix(base_entry(25).0, s) {
            assert(s.subrange(0, base_entry(25).0.len() as int)[0] == s[0]);
        }
    }
    assert(first_base_match(s, 25) == Some(31int));
    reveal_strlit("o7");
    assert(!is_prefix(base_entry(24).0, s)) by {
        if is_prefix(base_entry(24).0, s) {
            assert(s.subrange(0, base_entry(24).0.len() as int)[0] == s[0]);
        }
    }
    assert(first_base_match(s, 24) == Some(31int));
    reveal_strlit("dim7");
    assert(!is_prefix(base_entry(23).0, s)) by {
        if is_prefix(base_entry(23).0, s) {
            assert(s.subrange(0, base_entry(23).0.len() as int)[0] == s[0]);
        }
    }
    assert(first_base_match(s, 23) == Some(31int));
    reveal_strlit("M7");
    assert(!is_prefix(base_entry(22).0, s)) by {
        if is_prefix(base_entry(22).0, s) {
            assert(s.subrange(0, base_entry(22).0.len() as int)[0] == s[0]);
        }
    }
    assert(first_base_match(s, 22) == Some(31int));
    reveal_strlit("M9");
    assert(!is_prefix(base_entry(21).0, s)) by {
        if is_prefix(base_entry(21).0, s) {
            assert(s.subrange(0, base_entry(21).0.len() as int)[0] == s[0]);
        }
    }
    assert(first_base_match(s, 21) == Some(31int));
    reveal_strlit("M11");
    assert(!is_prefix(base_entry(20).0, s)) by {
        if is_prefix(base_entry(20).0, s) {
            assert(s.subrange(0, base_entry(20).0.len() as int)[0] == s[0]);
        }
    }
    assert(first_base_match(s, 20) == Some(31int));
    reveal_strlit("M13");
    assert(!is_prefix(base_entry(19).0, s)) by {
        if is_prefix(base_entry(19).0, s) {
            assert(s.subrange(0, base_entry(19).0.len() as int)[0] == s[0]);
        }
    }
    assert(first_base_match(s, 19) == Some(31int));
    reveal_strlit("ma7");
    assert(!is_prefix(base_entry(18).0, s)) by {
        if is_prefix(base_entry(18).0, s) {
            assert(s.subrange(0, base_entry(18).0.len() as int)[1] == s[1]);
        }
    }
    assert(first_base_match(s, 18) == Some(31int));
    reveal_strlit("ma9");
    assert(!is_prefix(base_entry(17).0, s)) by {
        if is_prefix(base_entry(17).0, s) {
            assert(s.subrange(0, base_entry(17).0.len() as int)[1] == s[1]);
        }
    }
    assert(first_base_match(s, 17) == Some(31int));
    reveal_strlit("ma11");
    assert(!is_prefix(base_entry(16).0, s)) by {
        if is_prefix(base_entry(16).0, s) {
            assert(s.subrange(0, base_entry(16).0.len() as int)[1] == s[1]);
        }
    }
    assert(first_base_match(s, 16) == Some(31int));
    reveal_strlit("ma13");
    assert(!is_prefix(base_entry(15).0, s)) by {
        if is_prefix(base_entry(15).0, s) {
            assert(s.subrange(0, base_entry(15).0.len() as int)[1] == s[1]);
        }
    }
    assert(first_base_match(s, 15) == Some(31int));
    reveal_strlit("maj7");
    assert(!is_prefix(base_entry(14).0, s)) by {
        if is_prefix(base_entry(14).0, s) {
            assert(s.subrange(0, base_entry(14).0.len() as int)[1] == s[1]);
        }
    }
    assert(first_base_match(s, 14) == Some(31int));
    reveal_strlit("maj9");
    assert(!is_prefix(base_entry(13).0, s)) by {
        if is_prefix(base_entry(13).0, s) {
            assert(s.subrange(0, base_entry(13).0.len() as int)[1] == s[1]);
        }
    }
    assert(first_base_match(s, 13) == Some(31int));
    reveal_strlit("maj11");
    assert(!is_prefix(base_entry(12).0, s)) by {
        if is_prefix(base_entry(12).0, s) {
            assert(s.subrange(0, base_entry(12).0.len() as int)[1] == s[1]);
        }
    }
    assert(first_base_match(s, 12) == Some(31int));
    reveal_strlit("maj13");
    assert(!is_prefix(base_entry(11).0, s)) by {
        if is_prefix(base_entry(11).0, s) {
            assert(s.subrange(0, base_entry(11).0.len() as int)[1] == s[1]);
        }
    }
    assert(first_base_match(s, 11) == Some(31int));
    reveal_strlit("m7b5");
    assert(!is_prefix(base_entry(10).0, s)) by {
        if is_prefix(base_entry(10).0, s) {
            assert(s.subrange(0, base_entry(10).0.len() as int)[1] == s[1]);
        }
    }
    assert(first_base_match(s, 10) == Some(31int));
    reveal_strlit("m7-5");
    assert(!is_prefix(base_entry(9).0, s)) by {
        if is_prefix(base_entry(9).0, s) {
            assert(s.subrange(0, base_entry(9).0.len() as int)[1] == s[1]);
        }
    }
    assert(first_base_match(s, 9) == Some(31int));
    reveal_strlit("mM7");
    assert(!is_prefix(base_entry(8).0, s)) by {
        if is_prefix(base_entry(8).0, s) {
            assert(s.subrange(0, base_entry(8).0.len() as int)[1] == s[1]);
        }
    }
    assert(first_base_match(s, 8) == Some(31int));
    reveal_strlit("mMaj7");
    assert(!is_prefix(base_entry(7).0, s)) by {
        if is_prefix(base_entry(7).0, s) {
            assert(s.subrange(0, base_entry(7).0.len() as int)[1] == s[1]);
        }
    }
    assert(first_base_match(s, 7) == Some(31int));
    reveal_strlit("mMaj9");
    assert(!is_prefix(base_entry(6).0, s)) by {
        if is_prefix(base_entry(6).0, s) {
            assert(s.subrange(0, base_entry(6).0.len() as int)[1] == s[1]);
        }
    }
    assert(first_base_match(s, 6) == Some(31int));
    reveal_strlit("mMaj11");
    assert(!is_prefix(base_entry(5).0, s)) by {
        if is_prefix(base_entry(5).0, s) {
            assert(s.subrange(0, base_entry(5).0.len() as int)[1] == s[1]);
        }
    }
    assert(first_base_match(s, 5) == Some(31int));
    reveal_strlit("mMaj13");
    assert(!is_prefix(base_entry(4).0, s)) by {
        if is_prefix(base_entry(4).0, s) {
            assert(s.subrange(0, base_entry(4).0.len() as int)[1] == s[1]);
        }
    }
    assert(first_base_match(s, 4) == Some(31int));
    reveal_strlit("minMaj7");
    assert(!is_prefix(base_entry(3).0, s)) by {
        if is_prefix(base_entry(3).0, s) {
            assert(s.subrange(0, base_entry(3).0.len() as int)[3] == s[3]);
        }
    }
    assert(first_base_match(s, 3) == Some(31int));
    reveal_strlit("minMaj9");
    assert(!is_prefix(base_entry(2).0, s)) by {
        if is_prefix(base_entry(2).0, s) {
            assert(s.subrange(0, base_entry(2).0.len() as int)[3] == s[3]);
        }
    }
    assert(first_base_match(s, 2) == Some(31int));
    reveal_strlit("minMaj11");
    assert(!is_prefix(base_entry(1).0, s)) by {
        if is_prefix(base_entry(1).0, s) {
            assert(s.subrange(0, base_entry(1).0.len() as int)[3] == s[3]);
        }
    }
    assert(first_base_match(s, 1) == Some(31int));
    reveal_strlit("minMaj13");
    assert(!is_prefix(base_entry(0).0, s)) by {
        if is_prefix(base_entry(0).0, s) {
            assert(s.subrange(0, base_entry(0).0.len() as int)[3] == s[3]);
        }
    }
    assert(first_base_match(s, 0) == Some(31int));
}

proof fn lemma_base_min13(rest: Seq<char>)
    ensures
        parse_base_spec("min13"@ + rest) == (QualityClass::Minor, Some(SeventhQuality::Minor), implied_modifiers(3u8), 5int),
{
    let s = "min13"@ + rest;
    reveal_strlit("min13");
    assert(s[0] == 'm');
    assert(s[1] == 'i');
    assert(s[2] == 'n');
    assert(s[3] == '1');
    assert(s[4] == '3');
    assert(is_prefix(base_entry(30).0, s)) by {
        assert(s.subrange(0, 5) =~= "min13"@);
    }
    assert(first_base_match(s, 30) == Some(30int));
    reveal_strlit("dim");
    assert(!is_prefix(base_entry(29).0, s)) by {
        if is_prefix(base_entry(29).0, s) {
            assert(s.subrange(0, base_entry(29).0.len() as int)[0] == s[0]);
        }
    }
    assert(first_base_match(s, 29) == Some(30int));
    reveal_strlit("aug");
    assert(!is_prefix(base_entry(28).0, s)) by {
        if is_prefix(base_entry(28).0, s) {
            assert(s.subrange(0, base_entry(28).0.len() as int)[0] == s[0]);
        }
    }
    assert(first_base_match(s, 28) == Some(30int));
    reveal_strlit("sus4");
    assert(!is_prefix(base_entry(27).0, s)) by {
        if is_prefix(base_entry(27).0, s) {
            assert(s.subrange(0, base_entry(27).0.len() as int)[0] == s[0]);
        }
    }
    assert(first_base_match(s, 27) == Some(30int));
    reveal_strlit("sus2");
    assert(!is_prefix(base_entry(26).0, s)) by {
        if is_prefix(base_entry(26).0, s) {
            assert(s.subrange(0, base_entry(26).0.len() as int)[0] == s[0]);
        }
    }
    assert(first_base_match(s, 26) == Some(30int));
    reveal_strlit("ø7");
    assert(!is_prefix(base_entry(25).0, s)) by {
        if is_prefix(base_entry(25).0, s) {
            assert(s.subrange(0, base_entry(25).0.len() as int)[0] == s[0]);
        }
    }
    assert(first_base_match(s, 25) == Some(30int));
    reveal_strlit("o7");
    assert(!is_prefix(base_entry(24).0, s)) by {
        if is_prefix(base_entry(24).0, s) {
            assert(s.subrange(0, base_entry(24).0.len() as int)[0] == s[0]);
        }
    }
    assert(first_base_match(s, 24) == Some(30int));
    reveal_strlit("dim7");
    assert(!is_prefix(base_entry(23).0, s)) by {
        if is_prefix(base_entry(23).0, s) {
            assert(s.subrange(0, base_entry(23).0.len() as int)[0] == s[0]);
        }
    }
    assert(first_base_match(s, 23) == Some(30int));
    reveal_strlit("M7");
    assert(!is_prefix(base_entry(22).0, s)) by {
        if is_prefix(base_entry(22).0, s) {
            assert(s.subrange(0, base_entry(22).0.len() as int)[0] == s[0]);
        }
    }
    assert(first_base_match(s, 22) == Some(30int));
    reveal_strlit("M9");
    assert(!is_prefix(base_entry(21).0, s)) by {
        if is_prefix(base_entry(21).0, s) {
            assert(s.subrange(0, base_entry(21).0.len() as int)[0] == s[0]);
        }
    }
    assert(first_base_match(s, 21) == Some(30int));
    reveal_strlit("M11");
    assert(!is_prefix(base_entry(20).0, s)) by {
        if is_prefix(base_entry(20).0, s) {
            assert(s.subrange(0, base_entry(20).0.len() as int)[0] == s[0]);
        }
    }
    assert(first_base_match(s, 20) == Some(30int));
    reveal_strlit("M13");
    assert(!is_prefix(base_entry(19).0, s)) by {
        if is_prefix(base_entry(19).0, s) {
            assert(s.subrange(0, base_entry(19).0.len() as int)[0] == s[0]);
        }
    }
    assert(first_base_match(s, 19) == Some(30int));
    reveal_strlit("ma7");
    assert(!is_prefix(base_entry(18).0, s)) by {
        if is_prefix(base_entry(18).0, s) {
            assert(s.subrange(0, base_entry(18).0.len() as int)[1] == s[1]);
        }
    }
    assert(first_base_match(s, 18) == Some(30int));
    reveal_strlit("ma9");
    assert(!is_prefix(base_entry(17).0, s)) by {
        if is_prefix(base_entry(17).0, s) {
            assert(s.subrange(0, base_entry(17).0.len() as int)[1] == s[1]);
        }
    }
    assert(first_base_match(s, 17) == Some(30int));
    reveal_strlit("ma11");
    assert(!is_prefix(base_entry(16).0, s)) by {
        if is_prefix(base_entry(16).0, s) {
            assert(s.subrange(0, base_entry(16).0.len() as int)[1] == s[1]);
        }
    }
    assert(first_base_match(s, 16) == Some(30int));
    reveal_strlit("ma13");
    assert(!is_prefix(base_entry(15).0, s)) by {
        if is_prefix(base_entry(15).0, s) {
            assert(s.subrange(0, base_entry(15).0.len() as int)[1] == s[1]);
        }
    }
    assert(first_base_match(s, 15) == Some(30int));
    reveal_strlit("maj7");
    assert(!is_prefix(base_entry(14).0, s)) by {
        if is_prefix(base_entry(14).0, s) {
            assert(s.subrange(0, base_entry(14).0.len() as int)[1] == s[1]);
        }
    }
    assert(first_base_match(s, 14) == Some(30int));
    reveal_strlit("maj9");
    assert(!is_prefix(base_entry(13).0, s)) by {
        if is_prefix(base_entry(13).0, s) {
            assert(s.subrange(0, base_entry(13).0.len() as int)[1] == s[1]);
        }
    }
    assert(first_base_match(s, 13) == Some(30int));
    reveal_strlit("maj11");
    assert(!is_prefix(base_entry(12).0, s)) by {
        if is_prefix(base_entry(12).0, s) {
            assert(s.subrange(0, base_entry(12).0.len() as int)[1] == s[1]);
        }
    }
    assert(first_base_match(s, 12) == Some(30int));
    reveal_strlit("maj13");
    assert(!is_prefix(base_entry(11).0, s)) by {
        if is_prefix(base_entry(11).0, s) {
            assert(s.subrange(0, base_entry(11).0.len() as int)[1] == s[1]);
        }
    }
    assert(first_base_match(s, 11) == Some(30int));
    reveal_strlit("m7b5");
    assert(!is_prefix(base_entry(10).0, s)) by {
        if is_prefix(base_entry(10).0, s) {
            assert(s.subrange(0, base_entry(10).0.len() as int)[1] == s[1]);
        }
    }
    assert(first_base_match(s, 10) == Some(30int));
    reveal_strlit("m7-5");
    assert(!is_prefix(base_entry(9).0, s)) by {
        if is_prefix(base_entry(9).0, s) {
            assert(s.subrange(0, base_entry(9).0.len() as int)[1] == s[1]);
        }
    }
    assert(first_base_match(s, 9) == Some(30int));
    reveal_strlit("mM7");
    assert(!is_prefix(base_entry(8).0, s)) by {
        if is_prefix(base_entry(8).0, s) {
            assert(s.subrange(0, base_entry(8).0.len() as int)[1] == s[1]);
        }
    }
    assert(first_base_match(s, 8) == Some(30int));
    reveal_strlit("mMaj7");
    assert(!is_prefix(base_entry(7).0, s)) by {
        if is_prefix(base_entry(7).0, s) {
            assert(s.subrange(0, base_entry(7).0.len() as int)[1] == s[1]);
        }
    }
    assert(first_base_match(s, 7) == Some(30int));
    reveal_strlit("mMaj9");
    assert(!is_prefix(base_entry(6).0, s)) by {
        if is_prefix(base_entry(6).0, s) {
            assert(s.subrange(0, base_entry(6).0.len() as int)[1] == s[1]);
        }
    }
    assert(first_base_match(s, 6) == Some(30int));
    reveal_strlit("mMaj11");
    assert(!is_prefix(base_entry(5).0, s)) by {
        if is_prefix(base_entry(5).0, s) {
            assert(s.subrange(0, base_entry(5).0.len() as int)[1] == s[1]);
        }
    }
    assert(first_base_match(s, 5) == Some(30int));
    reveal_strlit("mMaj13");
    assert(!is_prefix(base_entry(4).0, s)) by {
        if is_prefix(base_entry(4).0, s) {
            assert(s.subrange(0, base_entry(4).0.len() as int)[1] == s[1]);
        }
    }
    assert(first_base_match(s, 4) == Some(30int));
    reveal_strlit("minMaj7");
    assert(!is_prefix(base_entry(3).0, s)) by {
        if is_prefix(base_entry(3).0, s) {
            assert(s.subrange(0, base_entry(3).0.len() as int)[3] == s[3]);
        }
    }
    assert(first_base_match(s, 3) == Some(30int));
    reveal_strlit("minMaj9");
    assert(!is_prefix(base_entry(2).0, s)) by {
        if is_prefix(base_entry(2).0, s) {
            assert(s.subrange(0, base_entry(2).0.len() as int)[3] == s[3]);
        }
    }
    assert(first_base_match(s, 2) == Some(30int));
    reveal_strlit("minMaj11");
    assert(!is_prefix(base_entry(1).0, s)) by {
        if is_prefix(base_entry(1).0, s) {
            assert(s.subrange(0, base_entry(1).0.len() as int)[3] == s[3]);
        }
    }
    assert(first_base_match(s, 1) == Some(30int));
    reveal_strlit("minMaj13");
    assert(!is_prefix(base_entry(0).0, s)) by {
        if is_prefix(base_entry(0).0, s) {
            assert(s.subrange(0, base_entry(0).0.len() as int)[3] == s[3]);
        }
    }
    assert(first_base_match(s, 0) == Some(30int));
}

proof fn lemma_base_m7(rest: Seq<char>)
    requires
        rest.len() == 0 || (rest[0] != '-' && rest[0] != 'b'),
    ensures
        parse_base_spec("m7"@ + rest) == (QualityClass::Minor, Some(SeventhQuality::Minor), implied_modifiers(0u8), 2int),
{
    let s = "m7"@ + rest;
    reveal_strlit("m7");
    assert(s[0] == 'm');
    assert(s[1] == '7');
    assert(is_prefix(base_entry(39).0, s)) by {
        assert(s.subrange(0, 2) =~= "m7"@);
    }
    assert(first_base_match(s, 39) == Some(39int));
    reveal_strlit("m9");
    assert(!is_prefix(base_entry(38).0, s)) by {
        if is_prefix(base_entry(38).0, s) {
            assert(s.subrange(0, base_entry(38).0.len() as int)[1] == s[1]);
        }
    }
    assert(first_base_match(s, 38) == Some(39int));
    reveal_strlit("m11");
    assert(!is_prefix(base_entry(37).0, s)) by {
        if is_prefix(base_entry(37).0, s) {
            assert(s.subrange(0, base_entry(37).0.len() as int)[1] == s[1]);
        }
    }
    assert(first_base_match(s, 37) == Some(39int));
    reveal_strlit("m13");
    assert(!is_prefix(base_entry(36).0, s)) by {
        if is_prefix(base_entry(36).0, s) {
            assert(s.subrange(0, base_entry(36).0.len() as int)[1] == s[1]);
        }
    }
    assert(first_base_match(s, 36) == Some(39int));
    reveal_strlit("min");
    assert(!is_prefix(base_entry(35).0, s)) by {
        if is_prefix(base_entry(35).0, s) {
            assert(s.subrange(0, base_entry(35).0.len() as int)[1] == s[1]);
        }
    }
    assert(first_base_match(s, 35) == Some(39int));
    reveal_strlit("min6");
    assert(!is_prefix(base_entry(34).0, s)) by {
        if is_prefix(base_entry(34).0, s) {
            assert(s.subrange(0, base_entry(34).0.len() as int)[1] == s[1]);
        }
    }
    assert(first_base_match(s, 34) == Some(39int));
    reveal_strlit("min7");
    assert(!is_prefix(base_entry(33).0, s)) by {
        if is_prefix(base_entry(33).0, s) {
            assert(s.subrange(0, base_entry(33).0.len() as int)[1] == s[1]);
        }
    }
    assert(first_base_match(s, 33) == Some(39int));
    reveal_strlit("min9");
    assert(!is_prefix(base_entry(32).0, s)) by {
        if is_prefix(base_entry(32).0, s) {
            assert(s.subrange(0, base_entry(32).0.len() as int)[1] == s[1]);
        }
    }
    assert(first_base_match(s, 32) == Some(39int));
    reveal_strlit("min11");
    assert(!is_prefix(base_entry(31).0, s)) by {
        if is_prefix(base_entry(31).0, s) {
            assert(s.subrange(0, base_entry(31).0.len() as int)[1] == s[1]);
        }
    }
    assert(first_base_match(s, 31) == Some(39int));
    reveal_strlit("min13");
    assert(!is_prefix(base_entry(30).0, s)) by {
        if is_prefix(base_entry(30).0, s) {
            assert(s.subrange(0, base_entry(30).0.len() as int)[1] == s[1]);
        }
    }
    assert(first_base_match(s, 30) == Some(39int));
    reveal_strlit("dim");
    assert(!is_prefix(base_entry(29).0, s)) by {
        if is_prefix(base_entry(29).0, s) {
            assert(s.subrange(0, base_entry(29).0.len() as int)[0] == s[0]);
        }
    }
    assert(first_base_match(s, 29) == Some(39int));
    reveal_strlit("aug");
    assert(!is_prefix(base_entry(28).0, s)) by {
        if is_prefix(base_entry(28).0, s) {
            assert(s.subrange(0, base_entry(28).0.len() as int)[0] == s[0]);
        }
    }
    assert(first_base_match(s, 28) == Some(39int));
    reveal_strlit("sus4");
    assert(!is_prefix(base_entry(27).0, s)) by {
        if is_prefix(base_entry(27).0, s) {
            assert(s.subrange(0, base_entry(27).0.len() as int)[0] == s[0]);
        }
    }
    assert(first_base_match(s, 27) == Some(39int));
    reveal_strlit("sus2");
    assert(!is_prefix(base_entry(26).0, s)) by {
        if is_prefix(base_entry(26).0, s) {
            assert(s.subrange(0, base_entry(26).0.len() as int)[0] == s[0]);
        }
    }
    assert(first_base_match(s, 26) == Some(39int));
    reveal_strlit("ø7");
    assert(!is_prefix(base_entry(25).0, s)) by {
        if is_prefix(base_entry(25).0, s) {
            assert(s.subrange(0, base_entry(25).0.len() as int)[0] == s[0]);
        }
    }
    assert(first_base_match(s, 25) == Some(39int));
    reveal_strlit("o7");
    assert(!is_prefix(base_entry(24).0, s)) by {
        if is_prefix(base_entry(24).0, s) {
            assert(s.subrange(0, base_entry(24).0.len() as int)[0] == s[0]);
        }
    }
    assert(first_base_match(s, 24) == Some(39int));
    reveal_strlit("dim7");
    assert(!is_prefix(base_entry(23).0, s)) by {
        if is_prefix(base_entry(23).0, s) {
            assert(s.subrange(0, base_entry(23).0.len() as int)[0] == s[0]);
        }
    }
    assert(first_base_match(s, 23) == Some(39int));
    reveal_strlit("M7");
    assert(!is_prefix(base_entry(22).0, s)) by {
        if is_prefix(base_entry(22).0, s) {
            assert(s.subrange(0, base_entry(22).0.len() as int)[0] == s[0]);
        }
    }
    assert(first_base_match(s, 22) == Some(39int));
    reveal_strlit("M9");
    assert(!is_prefix(base_entry(21).0, s)) by {
        if is_prefix(base_entry(21).0, s) {
            assert(s.subrange(0, base_entry(21).0.len() as int)[0] == s[0]);
        }
    }
    assert(first_base_match(s, 21) == Some(39int));
    reveal_strlit("M11");
    assert(!is_prefix(base_entry(20).0, s)) by {
        if is_prefix(base_entry(20).0, s) {
            assert(s.subrange(0, base_entry(20).0.len() as int)[0] == s[0]);
        }
    }
    assert(first_base_match(s, 20) == Some(39int));
    reveal_strlit("M13");
    assert(!is_prefix(base_entry(19).0, s)) by {
        if is_prefix(base_entry(19).0, s) {
            assert(s.subrange(0, base_entry(19).0.len() as int)[0] == s[0]);
        }
    }
    assert(first_base_match(s, 19) == Some(39int));
    reveal_strlit("ma7");
    assert(!is_prefix(base_entry(18).0, s)) by {
        if is_prefix(base_entry(18).0, s) {
            assert(s.subrange(0, base_entry(18).0.len() as int)[1] == s[1]);
        }
    }
    assert(first_base_match(s, 18) == Some(39int));
    reveal_strlit("ma9");
    assert(!is_prefix(base_entry(17).0, s)) by {
        if is_prefix(base_entry(17).0, s) {
            assert(s.subrange(0, base_entry(17).0.len() as int)[1] == s[1]);
        }
    }
    assert(first_base_match(s, 17) == Some(39int));
    reveal_strlit("ma11");
    assert(!is_prefix(base_entry(16).0, s)) by {
        if is_prefix(base_entry(16).0, s) {
            assert(s.subrange(0, base_entry(16).0.len() as int)[1] == s[1]);
        }
    }
    assert(first_base_match(s, 16) == Some(39int));
    reveal_strlit("ma13");
    assert(!is_prefix(base_entry(15).0, s)) by {
        if is_prefix(base_entry(15).0, s) {
            assert(s.subrange(0, base_entry(15).0.len() as int)[1] == s[1]);
        }
    }
    assert(first_base_match(s, 15) == Some(39int));
    reveal_strlit("maj7");
    assert(!is_prefix(base_entry(14).0, s)) by {
        if is_prefix(base_entry(14).0, s) {
            assert(s.subrange(0, base_entry(14).0.len() as int)[1] == s[1]);
        }
    }
    assert(first_base_match(s, 14) == Some(39int));
    reveal_strlit("maj9");
    assert(!is_prefix(base_entry(13).0, s)) by {
        if is_prefix(base_entry(13).0, s) {
            assert(s.subrange(0, base_entry(13).0.len() as int)[1] == s[1]);
        }
    }
    assert(first_base_match(s, 13) == Some(39int));
    reveal_strlit("maj11");
    assert(!is_prefix(base_entry(12).0, s)) by {
        if is_prefix(base_entry(12).0, s) {
            assert(s.subrange(0, base_entry(12).0.len() as int)[1] == s[1]);
        }
    }
    assert(first_base_match(s, 12) == Some(39int));
    reveal_strlit("maj13");
    assert(!is_prefix(base_entry(11).0, s)) by {
        if is_prefix(base_entry(11).0, s) {
            assert(s.subrange(0, base_entry(11).0.len() as int)[1] == s[1]);
        }
    }
    assert(first_base_match(s, 11) == Some(39int));
    reveal_strlit("m7b5");
    assert(!is_prefix(base_entry(10).0, s)) by {
        if is_prefix(base_entry(10).0, s) {
            assert(s.subrange(0, base_entry(10).0.len() as int)[2] == s[2]);
            assert(s[2] == rest[0]);
        }
    }
    assert(first_base_match(s, 10) == Some(39int));
    reveal_strlit("m7-5");
    assert(!is_prefix(base_entry(9).0, s)) by {
        if is_prefix(base_entry(9).0, s) {
            assert(s.subrange(0, base_entry(9).0.len() as int)[2] == s[2]);
            assert(s[2] == rest[0]);
        }
    }
    assert(first_base_match(s, 9) == Some(39int));
    reveal_strlit("mM7");
    assert(!is_prefix(base_entry(8).0, s)) by {
        if is_prefix(base_entry(8).0, s) {
            assert(s.subrange(0, base_entry(8).0.len() as int)[1] == s[1]);
        }
    }
    assert(first_base_match(s, 8) == Some(39int));
    reveal_strlit("mMaj7");
    assert(!is_prefix(base_entry(7).0, s)) by {
        if is_prefix(base_entry(7).0, s) {
            assert(s.subrange(0, base_entry(7).0.len() as int)[1] == s[1]);
        }
    }
    assert(first_base_match(s, 7) == Some(39int));
    reveal_strlit("mMaj9");
    assert(!is_prefix(base_entry(6).0, s)) by {
        if is_prefix(base_entry(6).0, s) {
            assert(s.subrange(0, base_entry(6).0.len() as int)[1] == s[1]);
        }
    }
    assert(first_base_match(s, 6) == Some(39int));
    reveal_strlit("mMaj11");
    assert(!is_prefix(base_entry(5).0, s)) by {
        if is_prefix(base_entry(5).0, s) {
            assert(s.subrange(0, base_entry(5).0.len() as int)[1] == s[1]);
        }
    }
    assert(first_base_match(s, 5) == Some(39int));
    reveal_strlit("mMaj13");
    assert(!is_prefix(base_entry(4).0, s)) by {
        if is_prefix(base_entry(4).0, s) {
            assert(s.subrange(0, base_entry(4).0.len() as int)[1] == s[1]);
        }
    }
    assert(first_base_match(s, 4) == Some(39int));
    reveal_strlit("minMaj7");
    assert(!is_prefix(base_entry(3).0, s)) by {
        if is_prefix(base_entry(3).0, s) {
            assert(s.subrange(0, base_entry(3).0.len() as int)[1] == s[1]);
        }
    }
    assert(first_base_match(s, 3) == Some(39int));
    reveal_strlit("minMaj9");
    assert(!is_prefix(base_entry(2).0, s)) by {
        if is_prefix(base_entry(2).0, s) {
            assert(s.subrange(0, base_entry(2).0.len() as int)[1] == s[1]);
        }
    }
    assert(first_base_match(s, 2) == Some(39int));
    reveal_strlit("minMaj11");
    assert(!is_prefix(base_entry(1).0, s)) by {
        if is_prefix(base_entry(1).0, s) {
            assert(s.subrange(0, base_entry(1).0.len() as int)[1] == s[1]);
        }
    }
    assert(first_base_match(s, 1) == Some(39int));
    reveal_strlit("minMaj13");
    assert(!is_prefix(base_entry(0).0, s)) by {
        if is_prefix(base_entry(0).0, s) {
            assert(s.subrange(0, base_entry(0).0.len() as int)[1] == s[1]);
        }
    }
    assert(first_base_match(s, 0) == Some(39int));
}

proof fn lemma_base_min7(rest: Seq<char>)
    ensures
        parse_base_spec("min7"@ + rest) == (QualityClass::Minor, Some(SeventhQuality::Minor), implied_modifiers(0u8), 4int),
{
    let s = "min7"@ + rest;
    reveal_strlit("min7");
    assert(s[0] == 'm');
    assert(s[1] == 'i');
    assert(s[2] == 'n');
    assert(s[3] == '7');
    assert(is_prefix(base_entry(33).0, s)) by {
        assert(s.subrange(0, 4) =~= "min7"@);
    }
    assert(first_base_match(s, 33) == Some(33int));
    reveal_strlit("min9");
    assert(!is_prefix(base_entry(32).0, s)) by {
        if is_prefix(base_entry(32).0, s) {
            assert(s.subrange(0, base_entry(32).0.len() as int)[3] == s[3]);
        }
    }
    assert(first_base_match(s, 32) == Some(33int));
    reveal_strlit("min11");
    assert(!is_prefix(base_entry(31).0, s)) by {
        if is_prefix(base_entry(31).0, s) {
            assert(s.subrange(0, base_entry(31).0.len() as int)[3] == s[3]);
        }
    }
    assert(first_base_match(s, 31) == Some(33int));
    reveal_strlit("min13");
    assert(!is_prefix(base_entry(30).0, s)) by {
        if is_prefix(base_entry(30).0, s) {
            assert(s.subrange(0, base_entry(30).0.len() as int)[3] == s[3]);
        }
    }
    assert(first_base_match(s, 30) == Some(33int));
    reveal_strlit("dim");
    assert(!is_prefix(base_entry(29).0, s)) by {
        if is_prefix(base_entry(29).0, s) {
            assert(s.subrange(0, base_entry(29).0.len() as int)[0] == s[0]);
        }
    }
    assert(first_base_match(s, 29) == Some(33int));
    reveal_strlit("aug");
    assert(!is_prefix(base_entry(28).0, s)) by {
        if is_prefix(base_entry(28).0, s) {
            assert(s.subrange(0, base_entry(28).0.len() as int)[0] == s[0]);
        }
    }
    assert(first_base_match(s, 28) == Some(33int));
    reveal_strlit("sus4");
    assert(!is_prefix(base_entry(27).0, s)) by {
        if is_prefix(base_entry(27).0, s) {
            assert(s.subrange(0, base_entry(27).0.len() as int)[0] == s[0]);
        }
    }
    assert(first_base_match(s, 27) == Some(33int));
    reveal_strlit("sus2");
    assert(!is_prefix(base_entry(26).0, s)) by {
        if is_prefix(base_entry(26).0, s) {
            assert(s.subrange(0, base_entry(26).0.len() as int)[0] == s[0]);
        }
    }
    assert(first_base_match(s, 26) == Some(33int));
    reveal_strlit("ø7");
    assert(!is_prefix(base_entry(25).0, s)) by {
        if is_prefix(base_entry(25).0, s) {
            assert(s.subrange(0, base_entry(25).0.len() as int)[0] == s[0]);
        }
    }
    assert(first_base_match(s, 25) == Some(33int));
    reveal_strlit("o7");
    assert(!is_prefix(base_entry(24).0, s)) by {
        if is_prefix(base_entry(24).0, s) {
            assert(s.subrange(0, base_entry(24).0.len() as int)[0] == s[0]);
        }
    }
    assert(first_base_match(s, 24) == Some(33int));
    reveal_strlit("dim7");
    assert(!is_prefix(base_entry(23).0, s)) by {
        if is_prefix(base_entry(23).0, s) {
            assert(s.subrange(0, base_entry(23).0.len() as int)[0] == s[0]);
        }
    }
    assert(first_base_match(s, 23) == Some(33int));
    reveal_strlit("M7");
    assert(!is_prefix(base_entry(22).0, s)) by {
        if is_prefix(base_entry(22).0, s) {
            assert(s.subrange(0, base_entry(22).0.len() as int)[0] == s[0]);
        }
    }
    assert(first_base_match(s, 22) == Some(33int));
    reveal_strlit("M9");
    assert(!is_prefix(base_entry(21).0, s)) by {
        if is_prefix(base_entry(21).0, s) {
            assert(s.subrange(0, base_entry(21).0.len() as int)[0] == s[0]);
        }
    }
    assert(first_base_match(s, 21) == Some(33int));
    reveal_strlit("M11");
    assert(!is_prefix(base_entry(20).0, s)) by {
        if is_prefix(base_entry(20).0, s) {
            assert(s.subrange(0, base_entry(20).0.len() as int)[0] == s[0]);
        }
    }
    assert(first_base_match(s, 20) == Some(33int));
    reveal_strlit("M13");
    assert(!is_prefix(base_entry(19).0, s)) by {
        if is_prefix(base_entry(19).0, s) {
            assert(s.subrange(0, base_entry(19).0.len() as int)[0] == s[0]);
        }
    }
    assert(first_base_match(s, 19) == Some(33int));
    reveal_strlit("ma7");
    assert(!is_prefix(base_entry(18).0, s)) by {
        if is_prefix(base_entry(18).0, s) {
            assert(s.subrange(0, base_entry(18).0.len() as int)[1] == s[1]);
        }
    }
    assert(first_base_match(s, 18) == Some(33int));
    reveal_strlit("ma9");
    assert(!is_prefix(base_entry(17).0, s)) by {
        if is_prefix(base_entry(17).0, s) {
            assert(s.subrange(0, base_entry(17).0.len() as int)[1] == s[1]);
        }
    }
    assert(first_base_match(s, 17) == Some(33int));
    reveal_strlit("ma11");
    assert(!is_prefix(base_entry(16).0, s)) by {
        if is_prefix(base_entry(16).0, s) {
            assert(s.subrange(0, base_entry(16).0.len() as int)[1] == s[1]);
        }
    }
    assert(first_base_match(s, 16) == Some(33int));
    reveal_strlit("ma13");
    assert(!is_prefix(base_entry(15).0, s)) by {
        if is_prefix(base_entry(15).0, s) {
            assert(s.subrange(0, base_entry(15).0.len() as int)[1] == s[1]);
        }
    }
    assert(first_base_match(s, 15) == Some(33int));
    reveal_strlit("maj7");
    assert(!is_prefix(base_entry(14).0, s)) by {
        if is_prefix(base_entry(14).0, s) {
            assert(s.subrange(0, base_entry(14).0.len() as int)[1] == s[1]);
        }
    }
    assert(first_base_match(s, 14) == Some(33int));
    reveal_strlit("maj9");
    assert(!is_prefix(base_entry(13).0, s)) by {
        if is_prefix(base_entry(13).0, s) {
            assert(s.subrange(0, base_entry(13).0.len() as int)[1] == s[1]);
        }
    }
    assert(first_base_match(s, 13) == Some(33int));
    reveal_strlit("maj11");
    assert(!is_prefix(base_entry(12).0, s)) by {
        if is_prefix(base_entry(12).0, s) {
            assert(s.subrange(0, base_entry(12).0.len() as int)[1] == s[1]);
        }
    }
    assert(first_base_match(s, 12) == Some(33int));
    reveal_strlit("maj13");
    assert(!is_prefix(base_entry(11).0, s)) by {
        if is_prefix(base_entry(11).0, s) {
            assert(s.subrange(0, base_entry(11).0.len() as int)[1] == s[1]);
        }
    }
    assert(first_base_match(s, 11) == Some(33int));
    reveal_strlit("m7b5");
    assert(!is_prefix(base_entry(10).0, s)) by {
        if is_prefix(base_entry(10).0, s) {
            assert(s.subrange(0, base_entry(10).0.len() as int)[1] == s[1]);
        }
    }
    assert(first_base_match(s, 10) == Some(33int));
    reveal_strlit("m7-5");
    assert(!is_prefix(base_entry(9).0, s)) by {
        if is_prefix(base_entry(9).0, s) {
            assert(s.subrange(0, base_entry(9).0.len() as int)[1] == s[1]);
        }
    }
    assert(first_base_match(s, 9) == Some(33int));
    reveal_strlit("mM7");
    assert(!is_prefix(base_entry(8).0, s)) by {
        if is_prefix(base_entry(8).0, s) {
            assert(s.subrange(0, base_entry(8).0.len() as int)[1] == s[1]);
        }
    }
    assert(first_base_match(s, 8) == Some(33int));
    reveal_strlit("mMaj7");
    assert(!is_prefix(base_entry(7).0, s)) by {
        if is_prefix(base_entry(7).0, s) {
            assert(s.subrange(0, base_entry(7).0.len() as int)[1] == s[1]);
        }
    }
    assert(first_base_match(s, 7) == Some(33int));
    reveal_strlit("mMaj9");
    assert(!is_prefix(base_entry(6).0, s)) by {
        if is_prefix(base_entry(6).0, s) {
            assert(s.subrange(0, base_entry(6).0.len() as int)[1] == s[1]);
        }
    }
    assert(first_base_match(s, 6) == Some(33int));
    reveal_strlit("mMaj11");
    assert(!is_prefix(base_entry(5).0, s)) by {
        if is_prefix(base_entry(5).0, s) {
            assert(s.subrange(0, base_entry(5).0.len() as int)[1] == s[1]);
        }
    }
    assert(first_base_match(s, 5) == Some(33int));
    reveal_strlit("mMaj13");
    assert(!is_prefix(base_entry(4).0, s)) by {
        if is_prefix(base_entry(4).0, s) {
            assert(s.subrange(0, base_entry(4).0.len() as int)[1] == s[1]);
        }
    }
    assert(first_base_match(s, 4) == Some(33int));
    reveal_strlit("minMaj7");
    assert(!is_prefix(base_entry(3).0, s)) by {
        if is_prefix(base_entry(3).0, s) {
            assert(s.subrange(0, base_entry(3).0.len() as int)[3] == s[3]);
        }
    }
    assert(first_base_match(s, 3) == Some(33int));
    reveal_strlit("minMaj9");
    assert(!is_prefix(base_entry(2).0, s)) by {
        if is_prefix(base_entry(2).0, s) {
            assert(s.subrange(0, base_entry(2).0.len() as int)[3] == s[3]);
        }
    }
    assert(first_base_match(s, 2) == Some(33int));
    reveal_strlit("minMaj11");
    assert(!is_prefix(base_entry(1).0, s)) by {
        if is_prefix(base_entry(1).0, s) {
            assert(s.subrange(0, base_entry(1).0.len() as int)[3] == s[3]);
        }
    }
    assert(first_base_match(s, 1) == Some(33int));
    reveal_strlit("minMaj13");
    assert(!is_prefix(base_entry(0).0, s)) by {
        if is_prefix(base_entry(0).0, s) {
            assert(s.subrange(0, base_entry(0).0.len() as int)[3] == s[3]);
        }
    }
    assert(first_base_match(s, 0) == Some(33int));
}

proof fn lemma_base_maj7(rest: Seq<char>)
    ensures
        parse_base_spec("maj7"@ + rest) == (QualityClass::Major, Some(SeventhQuality::Major), implied_modifiers(0u8), 4int),
{
    let s = "maj7"@ + rest;
    reveal_strlit("maj7");
    assert(s[0] == 'm');
    assert(s[1] == 'a');
    assert(s[2] == 'j');
    assert(s[3] == '7');
    assert(is_prefix(base_entry(14).0, s)) by {
        assert(s.subrange(0, 4) =~= "maj7"@);
    }
    assert(first_base_match(s, 14) == Some(14int));
    reveal_strlit("maj9");
    assert(!is_prefix(base_entry(13).0, s)) by {
        if is_prefix(base_entry(13).0, s) {
            assert(s.subrange(0, base_entry(13).0.len() as int)[3] == s[3]);
        }
    }
    assert(first_base_match(s, 13) == Some(14int));
    reveal_strlit("maj11");
    assert(!is_prefix(base_entry(12).0, s)) by {
        if is_prefix(base_entry(12).0, s) {
            assert(s.subrange(0, base_entry(12).0.len() as int)[3] == s[3]);
        }
    }
    assert(first_base_match(s, 12) == Some(14int));
    reveal_strlit("maj13");
    assert(!is_prefix(base_entry(11).0, s)) by {
        if is_prefix(base_entry(11).0, s) {
            assert(s.subrange(0, base_entry(11).0.len() as int)[3] == s[3]);
        }
    }
    assert(first_base_match(s, 11) == Some(14int));
    reveal_strlit("m7b5");
    assert(!is_prefix(base_entry(10).0, s)) by {
        if is_prefix(base_entry(10).0, s) {
            assert(s.subrange(0, base_entry(10).0.len() as int)[1] == s[1]);
        }
    }
    assert(first_base_match(s, 10) == Some(14int));
    reveal_strlit("m7-5");
    assert(!is_prefix(base_entry(9).0, s)) by {
        if is_prefix(base_entry(9).0, s) {
            assert(s.subrange(0, base_entry(9).0.len() as int)[1] == s[1]);
        }
    }
    assert(first_base_match(s, 9) == Some(14int));
    reveal_strlit("mM7");
    assert(!is_prefix(base_entry(8).0, s)) by {
        if is_prefix(base_entry(8).0, s) {
            assert(s.subrange(0, base_entry(8).0.len() as int)[1] == s[1]);
        }
    }
    assert(first_base_match(s, 8) == Some(14int));
    reveal_strlit("mMaj7");
    assert(!is_prefix(base_entry(7).0, s)) by {
        if is_prefix(base_entry(7).0, s) {
            assert(s.subrange(0, base_entry(7).0.len() as int)[1] == s[1]);
        }
    }
    assert(first_base_match(s, 7) == Some(14int));
    reveal_strlit("mMaj9");
    assert(!is_prefix(base_entry(6).0, s)) by {
        if is_prefix(base_entry(6).0, s) {
            assert(s.subrange(0, base_entry(6).0.len() as int)[1] == s[1]);
        }
    }
    assert(first_base_match(s, 6) == Some(14int));
    reveal_strlit("mMaj11");
    assert(!is_prefix(base_entry(5).0, s)) by {
        if is_prefix(base_entry(5).0, s) {
            assert(s.subrange(0, base_entry(5).0.len() as int)[1] == s[1]);
        }
    }
    assert(first_base_match(s, 5) == Some(14int));
    reveal_strlit("mMaj13");
    assert(!is_prefix(base_entry(4).0, s)) by {
        if is_prefix(base_entry(4).0, s) {
            assert(s.subrange(0, base_entry(4).0.len() as int)[1] == s[1]);
        }
    }
    assert(first_base_match(s, 4) == Some(14int));
    reveal_strlit("minMaj7");
    assert(!is_prefix(base_entry(3).0, s)) by {
        if is_prefix(base_entry(3).0, s) {
            assert(s.subrange(0, base_entry(3).0.len() as int)[1] == s[1]);
        }
    }
    assert(first_base_match(s, 3) == Some(14int));
    reveal_strlit("minMaj9");
    assert(!is_prefix(base_entry(2).0, s)) by {
        if is_prefix(base_entry(2).0, s) {
            assert(s.subrange(0, base_entry(2).0.len() as int)[1] == s[1]);
        }
    }
    assert(first_base_match(s, 2) == Some(14int));
    reveal_strlit("minMaj11");
    assert(!is_prefix(base_entry(1).0, s)) by {
        if is_prefix(base_entry(1).0, s) {
            assert(s.subrange(0, base_entry(1).0.len() as int)[1] == s[1]);
        }
    }
    assert(first_base_match(s, 1) == Some(14int));
    reveal_strlit("minMaj13");
    assert(!is_prefix(base_entry(0).0, s)) by {
        if is_prefix(base_entry(0).0, s) {
            assert(s.subrange(0, base_entry(0).0.len() as int)[1] == s[1]);
        }
    }
    assert(first_base_match(s, 0) == Some(14int));
}

proof fn lemma_base_maj9(rest: Seq<char>)
    ensures
        parse_base_spec("maj9"@ + rest) == (QualityClass::Major, Some(SeventhQuality::Major), implied_modifiers(1u8), 4int),
{
    let s = "maj9"@ + rest;
    reveal_strlit("maj9");
    assert(s[0] == 'm');
    assert(s[1] == 'a');
    assert(s[2] == 'j');
    assert(s[3] == '9');
    assert(is_prefix(base_entry(13).0, s)) by {
        assert(s.subrange(0, 4) =~= "maj9"@);
    }
    assert(first_base_match(s, 13) == Some(13int));
    reveal_strlit("maj11");
    assert(!is_prefix(base_entry(12).0, s)) by {
        if is_prefix(base_entry(12).0, s) {
            assert(s.subrange(0, base_entry(12).0.len() as int)[3] == s[3]);
        }
    }
    assert(first_base_match(s, 12) == Some(13int));
    reveal_strlit("maj13");
    assert(!is_prefix(base_entry(11).0, s)) by {
        if is_prefix(base_entry(11).0, s) {
            assert(s.subrange(0, base_entry(11).0.len() as int)[3] == s[3]);
        }
    }
    assert(first_base_match(s, 11) == Some(13int));
    reveal_strlit("m7b5");
    assert(!is_prefix(base_entry(10).0, s)) by {
        if is_prefix(base_entry(10).0, s) {
            assert(s.subrange(0, base_entry(10).0.len() as int)[1] == s[1]);
        }
    }
    assert(first_base_match(s, 10) == Some(13int));
    reveal_strlit("m7-5");
    assert(!is_prefix(base_entry(9).0, s)) by {
        if is_prefix(base_entry(9).0, s) {
            assert(s.subrange(0, base_entry(9).0.len() as int)[1] == s[1]);
        }
    }
    assert(first_base_match(s, 9) == Some(13int));
    reveal_strlit("mM7");
    assert(!is_prefix(base_entry(8).0, s)) by {
        if is_prefix(base_entry(8).0, s) {
            assert(s.subrange(0, base_entry(8).0.len() as int)[1] == s[1]);
        }
    }
    assert(first_base_match(s, 8) == Some(13int));
    reveal_strlit("mMaj7");
    assert(!is_prefix(base_entry(7).0, s)) by {
        if is_prefix(base_entry(7).0, s) {
            assert(s.subrange(0, base_entry(7).0.len() as int)[1] == s[1]);
        }
    }
    assert(first_base_match(s, 7) == Some(13int));
    reveal_strlit("mMaj9");
    assert(!is_prefix(base_entry(6).0, s)) by {
        if is_prefix(base_entry(6).0, s) {
            assert(s.subrange(0, base_entry(6).0.len() as int)[1] == s[1]);
        }
    }
    assert(first_base_match(s, 6) == Some(13int));
    reveal_strlit("mMaj11");
    assert(!is_prefix(base_entry(5).0, s)) by {
        if is_prefix(base_entry(5).0, s) {
            assert(s.subrange(0, base_entry(5).0.len() as int)[1] == s[1]);
        }
    }
    assert(first_base_match(s, 5) == Some(13int));
    reveal_strlit("mMaj13");
    assert(!is_prefix(base_entry(4).0, s)) by {
        if is_prefix(base_entry(4).0, s) {
            assert(s.subrange(0, base_entry(4).0.len() as int)[1] == s[1]);
        }
    }
    assert(first_base_match(s, 4) == Some(13int));
    reveal_strlit("minMaj7");
    assert(!is_prefix(base_entry(3).0, s)) by {
        if is_prefix(base_entry(3).0, s) {
            assert(s.subrange(0, base_entry(3).0.len() as int)[1] == s[1]);
        }
    }
    assert(first_base_match(s, 3) == Some(13int));
    reveal_strlit("minMaj9");
    assert(!is_prefix(base_entry(2).0, s)) by {
        if is_prefix(base_entry(2).0, s) {
            assert(s.subrange(0, base_entry(2).0.len() as int)[1] == s[1]);
        }
    }
    assert(first_base_match(s, 2) == Some(13int));
    reveal_strlit("minMaj11");
    assert(!is_prefix(base_entry(1).0, s)) by {
        if is_prefix(base_entry(1).0, s) {
            assert(s.subrange(0, base_entry(1).0.len() as int)[1] == s[1]);
        }
    }
    assert(first_base_match(s, 1) == Some(13int));
    reveal_strlit("minMaj13");
    assert(!is_prefix(base_entry(0).0, s)) by {
        if is_prefix(base_entry(0).0, s) {
            assert(s.subrange(0, base_entry(0).0.len() as int)[1] == s[1]);
        }
    }
    assert(first_base_match(s, 0) == Some(13int));
}

proof fn lemma_base_ma7(rest: Seq<char>)
    ensures
        parse_base_spec("ma7"@ + rest) == (QualityClass::Major, Some(SeventhQuality::Major), implied_modifiers(0u8), 3int),
{
    let s = "ma7"@ + rest;
    reveal_strlit("ma7");
    assert(s[0] == 'm');
    assert(s[1] == 'a');
    assert(s[2] == '7');
    assert(is_prefix(base_entry(18).0, s)) by {
        assert(s.subrange(0, 3) =~= "ma7"@);
    }
    assert(first_base_match(s, 18) == Some(18int));
    reveal_strlit("ma9");
    assert(!is_prefix(base_entry(17).0, s)) by {
        if is_prefix(base_entry(17).0, s) {
            assert(s.subrange(0, base_entry(17).0.len() as int)[2] == s[2]);
        }
    }
    assert(first_base_match(s, 17) == Some(18int));
    reveal_strlit("ma11");
    assert(!is_prefix(base_entry(16).0, s)) by {
        if is_prefix(base_entry(16).0, s) {
            assert(s.subrange(0, base_entry(16).0.len() as int)[2] == s[2]);
        }
    }
    assert(first_base_match(s, 16) == Some(18int));
    reveal_strlit("ma13");
    assert(!is_prefix(base_entry(15).0, s)) by {
        if is_prefix(base_entry(15).0, s) {
            assert(s.subrange(0, base_entry(15).0.len() as int)[2] == s[2]);
        }
    }
    assert(first_base_match(s, 15) == Some(18int));
    reveal_strlit("maj7");
    assert(!is_prefix(base_entry(14).0, s)) by {
        if is_prefix(base_entry(14).0, s) {
            assert(s.subrange(0, base_entry(14).0.len() as int)[2] == s[2]);
        }
    }
    assert(first_base_match(s, 14) == Some(18int));
    reveal_strlit("maj9");
    assert(!is_prefix(base_entry(13).0, s)) by {
        if is_prefix(base_entry(13).0, s) {
            assert(s.subrange(0, base_entry(13).0.len() as int)[2] == s[2]);
        }
    }
    assert(first_base_match(s, 13) == Some(18int));
    reveal_strlit("maj11");
    assert(!is_prefix(base_entry(12).0, s)) by {
        if is_prefix(base_entry(12).0, s) {
            assert(s.subrange(0, base_entry(12).0.len() as int)[2] == s[2]);
        }
    }
    assert(first_base_match(s, 12) == Some(18int));
    reveal_strlit("maj13");
    assert(!is_prefix(base_entry(11).0, s)) by {
        if is_prefix(base_entry(11).0, s) {
            assert(s.subrange(0, base_entry(11).0.len() as int)[2] == s[2]);
        }
    }
    assert(first_base_match(s, 11) == Some(18int));
    reveal_strlit("m7b5");
    assert(!is_prefix(base_entry(10).0, s)) by {
        if is_prefix(base_entry(10).0, s) {
            assert(s.subrange(0, base_entry(10).0.len() as int)[1] == s[1]);
        }
    }
    assert(first_base_match(s, 10) == Some(18int));
    reveal_strlit("m7-5");
    assert(!is_prefix(base_entry(9).0, s)) by {
        if is_prefix(base_entry(9).0, s) {
            assert(s.subrange(0, base_entry(9).0.len() as int)[1] == s[1]);
        }
    }
    assert(first_base_match(s, 9) == Some(18int));
    reveal_strlit("mM7");
    assert(!is_prefix(base_entry(8).0, s)) by {
        if is_prefix(base_entry(8).0, s) {
            assert(s.subrange(0, base_entry(8).0.len() as int)[1] == s[1]);
        }
    }
    assert(first_base_match(s, 8) == Some(18int));
    reveal_strlit("mMaj7");
    assert(!is_prefix(base_entry(7).0, s)) by {
        if is_prefix(base_entry(7).0, s) {
            assert(s.subrange(0, base_entry(7).0.len() as int)[1] == s[1]);
        }
    }
    assert(first_base_match(s, 7) == Some(18int));
    reveal_strlit("mMaj9");
    assert(!is_prefix(base_entry(6).0, s)) by {
        if is_prefix(base_entry(6).0, s) {
            assert(s.subrange(0, base_entry(6).0.len() as int)[1] == s[1]);
        }
    }
    assert(first_base_match(s, 6) == Some(18int));
    reveal_strlit("mMaj11");
    assert(!is_prefix(base_entry(5).0, s)) by {
        if is_prefix(base_entry(5).0, s) {
            assert(s.subrange(0, base_entry(5).0.len() as int)[1] == s[1]);
        }
    }
    assert(first_base_match(s, 5) == Some(18int));
    reveal_strlit("mMaj13");
    assert(!is_prefix(base_entry(4).0, s)) by {
        if is_prefix(base_entry(4).0, s) {
            assert(s.subrange(0, base_entry(4).0.len() as int)[1] == s[1]);
        }
    }
    assert(first_base_match(s, 4) == Some(18int));
    reveal_strlit("minMaj7");
    assert(!is_prefix(base_entry(3).0, s)) by {
        if is_prefix(base_entry(3).0, s) {
            assert(s.subrange(0, base_entry(3).0.len() as int)[1] == s[1]);
        }
    }
    assert(first_base_match(s, 3) == Some(18int));
    reveal_strlit("minMaj9");
    assert(!is_prefix(base_entry(2).0, s)) by {
        if is_prefix(base_entry(2).0, s) {
            assert(s.subrange(0, base_entry(2).0.len() as int)[1] == s[1]);
        }
    }
    assert(first_base_match(s, 2) == Some(18int));
    reveal_strlit("minMaj11");
    assert(!is_prefix(base_entry(1).0, s)) by {
        if is_prefix(base_entry(1).0, s) {
            assert(s.subrange(0, base_entry(1).0.len() as int)[1] == s[1]);
        }
    }
    assert(first_base_match(s, 1) == Some(18int));
    reveal_strlit("minMaj13");
    assert(!is_prefix(base_entry(0).0, s)) by {
        if is_prefix(base_entry(0).0, s) {
            assert(s.subrange(0, base_entry(0).0.len() as int)[1] == s[1]);
        }
    }
    assert(first_base_match(s, 0) == Some(18int));
}

proof fn lemma_base_ma9(rest: Seq<char>)
    ensures
        parse_base_spec("ma9"@ + rest) == (QualityClass::Major, Some(SeventhQuality::Major), implied_modifiers(1u8), 3int),
{
    let s = "ma9"@ + rest;
    reveal_strlit("ma9");
    assert(s[0] == 'm');
    assert(s[1] == 'a');
    assert(s[2] == '9');
    assert(is_prefix(base_entry(17).0, s)) by {
        assert(s.subrange(0, 3) =~= "ma9"@);
    }
    assert(first_base_match(s, 17) == Some(17int));
    reveal_strlit("ma11");
    assert(!is_prefix(base_entry(16).0, s)) by {
        if is_prefix(base_entry(16).0, s) {
            assert(s.subrange(0, base_entry(16).0.len() as int)[2] == s[2]);
        }
    }
    assert(first_base_match(s, 16) == Some(17int));
    reveal_strlit("ma13");
    assert(!is_prefix(base_entry(15).0, s)) by {
        if is_prefix(base_entry(15).0, s) {
            assert(s.subrange(0, base_entry(15).0.len() as int)[2] == s[2]);
        }
    }
    assert(first_base_match(s, 15) == Some(17int));
    reveal_strlit("maj7");
    assert(!is_prefix(base_entry(14).0, s)) by {
        if is_prefix(base_entry(14).0, s) {
            assert(s.subrange(0, base_entry(14).0.len() as int)[2] == s[2]);
        }
    }
    assert(first_base_match(s, 14) == Some(17int));
    reveal_strlit("maj9");
    assert(!is_prefix(base_entry(13).0, s)) by {
        if is_prefix(base_entry(13).0, s) {
            assert(s.subrange(0, base_entry(13).0.len() as int)[2] == s[2]);
        }
    }
    assert(first_base_match(s, 13) == Some(17int));
    reveal_strlit("maj11");
    assert(!is_prefix(base_entry(12).0, s)) by {
        if is_prefix(base_entry(12).0, s) {
            assert(s.subrange(0, base_entry(12).0.len() as int)[2] == s[2]);
        }
    }
    assert(first_base_match(s, 12) == Some(17int));
    reveal_strlit("maj13");
    assert(!is_prefix(base_entry(11).0, s)) by {
        if is_prefix(base_entry(11).0, s) {
            assert(s.subrange(0, base_entry(11).0.len() as int)[2] == s[2]);
        }
    }
    assert(first_base_match(s, 11) == Some(17int));
    reveal_strlit("m7b5");
    assert(!is_prefix(base_entry(10).0, s)) by {
        if is_prefix(base_entry(10).0, s) {
            assert(s.subrange(0, base_entry(10).0.len() as int)[1] == s[1]);
        }
    }
    assert(first_base_match(s, 10) == Some(17int));
    reveal_strlit("m7-5");
    assert(!is_prefix(base_entry(9).0, s)) by {
        if is_prefix(base_entry(9).0, s) {
            assert(s.subrange(0, base_entry(9).0.len() as int)[1] == s[1]);
        }
    }
    assert(first_base_match(s, 9) == Some(17int));
    reveal_strlit("mM7");
    assert(!is_prefix(base_entry(8).0, s)) by {
        if is_prefix(base_entry(8).0, s) {
            assert(s.subrange(0, base_entry(8).0.len() as int)[1] == s[1]);
        }
    }
    assert(first_base_match(s, 8) == Some(17int));
    reveal_strlit("mMaj7");
    assert(!is_prefix(base_entry(7).0, s)) by {
        if is_prefix(base_entry(7).0, s) {
            assert(s.subrange(0, base_entry(7).0.len() as int)[1] == s[1]);
        }
    }
    assert(first_base_match(s, 7) == Some(17int));
    reveal_strlit("mMaj9");
    assert(!is_prefix(base_entry(6).0, s)) by {
        if is_prefix(base_entry(6).0, s) {
            assert(s.subrange(0, base_entry(6).0.len() as int)[1] == s[1]);
        }
    }
    assert(first_base_match(s, 6) == Some(17int));
    reveal_strlit("mMaj11");
    assert(!is_prefix(base_entry(5).0, s)) by {
        if is_prefix(base_entry(5).0, s) {
            assert(s.subrange(0, base_entry(5).0.len() as int)[1] == s[1]);
        }
    }
    assert(first_base_match(s, 5) == Some(17int));
    reveal_strlit("mMaj13");
    assert(!is_prefix(base_entry(4).0, s)) by {
        if is_prefix(base_entry(4).0, s) {
            assert(s.subrange(0, base_entry(4).0.len() as int)[1] == s[1]);
        }
    }
    assert(first_base_match(s, 4) == Some(17int));
    reveal_strlit("minMaj7");
    assert(!is_prefix(base_entry(3).0, s)) by {
        if is_prefix(base_entry(3).0, s) {
            assert(s.subrange(0, base_entry(3).0.len() as int)[1] == s[1]);
        }
    }
    assert(first_base_match(s, 3) == Some(17int));
    reveal_strlit("minMaj9");
    assert(!is_prefix(base_entry(2).0, s)) by {
        if is_prefix(base_entry(2).0, s) {
            assert(s.subrange(0, base_entry(2).0.len() as int)[1] == s[1]);
        }
    }
    assert(first_base_match(s, 2) == Some(17int));
    reveal_strlit("minMaj11");
    assert(!is_prefix(base_entry(1).0, s)) by {
        if is_prefix(base_entry(1).0, s) {
            assert(s.subrange(0, base_entry(1).0.len() as int)[1] == s[1]);
        }
    }
    assert(first_base_match(s, 1) == Some(17int));
    reveal_strlit("minMaj13");
    assert(!is_prefix(base_entry(0).0, s)) by {
        if is_prefix(base_entry(0).0, s) {
            assert(s.subrange(0, base_entry(0).0.len() as int)[1] == s[1]);
        }
    }
    assert(first_base_match(s, 0) == Some(17int));
}

proof fn lemma_base_cap_m7(rest: Seq<char>)
    ensures
        parse_base_spec("M7"@ + rest) == (QualityClass::Major, Some(SeventhQuality::Major), implied_modifiers(0u8), 2int),
{
    let s = "M7"@ + rest;
    reveal_strlit("M7");
    assert(s[0] == 'M');
    assert(s[1] == '7');
    assert(is_prefix(base_entry(22).0, s)) by {
        assert(s.subrange(0, 2) =~= "M7"@);
    }
    assert(first_base_match(s, 22) == Some(22int));
    reveal_strlit("M9");
    assert(!is_prefix(base_entry(21).0, s)) by {
        if is_prefix(base_entry(21).0, s) {
            assert(s.subrange(0, base_entry(21).0.len() as int)[1] == s[1]);
        }
    }
    assert(first_base_match(s, 21) == Some(22int));
    reveal_strlit("M11");
    assert(!is_prefix(base_entry(20).0, s)) by {
        if is_prefix(base_entry(20).0, s) {
            assert(s.subrange(0, base_entry(20).0.len() as int)[1] == s[1]);
        }
    }
    assert(first_base_match(s, 20) == Some(22int));
    reveal_strlit("M13");
    assert(!is_prefix(base_entry(19).0, s)) by {
        if is_prefix(base_entry(19).0, s) {
            assert(s.subrange(0, base_entry(19).0.len() as int)[1] == s[1]);
        }
    }
    assert(first_base_match(s, 19) == Some(22int));
    reveal_strlit("ma7");
    assert(!is_prefix(base_entry(18).0, s)) by {
        if is_prefix(base_entry(18).0, s) {
            assert(s.subrange(0, base_entry(18).0.len() as int)[0] == s[0]);
        }
    }
    assert(first_base_match(s, 18) == Some(22int));
    reveal_strlit("ma9");
    assert(!is_prefix(base_entry(17).0, s)) by {
        if is_prefix(base_entry(17).0, s) {
            assert(s.subrange(0, base_entry(17).0.len() as int)[0] == s[0]);
        }
    }
    assert(first_base_match(s, 17) == Some(22int));
    reveal_strlit("ma11");
    assert(!is_prefix(base_entry(16).0, s)) by {
        if is_prefix(base_entry(16).0, s) {
            assert(s.subrange(0, base_entry(16).0.len() as int)[0] == s[0]);
        }
    }
    assert(first_base_match(s, 16) == Some(22int));
    reveal_strlit("ma13");
    assert(!is_prefix(base_entry(15).0, s)) by {
        if is_prefix(base_entry(15).0, s) {
            assert(s.subrange(0, base_entry(15).0.len() as int)[0] == s[0]);
        }
    }
    assert(first_base_match(s, 15) == Some(22int));
    reveal_strlit("maj7");
    assert(!is_prefix(base_entry(14).0, s)) by {
        if is_prefix(base_entry(14).0, s) {
            assert(s.subrange(0, base_entry(14).0.len() as int)[0] == s[0]);
        }
    }
    assert(first_base_match(s, 14) == Some(22int));
    reveal_strlit("maj9");
    assert(!is_prefix(base_entry(13).0, s)) by {
        if is_prefix(base_entry(13).0, s) {
            assert(s.subrange(0, base_entry(13).0.len() as int)[0] == s[0]);
        }
    }
    assert(first_base_match(s, 13) == Some(22int));
    reveal_strlit("maj11");
    assert(!is_prefix(base_entry(12).0, s)) by {
        if is_prefix(base_entry(12).0, s) {
            assert(s.subrange(0, base_entry(12).0.len() as int)[0] == s[0]);
        }
    }
    assert(first_base_match(s, 12) == Some(22int));
    reveal_strlit("maj13");
    assert(!is_prefix(base_entry(11).0, s)) by {
        if is_prefix(base_entry(11).0, s) {
            assert(s.subrange(0, base_entry(11).0.len() as int)[0] == s[0]);
        }
    }
    assert(first_base_match(s, 11) == Some(22int));
    reveal_strlit("m7b5");
    assert(!is_prefix(base_entry(10).0, s)) by {
        if is_prefix(base_entry(10).0, s) {
            assert(s.subrange(0, base_entry(10).0.len() as int)[0] == s[0]);
        }
    }
    assert(first_base_match(s, 10) == Some(22int));
    reveal_strlit("m7-5");
    assert(!is_prefix(base_entry(9).0, s)) by {
        if is_prefix(base_entry(9).0, s) {
            assert(s.subrange(0, base_entry(9).0.len() as int)[0] == s[0]);
        }
    }
    assert(first_base_match(s, 9) == Some(22int));
    reveal_strlit("mM7");
    assert(!is_prefix(base_entry(8).0, s)) by {
        if is_prefix(base_entry(8).0, s) {
            assert(s.subrange(0, base_entry(8).0.len() as int)[0] == s[0]);
        }
    }
    assert(first_base_match(s, 8) == Some(22int));
    reveal_strlit("mMaj7");
    assert(!is_prefix(base_entry(7).0, s)) by {
        if is_prefix(base_entry(7).0, s) {
            assert(s.subrange(0, base_entry(7).0.len() as int)[0] == s[0]);
        }
    }
    assert(first_base_match(s, 7) == Some(22int));
    reveal_strlit("mMaj9");
    assert(!is_prefix(base_entry(6).0, s)) by {
        if is_prefix(base_entry(6).0, s) {
            assert(s.subrange(0, base_entry(6).0.len() as int)[0] == s[0]);
        }
    }
    assert(first_base_match(s, 6) == Some(22int));
    reveal_strlit("mMaj11");
    assert(!is_prefix(base_entry(5).0, s)) by {
        if is_prefix(base_entry(5).0, s) {
            assert(s.subrange(0, base_entry(5).0.len() as int)[0] == s[0]);
        }
    }
    assert(first_base_match(s, 5) == Some(22int));
    reveal_strlit("mMaj13");
    assert(!is_prefix(base_entry(4).0, s)) by {
        if is_prefix(base_entry(4).0, s) {
            assert(s.subrange(0, base_entry(4).0.len() as int)[0] == s[0]);
        }
    }
    assert(first_base_match(s, 4) == Some(22int));
    reveal_strlit("minMaj7");
    assert(!is_prefix(base_entry(3).0, s)) by {
        if is_prefix(base_entry(3).0, s) {
            assert(s.subrange(0, base_entry(3).0.len() as int)[0] == s[0]);
        }
    }
    assert(first_base_match(s, 3) == Some(22int));
    reveal_strlit("minMaj9");
    assert(!is_prefix(base_entry(2).0, s)) by {
        if is_prefix(base_entry(2).0, s) {
            assert(s.subrange(0, base_entry(2).0.len() as int)[0] == s[0]);
        }
    }
    assert(first_base_match(s, 2) == Some(22int));
    reveal_strlit("minMaj11");
    assert(!is_prefix(base_entry(1).0, s)) by {
        if is_prefix(base_entry(1).0, s) {
            assert(s.subrange(0, base_entry(1).0.len() as int)[0] == s[0]);
        }
    }
    assert(first_base_match(s, 1) == Some(22int));
    reveal_strlit("minMaj13");
    assert(!is_prefix(base_entry(0).0, s)) by {
        if is_prefix(base_entry(0).0, s) {
            assert(s.subrange(0, base_entry(0).0.len() as int)[0] == s[0]);
        }
    }
    assert(first_base_match(s, 0) == Some(22int));
}

proof fn lemma_base_cap_m9(rest: Seq<char>)
    ensures
        parse_base_spec("M9"@ + rest) == (QualityClass::Major, Some(SeventhQuality::Major), implied_modifiers(1u8), 2int),
{
    let s = "M9"@ + rest;
    reveal_strlit("M9");
    assert(s[0] == 'M');
    assert(s[1] == '9');
    assert(is_prefix(base_entry(21).0, s)) by {
        assert(s.subrange(0, 2) =~= "M9"@);
    }
    assert(first_base_match(s, 21) == Some(21int));
    reveal_strlit("M11");
    assert(!is_prefix(base_entry(20).0, s)) by {
        if is_prefix(base_entry(20).0, s) {
            assert(s.subrange(0, base_entry(20).0.len() as int)[1] == s[1]);
        }
    }
    assert(first_base_match(s, 20) == Some(21int));
    reveal_strlit("M13");
    assert(!is_prefix(base_entry(19).0, s)) by {
        if is_prefix(base_entry(19).0, s) {
            assert(s.subrange(0, base_entry(19).0.len() as int)[1] == s[1]);
        }
    }
    assert(first_base_match(s, 19) == Some(21int));
    reveal_strlit("ma7");
    assert(!is_prefix(base_entry(18).0, s)) by {
        if is_prefix(base_entry(18).0, s) {
            assert(s.subrange(0, base_entry(18).0.len() as int)[0] == s[0]);
        }
    }
    assert(first_base_match(s, 18) == Some(21int));
    reveal_strlit("ma9");
    assert(!is_prefix(base_entry(17).0, s)) by {
        if is_prefix(base_entry(17).0, s) {
            assert(s.subrange(0, base_entry(17).0.len() as int)[0] == s[0]);
        }
    }
    assert(first_base_match(s, 17) == Some(21int));
    reveal_strlit("ma11");
    assert(!is_prefix(base_entry(16).0, s)) by {
        if is_prefix(base_entry(16).0, s) {
            assert(s.subrange(0, base_entry(16).0.len() as int)[0] == s[0]);
        }
    }
    assert(first_base_match(s, 16) == Some(21int));
    reveal_strlit("ma13");
    assert(!is_prefix(base_entry(15).0, s)) by {
        if is_prefix(base_entry(15).0, s) {
            assert(s.subrange(0, base_entry(15).0.len() as int)[0] == s[0]);
        }
    }
    assert(first_base_match(s, 15) == Some(21int));
    reveal_strlit("maj7");
    assert(!is_prefix(base_entry(14).0, s)) by {
        if is_prefix(base_entry(14).0, s) {
            assert(s.subrange(0, base_entry(14).0.len() as int)[0] == s[0]);
        }
    }
    assert(first_base_match(s, 14) == Some(21int));
    reveal_strlit("maj9");
    assert(!is_prefix(base_entry(13).0, s)) by {
        if is_prefix(base_entry(13).0, s) {
            assert(s.subrange(0, base_entry(13).0.len() as int)[0] == s[0]);
        }
    }
    assert(first_base_match(s, 13) == Some(21int));
    reveal_strlit("maj11");
    assert(!is_prefix(base_entry(12).0, s)) by {
        if is_prefix(base_entry(12).0, s) {
            assert(s.subrange(0, base_entry(12).0.len() as int)[0] == s[0]);
        }
    }
    assert(first_base_match(s, 12) == Some(21int));
    reveal_strlit("maj13");
    assert(!is_prefix(base_entry(11).0, s)) by {
        if is_prefix(base_entry(11).0, s) {
            assert(s.subrange(0, base_entry(11).0.len() as int)[0] == s[0]);
        }
    }
    assert(first_base_match(s, 11) == Some(21int));
    reveal_strlit("m7b5");
    assert(!is_prefix(base_entry(10).0, s)) by {
        if is_prefix(base_entry(10).0, s) {
            assert(s.subrange(0, base_entry(10).0.len() as int)[0] == s[0]);
        }
    }
    assert(first_base_match(s, 10) == Some(21int));
    reveal_strlit("m7-5");
    assert(!is_prefix(base_entry(9).0, s)) by {
        if is_prefix(base_entry(9).0, s) {
            assert(s.subrange(0, base_entry(9).0.len() as int)[0] == s[0]);
        }
    }
    assert(first_base_match(s, 9) == Some(21int));
    reveal_strlit("mM7");
    assert(!is_prefix(base_entry(8).0, s)) by {
        if is_prefix(base_entry(8).0, s) {
            assert(s.subrange(0, base_entry(8).0.len() as int)[0] == s[0]);
        }
    }
    assert(first_base_match(s, 8) == Some(21int));
    reveal_strlit("mMaj7");
    assert(!is_prefix(base_entry(7).0, s)) by {
        if is_prefix(base_entry(7).0, s) {
            assert(s.subrange(0, base_entry(7).0.len() as int)[0] == s[0]);
        }
    }
    assert(first_base_match(s, 7) == Some(21int));
    reveal_strlit("mMaj9");
    assert(!is_prefix(base_entry(6).0, s)) by {
        if is_prefix(base_entry(6).0, s) {
            assert(s.subrange(0, base_entry(6).0.len() as int)[0] == s[0]);
        }
    }
    assert(first_base_match(s, 6) == Some(21int));
    reveal_strlit("mMaj11");
    assert(!is_prefix(base_entry(5).0, s)) by {
        if is_prefix(base_entry(5).0, s) {
            assert(s.subrange(0, base_entry(5).0.len() as int)[0] == s[0]);
        }
    }
    assert(first_base_match(s, 5) == Some(21int));
    reveal_strlit("mMaj13");
    assert(!is_prefix(base_entry(4).0, s)) by {
        if is_prefix(base_entry(4).0, s) {
            assert(s.subrange(0, base_entry(4).0.len() as int)[0] == s[0]);
        }
    }
    assert(first_base_match(s, 4) == Some(21int));
    reveal_strlit("minMaj7");
    assert(!is_prefix(base_entry(3).0, s)) by {
        if is_prefix(base_entry(3).0, s) {
            assert(s.subrange(0, base_entry(3).0.len() as int)[0] == s[0]);
        }
    }
    assert(first_base_match(s, 3) == Some(21int));
    reveal_strlit("minMaj9");
    assert(!is_prefix(base_entry(2).0, s)) by {
        if is_prefix(base_entry(2).0, s) {
            assert(s.subrange(0, base_entry(2).0.len() as int)[0] == s[0]);
        }
    }
    assert(first_base_match(s, 2) == Some(21int));
    reveal_strlit("minMaj11");
    assert(!is_prefix(base_entry(1).0, s)) by {
        if is_prefix(base_entry(1).0, s) {
            assert(s.subrange(0, base_entry(1).0.len() as int)[0] == s[0]);
        }
    }
    assert(first_base_match(s, 1) == Some(21int));
    reveal_strlit("minMaj13");
    assert(!is_prefix(base_entry(0).0, s)) by {
        if is_prefix(base_entry(0).0, s) {
            assert(s.subrange(0, base_entry(0).0.len() as int)[0] == s[0]);
        }
    }
    assert(first_base_match(s, 0) == Some(21int));
}

proof fn lemma_base_m_cap_maj7(rest: Seq<char>)
    ensures
        parse_base_spec("mMaj7"@ + rest) == (QualityClass::Minor, Some(SeventhQuality::Major), implied_modifiers(0u8), 5int),
{
    let s = "mMaj7"@ + rest;
    reveal_strlit("mMaj7");
    assert(s[0] == 'm');
    assert(s[1] == 'M');
    assert(s[2] == 'a');
    assert(s[3] == 'j');
    assert(s[4] == '7');
    assert(is_prefix(base_entry(7).0, s)) by {
        assert(s.subrange(0, 5) =~= "mMaj7"@);
    }
    assert(first_base_match(s, 7) == Some(7int));
    reveal_strlit("mMaj9");
    assert(!is_prefix(base_entry(6).0, s)) by {
        if is_prefix(base_entry(6).0, s) {
            assert(s.subrange(0, base_entry(6).0.len() as int)[4] == s[4]);
        }
    }
    assert(first_base_match(s, 6) == Some(7int));
    reveal_strlit("mMaj11");
    assert(!is_prefix(base_entry(5).0, s)) by {
        if is_prefix(base_entry(5).0, s) {
            assert(s.subrange(0, base_entry(5).0.len() as int)[4] == s[4]);
        }
    }
    assert(first_base_match(s, 5) == Some(7int));
    reveal_strlit("mMaj13");
    assert(!is_prefix(base_entry(4).0, s)) by {
        if is_prefix(base_entry(4).0, s) {
            assert(s.subrange(0, base_entry(4).0.len() as int)[4] == s[4]);
        }
    }
    assert(first_base_match(s, 4) == Some(7int));
    reveal_strlit("minMaj7");
    assert(!is_prefix(base_entry(3).0, s)) by {
        if is_prefix(base_entry(3).0, s) {
            assert(s.subrange(0, base_entry(3).0.len() as int)[1] == s[1]);
        }
    }
    assert(first_base_match(s, 3) == Some(7int));
    reveal_strlit("minMaj9");
    assert(!is_prefix(base_entry(2).0, s)) by {
        if is_prefix(base_entry(2).0, s) {
            assert(s.subrange(0, base_entry(2).0.len() as int)[1] == s[1]);
        }
    }
    assert(first_base_match(s, 2) == Some(7int));
    reveal_strlit("minMaj11");
    assert(!is_prefix(base_entry(1).0, s)) by {
        if is_prefix(base_entry(1).0, s) {
            assert(s.subrange(0, base_entry(1).0.len() as int)[1] == s[1]);
        }
    }
    assert(first_base_match(s, 1) == Some(7int));
    reveal_strlit("minMaj13");
    assert(!is_prefix(base_entry(0).0, s)) by {
        if is_prefix(base_entry(0).0, s) {
            assert(s.subrange(0, base_entry(0).0.len() as int)[1] == s[1]);
        }
    }
    assert(first_base_match(s, 0) == Some(7int));
}

proof fn lemma_base_m_cap_m7(rest: Seq<char>)
    ensures
        parse_base_spec("mM7"@ + rest) == (QualityClass::Minor, Some(SeventhQuality::Major), implied_modifiers(0u8), 3int),
{
    let s = "mM7"@ + rest;
    reveal_strlit("mM7");
    assert(s[0] == 'm');
    assert(s[1] == 'M');
    assert(s[2] == '7');
    assert(is_prefix(base_entry(8).0, s)) by {
        assert(s.subrange(0, 3) =~= "mM7"@);
    }
    assert(first_base_match(s, 8) == Some(8int));
    reveal_strlit("mMaj7");
    assert(!is_prefix(base_entry(7).0, s)) by {
        if is_prefix(base_entry(7).0, s) {
            assert(s.subrange(0, base_entry(7).0.len() as int)[2] == s[2]);
        }
    }
    assert(first_base_match(s, 7) == Some(8int));
    reveal_strlit("mMaj9");
    assert(!is_prefix(base_entry(6).0, s)) by {
        if is_prefix(base_entry(6).0, s) {
            assert(s.subrange(0, base_entry(6).0.len() as int)[2] == s[2]);
        }
    }
    assert(first_base_match(s, 6) == Some(8int));
    reveal_strlit("mMaj11");
    assert(!is_prefix(base_entry(5).0, s)) by {
        if is_prefix(base_entry(5).0, s) {
            assert(s.subrange(0, base_entry(5).0.len() as int)[2] == s[2]);
        }
    }
    assert(first_base_match(s, 5) == Some(8int));
    reveal_strlit("mMaj13");
    assert(!is_prefix(base_entry(4).0, s)) by {
        if is_prefix(base_entry(4).0, s) {
            assert(s.subrange(0, base_entry(4).0.len() as int)[2] == s[2]);
        }
    }
    assert(first_base_match(s, 4) == Some(8int));
    reveal_strlit("minMaj7");
    assert(!is_prefix(base_entry(3).0, s)) by {
        if is_prefix(base_entry(3).0, s) {
            assert(s.subrange(0, base_entry(3).0.len() as int)[1] == s[1]);
        }
    }
    assert(first_base_match(s, 3) == Some(8int));
    reveal_strlit("minMaj9");
    assert(!is_prefix(base_entry(2).0, s)) by {
        if is_prefix(base_entry(2).0, s) {
            assert(s.subrange(0, base_entry(2).0.len() as int)[1] == s[1]);
        }
    }
    assert(first_base_match(s, 2) == Some(8int));
    reveal_strlit("minMaj11");
    assert(!is_prefix(base_entry(1).0, s)) by {
        if is_prefix(base_entry(1).0, s) {
            assert(s.subrange(0, base_entry(1).0.len() as int)[1] == s[1]);
        }
    }
    assert(first_base_match(s, 1) == Some(8int));
    reveal_strlit("minMaj13");
    assert(!is_prefix(base_entry(0).0, s)) by {
        if is_prefix(base_entry(0).0, s) {
            assert(s.subrange(0, base_entry(0).0.len() as int)[1] == s[1]);
        }
    }
    assert(first_base_match(s, 0) == Some(8int));
}

/// A base spelling followed by anything is read by its own entry: a minor
/// chord spelled with a number and no major marker (`m7`, `m9`, `m11`,
/// `m13`, `min7` ... `min13`) has a minor seventh, one spelled with a major
/// marker (`maj7`, `maj9`, `ma7`, `ma9`, `M7`, `M9`, `mMaj7`, `mM7`) a major
/// seventh, each with the ninth, eleventh or thirteenth its number implies.
/// (`m7` followed by `-5` or `b5` is half-diminished instead.)
pub proof fn lemma_base_spellings(rest: Seq<char>)
    ensures
        parse_base_spec("m9"@ + rest) == (QualityClass::Minor, Some(SeventhQuality::Minor), implied_modifiers(1u8), 2int),
        parse_base_spec("m11"@ + rest) == (QualityClass::Minor, Some(SeventhQuality::Minor), implied_modifiers(2u8), 3int),
        parse_base_spec("m13"@ + rest) == (QualityClass::Minor, Some(SeventhQuality::Minor), implied_modifiers(3u8), 3int),
        parse_base_spec("min9"@ + rest) == (QualityClass::Minor, Some(SeventhQuality::Minor), implied_modifiers(1u8), 4int),
        parse_base_spec("min11"@ + rest) == (QualityClass::Minor, Some(SeventhQuality::Minor), implied_modifiers(2u8), 5int),
        parse_base_spec("min13"@ + rest) == (QualityClass::Minor, Some(SeventhQuality::Minor), implied_modifiers(3u8), 5int),
        rest.len() == 0 || (rest[0] != '-' && rest[0] != 'b') ==> parse_base_spec("m7"@ + rest) == (QualityClass::Minor, Some(SeventhQuality::Minor), implied_modifiers(0u8), 2int),
        parse_base_spec("min7"@ + rest) == (QualityClass::Minor, Some(SeventhQuality::Minor), implied_modifiers(0u8), 4int),
        parse_base_spec("maj7"@ + rest) == (QualityClass::Major, Some(SeventhQuality::Major), implied_modifiers(0u8), 4int),
        parse_base_spec("maj9"@ + rest) == (QualityClass::Major, Some(SeventhQuality::Major), implied_modifiers(1u8), 4int),
        parse_base_spec("ma7"@ + rest) == (QualityClass::Major, Some(SeventhQuality::Major), implied_modifiers(0u8), 3int),
        parse_base_spec("ma9"@ + rest) == (QualityClass::Major, Some(SeventhQuality::Major), implied_modifiers(1u8), 3int),
        parse_base_spec("M7"@ + rest) == (QualityClass::Major, Some(SeventhQuality::Major), implied_modifiers(0u8), 2int),
        parse_base_spec("M9"@ + rest) == (QualityClass::Major, Some(SeventhQuality::Major), implied_modifiers(1u8), 2int),
        parse_base_spec("mMaj7"@ + rest) == (QualityClass::Minor, Some(SeventhQuality::Major), implied_modifiers(0u8), 5int),
        parse_base_spec("mM7"@ + rest) == (QualityClass::Minor, Some(SeventhQuality::Major), implied_modifiers(0u8), 3int),
{
    lemma_base_m9(rest);
    lemma_base_m11(rest);
    lemma_base_m13(rest);
    lemma_base_min9(rest);
    lemma_base_min11(rest);
    lemma_base_min13(rest);
    if rest.len() == 0 || (rest[0] != '-' && rest[0] != 'b') {
        lemma_base_m7(rest);
    }
    lemma_base_min7(rest);
    lemma_base_maj7(rest);
    lemma_base_maj9(rest);
    lemma_base_ma7(rest);
    lemma_base_ma9(rest);
    lemma_base_cap_m7(rest);
    lemma_base_cap_m9(rest);
    lemma_base_m_cap_maj7(rest);
    lemma_base_m_cap_m7(rest);
}

pub open spec fn base_table_len() -> int {
    50
}

/// Degrees implied by an extension-stack code.
pub open spec fn implied_degrees(level: u8) -> Seq<ChordDegree> {
    if level == 1 {
        seq![ChordDegree::Ninth]
    } else if level == 2 {
        seq![ChordDegree::Ninth, ChordDegree::Eleventh]
    } else if level == 3 {
        seq![ChordDegree::Ninth, ChordDegree::Eleventh, ChordDegree::Thirteenth]
    } else if level == 4 {
        seq![ChordDegree::Sixth]
    } else {
        Seq::empty()
    }
}

pub open spec fn implied_modifiers(level: u8) -> Seq<DegreeModifier> {
    implied_degrees(level).map_values(
        |d: ChordDegree| DegreeModifier { degree: d, alteration: 0, kind: ModifierKind::Implied },
    )
}

/// Index of the first table entry at or after `i` that prefixes `s`.
pub open spec fn first_base_match(s: Seq<char>, i: int) -> Option<int>
    decreases base_table_len() - i,
{
    if i < 0 || i >= base_table_len() {
        None
    } else if is_prefix(base_entry(i).0, s) {
        Some(i)
    } else {
        first_base_match(s, i + 1)
    }
}

/// Base structure of a compact suffix: class, seventh, implied modifiers and
/// the number of characters it consumed.
pub open spec fn parse_base_spec(s: Seq<char>) -> (
    QualityClass,
    Option<SeventhQuality>,
    Seq<DegreeModifier>,
    int,
) {
    if s.len() == 0 {
        (QualityClass::Major, None, Seq::empty(), 0)
    } else {
        match first_base_match(s, 0) {
            Some(i) => (base_entry(i).1, base_entry(i).2, implied_modifiers(base_entry(i).3), base_entry(i).0.len() as int),
            None => if is_prefix("add"@, s) || is_prefix("omit"@, s) || is_prefix("no"@, s) || s[0] == '#'
                || s[0] == 'b' || s[0] == '(' {
                // A suffix made only of modifiers (`Cadd9`, `C(b5)`) has a
                // major base.
                (QualityClass::Major, None, Seq::empty(), 0)
            } else {
                (QualityClass::Unknown, None, Seq::empty(), 0)
            },
        }
    }
}

/// Chord-member number at the start of `s` (longest number first) and the
/// number of characters it uses.
pub open spec fn degree_number_at(s: Seq<char>) -> Option<(ChordDegree, int)> {
    if is_prefix("13"@, s) {
        Some((ChordDegree::Thirteenth, 2))
    } else if is_prefix("11"@, s) {
        Some((ChordDegree::Eleventh, 2))
    } else if is_prefix("9"@, s) {
        Some((ChordDegree::Ninth, 1))
    } else if is_prefix("7"@, s) {
        Some((ChordDegree::Seventh, 1))
    } else if is_prefix("6"@, s) {
        Some((ChordDegree::Sixth, 1))
    } else if is_prefix("5"@, s) {
        Some((ChordDegree::Fifth, 1))
    } else if is_prefix("4"@, s) {
        Some((ChordDegree::Fourth, 1))
    } else if is_prefix("3"@, s) {
        Some((ChordDegree::Third, 1))
    } else if is_prefix("2"@, s) {
        Some((ChordDegree::Second, 1))
    } else if is_prefix("1"@, s) {
        Some((ChordDegree::Root, 1))
    } else {
        None
    }
}

/// `omit<n>` or `no<n>` at the start of `s`: the omitted member and the
/// characters consumed.
pub open spec fn omission_at(s: Seq<char>) -> Option<(ChordDegree, int)> {
    if is_prefix("omit"@, s) {
        match degree_number_at(s.skip(4)) {
            Some((d, n)) => Some((d, 4 + n)),
            None => None,
        }
    } else if is_prefix("no"@, s) {
        match degree_number_at(s.skip(2)) {
            Some((d, n)) => Some((d, 2 + n)),
            None => None,
        }
    } else {
        None
    }
}

/// `#`, `b` and `-` (a flat in `7-5`) alter a modifier degree.
pub open spec fn alteration_value(c: char) -> Option<int> {
    if c == '#' {
        Some(1)
    } else if c == 'b' || c == '-' {
        Some(-1)
    } else {
        None
    }
}

pub open spec fn alteration_run(s: Seq<char>) -> nat
    decreases s.len(),
{
    if s.len() > 0 && alteration_value(s[0]) is Some {
        1 + alteration_run(s.drop_first())
    } else {
        0
    }
}

pub open spec fn alteration_total(s: Seq<char>) -> int
    decreases s.len(),
{
    if s.len() == 0 {
        0
    } else {
        alteration_total(s.drop_last()) + match alteration_value(s.last()) {
            Some(v) => v,
            None => 0,
        }
    }
}

/// `s` starts with `prefix_len` characters of a keyword, then accidentals,
/// then a member number: the member, its alteration and the characters used.
pub open spec fn altered_at(s: Seq<char>, prefix_len: int) -> Option<(ChordDegree, int, int)> {
    let rest = s.skip(prefix_len);
    let k = alteration_run(rest);
    match degree_number_at(rest.skip(k as int)) {
        Some((d, n)) => Some((d, alteration_total(rest.take(k as int)), prefix_len + k + n)),
        None => None,
    }
}

pub open spec fn with_class(q: QualityParts, class: QualityClass) -> QualityParts {
    QualityParts { class, ..q }
}

/// Consume the modifier tokens of one comma-free segment, left to right.
/// The first unrecognized remainder is recorded and ends the segment.
pub open spec fn segment_step(q: QualityParts, seg: Seq<char>) -> QualityParts
    decreases seg.len(),
{
    if seg.len() == 0 {
        q
    } else if is_prefix("sus2"@, seg) {
        proof {
            reveal_strlit("sus2");
        }
        segment_step(with_class(q, QualityClass::Suspended2), seg.skip(4))
    } else if is_prefix("sus4"@, seg) {
        proof {
            reveal_strlit("sus4");
        }
        segment_step(with_class(q, QualityClass::Suspended4), seg.skip(4))
    } else if omission_at(seg) is Some {
        let (d, n) = omission_at(seg)->0;
        if 0 < n <= seg.len() {
            segment_step(QualityParts { omissions: q.omissions.push(d), ..q }, seg.skip(n))
        } else {
            q
        }
    } else if is_prefix("add"@, seg) && altered_at(seg, 3) is Some {
        let (d, a, n) = altered_at(seg, 3)->0;
        if 0 < n <= seg.len() {
            segment_step(
                QualityParts {
                    modifiers: q.modifiers.push(
                        DegreeModifier { degree: d, alteration: a as i8, kind: ModifierKind::Added },
                    ),
                    ..q
                },
                seg.skip(n),
            )
        } else {
            q
        }
    } else if altered_at(seg, 0) is Some {
        let (d, a, n) = altered_at(seg, 0)->0;
        if 0 < n <= seg.len() {
            segment_step(
                QualityParts {
                    modifiers: q.modifiers.push(
                        DegreeModifier {
                            degree: d,
                            alteration: a as i8,
                            kind: if a == 0 {
                                ModifierKind::Added
                            } else {
                                ModifierKind::Altered
                            },
                        },
                    ),
                    ..q
                },
                seg.skip(n),
            )
        } else {
            q
        }
    } else if seg[0] == '7' {
        segment_step(QualityParts { seventh: Some(SeventhQuality::Minor), ..q }, seg.skip(1))
    } else {
        QualityParts { unknown_tokens: q.unknown_tokens.push(seg), ..q }
    }
}

/// Position of the first comma in `s`, or its length.
pub open spec fn comma_index(s: Seq<char>) -> int
    decreases s.len(),
{
    if s.len() == 0 || s[0] == ',' {
        0
    } else {
        1 + comma_index(s.drop_first())
    }
}

/// Process the comma-separated segments of `s` in order, skipping empty ones.
pub open spec fn modifiers_step(q: QualityParts, s: Seq<char>) -> QualityParts
    decreases s.len(),
{
    if s.len() == 0 {
        q
    } else if s[0] == ',' {
        modifiers_step(q, s.drop_first())
    } else {
        let e = comma_index(s);
        if 0 < e <= s.len() {
            modifiers_step(segment_step(q, s.take(e)), s.skip(e))
        } else {
            q
        }
    }
}

/// `(` and `)` read as commas.
pub open spec fn parens_to_commas(s: Seq<char>) -> Seq<char> {
    s.map_values(|c: char| if c == '(' || c == ')' { ',' } else { c })
}

/// Suffix with spaces removed and one leading `:` (a MIDI-marker separator)
/// ignored.
pub open spec fn semantic_suffix(raw: Seq<char>) -> Seq<char> {
    let compact = remove_char(raw, ' ');
    if compact.len() > 0 && compact[0] == ':' {
        compact.drop_first()
    } else {
        compact
    }
}

/// Semantic parse of a chord suffix.
pub open spec fn quality_parts_of(raw: Seq<char>) -> QualityParts {
    let s = semantic_suffix(raw);
    let (class, seventh, implied, consumed) = parse_base_spec(s);
    modifiers_step(
        QualityParts {
            class,
            seventh,
            modifiers: implied,
            omissions: Seq::empty(),
            unknown_tokens: Seq::empty(),
        },
        parens_to_commas(s.skip(consumed)),
    )
}

/// Every running total of the leading stretch of alterations of `s` lies in
/// the `i8` range of a modifier's alteration.
pub open spec fn run_fits(s: Seq<char>) -> bool {
    forall|j: int| 0 <= j <= alteration_run(s) ==> -128 <= #[trigger] alteration_total(s.take(j)) <= 127
}

/// The stretches of alterations that parsing one comma-free segment reads,
/// where it tries an `add` or a bare altered member, all fit `i8`.
pub open spec fn segment_fits(seg: Seq<char>) -> bool
    decreases seg.len(),
{
    if seg.len() == 0 {
        true
    } else if is_prefix("sus2"@, seg) {
        proof {
            reveal_strlit("sus2");
        }
        segment_fits(seg.skip(4))
    } else if is_prefix("sus4"@, seg) {
        proof {
            reveal_strlit("sus4");
        }
        segment_fits(seg.skip(4))
    } else if omission_at(seg) is Some {
        let (d, n) = omission_at(seg)->0;
        if 0 < n <= seg.len() {
            segment_fits(seg.skip(n))
        } else {
            true
        }
    } else if is_prefix("add"@, seg) && !run_fits(seg.skip(3)) {
        false
    } else if is_prefix("add"@, seg) && altered_at(seg, 3) is Some {
        let (d, a, n) = altered_at(seg, 3)->0;
        if 0 < n <= seg.len() {
            segment_fits(seg.skip(n))
        } else {
            true
        }
    } else if !run_fits(seg) {
        false
    } else if altered_at(seg, 0) is Some {
        let (d, a, n) = altered_at(seg, 0)->0;
        if 0 < n <= seg.len() {
            segment_fits(seg.skip(n))
        } else {
            true
        }
    } else if seg[0] == '7' {
        segment_fits(seg.skip(1))
    } else {
        true
    }
}

/// `segment_fits` for every comma-separated segment of `s`.
pub open spec fn modifiers_fit(s: Seq<char>) -> bool
    decreases s.len(),
{
    if s.len() == 0 {
        true
    } else if s[0] == ',' {
        modifiers_fit(s.drop_first())
    } else {
        let e = comma_index(s);
        if 0 < e <= s.len() {
            segment_fits(s.take(e)) && modifiers_fit(s.skip(e))
        } else {
            true
        }
    }
}

/// Parsing the suffix `raw` reads only stretches of alterations whose
/// running totals fit `i8`: those where it tries a modifier, up to the
/// first unknown token of each segment.
pub open spec fn quality_fits(raw: Seq<char>) -> bool {
    let s = semantic_suffix(raw);
    modifiers_fit(parens_to_commas(s.skip(parse_base_spec(s).3)))
}

fn base_entry_exec(i: usize) -> (r: (&'static str, QualityClass, Option<SeventhQuality>, u8))
    requires
        i < 50,
    ensures
        r.0@ == base_entry(i as int).0,
        r.1 == base_entry(i as int).1,
        r.2 == base_entry(i as int).2,
        r.3 == base_entry(i as int).3,
{
    if i == 0 {
        ("minMaj13", QualityClass::Minor, Some(SeventhQuality::Major), 3u8)
    } else if i == 1 {
        ("minMaj11", QualityClass::Minor, Some(SeventhQuality::Major), 2u8)
    } else if i == 2 {
        ("minMaj9", QualityClass::Minor, Some(SeventhQuality::Major), 1u8)
    } else if i == 3 {
        ("minMaj7", QualityClass::Minor, Some(SeventhQuality::Major), 0u8)
    } else if i == 4 {
        ("mMaj13", QualityClass::Minor, Some(SeventhQuality::Major), 3u8)
    } else if i == 5 {
        ("mMaj11", QualityClass::Minor, Some(SeventhQuality::Major), 2u8)
    } else if i == 6 {
        ("mMaj9", QualityClass::Minor, Some(SeventhQuality::Major), 1u8)
    } else if i == 7 {
        ("mMaj7", QualityClass::Minor, Some(SeventhQuality::Major), 0u8)
    } else if i == 8 {
        ("mM7", QualityClass::Minor, Some(SeventhQuality::Major), 0u8)
    } else if i == 9 {
        ("m7-5", QualityClass::HalfDiminished, Some(SeventhQuality::Minor), 0u8)
    } else if i == 10 {
        ("m7b5", QualityClass::HalfDiminished, Some(SeventhQuality::Minor), 0u8)
    } else if i == 11 {
        ("maj13", QualityClass::Major, Some(SeventhQuality::Major), 3u8)
    } else if i == 12 {
        ("maj11", QualityClass::Major, Some(SeventhQuality::Major), 2u8)
    } else if i == 13 {
        ("maj9", QualityClass::Major, Some(SeventhQuality::Major), 1u8)
    } else if i == 14 {
        ("maj7", QualityClass::Major, Some(SeventhQuality::Major), 0u8)
    } else if i == 15 {
        ("ma13", QualityClass::Major, Some(SeventhQuality::Major), 3u8)
    } else if i == 16 {
        ("ma11", QualityClass::Major, Some(SeventhQuality::Major), 2u8)
    } else if i == 17 {
        ("ma9", QualityClass::Major, Some(SeventhQuality::Major), 1u8)
    } else if i == 18 {
        ("ma7", QualityClass::Major, Some(SeventhQuality::Major), 0u8)
    } else if i == 19 {
        ("M13", QualityClass::Major, Some(SeventhQuality::Major), 3u8)
    } else if i == 20 {
        ("M11", QualityClass::Major, Some(SeventhQuality::Major), 2u8)
    } else if i == 21 {
        ("M9", QualityClass::Major, Some(SeventhQuality::Major), 1u8)
    } else if i == 22 {
        ("M7", QualityClass::Major, Some(SeventhQuality::Major), 0u8)
    } else if i == 23 {
        ("dim7", QualityClass::Diminished, Some(SeventhQuality::Diminished), 0u8)
    } else if i == 24 {
        ("o7", QualityClass::Diminished, Some(SeventhQuality::Diminished), 0u8)
    } else if i == 25 {
        ("ø7", QualityClass::HalfDiminished, Some(SeventhQuality::Minor), 0u8)
    } else if i == 26 {
        ("sus2", QualityClass::Suspended2, None, 0u8)
    } else if i == 27 {
        ("sus4", QualityClass::Suspended4, None, 0u8)
    } else if i == 28 {
        ("aug", QualityClass::Augmented, None, 0u8)
    } else if i == 29 {
        ("dim", QualityClass::Diminished, None, 0u8)
    } else if i == 30 {
        ("min13", QualityClass::Minor, Some(SeventhQuality::Minor), 3u8)
    } else if i == 31 {
        ("min11", QualityClass::Minor, Some(SeventhQuality::Minor), 2u8)
    } else if i == 32 {
        ("min9", QualityClass::Minor, Some(SeventhQuality::Minor), 1u8)
    } else if i == 33 {
        ("min7", QualityClass::Minor, Some(SeventhQuality::Minor), 0u8)
    } else if i == 34 {
        ("min6", QualityClass::Minor, None, 4u8)
    } else if i == 35 {
        ("min", QualityClass::Minor, None, 0u8)
    } else if i == 36 {
        ("m13", QualityClass::Minor, Some(SeventhQuality::Minor), 3u8)
    } else if i == 37 {
        ("m11", QualityClass::Minor, Some(SeventhQuality::Minor), 2u8)
    } else if i == 38 {
        ("m9", QualityClass::Minor, Some(SeventhQuality::Minor), 1u8)
    } else if i == 39 {
        ("m7", QualityClass::Minor, Some(SeventhQuality::Minor), 0u8)
    } else if i == 40 {
        ("m6", QualityClass::Minor, None, 4u8)
    } else if i == 41 {
        ("m", QualityClass::Minor, None, 0u8)
    } else if i == 42 {
        ("13", QualityClass::Major, Some(SeventhQuality::Minor), 3u8)
    } else if i == 43 {
        ("11", QualityClass::Major, Some(SeventhQuality::Minor), 2u8)
    } else if i == 44 {
        ("9", QualityClass::Major, Some(SeventhQuality::Minor), 1u8)
    } else if i == 45 {
        ("7", QualityClass::Major, Some(SeventhQuality::Minor), 0u8)
    } else if i == 46 {
        ("6", QualityClass::Major, None, 4u8)
    } else if i == 47 {
        ("5", QualityClass::Power, None, 0u8)
    } else if i == 48 {
        ("+", QualityClass::Augmented, None, 0u8)
    } else if i == 49 {
        ("o", QualityClass::Diminished, None, 0u8)
    } else {
        ("", QualityClass::Unknown, None, 0u8)
    }
}

fn push_implied(mods: &mut Vec<DegreeModifier>, level: u8)
    requires
        old(mods)@.len() == 0,
    ensures
        final(mods)@ == implied_modifiers(level),
{
    let ghost degrees = implied_degrees(level);
    if level == 4 {
        mods.push(DegreeModifier { degree: ChordDegree::Sixth, alteration: 0, kind: ModifierKind::Implied });
    } else if level >= 1 && level <= 3 {
        mods.push(DegreeModifier { degree: ChordDegree::Ninth, alteration: 0, kind: ModifierKind::Implied });
        if level >= 2 {
            mods.push(DegreeModifier { degree: ChordDegree::Eleventh, alteration: 0, kind: ModifierKind::Implied });
        }
        if level >= 3 {
            mods.push(DegreeModifier { degree: ChordDegree::Thirteenth, alteration: 0, kind: ModifierKind::Implied });
        }
    }
    assert(mods@ =~= implied_modifiers(level));
}

/// Base structure of `v[start..]`: class, seventh, implied extension code
/// and the number of characters consumed.
fn parse_base(v: &Vec<char>, start: usize) -> (r: (QualityClass, Option<SeventhQuality>, u8, usize))
    requires
        start <= v.len(),
    ensures
        ({
            let s = v@.skip(start as int);
            let b = parse_base_spec(s);
            &&& b.0 == r.0
            &&& b.1 == r.1
            &&& b.2 == implied_modifiers(r.2)
            &&& b.3 == r.3
            &&& r.3 <= s.len()
        }),
{
    let ghost s = v@.skip(start as int);
    let n = v.len();
    assert(v@.subrange(start as int, n as int) =~= s);
    if start == n {
        assert(implied_modifiers(0) =~= Seq::<DegreeModifier>::empty());
        return (QualityClass::Major, None, 0, 0);
    }
    let mut i: usize = 0;
    while i < 50
        invariant
            start < n == v@.len(),
            s == v@.subrange(start as int, n as int),
            i <= 50,
            first_base_match(s, 0) == first_base_match(s, i as int),
        decreases 50 - i,
    {
        let entry = base_entry_exec(i);
        if matches_in(v, start, n, entry.0) {
            return (entry.1, entry.2, entry.3, entry.0.unicode_len());
        }
        i = i + 1;
    }
    assert(implied_modifiers(0) =~= Seq::<DegreeModifier>::empty());
    if matches_in(v, start, n, "add") || matches_in(v, start, n, "omit") || matches_in(v, start, n, "no")
        || v[start] == '#' || v[start] == 'b' || v[start] == '(' {
        (QualityClass::Major, None, 0, 0)
    } else {
        (QualityClass::Unknown, None, 0, 0)
    }
}

/// Member number at `v[pos..end]`, with the characters it uses.
fn degree_number(v: &Vec<char>, pos: usize, end: usize) -> (r: Option<(ChordDegree, usize)>)
    requires
        pos <= end <= v.len(),
    ensures
        ({
            let s = v@.subrange(pos as int, end as int);
            match r {
                Some((d, n)) => degree_number_at(s) == Some((d, n as int)) && 1 <= n <= s.len(),
                None => degree_number_at(s) is None,
            }
        }),
{
    proof {
        reveal_strlit("13");
        reveal_strlit("11");
        reveal_strlit("9");
        reveal_strlit("7");
        reveal_strlit("6");
        reveal_strlit("5");
        reveal_strlit("4");
        reveal_strlit("3");
        reveal_strlit("2");
        reveal_strlit("1");
    }
    if matches_in(v, pos, end, "13") {
        Some((ChordDegree::Thirteenth, 2))
    } else if matches_in(v, pos, end, "11") {
        Some((ChordDegree::Eleventh, 2))
    } else if matches_in(v, pos, end, "9") {
        Some((ChordDegree::Ninth, 1))
    } else if matches_in(v, pos, end, "7") {
        Some((ChordDegree::Seventh, 1))
    } else if matches_in(v, pos, end, "6") {
        Some((ChordDegree::Sixth, 1))
    } else if matches_in(v, pos, end, "5") {
        Some((ChordDegree::Fifth, 1))
    } else if matches_in(v, pos, end, "4") {
        Some((ChordDegree::Fourth, 1))
    } else if matches_in(v, pos, end, "3") {
        Some((ChordDegree::Third, 1))
    } else if matches_in(v, pos, end, "2") {
        Some((ChordDegree::Second, 1))
    } else if matches_in(v, pos, end, "1") {
        Some((ChordDegree::Root, 1))
    } else {
        None
    }
}

/// `omit<n>`/`no<n>` at `v[pos..end]`.
fn omission(v: &Vec<char>, pos: usize, end: usize) -> (r: Option<(ChordDegree, usize)>)
    requires
        pos <= end <= v.len(),
    ensures
        ({
            let s = v@.subrange(pos as int, end as int);
            match r {
                Some((d, n)) => omission_at(s) == Some((d, n as int)) && 0 < n <= s.len(),
                None => omission_at(s) is None,
            }
        }),
{
    let ghost s = v@.subrange(pos as int, end as int);
    proof {
        reveal_strlit("omit");
        reveal_strlit("no");
    }
    if matches_in(v, pos, end, "omit") {
        assert(s.skip(4) =~= v@.subrange(pos + 4, end as int));
        match degree_number(v, pos + 4, end) {
            Some((d, n)) => Some((d, 4 + n)),
            None => None,
        }
    } else if matches_in(v, pos, end, "no") {
        assert(s.skip(2) =~= v@.subrange(pos + 2, end as int));
        match degree_number(v, pos + 2, end) {
            Some((d, n)) => Some((d, 2 + n)),
            None => None,
        }
    } else {
        None
    }
}

/// A keyword of `prefix_len` characters already matched at `pos`, then
/// accidentals and a member number.
fn altered(v: &Vec<char>, pos: usize, end: usize, prefix_len: usize) -> (r: Option<(ChordDegree, i8, usize)>)
    requires
        pos + prefix_len <= end <= v.len(),
        run_fits(v@.subrange(pos as int, end as int).skip(prefix_len as int)),
    ensures
        ({
            let s = v@.subrange(pos as int, end as int);
            match r {
                Some((d, a, n)) => altered_at(s, prefix_len as int) == Some((d, a as int, n as int)) && 0
                    < n <= s.len(),
                None => altered_at(s, prefix_len as int) is None,
            }
        }),
{
    let ghost s = v@.subrange(pos as int, end as int);
    let ghost rest = s.skip(prefix_len as int);
    let start = pos + prefix_len;
    assert(rest =~= v@.subrange(start as int, end as int));
    let mut p: usize = start;
    let mut alteration: i16 = 0;
    while p < end && (v[p] == '#' || v[p] == 'b' || v[p] == '-')
        invariant
            start <= p <= end <= v.len(),
            start == pos + prefix_len,
            s == v@.subrange(pos as int, end as int),
            rest == v@.subrange(start as int, end as int),
            forall|j: int| start <= j < p ==> alteration_value(#[trigger] v@[j]) is Some,
            alteration_total(rest.take(p - start)) == alteration,
            run_fits(rest),
            -128 <= alteration <= 127,
        decreases end - p,
    {
        assert(rest.take(p + 1 - start).drop_last() =~= rest.take(p - start));
        proof {
            assert forall|k: int| 0 <= k < p + 1 - start implies alteration_value(#[trigger] rest[k]) is Some by {
                assert(rest[k] == v@[start + k]);
            }
            lemma_run_at_least(rest, (p + 1 - start) as nat);
            assert(-128 <= alteration_total(rest.take(p + 1 - start)) <= 127);
        }
        if v[p] == '#' {
            alteration = alteration + 1;
        } else {
            alteration = alteration - 1;
        }
        p = p + 1;
    }
    proof {
        lemma_alteration_run(rest, (p - start) as nat);
        assert(rest.skip(p - start) =~= v@.subrange(p as int, end as int));
    }
    match degree_number(v, p, end) {
        Some((d, n)) => Some((d, alteration as i8, prefix_len + (p - start) + n)),
        None => None,
    }
}

/// Apply the modifier tokens of the comma-free segment `v[start..end]`.
#[verifier::rlimit(60)]
fn apply_segment(q: &mut ChordQuality, v: &Vec<char>, start: usize, end: usize)
    requires
        start <= end <= v.len(),
        segment_fits(v@.subrange(start as int, end as int)),
    ensures
        final(q).parts() == segment_step(old(q).parts(), v@.subrange(start as int, end as int)),
        final(q).raw == old(q).raw,
{
    let ghost target = segment_step(q.parts(), v@.subrange(start as int, end as int));
    let mut p: usize = start;
    while p < end
        invariant
            start <= p <= end <= v.len(),
            segment_fits(v@.subrange(p as int, end as int)),
            target == segment_step(q.parts(), v@.subrange(p as int, end as int)),
            target == segment_step(old(q).parts(), v@.subrange(start as int, end as int)),
            q.raw == old(q).raw,
        decreases end - p,
    {
        let ghost s = v@.subrange(p as int, end as int);
        proof {
            reveal_strlit("sus2");
            reveal_strlit("sus4");
            reveal_strlit("add");
        }
        if matches_in(v, p, end, "sus2") {
            q.class = QualityClass::Suspended2;
            assert(s.skip(4) =~= v@.subrange(p + 4, end as int));
            p = p + 4;
            continue;
        }
        if matches_in(v, p, end, "sus4") {
            q.class = QualityClass::Suspended4;
            assert(s.skip(4) =~= v@.subrange(p + 4, end as int));
            p = p + 4;
            continue;
        }
        if let Some((degree, consumed)) = omission(v, p, end) {
            q.omissions.push(degree);
            assert(s.skip(consumed as int) =~= v@.subrange(p + consumed, end as int));
            p = p + consumed;
            continue;
        }
        if matches_in(v, p, end, "add") {
            if let Some((degree, alteration, consumed)) = altered(v, p, end, 3) {
                q.modifiers.push(DegreeModifier { degree, alteration, kind: ModifierKind::Added });
                assert(s.skip(consumed as int) =~= v@.subrange(p + consumed, end as int));
                p = p + consumed;
                continue;
            }
        }
        assert(s.skip(0) =~= s);
        assert(run_fits(s));
        if let Some((degree, alteration, consumed)) = altered(v, p, end, 0) {
            // An unaltered bare degree in a modifier position is an added tone;
            // only extension bases (`9`, `11`, `13`) imply lower extensions.
            q.modifiers.push(
                DegreeModifier {
                    degree,
                    alteration,
                    kind: if alteration == 0 {
                        ModifierKind::Added
                    } else {
                        ModifierKind::Altered
                    },
                },
            );
            assert(s.skip(consumed as int) =~= v@.subrange(p + consumed, end as int));
            p = p + consumed;
            continue;
        }
        if v[p] == '7' {
            q.seventh = Some(SeventhQuality::Minor);
            assert(s.skip(1) =~= v@.subrange(p + 1, end as int));
            p = p + 1;
            continue;
        }
        // Stop at the first unknown remainder rather than skipping ahead to a
        // later known token.
        let token = string_of(v, p, end);
        let ghost before = q.parts();
        assert(segment_step(before, s) == QualityParts { unknown_tokens: before.unknown_tokens.push(s), ..before });
        q.unknown_tokens.push(token);
        assert(q.unknown_tokens@.map_values(|t: String| t@) =~= before.unknown_tokens.push(s));
        assert(q.parts() =~= QualityParts { unknown_tokens: before.unknown_tokens.push(s), ..before });
        return;
    }
    assert(v@.subrange(end as int, end as int).len() == 0);
}

/// Apply every comma-separated segment of `v[start..]`.
fn apply_modifiers(q: &mut ChordQuality, v: &Vec<char>)
    requires
        modifiers_fit(v@),
    ensures
        final(q).parts() == modifiers_step(old(q).parts(), v@),
        final(q).raw == old(q).raw,
{
    let n = v.len();
    let ghost target = modifiers_step(q.parts(), v@);
    let mut pos: usize = 0;
    assert(v@.subrange(0, n as int) =~= v@);
    while pos < n
        invariant
            pos <= n == v@.len(),
            modifiers_fit(v@.subrange(pos as int, n as int)),
            target == modifiers_step(q.parts(), v@.subrange(pos as int, n as int)),
            q.raw == old(q).raw,
        decreases n - pos,
    {
        if v[pos] == ',' {
            assert(v@.subrange(pos as int, n as int).drop_first() =~= v@.subrange(pos + 1, n as int));
            pos = pos + 1;
            continue;
        }
        let mut end: usize = pos;
        while end < n && v[end] != ','
            invariant
                pos <= end <= n == v@.len(),
                comma_index(v@.subrange(pos as int, n as int)) == (end - pos) + comma_index(
                    v@.subrange(end as int, n as int),
                ),
            decreases n - end,
        {
            assert(v@.subrange(end as int, n as int).drop_first() =~= v@.subrange(end + 1, n as int));
            end = end + 1;
        }
        let ghost s = v@.subrange(pos as int, n as int);
        assert(comma_index(v@.subrange(end as int, n as int)) == 0);
        assert(s.take(end - pos) =~= v@.subrange(pos as int, end as int));
        apply_segment(q, v, pos, end);
        assert(s.take(end - pos) =~= v@.subrange(pos as int, end as int));
        assert(s.skip(end - pos) =~= v@.subrange(end as int, n as int));
        pos = end;
    }
}

fn run_fits_at(v: &Vec<char>, from: usize, end: usize) -> (r: bool)
    requires
        from <= end <= v.len(),
    ensures
        r == run_fits(v@.subrange(from as int, end as int)),
{
    let ghost s = v@.subrange(from as int, end as int);
    let mut p: usize = from;
    let mut total: i32 = 0;
    assert(s.take(0) =~= Seq::<char>::empty());
    while p < end && (v[p] == '#' || v[p] == 'b' || v[p] == '-')
        invariant
            from <= p <= end <= v.len(),
            s == v@.subrange(from as int, end as int),
            forall|j: int| from <= j < p ==> alteration_value(#[trigger] v@[j]) is Some,
            total == alteration_total(s.take(p - from)),
            forall|j: int| 0 <= j <= p - from ==> -128 <= #[trigger] alteration_total(s.take(j)) <= 127,
        decreases end - p,
    {
        assert(s.take(p + 1 - from).drop_last() =~= s.take(p - from));
        assert(s[p - from] == v@[p as int]);
        if v[p] == '#' {
            total = total + 1;
        } else {
            total = total - 1;
        }
        p = p + 1;
        assert(total == alteration_total(s.take(p - from)));
        if total < -128 || total > 127 {
            proof {
                assert forall|k: int| 0 <= k < p - from implies alteration_value(#[trigger] s[k]) is Some by {
                    assert(s[k] == v@[from + k]);
                }
                lemma_run_at_least(s, (p - from) as nat);
                let j = p - from;
                assert(0 <= j <= alteration_run(s) && !(-128 <= alteration_total(s.take(j)) <= 127));
            }
            return false;
        }
    }
    proof {
        assert forall|k: int| 0 <= k < p - from implies alteration_value(#[trigger] s[k]) is Some by {
            assert(s[k] == v@[from + k]);
        }
        lemma_alteration_run(s, (p - from) as nat);
    }
    true
}

fn segment_fits_at(v: &Vec<char>, start: usize, end: usize) -> (r: bool)
    requires
        start <= end <= v.len(),
    ensures
        r == segment_fits(v@.subrange(start as int, end as int)),
{
    let mut p: usize = start;
    while p < end
        invariant
            start <= p <= end <= v.len(),
            segment_fits(v@.subrange(start as int, end as int)) == segment_fits(v@.subrange(p as int, end as int)),
        decreases end - p,
    {
        let ghost s = v@.subrange(p as int, end as int);
        proof {
            reveal_strlit("sus2");
            reveal_strlit("sus4");
            reveal_strlit("add");
        }
        if matches_in(v, p, end, "sus2") || matches_in(v, p, end, "sus4") {
            assert(s.skip(4) =~= v@.subrange(p + 4, end as int));
            p = p + 4;
            continue;
        }
        if let Some((_, consumed)) = omission(v, p, end) {
            assert(s.skip(consumed as int) =~= v@.subrange(p + consumed, end as int));
            p = p + consumed;
            continue;
        }
        if matches_in(v, p, end, "add") {
            assert(s.skip(3) =~= v@.subrange(p + 3, end as int));
            if !run_fits_at(v, p + 3, end) {
                return false;
            }
            if let Some((_, _, consumed)) = altered(v, p, end, 3) {
                assert(s.skip(consumed as int) =~= v@.subrange(p + consumed, end as int));
                p = p + consumed;
                continue;
            }
        }
        if !run_fits_at(v, p, end) {
            return false;
        }
        assert(s.skip(0) =~= s);
        if let Some((_, _, consumed)) = altered(v, p, end, 0) {
            assert(s.skip(consumed as int) =~= v@.subrange(p + consumed, end as int));
            p = p + consumed;
            continue;
        }
        if v[p] == '7' {
            assert(s.skip(1) =~= v@.subrange(p + 1, end as int));
            p = p + 1;
            continue;
        }
        return true;
    }
    true
}

fn modifiers_fit_all(v: &Vec<char>) -> (r: bool)
    ensures
        r == modifiers_fit(v@),
{
    let n = v.len();
    let mut pos: usize = 0;
    assert(v@.subrange(0, n as int) =~= v@);
    while pos < n
        invariant
            pos <= n == v@.len(),
            modifiers_fit(v@) == modifiers_fit(v@.subrange(pos as int, n as int)),
        decreases n - pos,
    {
        if v[pos] == ',' {
            assert(v@.subrange(pos as int, n as int).drop_first() =~= v@.subrange(pos + 1, n as int));
            pos = pos + 1;
            continue;
        }
        let mut end: usize = pos;
        while end < n && v[end] != ','
            invariant
                pos <= end <= n == v@.len(),
                comma_index(v@.subrange(pos as int, n as int)) == (end - pos) + comma_index(
                    v@.subrange(end as int, n as int),
                ),
            decreases n - end,
        {
            assert(v@.subrange(end as int, n as int).drop_first() =~= v@.subrange(end + 1, n as int));
            end = end + 1;
        }
        let ghost s = v@.subrange(pos as int, n as int);
        assert(comma_index(v@.subrange(end as int, n as int)) == 0);
        assert(s.take(end - pos) =~= v@.subrange(pos as int, end as int));
        assert(s.skip(end - pos) =~= v@.subrange(end as int, n as int));
        if !segment_fits_at(v, pos, end) {
            return false;
        }
        pos = end;
    }
    true
}

/// Whether `ChordQuality::parse` accepts the suffix `chars`: every
/// stretch of alterations it reads keeps its running total within `i8`.
pub fn quality_text_fits(chars: &Vec<char>) -> (r: bool)
    ensures
        r == quality_fits(chars@),
{
    let compact = without_char(chars, ' ');
    let start: usize = if compact.len() > 0 && compact[0] == ':' {
        1
    } else {
        0
    };
    let ghost s = semantic_suffix(chars@);
    assert(compact@.skip(start as int) =~= s);
    let (_, _, _, consumed) = parse_base(&compact, start);
    let rest_start = start + consumed;
    let mut normalized: Vec<char> = Vec::new();
    let mut i: usize = rest_start;
    while i < compact.len()
        invariant
            rest_start <= i <= compact.len(),
            normalized@ == parens_to_commas(compact@.subrange(rest_start as int, i as int)),
        decreases compact.len() - i,
    {
        let c = compact[i];
        normalized.push(
            if c == '(' || c == ')' {
                ','
            } else {
                c
            },
        );
        assert(parens_to_commas(compact@.subrange(rest_start as int, i + 1)) =~= parens_to_commas(
            compact@.subrange(rest_start as int, i as int),
        ).push(normalized@.last()));
        i = i + 1;
    }
    assert(compact@.subrange(rest_start as int, compact.len() as int) =~= s.skip(consumed as int));
    modifiers_fit_all(&normalized)
}

impl ChordQuality {
    /// Parse a chord suffix without rejecting unknown notation.
    ///
    /// Unknown fragments are retained in `unknown_tokens`; formula generation
    /// may then decline to guess, while the untouched `raw` text can still be
    /// rendered exactly as written. A stretch of `#`, `b` and `-` that the
    /// parser reads as a modifier's alteration keeps its running total within
    /// `i8` (`quality_text_fits`).
    pub fn parse(raw: &str) -> (r: Self)
        requires
            quality_fits(raw@),
        ensures
            r.raw@ == raw@,
            r.parts() == quality_parts_of(raw@),
    {
        let chars = to_chars(raw);
        Self::from_chars(raw.to_owned(), &chars)
    }

    /// `parse` for a suffix given both as text and as characters.
    pub fn from_chars(raw: String, chars: &Vec<char>) -> (r: Self)
        requires
            raw@ == chars@,
            quality_fits(raw@),
        ensures
            r.raw@ == raw@,
            r.parts() == quality_parts_of(raw@),
    {
        let compact = without_char(chars, ' ');
        let start: usize = if compact.len() > 0 && compact[0] == ':' {
            1
        } else {
            0
        };
        let ghost s = semantic_suffix(raw@);
        assert(compact@.skip(start as int) =~= s);
        let (class, seventh, level, consumed) = parse_base(&compact, start);
        let mut modifiers: Vec<DegreeModifier> = Vec::new();
        push_implied(&mut modifiers, level);
        let mut quality = ChordQuality {
            raw,
            class,
            seventh,
            modifiers,
            omissions: Vec::new(),
            unknown_tokens: Vec::new(),
        };
        assert(quality.unknown_tokens@.map_values(|t: String| t@) =~= Seq::<Seq<char>>::empty());
        let rest_start = start + consumed;
        let mut normalized: Vec<char> = Vec::new();
        let mut i: usize = rest_start;
        while i < compact.len()
            invariant
                rest_start <= i <= compact.len(),
                normalized@ == parens_to_commas(compact@.subrange(rest_start as int, i as int)),
            decreases compact.len() - i,
        {
            let c = compact[i];
            normalized.push(
                if c == '(' || c == ')' {
                    ','
                } else {
                    c
                },
            );
            assert(parens_to_commas(compact@.subrange(rest_start as int, i + 1)) =~= parens_to_commas(
                compact@.subrange(rest_start as int, i as int),
            ).push(normalized@.last()));
            i = i + 1;
        }
        proof {
            assert(compact@.subrange(rest_start as int, compact.len() as int) =~= s.skip(consumed as int));
        }
        apply_modifiers(&mut quality, &normalized);
        quality
    }

    pub fn is_fully_recognized(&self) -> (r: bool)
        ensures
            r == (self.class != QualityClass::Unknown && self.unknown_tokens@.len() == 0),
    {
        !matches!(self.class, QualityClass::Unknown) && self.unknown_tokens.len() == 0
    }
}

/// A leading stretch of `k` alteration characters lies within the run.
proof fn lemma_run_at_least(s: Seq<char>, k: nat)
    requires
        k <= s.len(),
        forall|j: int| 0 <= j < k ==> alteration_value(#[trigger] s[j]) is Some,
    ensures
        k <= alteration_run(s),
    decreases k,
{
    if k > 0 {
        assert forall|j: int| 0 <= j < k - 1 implies alteration_value(#[trigger] s.drop_first()[j]) is Some by {
            assert(s.drop_first()[j] == s[j + 1]);
        }
        assert(alteration_value(s[0]) is Some);
        lemma_run_at_least(s.drop_first(), (k - 1) as nat);
    }
}

proof fn lemma_alteration_run(s: Seq<char>, k: nat)
    requires
        k <= s.len(),
        forall|j: int| 0 <= j < k ==> alteration_value(#[trigger] s[j]) is Some,
        k < s.len() ==> alteration_value(s[k as int]) is None,
    ensures
        alteration_run(s) == k,
    decreases k,
{
    if k > 0 {
        assert forall|j: int| 0 <= j < k - 1 implies alteration_value(#[trigger] s.drop_first()[j]) is Some by {
            assert(s.drop_first()[j] == s[j + 1]);
        }
        if k < s.len() {
            assert(s.drop_first()[k - 1] == s[k as int]);
        }
        lemma_alteration_run(s.drop_first(), (k - 1) as nat);
    }
}

/// Removing a character distributes over concatenation.
pub proof fn lemma_remove_concat(a: Seq<char>, b: Seq<char>, c: char)
    ensures
        remove_char(a + b, c) == remove_char(a, c) + remove_char(b, c),
    decreases b.len(),
{
    if b.len() == 0 {
        assert(a + b =~= a);
        assert(remove_char(a, c) + remove_char(b, c) =~= remove_char(a, c));
    } else {
        assert((a + b).drop_last() =~= a + b.drop_last());
        lemma_remove_concat(a, b.drop_last(), c);
        if b.last() == c {
        } else {
            assert(remove_char(a, c) + remove_char(b, c) =~= (remove_char(a, c) + remove_char(b.drop_last(), c)).push(b.last()));
        }
    }
}

/// A copy of a vector of plain values.
pub fn copy_values<T: Copy>(v: &Vec<T>) -> (r: Vec<T>)
    ensures
        r@ == v@,
{
    let mut r: Vec<T> = Vec::new();
    let mut i: usize = 0;
    while i < v.len()
        invariant
            i <= v.len(),
            r@ == v@.take(i as int),
        decreases v.len() - i,
    {
        r.push(v[i]);
        i = i + 1;
        assert(r@ =~= v@.take(i as int));
    }
    assert(v@.take(v.len() as int) =~= v@);
    r
}

/// A copy of a vector of strings.
pub fn copy_strings(v: &Vec<String>) -> (r: Vec<String>)
    ensures
        r@.map_values(|t: String| t@) == v@.map_values(|t: String| t@),
{
    let mut r: Vec<String> = Vec::new();
    let mut i: usize = 0;
    while i < v.len()
        invariant
            i <= v.len(),
            r@.len() == i,
            forall|k: int| 0 <= k < i ==> (#[trigger] r@[k])@ == v@[k]@,
        decreases v.len() - i,
    {
        r.push(v[i].clone());
        i = i + 1;
    }
    assert(r@.map_values(|t: String| t@) =~= v@.map_values(|t: String| t@));
    r
}

impl ChordQuality {
    /// A copy with the same text and parsed fields.
    pub fn duplicate(&self) -> (r: Self)
        ensures
            r.raw@ == self.raw@,
            r.parts() == self.parts(),
    {
        let r = ChordQuality {
            raw: self.raw.clone(),
            class: self.class,
            seventh: self.seventh,
            modifiers: copy_values(&self.modifiers),
            omissions: copy_values(&self.omissions),
            unknown_tokens: copy_strings(&self.unknown_tokens),
        };
        assert(r.parts() =~= self.parts());
        r
    }
}

/// A leading `:` (a MIDI-marker separator) is ignored: prefixing one to a
/// suffix that does not already start with `:` once spaces are removed
/// leaves its semantic parse unchanged.
pub proof fn lemma_colon_prefix_ignored(s: Seq<char>)
    requires
        !(remove_char(s, ' ').len() > 0 && remove_char(s, ' ')[0] == ':'),
    ensures
        quality_parts_of(seq![':'] + s) == quality_parts_of(s),
        quality_fits(seq![':'] + s) == quality_fits(s),
{
    lemma_remove_concat(seq![':'], s, ' ');
    assert(seq![':'].drop_last() =~= Seq::<char>::empty());
    assert(remove_char(Seq::<char>::empty(), ' ') =~= Seq::<char>::empty());
    assert(remove_char(seq![':'], ' ') =~= seq![':']);
    let compact = remove_char(seq![':'] + s, ' ');
    assert(compact =~= seq![':'] + remove_char(s, ' '));
    assert(compact.drop_first() =~= remove_char(s, ' '));
    assert(semantic_suffix(seq![':'] + s) =~= semantic_suffix(s));
}

} // verus!
