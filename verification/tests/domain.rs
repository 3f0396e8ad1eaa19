use chord_romanizer::{
    ChordDegree, ChordQuality, Degree, ModifierKind, NoteLetter, ParseError, ParsedChord,
    ParsedSymbol, PitchClass, QualityClass, RomanDegree, SeventhQuality, SpelledNote, parse_chord,
};

fn chord(symbol: &str) -> ParsedChord {
    match parse_chord(symbol).unwrap() {
        ParsedSymbol::Chord(chord) => chord,
        ParsedSymbol::NoChord { .. } | ParsedSymbol::Boundary { .. } => {
            panic!("expected a chord")
        }
    }
}

#[test]
fn parses_repeated_accidentals_and_x() {
    assert_eq!(SpelledNote::parse("Bbb").unwrap().pitch_class().value(), 9);
    assert_eq!(SpelledNote::parse("F##").unwrap().pitch_class().value(), 7);
    assert_eq!(SpelledNote::parse("Fx").unwrap().to_string(), "F##");
}

#[test]
fn pitch_class_distance_wraps() {
    assert_eq!(PitchClass::new(0).distance_from(PitchClass::new(1)), 11);
}

#[test]
fn degree_round_trip() {
    for value in ["I", "#IV", "bbIII", "VII"] {
        assert_eq!(Degree::parse(value).unwrap().to_string(), value);
    }
}

#[test]
fn parses_altered_tensions_without_inventing_natural_nine() {
    let quality = ChordQuality::parse("7(b9,#11)");
    assert_eq!(quality.class, QualityClass::Major);
    assert_eq!(quality.seventh, Some(SeventhQuality::Minor));
    assert_eq!(quality.modifiers.len(), 2);
    assert_eq!(quality.modifiers[0].degree, ChordDegree::Ninth);
    assert_eq!(quality.modifiers[0].alteration, -1);
    assert_eq!(quality.modifiers[1].degree, ChordDegree::Eleventh);
    assert_eq!(quality.modifiers[1].alteration, 1);
    assert!(quality.is_fully_recognized());
}

#[test]
fn distinguishes_add_nine_from_extended_nine() {
    let add_nine = ChordQuality::parse("add9");
    assert_eq!(add_nine.seventh, None);
    assert_eq!(add_nine.modifiers[0].kind, ModifierKind::Added);

    let dominant_nine = ChordQuality::parse("9");
    assert_eq!(dominant_nine.seventh, Some(SeventhQuality::Minor));
    assert_eq!(dominant_nine.modifiers[0].kind, ModifierKind::Implied);
}

#[test]
fn parses_suspension_and_omission() {
    let quality = ChordQuality::parse("7sus4(omit5)");
    assert_eq!(quality.class, QualityClass::Suspended4);
    assert_eq!(quality.omissions, [ChordDegree::Fifth]);
    assert!(quality.is_fully_recognized());
}

#[test]
fn parses_midi_marker_quality_spellings_without_losing_raw_text() {
    for raw in [
        ":m7", ":aug", ":M7", ":m7-5", ":7", ":m7(9)", ":m", ":dim7", ":sus4", ":dim",
        ":7(b9)", ":7(b13)", ":7(13)", ":M7(9)", ":7-5", ":6", ":7sus4", ":7(9,13)", ":m7(11)",
        ":7(9)", ":mM7",
    ] {
        assert!(
            ChordQuality::parse(raw).is_fully_recognized(),
            "MIDI marker quality should be recognized: {raw}"
        );
    }

    let dominant = ChordQuality::parse(":7");
    assert_eq!(dominant.raw, ":7");
    assert_eq!(dominant.class, QualityClass::Major);
    assert_eq!(dominant.seventh, Some(SeventhQuality::Minor));
    assert!(dominant.is_fully_recognized());

    let flat_five = ChordQuality::parse(":7-5");
    assert_eq!(flat_five.raw, ":7-5");
    assert!(flat_five.modifiers.iter().any(|modifier| {
        modifier.degree == ChordDegree::Fifth && modifier.alteration == -1
    }));
    assert!(flat_five.is_fully_recognized());

    let minor_major = ChordQuality::parse(":mM7");
    assert_eq!(minor_major.raw, ":mM7");
    assert_eq!(minor_major.class, QualityClass::Minor);
    assert_eq!(minor_major.seventh, Some(SeventhQuality::Major));
    assert!(minor_major.is_fully_recognized());
}

#[test]
fn parses_root_quality_and_bass() {
    let parsed = chord("C#m7/G#");
    assert_eq!(parsed.root.to_string(), "C#");
    assert_eq!(parsed.quality, "m7");
    assert_eq!(parsed.bass.unwrap().to_string(), "G#");
}

#[test]
fn preserves_double_accidental_lexemes() {
    assert_eq!(chord("Bbb7").root_lexeme, "Bbb");
    assert_eq!(chord("F##m7").root_lexeme, "F##");
    assert_eq!(chord("C7/Bbb").bass_lexeme.as_deref(), Some("Bbb"));
}

#[test]
fn recognizes_no_chord() {
    assert!(matches!(
        parse_chord("N.C.").unwrap(),
        ParsedSymbol::NoChord { .. }
    ));
}

#[test]
fn rejects_invalid_bass() {
    assert!(matches!(
        parse_chord("C/G/Db"),
        Err(ParseError::InvalidBass(_))
    ));
}

#[test]
fn parser_handles_a_deterministic_fuzz_corpus_without_panics() {
    let accidentals = ["", "b", "#", "bb", "##", "x"];
    let qualities = ["", "m", "7", "M7", "maj7", "m7", "m7-5", "dim", "+"];
    let basses = [None, Some("C"), Some("F#"), Some("Bbb")];

    for letter in NoteLetter::ALL {
        for accidental in accidentals {
            for quality in qualities {
                for bass in basses {
                    let slash = bass.map_or_else(String::new, |bass| format!("/{bass}"));
                    let symbol = format!("{}{accidental}{quality}{slash}", letter.as_char());
                    let parsed = parse_chord(&symbol)
                        .unwrap_or_else(|error| panic!("failed to parse {symbol}: {error:?}"));
                    assert!(matches!(parsed, ParsedSymbol::Chord(_)));
                }
            }
        }
    }

    for invalid in ["", "/", "Q7", "C/", "C/Huh", "C/G/Db", "♭C"] {
        assert!(
            parse_chord(invalid).is_err(),
            "accepted invalid input {invalid}"
        );
    }
}

#[test]
fn parser_scenarios_from_python_suite_are_covered() {
    let cases = [
        ("C", "C", "", None),
        ("C#m7/G#", "C#", "m7", Some("G#")),
        ("F", "F", "", None),
        ("F#m7-5", "F#", "m7-5", None),
        ("G7/B", "G", "7", Some("B")),
        ("Db/F", "Db", "", Some("F")),
        ("Bbb7", "Bbb", "7", None),
        ("F##m7", "F##", "m7", None),
    ];
    for (symbol, root, quality, bass) in cases {
        let ParsedSymbol::Chord(chord) = parse_chord(symbol).unwrap() else {
            panic!("expected chord for {symbol}");
        };
        assert_eq!(chord.root_lexeme, root, "root for {symbol}");
        assert_eq!(chord.quality, quality, "quality for {symbol}");
        assert_eq!(chord.bass_lexeme.as_deref(), bass, "bass for {symbol}");
    }

    let ParsedSymbol::Chord(chord) = parse_chord("C7/Bbb").unwrap() else {
        panic!("expected slash chord");
    };
    assert_eq!(chord.bass_lexeme.as_deref(), Some("Bbb"));
}

#[test]
fn only_plain_h_is_accepted_as_a_legacy_b_alias() {
    let parsed = chord("H7");
    assert_eq!(parsed.root.to_string(), "B");
    assert!(parse_chord("Hb7").is_err());
    assert!(parse_chord("H#7").is_err());
}

#[test]
fn parser_symbol_variant_is_used() {
    assert!(matches!(parse_chord("C").unwrap(), ParsedSymbol::Chord(_)));
}

#[test]
fn degree_letters_and_indices_agree() {
    for (index, degree) in RomanDegree::ALL.iter().enumerate() {
        assert_eq!(degree.index(), index);
        assert_eq!(RomanDegree::from_index(index), Some(*degree));
        assert_eq!(RomanDegree::parse(degree.as_str()), Some(*degree));
    }
    assert_eq!(RomanDegree::from_index(7), None);
    for (index, letter) in NoteLetter::ALL.iter().enumerate() {
        assert_eq!(letter.index(), index);
        assert_eq!(NoteLetter::parse(letter.as_char()), Some(*letter));
    }
    assert_eq!(NoteLetter::parse('h'), Some(NoteLetter::B));
    assert_eq!(NoteLetter::C.shift(9), NoteLetter::E);
}

#[test]
fn alterations_are_bounded_per_token_not_per_symbol() {
    let suffix = "(#9)".repeat(128);
    let symbol = format!("C7{suffix}");
    match chord_romanizer::parse_chord(&symbol).unwrap() {
        chord_romanizer::ParsedSymbol::Chord(c) => {
            assert_eq!(c.quality_parsed.modifiers.len(), 128);
            assert!(c.quality_parsed.modifiers.iter().all(|m| m.alteration == 1));
        }
        _ => panic!("expected a chord"),
    }
}
