use chord_romanizer::analysis::blackadder::analyze_blackadder;
use chord_romanizer::analysis::context::progression_fits_of;
use chord_romanizer::domain::quality::quality_text_fits;
use chord_romanizer::parser::symbol_alterations_fit;
use chord_romanizer::structure::quality_alterations_fit;
use chord_romanizer::{
    parse_chord, BehaviorProfile, BlackadderContext, ChordQuality, ParseError, ParsedChord, ParsedSymbol,
    ProgressionItem, RomanDegree,
};

fn chord(symbol: &str) -> ParsedChord {
    match parse_chord(symbol).unwrap() {
        ParsedSymbol::Chord(chord) => chord,
        _ => panic!("expected a chord"),
    }
}

fn item(symbol: &str) -> ProgressionItem {
    ProgressionItem::new(parse_chord(symbol).unwrap())
}

#[test]
fn roman_degree_text_reads_back_exactly() {
    let all = [
        RomanDegree::I,
        RomanDegree::Ii,
        RomanDegree::Iii,
        RomanDegree::Iv,
        RomanDegree::V,
        RomanDegree::Vi,
        RomanDegree::Vii,
    ];
    for degree in all {
        assert_eq!(RomanDegree::parse(degree.as_str()), Some(degree));
    }
    assert_eq!(RomanDegree::parse("iv"), None);
    assert_eq!(RomanDegree::parse("VIII"), None);
    assert_eq!(RomanDegree::parse(""), None);
}

#[test]
fn leading_colon_does_not_change_a_quality() {
    for suffix in ["m7", "7(b9)", "maj7#11", "sus4", "dim7", "m7-5"] {
        let plain = ChordQuality::parse(suffix);
        let marked = ChordQuality::parse(&format!(":{suffix}"));
        assert_eq!(marked.raw, format!(":{suffix}"));
        assert_eq!(marked.class, plain.class);
        assert_eq!(marked.seventh, plain.seventh);
        assert_eq!(marked.modifiers, plain.modifiers);
        assert_eq!(marked.omissions, plain.omissions);
        assert_eq!(marked.unknown_tokens, plain.unknown_tokens);
    }
}

#[test]
fn blackadder_readings_keep_the_shape() {
    let exact = chord("Eaug/D");
    let readings = analyze_blackadder(&exact, BlackadderContext::default(), BehaviorProfile::StrictV1);
    assert!(readings.len() >= 5);
    for reading in &readings {
        let i = &reading.interpretation;
        assert_eq!(i.written_upper_root, exact.root);
        assert_eq!(i.canonical_bass.pitch_class().value(), exact.bass.unwrap().pitch_class().value());
        assert_eq!(i.canonical_upper_root.pitch_class().distance_from(i.canonical_bass.pitch_class()), 6);
    }
    let no_bass = chord("Eaug");
    assert!(analyze_blackadder(&no_bass, BlackadderContext::default(), BehaviorProfile::StrictV1).is_empty());
    let other_shape = chord("Eaug/C");
    assert!(analyze_blackadder(&other_shape, BlackadderContext::default(), BehaviorProfile::StrictV1).is_empty());
}

#[test]
fn blackadder_needs_no_bound_without_the_exact_shape() {
    let sharps = "#".repeat(120);
    let symbol = format!("C({sharps}13)");
    let c = chord(&symbol);
    assert!(!quality_alterations_fit(&c.quality_parsed));
    assert!(analyze_blackadder(&c, BlackadderContext::default(), BehaviorProfile::StrictV1).is_empty());
}

#[test]
fn alteration_bound_covers_only_the_quality_text() {
    let root_sharps = format!("C{}", "#".repeat(200));
    assert!(symbol_alterations_fit(&root_sharps));
    assert!(matches!(parse_chord(&root_sharps), Err(ParseError::InvalidRoot(_))));

    let bad_bass = format!("C7({}9)/Q", "#".repeat(200));
    assert!(symbol_alterations_fit(&bad_bass));
    assert!(matches!(parse_chord(&bad_bass), Err(ParseError::InvalidBass(_))));

    let long_quality = format!("C7({}9)", "#".repeat(200));
    assert!(!symbol_alterations_fit(&long_quality));
    assert!(symbol_alterations_fit("C7(#9)"));
    assert!(symbol_alterations_fit("N.C."));
}

#[test]
fn alteration_stretches_are_bounded_where_the_parser_reads_them() {
    let chars = |text: String| -> Vec<char> { text.chars().collect() };
    assert!(quality_text_fits(&chars(format!("({}9)", "#".repeat(127)))));
    assert!(!quality_text_fits(&chars(format!("({}9)", "#".repeat(128)))));
    assert!(quality_text_fits(&chars(format!("({}9)", "b".repeat(128)))));
    assert!(!quality_text_fits(&chars(format!("({}9)", "-".repeat(129)))));
    // A run after an unknown token is never read.
    let behind_unknown = format!("q{}", "#".repeat(200));
    assert!(quality_text_fits(&chars(behind_unknown.clone())));
    let parsed = ChordQuality::parse(&behind_unknown);
    assert_eq!(parsed.unknown_tokens, [behind_unknown.clone()]);
    let symbol = format!("C{behind_unknown}");
    assert!(symbol_alterations_fit(&symbol));
    assert_eq!(chord(&symbol).quality_parsed.unknown_tokens, [behind_unknown]);
    // An `add` reads its own run, and a bare member reads its run too.
    assert!(!quality_text_fits(&chars(format!("add{}9", "#".repeat(130)))));
    // A run is bounded by its running total, not by its length.
    assert!(quality_text_fits(&chars(format!("({}{}9)", "#".repeat(100), "b".repeat(100)))));
}

#[test]
fn progression_bound_applies_to_strict_slash_chords() {
    let sharps = "#".repeat(120);
    let plain = item(&format!("C({sharps}13)"));
    let slashed = item(&format!("C({sharps}13)/E"));
    let ordinary = [item("Dm7"), item("G7/B"), item("C")];
    assert!(progression_fits_of(&ordinary, BehaviorProfile::StrictV1));
    assert!(progression_fits_of(&[plain.clone(), item("G7")], BehaviorProfile::StrictV1));
    assert!(!progression_fits_of(&[item("G7"), slashed.clone()], BehaviorProfile::StrictV1));
    assert!(progression_fits_of(&[slashed], BehaviorProfile::Python019));
}
