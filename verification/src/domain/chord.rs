//! Parsed chord and progression-event domain types.

use vstd::prelude::*;
use crate::domain::note::SpelledNote;
use crate::domain::quality::ChordQuality;

verus! {

#[derive(Clone, Debug, Eq, PartialEq)]
/// Lossless chord AST with both raw and structured quality views.
pub struct ParsedChord {
    pub original_symbol: String,
    pub root: SpelledNote,
    pub root_lexeme: String,
    pub quality: String,
    pub quality_parsed: ChordQuality,
    pub bass: Option<SpelledNote>,
    pub bass_lexeme: Option<String>,
}

#[derive(Clone, Debug, Eq, PartialEq)]
/// A timeline symbol. Boundaries are explicit because N.C. alone does not
/// reveal whether a silence is long enough to break harmonic context.
pub enum ParsedSymbol {
    Chord(ParsedChord),
    NoChord { original_symbol: String },
    Boundary { label: Option<String> },
}

#[derive(Clone, Debug, Eq, PartialEq)]
/// One symbol plus an optional per-event tonic override.
pub struct ProgressionItem {
    pub symbol: ParsedSymbol,
    pub tonic: Option<SpelledNote>,
}

impl ProgressionItem {
    pub fn new(symbol: ParsedSymbol) -> (r: Self)
        ensures
            r.symbol == symbol,
            r.tonic is None,
    {
        ProgressionItem { symbol, tonic: None }
    }

    pub fn in_key(symbol: ParsedSymbol, tonic: SpelledNote) -> (r: Self)
        ensures
            r.symbol == symbol,
            r.tonic == Some(tonic),
    {
        ProgressionItem { symbol, tonic: Some(tonic) }
    }

    /// An unconditional context boundary such as a section break or a
    /// caller-confirmed long silence.
    pub fn boundary(label: &str) -> (r: Self)
        ensures
            r.symbol matches ParsedSymbol::Boundary { label: Some(l) } && l@ == label@,
            r.tonic is None,
    {
        ProgressionItem { symbol: ParsedSymbol::Boundary { label: Some(label.to_owned()) }, tonic: None }
    }

    pub fn chord(&self) -> (r: Option<&ParsedChord>)
        ensures
            match self.symbol {
                ParsedSymbol::Chord(c) => r == Some(&c),
                _ => r is None,
            },
    {
        match &self.symbol {
            ParsedSymbol::Chord(chord) => Some(chord),
            ParsedSymbol::NoChord { .. } => None,
            ParsedSymbol::Boundary { .. } => None,
        }
    }

    pub fn is_boundary(&self) -> (r: bool)
        ensures
            r == (self.symbol is Boundary),
    {
        match &self.symbol {
            ParsedSymbol::Boundary { .. } => true,
            _ => false,
        }
    }
}

pub open spec fn lexeme_of(l: Option<String>) -> Option<Seq<char>> {
    match l {
        Some(s) => Some(s@),
        None => None,
    }
}

/// Two chords with the same text, spellings and parsed quality.
pub open spec fn same_chord(a: ParsedChord, b: ParsedChord) -> bool {
    &&& a.original_symbol@ == b.original_symbol@
    &&& a.root == b.root
    &&& a.root_lexeme@ == b.root_lexeme@
    &&& a.quality@ == b.quality@
    &&& a.quality_parsed.raw@ == b.quality_parsed.raw@
    &&& a.quality_parsed.parts() == b.quality_parsed.parts()
    &&& a.bass == b.bass
    &&& lexeme_of(a.bass_lexeme) == lexeme_of(b.bass_lexeme)
}

/// Two chords heard alike as a continuation: same root spelling, quality
/// text, class and seventh.
pub open spec fn heard_alike(a: ParsedChord, b: ParsedChord) -> bool {
    &&& a.root == b.root
    &&& a.quality@ == b.quality@
    &&& a.quality_parsed.class == b.quality_parsed.class
    &&& a.quality_parsed.seventh == b.quality_parsed.seventh
}

impl ParsedChord {
    /// A copy with the same text, spellings and parsed quality.
    pub fn duplicate(&self) -> (r: Self)
        ensures
            same_chord(r, *self),
    {
        ParsedChord {
            original_symbol: self.original_symbol.clone(),
            root: self.root,
            root_lexeme: self.root_lexeme.clone(),
            quality: self.quality.clone(),
            quality_parsed: self.quality_parsed.duplicate(),
            bass: self.bass,
            bass_lexeme: match &self.bass_lexeme {
                Some(l) => Some(l.clone()),
                None => None,
            },
        }
    }
}

} // verus!
