//! Chord-symbol parsing, spelling and Roman-numeral analysis.
//!
//! Symbols such as `C#m7/G#` are parsed losslessly, spelled against a key,
//! and turned into Roman numerals; the underlying music theory (pitch
//! classes, written spellings, scale degrees, chord formulas) and the local
//! interpretation of slash chords are exposed as verified building blocks.

pub mod text;
pub mod error;
pub mod profile;
pub mod domain;
pub mod parser;
pub mod speller;
pub mod structure;
pub mod formatter;
pub mod analysis;
pub mod romanizer;
pub mod display;

pub use analysis::interpreter;
pub use analysis::blackadder::{
    BlackadderContext, BlackadderFunction, BlackadderInterpretation, BlackadderObservationKind,
    BlackadderObservations, BlackadderOrigin, BlackadderScale, BlackadderStructure, TritoneSpelling,
    WholeToneCollection,
};
pub use analysis::evidence::ScoreEvidence;
pub use analysis::lattice::{
    AnalysisLattice, AnalysisPath, CandidateConstraint, CandidateLayer, CandidateTransition, InterpretationCandidate,
    InterpretationKind, PathSelection,
};
pub use display::AnalysisDisplay;
pub use analysis::harmony::{
    DominantRelation, HarmonicClassification, HarmonicInterpretation, HarmonicRole, HarmonicSource, InterpretationFamily,
    TonalMode, TonalPerspective, TonalScope,
};
pub use analysis::interpreter::{
    ChordInterpreter, FunctionalRole, HybridAnalysis, HybridCandidate, HybridKind, SlashClassification,
};
pub use domain::chord::{ParsedChord, ParsedSymbol, ProgressionItem};
pub use domain::degree::{Degree, RomanDegree};
pub use domain::note::{NoteLetter, PitchClass, SpelledNote};
pub use domain::quality::{
    ChordDegree, ChordQuality, DegreeModifier, ModifierKind, QualityClass, SeventhQuality,
};
pub use error::{AnalysisError, ParseError};
pub use analysis::key::{GlobalKeyRequest, KeyAnalysisOptions, KeyedAnalysisPath, KeyedPathSelection, TonalKey};
pub use analysis::memory::{
    CadentialSpan, HarmonicResolution, HarmonicResolutionKind, PendingPredominant, PendingResolution,
};
pub use analysis::modulation::{ModulationCadence, ModulationMechanism, ModulationSpan, PivotChord, PivotKind};
pub use parser::parse_chord;
pub use profile::{BehaviorProfile, KeyBoundaryPolicy, NoChordPolicy};
pub use romanizer::{
    AlternateKind, AlternateLabel, AnnotatedEvent, ChordLabels, FunctionalInterpretation, ResolutionType, RomanizedChord,
    Romanizer, RomanizerOptions,
};
