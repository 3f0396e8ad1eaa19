//! Core note representation.
//!
//! `PitchClass` deliberately forgets spelling; `SpelledNote` deliberately
//! preserves it. Analysis compares pitch classes but uses written letters to
//! derive theoretically meaningful Roman degrees and chord-tone spellings.

use vstd::prelude::*;
use crate::error::ParseError;
use crate::text::{is_ws, trim, upper, upper_char, trimmed_chars, push_char, string_of};

verus! {

#[derive(Clone, Copy, Debug, Eq, Hash, PartialEq, Structural)]
/// A sounding pitch modulo octave, always normalized to `0..=11`.
pub struct PitchClass(u8);

impl View for PitchClass {
    type V = int;

    closed spec fn view(&self) -> int {
        self.0 as int
    }
}

/// Two pitch classes are equal exactly when their values are.
pub broadcast proof fn lemma_pitch_class_view_injective(a: PitchClass, b: PitchClass)
    ensures
        #![trigger a@, b@]
        (a@ == b@) <==> a == b,
{
}

impl PitchClass {
    #[verifier::type_invariant]
    pub closed spec fn in_range(self) -> bool {
        self.0 < 12
    }

    /// The pitch class of `value` semitones above C.
    pub fn new(value: u8) -> (r: Self)
        ensures
            r@ == value % 12,
    {
        PitchClass(value % 12)
    }

    pub fn value(self) -> (r: u8)
        ensures
            r == self@,
            r < 12,
    {
        proof {
            use_type_invariant(&self);
        }
        self.0
    }

    /// Transposition by a signed number of semitones.
    pub fn offset(self, semitones: i16) -> (r: Self)
        requires
            i16::MIN <= self@ + semitones <= i16::MAX,
        ensures
            r@ == (self@ + semitones) % 12,
    {
        proof {
            use_type_invariant(&self);
        }
        let shifted: i32 = self.0 as i32 + semitones as i32 + 32772;
        assert(shifted >= 0);
        assert((self@ + semitones + 12 * 2731) % 12 == (self@ + semitones) % 12) by (nonlinear_arith);
        PitchClass((shifted % 12) as u8)
    }

    /// Upward distance in semitones from `reference` to `self`, in `0..12`.
    pub fn distance_from(self, reference: Self) -> (r: u8)
        ensures
            r == (self@ - reference@) % 12,
    {
        proof {
            use_type_invariant(&self);
            use_type_invariant(&reference);
        }
        ((self.0 + 12 - reference.0) % 12) as u8
    }
}

#[derive(Clone, Copy, Debug, Eq, Hash, PartialEq, Structural)]
/// One of the seven diatonic note letters.
pub enum NoteLetter {
    C,
    D,
    E,
    F,
    G,
    A,
    B,
}

/// Position of a letter in `C D E F G A B`.
pub open spec fn letter_index(l: NoteLetter) -> int {
    match l {
        NoteLetter::C => 0,
        NoteLetter::D => 1,
        NoteLetter::E => 2,
        NoteLetter::F => 3,
        NoteLetter::G => 4,
        NoteLetter::A => 5,
        NoteLetter::B => 6,
    }
}

/// The letter at position `i` (taken modulo 7) of `C D E F G A B`.
pub open spec fn letter_at(i: int) -> NoteLetter {
    let k = i % 7;
    if k == 0 {
        NoteLetter::C
    } else if k == 1 {
        NoteLetter::D
    } else if k == 2 {
        NoteLetter::E
    } else if k == 3 {
        NoteLetter::F
    } else if k == 4 {
        NoteLetter::G
    } else if k == 5 {
        NoteLetter::A
    } else {
        NoteLetter::B
    }
}

/// Semitones above C of the unaltered letter.
pub open spec fn natural_semitones(l: NoteLetter) -> int {
    match l {
        NoteLetter::C => 0,
        NoteLetter::D => 2,
        NoteLetter::E => 4,
        NoteLetter::F => 5,
        NoteLetter::G => 7,
        NoteLetter::A => 9,
        NoteLetter::B => 11,
    }
}

pub open spec fn letter_char(l: NoteLetter) -> char {
    match l {
        NoteLetter::C => 'C',
        NoteLetter::D => 'D',
        NoteLetter::E => 'E',
        NoteLetter::F => 'F',
        NoteLetter::G => 'G',
        NoteLetter::A => 'A',
        NoteLetter::B => 'B',
    }
}

/// Letter named by a character, case-insensitively; `H` is the German `B`.
pub open spec fn letter_of_char(c: char) -> Option<NoteLetter> {
    let u = upper(c);
    if u == 'C' {
        Some(NoteLetter::C)
    } else if u == 'D' {
        Some(NoteLetter::D)
    } else if u == 'E' {
        Some(NoteLetter::E)
    } else if u == 'F' {
        Some(NoteLetter::F)
    } else if u == 'G' {
        Some(NoteLetter::G)
    } else if u == 'A' {
        Some(NoteLetter::A)
    } else if u == 'B' || u == 'H' {
        Some(NoteLetter::B)
    } else {
        None
    }
}

pub proof fn lemma_letter_at_index(l: NoteLetter)
    ensures
        letter_at(letter_index(l)) == l,
        0 <= letter_index(l) < 7,
{
}

impl NoteLetter {
    pub const ALL: [NoteLetter; 7] = [
        NoteLetter::C,
        NoteLetter::D,
        NoteLetter::E,
        NoteLetter::F,
        NoteLetter::G,
        NoteLetter::A,
        NoteLetter::B,
    ];

    pub fn parse(value: char) -> (r: Option<Self>)
        ensures
            r == letter_of_char(value),
    {
        let u = upper_char(value);
        if u == 'C' {
            Some(NoteLetter::C)
        } else if u == 'D' {
            Some(NoteLetter::D)
        } else if u == 'E' {
            Some(NoteLetter::E)
        } else if u == 'F' {
            Some(NoteLetter::F)
        } else if u == 'G' {
            Some(NoteLetter::G)
        } else if u == 'A' {
            Some(NoteLetter::A)
        } else if u == 'B' || u == 'H' {
            Some(NoteLetter::B)
        } else {
            None
        }
    }

    pub fn index(self) -> (r: usize)
        ensures
            r == letter_index(self),
            r < 7,
    {
        match self {
            NoteLetter::C => 0,
            NoteLetter::D => 1,
            NoteLetter::E => 2,
            NoteLetter::F => 3,
            NoteLetter::G => 4,
            NoteLetter::A => 5,
            NoteLetter::B => 6,
        }
    }

    pub fn natural_pitch_class(self) -> (r: PitchClass)
        ensures
            r@ == natural_semitones(self),
    {
        PitchClass::new(
            match self {
                NoteLetter::C => 0,
                NoteLetter::D => 2,
                NoteLetter::E => 4,
                NoteLetter::F => 5,
                NoteLetter::G => 7,
                NoteLetter::A => 9,
                NoteLetter::B => 11,
            },
        )
    }

    /// The letter `steps` diatonic steps above `self`.
    pub fn shift(self, steps: usize) -> (r: Self)
        requires
            letter_index(self) + steps <= usize::MAX,
        ensures
            r == letter_at(letter_index(self) + steps),
    {
        let k = (self.index() + steps) % 7;
        if k == 0 {
            NoteLetter::C
        } else if k == 1 {
            NoteLetter::D
        } else if k == 2 {
            NoteLetter::E
        } else if k == 3 {
            NoteLetter::F
        } else if k == 4 {
            NoteLetter::G
        } else if k == 5 {
            NoteLetter::A
        } else {
            NoteLetter::B
        }
    }

    pub fn as_char(self) -> (r: char)
        ensures
            r == letter_char(self),
    {
        match self {
            NoteLetter::C => 'C',
            NoteLetter::D => 'D',
            NoteLetter::E => 'E',
            NoteLetter::F => 'F',
            NoteLetter::G => 'G',
            NoteLetter::A => 'A',
            NoteLetter::B => 'B',
        }
    }
}

#[derive(Clone, Copy, Debug, Eq, Hash, PartialEq, Structural)]
/// Written note identity: diatonic letter plus an accidental count.
pub struct SpelledNote {
    pub letter: NoteLetter,
    pub accidental: i8,
}

/// Signed value of one accidental character, if it is one.
pub open spec fn accidental_char_value(c: char) -> Option<int> {
    if c == '#' {
        Some(1)
    } else if c == 'b' || c == 'B' {
        Some(-1)
    } else if c == 'x' || c == 'X' {
        Some(2)
    } else {
        None
    }
}

/// Total of a run of accidental characters; `None` when any is not one.
pub open spec fn accidental_total(s: Seq<char>) -> Option<int>
    decreases s.len(),
{
    if s.len() == 0 {
        Some(0)
    } else {
        match (accidental_total(s.drop_last()), accidental_char_value(s.last())) {
            (Some(a), Some(b)) => Some(a + b),
            _ => None,
        }
    }
}

/// The letter and accidental written by an already-trimmed note token, or
/// `None` when the token is not a note.
///
/// `H` alone is accepted as `B`; any other token starting with `H` is refused.
pub open spec fn note_syntax(t: Seq<char>) -> Option<(NoteLetter, int)> {
    if t.len() == 0 {
        None
    } else if t.len() == 1 && upper(t[0]) == 'H' {
        Some((NoteLetter::B, 0))
    } else if upper(t[0]) == 'H' {
        None
    } else {
        match (letter_of_char(t[0]), accidental_total(t.drop_first())) {
            (Some(l), Some(a)) => Some((l, a)),
            _ => None,
        }
    }
}

pub open spec fn fits_i8(v: int) -> bool {
    i8::MIN <= v <= i8::MAX
}

/// The note `SpelledNote::parse` returns for a token, if it succeeds.
pub open spec fn parsed_note(token: Seq<char>) -> Option<SpelledNote> {
    match note_syntax(trim(token)) {
        Some((l, a)) => if fits_i8(a) {
            Some(SpelledNote { letter: l, accidental: a as i8 })
        } else {
            None
        },
        None => None,
    }
}

/// The outcome of `SpelledNote::parse` on `token`: the parsed note, or the
/// error naming the trimmed token (`InvalidNote` for bad syntax,
/// `AccidentalOutOfRange` when the accidental does not fit in `i8`).
pub open spec fn note_parse_outcome(token: Seq<char>, r: Result<SpelledNote, ParseError>) -> bool {
    let t = trim(token);
    match r {
        Ok(n) => parsed_note(token) == Some(n),
        Err(ParseError::InvalidNote(s)) => s@ == t && note_syntax(t) is None,
        Err(ParseError::AccidentalOutOfRange(s)) => s@ == t && match note_syntax(t) {
            Some((_, a)) => !fits_i8(a),
            None => false,
        },
        Err(_) => false,
    }
}

/// `n` copies of `c`.
pub open spec fn repeat_char(c: char, n: nat) -> Seq<char> {
    Seq::new(n, |i: int| c)
}

/// Accidental suffix: `#` repeated for sharps, `b` repeated for flats.
pub open spec fn accidental_text(a: int) -> Seq<char> {
    if a >= 0 {
        repeat_char('#', a as nat)
    } else {
        repeat_char('b', (-a) as nat)
    }
}

/// The written form of a note, e.g. `F##` or `Bb`.
pub open spec fn note_text(n: SpelledNote) -> Seq<char> {
    seq![letter_char(n.letter)] + accidental_text(n.accidental as int)
}

/// Appends the accidental suffix for `accidental` to `s`.
pub fn push_accidentals(s: &mut String, accidental: i8)
    ensures
        final(s)@ == old(s)@ + accidental_text(accidental as int),
{
    let ghost start = s@;
    let (symbol, count): (char, u8) = if accidental >= 0 {
        ('#', accidental as u8)
    } else {
        ('b', (-(accidental as i16)) as u8)
    };
    let mut i: u8 = 0;
    while i < count
        invariant
            i <= count,
            count as int == (if accidental >= 0 { accidental as int } else { -accidental }),
            symbol == (if accidental >= 0 { '#' } else { 'b' }),
            s@ == start + repeat_char(symbol, i as nat),
        decreases count - i,
    {
        push_char(s, symbol);
        assert(repeat_char(symbol, (i + 1) as nat) =~= repeat_char(symbol, i as nat).push(symbol));
        i = i + 1;
    }
    assert(accidental_text(accidental as int) =~= repeat_char(symbol, count as nat));
}

impl SpelledNote {
    pub fn new(letter: NoteLetter, accidental: i8) -> (r: Self)
        ensures
            r == (SpelledNote { letter, accidental }),
    {
        SpelledNote { letter, accidental }
    }

    pub open spec fn spec_pitch_class(self) -> int {
        (natural_semitones(self.letter) + self.accidental) % 12
    }

    /// Parse a written note such as `C`, `Bbb`, `F##`, `Fx` or `h`.
    ///
    /// Surrounding whitespace is ignored; `b`/`B` lower, `#` raises and
    /// `x`/`X` raises by two.
    pub fn parse(token: &str) -> (r: Result<Self, ParseError>)
        ensures
            note_parse_outcome(token@, r),
    {
        let t = trimmed_chars(token);
        proof {
            crate::text::lemma_trim_idempotent(token@);
        }
        Self::parse_trimmed(&t)
    }

    /// `parse` for a token that is already trimmed.
    pub fn parse_trimmed(t: &Vec<char>) -> (r: Result<Self, ParseError>)
        requires
            trim(t@) == t@,
        ensures
            note_parse_outcome(t@, r),
    {
        let n = t.len();
        assert(t@.subrange(0, n as int) =~= t@);
        if n == 0 {
            return Err(ParseError::InvalidNote(string_of(&t, 0, 0)));
        }
        let first_upper = upper_char(t[0]);
        if n == 1 && first_upper == 'H' {
            return Ok(SpelledNote::new(NoteLetter::B, 0));
        }
        if first_upper == 'H' {
            return Err(ParseError::InvalidNote(string_of(&t, 0, n)));
        }
        let letter = match NoteLetter::parse(t[0]) {
            Some(letter) => letter,
            None => {
                return Err(ParseError::InvalidNote(string_of(&t, 0, n)));
            },
        };
        let mut accidental: i128 = 0;
        let mut i: usize = 1;
        while i < n
            invariant
                1 <= i <= n == t@.len(),
                t@ == trim(t@),
                t@.subrange(0, n as int) == t@,
                upper(t@[0]) != 'H',
                letter_of_char(t@[0]) == Some(letter),
                accidental_total(t@.subrange(1, i as int)) == Some(accidental as int),
                -2 * (i as int) <= accidental <= 2 * (i as int),
            decreases n - i,
        {
            let c = t[i];
            assert(t@.subrange(1, i + 1).drop_last() =~= t@.subrange(1, i as int));
            if c == '#' {
                accidental = accidental + 1;
            } else if c == 'b' || c == 'B' {
                accidental = accidental - 1;
            } else if c == 'x' || c == 'X' {
                accidental = accidental + 2;
            } else {
                proof {
                    lemma_accidental_total_prefix_none(t@.drop_first(), (i - 1) as nat);
                    let d = t@.drop_first();
                    assert(accidental_total(d.subrange(0, d.len() as int)) is None);
                    assert(d.subrange(0, d.len() as int) =~= d);
                }
                return Err(ParseError::InvalidNote(string_of(&t, 0, n)));
            }
            i = i + 1;
        }
        assert(t@.subrange(1, n as int) =~= t@.drop_first());
        if accidental < -128 || accidental > 127 {
            return Err(ParseError::AccidentalOutOfRange(string_of(&t, 0, n)));
        }
        Ok(SpelledNote::new(letter, accidental as i8))
    }

    pub fn pitch_class(self) -> (r: PitchClass)
        ensures
            r@ == self.spec_pitch_class(),
    {
        self.letter.natural_pitch_class().offset(self.accidental as i16)
    }

    /// Written form, e.g. `F##`; `x` input is rendered as `##`.
    pub fn to_string(&self) -> (r: String)
        ensures
            r@ == note_text(*self),
    {
        let mut s = String::new();
        push_char(&mut s, self.letter.as_char());
        push_accidentals(&mut s, self.accidental);
        s
    }
}

/// Once a prefix of an accidental run is invalid, so is every extension.
pub proof fn lemma_accidental_total_prefix_none(s: Seq<char>, k: nat)
    requires
        k < s.len(),
        accidental_char_value(s[k as int]) is None,
    ensures
        accidental_total(s.subrange(0, k + 1 as int)) is None,
        forall|m: int| k < m <= s.len() ==> #[trigger] accidental_total(s.subrange(0, m)) is None,
{
    assert(s.subrange(0, k + 1 as int).drop_last() =~= s.subrange(0, k as int));
    assert forall|m: int| k < m <= s.len() implies #[trigger] accidental_total(s.subrange(0, m)) is None by {
        lemma_accidental_total_none_extends(s, k, m as nat);
    }
}

proof fn lemma_accidental_total_none_extends(s: Seq<char>, k: nat, m: nat)
    requires
        k < m <= s.len(),
        accidental_char_value(s[k as int]) is None,
    ensures
        accidental_total(s.subrange(0, m as int)) is None,
    decreases m - k,
{
    assert(s.subrange(0, m as int).drop_last() =~= s.subrange(0, m - 1));
    if m > k + 1 {
        lemma_accidental_total_none_extends(s, k, (m - 1) as nat);
    }
}

/// A run of `n` copies of one accidental character totals `n` times its value.
pub proof fn lemma_accidental_total_repeat(c: char, n: nat)
    requires
        accidental_char_value(c) is Some,
    ensures
        accidental_total(repeat_char(c, n)) == Some(n * accidental_char_value(c)->0),
    decreases n,
{
    let v = accidental_char_value(c)->0;
    if n > 0 {
        let s = repeat_char(c, n);
        assert(s.drop_last() =~= repeat_char(c, (n - 1) as nat));
        assert(s.last() == c);
        lemma_accidental_total_repeat(c, (n - 1) as nat);
        assert(n * v == (n - 1) * v + v) by (nonlinear_arith);
        assert(accidental_total(s) == Some((n - 1) * v + v));
    } else {
        assert(repeat_char(c, n).len() == 0);
    }
}

/// Law: the written form of any note parses back to the same note.
pub proof fn lemma_note_text_round_trip(n: SpelledNote)
    ensures
        parsed_note(note_text(n)) == Some(n),
        forall|r: Result<SpelledNote, ParseError>| #[trigger] note_parse_outcome(note_text(n), r) ==> r == Ok::<SpelledNote, ParseError>(n),
{
    let t = note_text(n);
    let a = n.accidental as int;
    let suffix = accidental_text(a);
    assert(t.drop_first() =~= suffix);
    if a >= 0 {
        lemma_accidental_total_repeat('#', a as nat);
        let m: nat = a as nat;
        assert(accidental_char_value('#') == Some(1int));
        assert(suffix == repeat_char('#', m));
        assert(accidental_total(repeat_char('#', m)) == Some(m * 1int));
        assert(accidental_total(suffix) == Some(a));
    } else {
        lemma_accidental_total_repeat('b', (-a) as nat);
        let m: nat = (-a) as nat;
        assert(accidental_char_value('b') == Some(-1int));
        assert(suffix == repeat_char('b', m));
        assert(accidental_total(repeat_char('b', m)) == Some(m * (-1)));
        assert(m * (-1) == a);
        assert(accidental_total(suffix) == Some(a));
    }
    assert(t[0] == letter_char(n.letter));
    assert(!is_ws(t[0]));
    if suffix.len() > 0 {
        assert(t.last() == suffix.last());
        assert(t.last() == '#' || t.last() == 'b');
    }
    lemma_text_is_trimmed(t);
    assert(upper(t[0]) == t[0]);
    assert(letter_of_char(t[0]) == Some(n.letter));
    assert(note_syntax(t) == Some((n.letter, a)));
}

/// A note's written form has no surrounding whitespace.
proof fn lemma_text_is_trimmed(t: Seq<char>)
    requires
        t.len() > 0,
        !is_ws(t[0]),
        !is_ws(t.last()),
    ensures
        trim(t) == t,
{
}

} // verus!
