//! Chord-symbol parser.
//!
//! Parsing is lossless at the notation boundary: root, quality, slash bass,
//! and the original lexemes are retained. Semantic validation of the quality
//! happens later, so unknown suffixes round-trip without pretending they
//! describe a known major chord.

use vstd::prelude::*;
use crate::domain::chord::{ParsedChord, ParsedSymbol};
use crate::domain::note::{parsed_note, SpelledNote};
use crate::domain::quality::{
    quality_fits, quality_parts_of, quality_text_fits, ChordQuality,
};
use crate::error::ParseError;
use crate::text::{
    capitalized, capitalized_string, equals_str, find_char, index_of_char, is_ws,
    lemma_trim_idempotent, lemma_trim_of_unpadded, lemma_trim_shape, remove_char, slice_chars, string_of, to_chars,
    trim, trim_bounds, trim_range, upper_chars, upper_seq, without_char,
};

verus! {

/// Text compared against `NC` / `NOCHORD`: dots and spaces removed, ASCII
/// upper-cased.
pub open spec fn no_chord_key(text: Seq<char>) -> Seq<char> {
    upper_seq(remove_char(remove_char(text, '.'), ' '))
}

pub open spec fn is_no_chord_text(text: Seq<char>) -> bool {
    no_chord_key(text) == "NC"@ || no_chord_key(text) == "NOCHORD"@
}

/// Characters that may follow the root letter as part of the root token.
pub open spec fn is_root_accidental(c: char) -> bool {
    c == '#' || c == 'b' || c == 'B' || c == 'x' || c == 'X'
}

pub open spec fn root_accidental_run(s: Seq<char>) -> nat
    decreases s.len(),
{
    if s.len() > 0 && is_root_accidental(s[0]) {
        1 + root_accidental_run(s.drop_first())
    } else {
        0
    }
}

/// Length of the root token of a non-empty body: the first character and the
/// accidentals that immediately follow it.
pub open spec fn root_token_len(body: Seq<char>) -> int {
    1 + root_accidental_run(body.drop_first()) as int
}

/// The part of the trimmed symbol before the first slash.
pub open spec fn body_of(text: Seq<char>) -> Seq<char> {
    text.take(index_of_char(text, '/'))
}

/// The trimmed text after the first slash, if there is a slash.
pub open spec fn bass_token_of(text: Seq<char>) -> Option<Seq<char>> {
    let i = index_of_char(text, '/');
    if i < text.len() {
        Some(trim(text.skip(i + 1)))
    } else {
        None
    }
}

/// The chord that a valid symbol describes.
pub open spec fn chord_fields(c: ParsedChord, text: Seq<char>) -> bool {
    let body = trim(body_of(text));
    let k = root_token_len(body);
    let root_token = body.take(k);
    let quality = body.skip(k);
    &&& c.original_symbol@ == text
    &&& parsed_note(root_token) == Some(c.root)
    &&& c.root_lexeme@ == capitalized(root_token)
    &&& c.quality@ == quality
    &&& c.quality_parsed.raw@ == quality
    &&& c.quality_parsed.parts() == quality_parts_of(quality)
    &&& match bass_token_of(text) {
        Some(b) => c.bass == parsed_note(b) && (c.bass_lexeme matches Some(l) && l@ == capitalized(b)),
        None => c.bass is None && c.bass_lexeme is None,
    }
}

/// The outcome of `parse_chord(symbol)`.
///
/// After trimming: an empty symbol is `EmptyInput`; `N.C.`, `NC`, `No Chord`
/// (any case, dots and spaces ignored) is a no-chord marker; otherwise the
/// first slash separates an optional bass note, and the body is a root note
/// followed by a raw quality suffix. A bad bass is `InvalidBass`, a bad or
/// missing root `InvalidRoot`, each naming the offending trimmed token.
pub open spec fn parse_chord_outcome(symbol: Seq<char>, r: Result<ParsedSymbol, ParseError>) -> bool {
    let text = trim(symbol);
    if text.len() == 0 {
        r == Err::<ParsedSymbol, ParseError>(ParseError::EmptyInput)
    } else if is_no_chord_text(text) {
        r matches Ok(ParsedSymbol::NoChord { original_symbol }) && original_symbol@ == text
    } else if bass_token_of(text) is Some && parsed_note(bass_token_of(text)->0) is None {
        r matches Err(ParseError::InvalidBass(s)) && s@ == bass_token_of(text)->0
    } else {
        let body = trim(body_of(text));
        let root_token = body.take(root_token_len(body));
        if body.len() == 0 {
            r matches Err(ParseError::InvalidRoot(s)) && s@ == body
        } else if parsed_note(root_token) is None {
            r matches Err(ParseError::InvalidRoot(s)) && s@ == root_token
        } else {
            r matches Ok(ParsedSymbol::Chord(c)) && chord_fields(c, text)
        }
    }
}

proof fn lemma_root_run(s: Seq<char>, k: nat)
    requires
        k <= s.len(),
        forall|j: int| 0 <= j < k ==> is_root_accidental(#[trigger] s[j]),
        k < s.len() ==> !is_root_accidental(s[k as int]),
    ensures
        root_accidental_run(s) == k,
    decreases k,
{
    if k > 0 {
        assert forall|j: int| 0 <= j < k - 1 implies is_root_accidental(#[trigger] s.drop_first()[j]) by {
            assert(s.drop_first()[j] == s[j + 1]);
        }
        if k < s.len() {
            assert(s.drop_first()[k - 1] == s[k as int]);
        }
        lemma_root_run(s.drop_first(), (k - 1) as nat);
    }
}

/// The quality text that parsing reaches: present when the trimmed symbol is
/// neither empty, a no-chord marker, nor has a bad bass or root.
pub open spec fn parsed_quality_text(symbol: Seq<char>) -> Option<Seq<char>> {
    let text = trim(symbol);
    let body = trim(body_of(text));
    let k = root_token_len(body);
    if text.len() == 0 || is_no_chord_text(text) || (bass_token_of(text) is Some && parsed_note(
        bass_token_of(text)->0,
    ) is None) || body.len() == 0 || parsed_note(body.take(k)) is None {
        None
    } else {
        Some(body.skip(k))
    }
}

/// The quality text that parsing reaches, if any, meets `quality_fits`:
/// every stretch of alterations its parser reads fits `i8`.
pub open spec fn chord_symbol_fits(symbol: Seq<char>) -> bool {
    parsed_quality_text(symbol) matches Some(q) ==> quality_fits(q)
}

/// The pieces of a symbol that names a chord, before its quality is parsed.
struct SymbolScan {
    text: Vec<char>,
    root: SpelledNote,
    root_chars: Vec<char>,
    quality_chars: Vec<char>,
    bass: Option<SpelledNote>,
    bass_lexeme: Option<String>,
}

/// Trim a symbol and split it into root, quality text and bass; a symbol
/// that names no chord comes back as its final outcome.
#[verifier::rlimit(40)]
fn scan_symbol(symbol: &str) -> (r: Result<SymbolScan, Result<ParsedSymbol, ParseError>>)
    ensures
        match r {
            Err(outcome) => parse_chord_outcome(symbol@, outcome) && parsed_quality_text(symbol@) is None,
            Ok(sc) => {
                let text = trim(symbol@);
                let body = trim(body_of(text));
                let k = root_token_len(body);
                &&& sc.text@ == text
                &&& parsed_quality_text(symbol@) == Some(sc.quality_chars@)
                &&& text.len() != 0
                &&& !is_no_chord_text(text)
                &&& body.len() != 0
                &&& sc.root_chars@ == body.take(k)
                &&& sc.quality_chars@ == body.skip(k)
                &&& parsed_note(body.take(k)) == Some(sc.root)
                &&& match bass_token_of(text) {
                    Some(bt) => parsed_note(bt) is Some && sc.bass == parsed_note(bt) && (sc.bass_lexeme matches Some(
                        l,
                    ) && l@ == capitalized(bt)),
                    None => sc.bass is None && sc.bass_lexeme is None,
                }
            },
        },
{
    let all = to_chars(symbol);
    let (a, b) = trim_bounds(&all);
    let text = slice_chars(&all, a, b);
    let n = text.len();
    if n == 0 {
        return Err(Err(ParseError::EmptyInput));
    }
    assert(text@.subrange(0, n as int) =~= text@);
    let key = upper_chars(&without_char(&without_char(&text, '.'), ' '));
    if equals_str(&key, "NC") || equals_str(&key, "NOCHORD") {
        return Err(Ok(ParsedSymbol::NoChord { original_symbol: string_of(&text, 0, n) }));
    }
    // The first slash is the structural separator. A second slash stays in
    // the bass token, which then fails note parsing rather than being dropped.

    let slash = find_char(&text, 0, '/');
    let mut bass: Option<SpelledNote> = None;
    let mut bass_lexeme: Option<String> = None;
    if slash < n {
        let (ba, bb) = trim_range(&text, slash + 1, n);
        let bass_chars = slice_chars(&text, ba, bb);
        assert(text@.subrange(slash + 1, n as int) =~= text@.skip(slash + 1));
        proof {
            lemma_trim_idempotent(text@.skip(slash + 1));
        }
        assert(bass_token_of(text@) == Some(bass_chars@));
        match SpelledNote::parse_trimmed(&bass_chars) {
            Ok(note) => {
                bass = Some(note);
                bass_lexeme = Some(capitalized_string(&bass_chars));
            },
            Err(_) => {
                assert(parsed_note(bass_chars@) is None);
                assert(bass_chars@.subrange(0, bass_chars.len() as int) =~= bass_chars@);
                return Err(Err(ParseError::InvalidBass(string_of(&bass_chars, 0, bass_chars.len()))));
            },
        }
    }
    assert(bass_token_of(text@) is Some ==> parsed_note(bass_token_of(text@)->0) is Some);
    assert(match bass_token_of(text@) {
        Some(bt) => bass == parsed_note(bt) && (bass_lexeme matches Some(l) && l@ == capitalized(bt)),
        None => bass is None && bass_lexeme is None,
    });
    assert(text@.subrange(0, slash as int) =~= body_of(text@));
    let (ra, rb) = trim_range(&text, 0, slash);
    let ghost body = trim(body_of(text@));
    assert(text@.subrange(ra as int, rb as int) == body);
    if ra == rb {
        assert(body =~= Seq::<char>::empty());
        return Err(Err(ParseError::InvalidRoot(String::new())));
    }
    // A root token is one note letter followed by contiguous accidentals;
    // the quality starts at the first other character.
    let mut root_end: usize = ra + 1;
    while root_end < rb && (text[root_end] == '#' || text[root_end] == 'b' || text[root_end] == 'B'
        || text[root_end] == 'x' || text[root_end] == 'X')
        invariant
            ra < root_end <= rb <= text.len(),
            forall|j: int| ra + 1 <= j < root_end ==> is_root_accidental(#[trigger] text@[j]),
        decreases rb - root_end,
    {
        root_end = root_end + 1;
    }
    proof {
        let tail = body.drop_first();
        assert(tail =~= text@.subrange(ra + 1, rb as int));
        assert forall|j: int| 0 <= j < root_end - ra - 1 implies is_root_accidental(#[trigger] tail[j]) by {
            assert(tail[j] == text@[ra + 1 + j]);
        }
        if root_end < rb {
            assert(tail[root_end - ra - 1] == text@[root_end as int]);
        }
        lemma_root_run(tail, (root_end - ra - 1) as nat);
    }
    let root_chars = slice_chars(&text, ra, root_end);
    assert(root_chars@ =~= body.take(root_token_len(body)));
    proof {
        lemma_trim_shape(body_of(text@));
        assert(!is_ws(body[0]));
        assert(root_chars@[0] == body[0]);
        if root_chars.len() > 1 {
            assert(is_root_accidental(root_chars@.last()));
        }
        lemma_trim_of_unpadded(root_chars@);
    }
    let root = match SpelledNote::parse_trimmed(&root_chars) {
        Ok(note) => note,
        Err(_) => {
            assert(parsed_note(root_chars@) is None);
            assert(root_chars@.subrange(0, root_chars.len() as int) =~= root_chars@);
            assert(body.len() != 0);
            return Err(Err(ParseError::InvalidRoot(string_of(&root_chars, 0, root_chars.len()))));
        },
    };
    assert(root_chars@.subrange(0, root_chars.len() as int) =~= root_chars@);
    let quality_chars = slice_chars(&text, root_end, rb);
    assert(quality_chars@ =~= body.skip(root_token_len(body)));
    Ok(SymbolScan { text, root, root_chars, quality_chars, bass, bass_lexeme })
}

/// Whether `parse_chord` accepts `symbol`: its quality text, if parsing
/// reaches one, keeps every alteration within the `i8` range.
pub fn symbol_alterations_fit(symbol: &str) -> (r: bool)
    ensures
        r == chord_symbol_fits(symbol@),
{
    match scan_symbol(symbol) {
        Err(_) => true,
        Ok(sc) => quality_text_fits(&sc.quality_chars),
    }
}

/// Parse a chord, N.C. marker, or other supported progression symbol.
///
/// The parser does not create boundaries; callers add those with
/// `ProgressionItem::boundary` because a long silence cannot be inferred from
/// the text `N.C.` alone. The quality text may not hold a stretch of
/// alterations that runs past the `i8` range (`symbol_alterations_fit`).
pub fn parse_chord(symbol: &str) -> (r: Result<ParsedSymbol, ParseError>)
    requires
        chord_symbol_fits(symbol@),
    ensures
        parse_chord_outcome(symbol@, r),
{
    let sc = match scan_symbol(symbol) {
        Ok(sc) => sc,
        Err(outcome) => {
            return outcome;
        },
    };
    let SymbolScan { text, root, root_chars, quality_chars, bass, bass_lexeme } = sc;
    let n = text.len();
    assert(text@.subrange(0, n as int) =~= text@);
    let ghost body = trim(body_of(text@));
    assert(root_chars@.subrange(0, root_chars.len() as int) =~= root_chars@);
    let root_lexeme = capitalized_string(&root_chars);
    let quality = string_of(&quality_chars, 0, quality_chars.len());
    assert(quality_chars@.subrange(0, quality_chars.len() as int) =~= quality_chars@);
    let quality_parsed = ChordQuality::from_chars(string_of(&quality_chars, 0, quality_chars.len()), &quality_chars);
    Ok(
        ParsedSymbol::Chord(
            ParsedChord {
                original_symbol: string_of(&text, 0, n),
                root,
                root_lexeme,
                quality,
                quality_parsed,
                bass,
                bass_lexeme,
            },
        ),
    )
}

} // verus!
