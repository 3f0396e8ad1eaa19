//! Rendering of Roman numerals and chord symbols.
//!
//! This module owns syntax only: it never decides a spelling, it writes the
//! spelling it is given.

use vstd::prelude::*;
use crate::domain::degree::sharp_flat_run;
use crate::domain::degree::{degree_text, Degree};
use crate::domain::note::{note_text, SpelledNote};
use crate::text::{is_prefix, upper, upper_char, to_chars, push_char, matches_at, string_of, append_chars};

verus! {

/// `s` with every non-overlapping occurrence of `p` (scanning left to right)
/// replaced by `r`.
pub open spec fn replace_all(s: Seq<char>, p: Seq<char>, r: Seq<char>) -> Seq<char>
    decreases s.len(),
{
    if s.len() == 0 {
        s
    } else if p.len() > 0 && is_prefix(p, s) {
        r + replace_all(s.skip(p.len() as int), p, r)
    } else {
        seq![s[0]] + replace_all(s.skip(1), p, r)
    }
}

/// Quality text as displayed next to a Roman numeral: `maj7` and `ma7` are
/// both shown as `M7`.
pub open spec fn display_quality(quality: Seq<char>) -> Seq<char> {
    replace_all(replace_all(quality, "maj7"@, "M7"@), "ma7"@, "M7"@)
}

proof fn lemma_replace_pass(c: char, s: Seq<char>, p: Seq<char>, r: Seq<char>)
    requires
        p.len() > 0,
        !is_prefix(p, seq![c] + s),
    ensures
        replace_all(seq![c] + s, p, r) == seq![c] + replace_all(s, p, r),
{
    assert((seq![c] + s).skip(1) =~= s);
}

proof fn lemma_replace_hit(s: Seq<char>, p: Seq<char>, r: Seq<char>)
    requires
        p.len() > 0,
    ensures
        replace_all(p + s, p, r) == r + replace_all(s, p, r),
{
    assert((p + s).subrange(0, p.len() as int) =~= p);
    assert((p + s).skip(p.len() as int) =~= s);
}

/// A major seventh is displayed as `M7` however it is spelled: a quality
/// that starts with `ma7`, `maj7` or `M7` shows `M7` followed by the display
/// of the rest, so the three spellings give one and the same label; in
/// particular `ma7` is never shown as the minor seventh `m7`.
pub proof fn lemma_major_seventh_spellings_display_alike(rest: Seq<char>)
    ensures
        display_quality("ma7"@ + rest) == "M7"@ + display_quality(rest),
        display_quality("maj7"@ + rest) == "M7"@ + display_quality(rest),
        display_quality("M7"@ + rest) == "M7"@ + display_quality(rest),
        display_quality("ma7"@ + rest) == display_quality("maj7"@ + rest),
{
    reveal_strlit("ma7");
    reveal_strlit("maj7");
    reveal_strlit("M7");
    let j = "maj7"@;
    let a = "ma7"@;
    let m = "M7"@;
    let r1 = replace_all(rest, j, m);
    // First pass (`maj7`): `ma7` and `M7` pass through, `maj7` becomes `M7`.
    assert(!is_prefix(j, seq!['7'] + rest)) by {
        if is_prefix(j, seq!['7'] + rest) {
            assert((seq!['7'] + rest).subrange(0, 4)[0] == '7');
        }
    }
    lemma_replace_pass('7', rest, j, m);
    assert(!is_prefix(j, seq!['a'] + (seq!['7'] + rest))) by {
        if is_prefix(j, seq!['a'] + (seq!['7'] + rest)) {
            assert((seq!['a'] + (seq!['7'] + rest)).subrange(0, 4)[0] == 'a');
        }
    }
    lemma_replace_pass('a', seq!['7'] + rest, j, m);
    assert(!is_prefix(j, seq!['m'] + (seq!['a'] + (seq!['7'] + rest)))) by {
        if is_prefix(j, seq!['m'] + (seq!['a'] + (seq!['7'] + rest))) {
            assert((seq!['m'] + (seq!['a'] + (seq!['7'] + rest))).subrange(0, 4)[2] == '7');
        }
    }
    lemma_replace_pass('m', seq!['a'] + (seq!['7'] + rest), j, m);
    assert(a + rest =~= seq!['m'] + (seq!['a'] + (seq!['7'] + rest)));
    assert(replace_all(a + rest, j, m) =~= a + r1);
    lemma_replace_hit(rest, j, m);
    assert(!is_prefix(j, seq!['M'] + (seq!['7'] + rest))) by {
        if is_prefix(j, seq!['M'] + (seq!['7'] + rest)) {
            assert((seq!['M'] + (seq!['7'] + rest)).subrange(0, 4)[0] == 'M');
        }
    }
    lemma_replace_pass('M', seq!['7'] + rest, j, m);
    assert(m + rest =~= seq!['M'] + (seq!['7'] + rest));
    assert(replace_all(m + rest, j, m) =~= m + r1);
    // Second pass (`ma7`): `ma7` becomes `M7`, `M7` passes through.
    lemma_replace_hit(r1, a, m);
    assert(!is_prefix(a, seq!['7'] + r1)) by {
        if is_prefix(a, seq!['7'] + r1) {
            assert((seq!['7'] + r1).subrange(0, 3)[0] == '7');
        }
    }
    lemma_replace_pass('7', r1, a, m);
    assert(!is_prefix(a, seq!['M'] + (seq!['7'] + r1))) by {
        if is_prefix(a, seq!['M'] + (seq!['7'] + r1)) {
            assert((seq!['M'] + (seq!['7'] + r1)).subrange(0, 3)[0] == 'M');
        }
    }
    lemma_replace_pass('M', seq!['7'] + r1, a, m);
    assert(m + r1 =~= seq!['M'] + (seq!['7'] + r1));
}

/// `v` with the occurrences of `p` replaced by `r`.
fn replace_chars(v: &Vec<char>, p: &str, r: &str) -> (out: Vec<char>)
    requires
        p@.len() > 0,
    ensures
        out@ == replace_all(v@, p@, r@),
{
    let rv = to_chars(r);
    let plen = p.unicode_len();
    let mut out: Vec<char> = Vec::new();
    let mut i: usize = 0;
    assert(out@ + replace_all(v@.skip(0), p@, r@) =~= replace_all(v@, p@, r@)) by {
        assert(v@.skip(0) =~= v@);
    }
    while i < v.len()
        invariant
            i <= v.len(),
            plen == p@.len() > 0,
            rv@ == r@,
            out@ + replace_all(v@.skip(i as int), p@, r@) == replace_all(v@, p@, r@),
        decreases v.len() - i,
    {
        let ghost rest = v@.skip(i as int);
        if matches_at(v, i, p) {
            assert(is_prefix(p@, rest)) by {
                assert(v@.subrange(i as int, i + p@.len()) =~= rest.subrange(0, p@.len() as int));
            }
            assert(rest.skip(p@.len() as int) =~= v@.skip(i + plen));
            let mut k: usize = 0;
            let ghost before = out@;
            while k < rv.len()
                invariant
                    k <= rv.len(),
                    out@ == before + rv@.subrange(0, k as int),
                decreases rv.len() - k,
            {
                out.push(rv[k]);
                assert(rv@.subrange(0, k + 1) =~= rv@.subrange(0, k as int).push(rv@[k as int]));
                k = k + 1;
            }
            assert(rv@.subrange(0, rv@.len() as int) =~= rv@);
            assert(out@ + replace_all(v@.skip(i + plen), p@, r@) =~= before + replace_all(rest, p@, r@));
            i = i + plen;
        } else {
            assert(!is_prefix(p@, rest)) by {
                if is_prefix(p@, rest) {
                    assert(v@.subrange(i as int, i + p@.len()) =~= rest.subrange(0, p@.len() as int));
                }
            }
            assert(rest.skip(1) =~= v@.skip(i + 1));
            let ghost before = out@;
            out.push(v[i]);
            assert(out@ + replace_all(v@.skip(i + 1), p@, r@) =~= before + replace_all(rest, p@, r@));
            i = i + 1;
        }
    }
    assert(v@.skip(i as int) =~= Seq::<char>::empty());
    out
}

/// `degree` followed by the display form of `quality`, e.g. `bVIIM7`.
pub fn format_roman(degree: Degree, quality: &str) -> (r: String)
    ensures
        r@ == degree_text(degree) + display_quality(quality@),
{
    let q = to_chars(quality);
    proof {
        reveal_strlit("maj7");
        reveal_strlit("ma7");
    }
    let once = replace_chars(&q, "maj7", "M7");
    let twice = replace_chars(&once, "ma7", "M7");
    let mut r = degree.to_string();
    append_chars(&mut r, &twice, 0, twice.len());
    assert(twice@.subrange(0, twice@.len() as int) =~= twice@);
    r
}

/// `t` with a leading `head` replaced by `new_head`; otherwise unchanged.
pub open spec fn with_prefix_replaced(t: Seq<char>, head: Seq<char>, new_head: Seq<char>) -> Seq<char> {
    if is_prefix(head, t) {
        new_head + t.skip(head.len() as int)
    } else {
        t
    }
}

/// Text rewritten by replacing the written root and, after the first `/`,
/// the written bass, each only where it is the leading text of its part.
pub open spec fn rewritten_symbol(
    symbol: Seq<char>,
    root_old: Seq<char>,
    root_new: Option<SpelledNote>,
    bass_old: Option<Seq<char>>,
    bass_new: Option<SpelledNote>,
) -> Seq<char> {
    let rewritten = match root_new {
        Some(n) => with_prefix_replaced(symbol, root_old, note_text(n)),
        None => symbol,
    };
    match (bass_old, bass_new) {
        (Some(old_text), Some(n)) => if rewritten.contains('/') {
            let slash = crate::text::index_of_char(rewritten, '/');
            rewritten.subrange(0, slash + 1) + with_prefix_replaced(
                rewritten.skip(slash + 1),
                old_text,
                note_text(n),
            )
        } else {
            rewritten
        },
        _ => rewritten,
    }
}

/// Whether `v[from..]` starts with `p`.
fn starts_with_at(v: &Vec<char>, from: usize, p: &Vec<char>) -> (r: bool)
    requires
        from <= v.len(),
    ensures
        r == is_prefix(p@, v@.skip(from as int)),
{
    if p.len() > v.len() - from {
        return false;
    }
    let mut k: usize = 0;
    while k < p.len()
        invariant
            k <= p.len() <= v.len() - from,
            forall|j: int| 0 <= j < k ==> v@[from + j] == p@[j],
        decreases p.len() - k,
    {
        if v[from + k] != p[k] {
            assert(v@.skip(from as int).subrange(0, p@.len() as int)[k as int] != p@[k as int]);
            return false;
        }
        k = k + 1;
    }
    assert(v@.skip(from as int).subrange(0, p@.len() as int) =~= p@);
    true
}

/// Appends `note`'s written form to `s`.
fn push_note(s: &mut String, note: SpelledNote)
    ensures
        final(s)@ == old(s)@ + note_text(note),
{
    let t = note.to_string();
    s.append(t.as_str());
}

/// Replaces the leading `head` of `v[from..]` by `note`, appending the
/// result to `s`.
fn push_replaced(s: &mut String, v: &Vec<char>, from: usize, head: &Vec<char>, note: SpelledNote)
    requires
        from <= v.len(),
    ensures
        final(s)@ == old(s)@ + with_prefix_replaced(v@.skip(from as int), head@, note_text(note)),
{
    if starts_with_at(v, from, head) {
        push_note(s, note);
        append_chars(s, v, from + head.len(), v.len());
        assert(v@.skip(from as int).skip(head@.len() as int) =~= v@.subrange(from + head@.len(), v@.len() as int));
    } else {
        append_chars(s, v, from, v.len());
        assert(v@.skip(from as int) =~= v@.subrange(from as int, v@.len() as int));
    }
}

/// Python019 rendering: edit the original text in place.
pub fn rewrite_symbol(
    symbol: &str,
    root_old: &str,
    root_new: Option<SpelledNote>,
    bass_old: Option<&str>,
    bass_new: Option<SpelledNote>,
) -> (r: String)
    ensures
        r@ == rewritten_symbol(
            symbol@,
            root_old@,
            root_new,
            match bass_old {
                Some(b) => Some(b@),
                None => None,
            },
            bass_new,
        ),
{
    let sv = to_chars(symbol);
    let root_chars = to_chars(root_old);
    let mut rewritten = String::new();
    match root_new {
        Some(n) => push_replaced(&mut rewritten, &sv, 0, &root_chars, n),
        None => {
            append_chars(&mut rewritten, &sv, 0, sv.len());
        },
    }
    assert(sv@.skip(0) =~= sv@);
    assert(sv@.subrange(0, sv@.len() as int) =~= sv@);
    let (old_text, n) = match (bass_old, bass_new) {
        (Some(b), Some(n)) => (b, n),
        _ => {
            return rewritten;
        },
    };
    let rv = to_chars(rewritten.as_str());
    let slash = crate::text::find_char(&rv, 0, '/');
    assert(rv@.subrange(0, rv@.len() as int) =~= rv@);
    if slash == rv.len() {
        assert(!rv@.contains('/'));
        return rewritten;
    }
    assert(rv@.contains('/'));
    let bass_chars = to_chars(old_text);
    let mut out = string_of(&rv, 0, slash + 1);
    push_replaced(&mut out, &rv, slash + 1, &bass_chars, n);
    out
}

/// Symbol rendered from parsed fields: root, quality text and optional bass.
pub open spec fn rendered_symbol(root: SpelledNote, quality: Seq<char>, bass: Option<SpelledNote>) -> Seq<char> {
    match bass {
        Some(b) => note_text(root) + quality + seq!['/'] + note_text(b),
        None => note_text(root) + quality,
    }
}

pub fn render_symbol(root: SpelledNote, quality: &str, bass: Option<SpelledNote>) -> (r: String)
    ensures
        r@ == rendered_symbol(root, quality@, bass),
{
    let mut r = root.to_string();
    r.append(quality);
    if let Some(b) = bass {
        push_char(&mut r, '/');
        push_note(&mut r, b);
    }
    r
}

/// Length of the note name at the start of `t`: a letter `A`-`G` in either
/// case followed by `#`/`b` characters.
pub open spec fn note_name_len(t: Seq<char>) -> Option<nat> {
    if t.len() > 0 && 'A' <= upper(t[0]) && upper(t[0]) <= 'G' {
        Some(1 + sharp_flat_run(t.skip(1)))
    } else {
        None
    }
}

/// Split `text` into a leading note name and the rest.
pub fn split_note_and_suffix(text: &str) -> (r: Option<(String, String)>)
    ensures
        match note_name_len(text@) {
            Some(n) => r matches Some((head, tail)) && head@ == text@.subrange(0, n as int) && tail@
                == text@.skip(n as int),
            None => r is None,
        },
{
    let t = to_chars(text);
    if t.len() == 0 {
        return None;
    }
    let first = upper_char(t[0]);
    if !('A' <= first && first <= 'G') {
        return None;
    }
    let mut end: usize = 1;
    while end < t.len() && (t[end] == '#' || t[end] == 'b')
        invariant
            1 <= end <= t.len(),
            sharp_flat_run(t@.skip(1)) == (end - 1) + sharp_flat_run(t@.skip(end as int)),
        decreases t.len() - end,
    {
        assert(t@.skip(end as int).drop_first() =~= t@.skip(end + 1));
        end = end + 1;
    }
    assert(sharp_flat_run(t@.skip(end as int)) == 0) by {
        if end < t.len() {
            assert(t@.skip(end as int)[0] == t@[end as int]);
        }
    }
    assert(t@.skip(end as int) =~= t@.subrange(end as int, t@.len() as int));
    Some((string_of(&t, 0, end), string_of(&t, end, t.len())))
}

} // verus!
