//! Roman scale degrees with chromatic alteration.

use vstd::prelude::*;
use crate::domain::note::{accidental_text, fits_i8, push_accidentals, repeat_char};
use crate::text::{matches_at, to_chars};

verus! {

#[derive(Clone, Copy, Debug, Eq, Hash, PartialEq, Structural)]
pub enum RomanDegree {
    I,
    Ii,
    Iii,
    Iv,
    V,
    Vi,
    Vii,
}

pub open spec fn roman_index(d: RomanDegree) -> int {
    match d {
        RomanDegree::I => 0,
        RomanDegree::Ii => 1,
        RomanDegree::Iii => 2,
        RomanDegree::Iv => 3,
        RomanDegree::V => 4,
        RomanDegree::Vi => 5,
        RomanDegree::Vii => 6,
    }
}

/// The degree at position `i` (`0..7`) of the major scale.
pub open spec fn roman_at(i: int) -> RomanDegree {
    if i == 0 {
        RomanDegree::I
    } else if i == 1 {
        RomanDegree::Ii
    } else if i == 2 {
        RomanDegree::Iii
    } else if i == 3 {
        RomanDegree::Iv
    } else if i == 4 {
        RomanDegree::V
    } else if i == 5 {
        RomanDegree::Vi
    } else {
        RomanDegree::Vii
    }
}

pub open spec fn roman_text(d: RomanDegree) -> Seq<char> {
    match d {
        RomanDegree::I => "I"@,
        RomanDegree::Ii => "II"@,
        RomanDegree::Iii => "III"@,
        RomanDegree::Iv => "IV"@,
        RomanDegree::V => "V"@,
        RomanDegree::Vi => "VI"@,
        RomanDegree::Vii => "VII"@,
    }
}

/// The degree spelled exactly by `s` in upper-case Roman numerals.
pub open spec fn roman_of(s: Seq<char>) -> Option<RomanDegree> {
    if s == "I"@ {
        Some(RomanDegree::I)
    } else if s == "II"@ {
        Some(RomanDegree::Ii)
    } else if s == "III"@ {
        Some(RomanDegree::Iii)
    } else if s == "IV"@ {
        Some(RomanDegree::Iv)
    } else if s == "V"@ {
        Some(RomanDegree::V)
    } else if s == "VI"@ {
        Some(RomanDegree::Vi)
    } else if s == "VII"@ {
        Some(RomanDegree::Vii)
    } else {
        None
    }
}

pub proof fn lemma_roman_index(d: RomanDegree)
    ensures
        roman_at(roman_index(d)) == d,
        0 <= roman_index(d) < 7,
{
}

pub open spec fn is_sharp_or_flat(c: char) -> bool {
    c == '#' || c == 'b'
}

/// Length of the leading run of `#`/`b` characters.
pub open spec fn sharp_flat_run(s: Seq<char>) -> nat
    decreases s.len(),
{
    if s.len() > 0 && is_sharp_or_flat(s[0]) {
        1 + sharp_flat_run(s.drop_first())
    } else {
        0
    }
}

/// Net alteration of a run of `#`/`b` characters.
pub open spec fn sharp_flat_total(s: Seq<char>) -> int
    decreases s.len(),
{
    if s.len() == 0 {
        0
    } else {
        sharp_flat_total(s.drop_last()) + if s.last() == '#' {
            1int
        } else {
            -1int
        }
    }
}

/// What `Degree::parse` returns: leading `#`/`b` accidentals followed by an
/// upper-case Roman numeral.
pub open spec fn parsed_degree(s: Seq<char>) -> Option<Degree> {
    let k = sharp_flat_run(s);
    let a = sharp_flat_total(s.take(k as int));
    match roman_of(s.skip(k as int)) {
        Some(d) => if fits_i8(a) {
            Some(Degree { accidental: a as i8, degree: d })
        } else {
            None
        },
        None => None,
    }
}

/// Written form such as `bbIII` or `#IV`.
pub open spec fn degree_text(d: Degree) -> Seq<char> {
    accidental_text(d.accidental as int) + roman_text(d.degree)
}

/// Whether `v[from..]` is exactly the characters of `p`.
fn rest_equals(v: &Vec<char>, from: usize, p: &str) -> (r: bool)
    requires
        from <= v.len(),
    ensures
        r == (v@.skip(from as int) == p@),
{
    let n = p.unicode_len();
    if v.len() - from != n {
        assert(v@.skip(from as int).len() != p@.len());
        return false;
    }
    let m = matches_at(v, from, p);
    assert(v@.subrange(from as int, v.len() as int) =~= v@.skip(from as int));
    assert(v@.skip(from as int).subrange(0, n as int) =~= v@.skip(from as int));
    m
}

fn roman_from(v: &Vec<char>, from: usize) -> (r: Option<RomanDegree>)
    requires
        from <= v.len(),
    ensures
        r == roman_of(v@.skip(from as int)),
{
    if rest_equals(v, from, "I") {
        Some(RomanDegree::I)
    } else if rest_equals(v, from, "II") {
        Some(RomanDegree::Ii)
    } else if rest_equals(v, from, "III") {
        Some(RomanDegree::Iii)
    } else if rest_equals(v, from, "IV") {
        Some(RomanDegree::Iv)
    } else if rest_equals(v, from, "V") {
        Some(RomanDegree::V)
    } else if rest_equals(v, from, "VI") {
        Some(RomanDegree::Vi)
    } else if rest_equals(v, from, "VII") {
        Some(RomanDegree::Vii)
    } else {
        None
    }
}

impl RomanDegree {
    pub const ALL: [RomanDegree; 7] = [
        RomanDegree::I,
        RomanDegree::Ii,
        RomanDegree::Iii,
        RomanDegree::Iv,
        RomanDegree::V,
        RomanDegree::Vi,
        RomanDegree::Vii,
    ];

    pub fn index(self) -> (r: usize)
        ensures
            r == roman_index(self),
            r < 7,
    {
        match self {
            RomanDegree::I => 0,
            RomanDegree::Ii => 1,
            RomanDegree::Iii => 2,
            RomanDegree::Iv => 3,
            RomanDegree::V => 4,
            RomanDegree::Vi => 5,
            RomanDegree::Vii => 6,
        }
    }

    pub fn from_index(index: usize) -> (r: Option<Self>)
        ensures
            r == (if index < 7 {
                Some(roman_at(index as int))
            } else {
                None
            }),
    {
        if index == 0 {
            Some(RomanDegree::I)
        } else if index == 1 {
            Some(RomanDegree::Ii)
        } else if index == 2 {
            Some(RomanDegree::Iii)
        } else if index == 3 {
            Some(RomanDegree::Iv)
        } else if index == 4 {
            Some(RomanDegree::V)
        } else if index == 5 {
            Some(RomanDegree::Vi)
        } else if index == 6 {
            Some(RomanDegree::Vii)
        } else {
            None
        }
    }

    /// Exact upper-case Roman numerals `I` to `VII`.
    pub fn parse(text: &str) -> (r: Option<Self>)
        ensures
            r == roman_of(text@),
    {
        let v = to_chars(text);
        assert(v@.skip(0) =~= v@);
        roman_from(&v, 0)
    }

    pub fn as_str(self) -> (r: &'static str)
        ensures
            r@ == roman_text(self),
    {
        match self {
            RomanDegree::I => "I",
            RomanDegree::Ii => "II",
            RomanDegree::Iii => "III",
            RomanDegree::Iv => "IV",
            RomanDegree::V => "V",
            RomanDegree::Vi => "VI",
            RomanDegree::Vii => "VII",
        }
    }
}

#[derive(Clone, Copy, Debug, Eq, Hash, PartialEq, Structural)]
pub struct Degree {
    pub accidental: i8,
    pub degree: RomanDegree,
}

impl Degree {
    pub fn new(accidental: i8, degree: RomanDegree) -> (r: Self)
        ensures
            r == (Degree { accidental, degree }),
    {
        Degree { accidental, degree }
    }

    /// Parse `#IV`, `bbIII`, `VII`, ...
    pub fn parse(text: &str) -> (r: Option<Self>)
        ensures
            r == parsed_degree(text@),
    {
        let v = to_chars(text);
        let n = v.len();
        let mut accidental: i128 = 0;
        let mut i: usize = 0;
        while i < n && (v[i] == '#' || v[i] == 'b')
            invariant
                i <= n == v@.len(),
                forall|j: int| 0 <= j < i ==> is_sharp_or_flat(#[trigger] v@[j]),
                sharp_flat_total(v@.take(i as int)) == accidental,
                -(i as int) <= accidental <= i,
            decreases n - i,
        {
            assert(v@.take(i + 1).drop_last() =~= v@.take(i as int));
            if v[i] == '#' {
                accidental = accidental + 1;
            } else {
                accidental = accidental - 1;
            }
            i = i + 1;
        }
        proof {
            lemma_sharp_flat_run(v@, i as nat);
        }
        // An all-accidental (or empty) text has no Roman body.
        let body_start = if i < n {
            i
        } else {
            0
        };
        let degree = roman_from(&v, body_start);
        if i == n {
            proof {
                lemma_no_roman_in_accidentals(v@);
                assert(v@.skip(i as int).len() == 0);
                assert(roman_of(v@.skip(i as int)) is None) by {
                    reveal_strlit("I");
                    reveal_strlit("II");
                    reveal_strlit("III");
                    reveal_strlit("IV");
                    reveal_strlit("V");
                    reveal_strlit("VI");
                    reveal_strlit("VII");
                }
            }
            return None;
        }
        match degree {
            Some(d) => {
                if accidental < -128 || accidental > 127 {
                    None
                } else {
                    Some(Degree::new(accidental as i8, d))
                }
            },
            None => None,
        }
    }

    /// Written form, e.g. `bII` or `#IV`.
    pub fn to_string(&self) -> (r: String)
        ensures
            r@ == degree_text(*self),
    {
        let mut s = String::new();
        push_accidentals(&mut s, self.accidental);
        s.append(self.degree.as_str());
        s
    }
}

/// The leading accidental run of `s` has length `i` when the first `i`
/// characters are accidentals and the next one (if any) is not.
proof fn lemma_sharp_flat_run(s: Seq<char>, i: nat)
    requires
        i <= s.len(),
        forall|j: int| 0 <= j < i ==> is_sharp_or_flat(#[trigger] s[j]),
        i < s.len() ==> !is_sharp_or_flat(s[i as int]),
    ensures
        sharp_flat_run(s) == i,
    decreases i,
{
    if i > 0 {
        assert forall|j: int| 0 <= j < i - 1 implies is_sharp_or_flat(#[trigger] s.drop_first()[j]) by {
            assert(s.drop_first()[j] == s[j + 1]);
        }
        if i < s.len() {
            assert(s.drop_first()[i - 1] == s[i as int]);
        }
        lemma_sharp_flat_run(s.drop_first(), (i - 1) as nat);
    }
}

/// A text made only of accidentals is not a Roman numeral.
proof fn lemma_no_roman_in_accidentals(s: Seq<char>)
    requires
        forall|j: int| 0 <= j < s.len() ==> is_sharp_or_flat(#[trigger] s[j]),
    ensures
        roman_of(s) is None,
{
    reveal_strlit("I");
    reveal_strlit("II");
    reveal_strlit("III");
    reveal_strlit("IV");
    reveal_strlit("V");
    reveal_strlit("VI");
    reveal_strlit("VII");
    if s.len() > 0 {
        assert(is_sharp_or_flat(s[0]));
    }
}

proof fn lemma_sharp_flat_total_repeat(c: char, n: nat)
    requires
        c == '#' || c == 'b',
    ensures
        sharp_flat_total(repeat_char(c, n)) == (if c == '#' {
            n as int
        } else {
            -(n as int)
        }),
        sharp_flat_run(repeat_char(c, n)) == n,
    decreases n,
{
    if n > 0 {
        assert(repeat_char(c, n).drop_last() =~= repeat_char(c, (n - 1) as nat));
        assert(repeat_char(c, n).drop_first() =~= repeat_char(c, (n - 1) as nat));
        lemma_sharp_flat_total_repeat(c, (n - 1) as nat);
    }
}

proof fn lemma_run_of_concat(a: Seq<char>, b: Seq<char>)
    requires
        forall|j: int| 0 <= j < a.len() ==> is_sharp_or_flat(#[trigger] a[j]),
        b.len() > 0 ==> !is_sharp_or_flat(b[0]),
    ensures
        sharp_flat_run(a + b) == a.len(),
{
    let s = a + b;
    assert forall|j: int| 0 <= j < a.len() implies is_sharp_or_flat(#[trigger] s[j]) by {
        assert(s[j] == a[j]);
    }
    if b.len() > 0 {
        assert(s[a.len() as int] == b[0]);
    }
    lemma_sharp_flat_run(s, a.len());
}

/// Each numeral reads back as its own degree.
pub proof fn lemma_roman_of_text(d: RomanDegree)
    ensures
        roman_of(roman_text(d)) == Some(d),
        roman_text(d).len() > 0,
        roman_text(d)[0] == 'I' || roman_text(d)[0] == 'V',
{
    reveal_strlit("I");
    reveal_strlit("II");
    reveal_strlit("III");
    reveal_strlit("IV");
    reveal_strlit("V");
    reveal_strlit("VI");
    reveal_strlit("VII");
    assert("I"@.len() == 1 && "II"@.len() == 2 && "III"@.len() == 3 && "IV"@.len() == 2);
    assert("V"@.len() == 1 && "VI"@.len() == 2 && "VII"@.len() == 3);
    match d {
        RomanDegree::I => {},
        RomanDegree::Ii => {
            assert("I"@.len() != "II"@.len());
        },
        RomanDegree::Iii => {
            assert("I"@.len() != "III"@.len());
            assert("II"@.len() != "III"@.len());
        },
        RomanDegree::Iv => {
            assert("I"@.len() != "IV"@.len());
            assert("II"@[1] != "IV"@[1]);
            assert("III"@.len() != "IV"@.len());
        },
        RomanDegree::V => {
            assert("I"@[0] != "V"@[0]);
            assert("II"@.len() != "V"@.len());
            assert("III"@.len() != "V"@.len());
            assert("IV"@.len() != "V"@.len());
        },
        RomanDegree::Vi => {
            assert("I"@.len() != "VI"@.len());
            assert("II"@[0] != "VI"@[0]);
            assert("III"@.len() != "VI"@.len());
            assert("IV"@[0] != "VI"@[0]);
            assert("V"@.len() != "VI"@.len());
        },
        RomanDegree::Vii => {
            assert("I"@.len() != "VII"@.len());
            assert("II"@.len() != "VII"@.len());
            assert("III"@[0] != "VII"@[0]);
            assert("IV"@.len() != "VII"@.len());
            assert("V"@.len() != "VII"@.len());
            assert("VI"@.len() != "VII"@.len());
        },
    }
}

/// Law: the written form of any degree parses back to the same degree.
pub proof fn lemma_degree_text_round_trip(d: Degree)
    ensures
        parsed_degree(degree_text(d)) == Some(d),
{
    let a = d.accidental as int;
    let acc = accidental_text(a);
    let body = roman_text(d.degree);
    reveal_strlit("I");
    reveal_strlit("II");
    reveal_strlit("III");
    reveal_strlit("IV");
    reveal_strlit("V");
    reveal_strlit("VI");
    reveal_strlit("VII");
    let c = if a >= 0 {
        '#'
    } else {
        'b'
    };
    let n: nat = if a >= 0 {
        a as nat
    } else {
        (-a) as nat
    };
    assert(acc == repeat_char(c, n));
    lemma_sharp_flat_total_repeat(c, n);
    assert(sharp_flat_total(acc) == a);
    assert forall|j: int| 0 <= j < acc.len() implies is_sharp_or_flat(#[trigger] acc[j]) by {
        assert(acc[j] == c);
    }
    lemma_roman_of_text(d.degree);
    assert(body.len() > 0);
    assert(body[0] == 'I' || body[0] == 'V');
    lemma_run_of_concat(acc, body);
    let s = acc + body;
    assert(s.take(acc.len() as int) =~= acc);
    assert(s.skip(acc.len() as int) =~= body);
}

/// `RomanDegree::parse` reads exactly the seven upper-case numerals: every
/// degree's own text reads back as that degree, and a text reads as a degree
/// only when it is that degree's text.
pub proof fn lemma_roman_parse_exact(d: RomanDegree, s: Seq<char>)
    ensures
        roman_of(roman_text(d)) == Some(d),
        roman_of(s) matches Some(e) ==> s == roman_text(e),
        roman_of(s) is Some <==> (s == "I"@ || s == "II"@ || s == "III"@ || s == "IV"@ || s == "V"@ || s == "VI"@
            || s == "VII"@),
{
    lemma_roman_of_text(d);
}

} // verus!
