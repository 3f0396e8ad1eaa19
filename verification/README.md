# chord_romanizer

Chord-symbol parsing, spelling and Roman-numeral analysis, verified with Verus.

Symbols such as `C#m7/G#` are parsed losslessly, spelled against a key and
turned into Roman numerals. Slash chords and augmented upper structures get
every plausible local reading; a progression pass scores contextual readings
(resolutions, applied cadences, modal borrowing, diminished functions); the
readings form a candidate lattice whose `k` best paths are decoded, and the
best path gives compact display labels.

Scores are exact integers in hundredths of a point.

Keyed paths carry a global key and, per event, the active and local key.
Along such a path the library scores every chord in the key active at it
(cadences only within stretches of one key) and runs the harmonic memory:
a bounded stack of pending dominant goals and predominant preparations,
delayed, nested and deceptive resolutions, cadential spans, expiry and
boundaries.

The modulation search takes one keyed path and walks its context segments
with a beam of key routes: at each V7 -> I/i cadence a route may stay in
its key or move into the cadence's key through a span (diatonic or
chromatic pivot, dominant bridge or sequence, direct dominant), scored from
its cadence, pivot, support and persistence; routes are ranked, kept once
per history, finished by duration scoring, applied to copies of the path
and returned best first (`expand_modulation_paths`).

Not included: the outer search that runs the function lattice under each
global-key hypothesis and ranks the joint results, the equal blend of global and
segmented key scores (a half of a score in hundredths is not a whole
hundredth), `analyze_keys_and_functions`, and the interpretation tree built
on it (`analyze_interpretation_tree` and its types).

Layout of `src/`:

- `text`, `error`, `profile`: character helpers, errors, behaviour profiles.
- `domain/`: notes, degrees, qualities, parsed chords and progression items.
- `parser`, `formatter`, `speller`, `structure`: symbol grammar, rendering,
  degree spelling and chord formulas.
- `analysis/interpreter`, `analysis/blackadder`: local readings of slash
  chords and of the `{0,2,6,10}` sonority.
- `analysis/context`, `analysis/ordinary`: neighbour links and scored
  contextual readings of each chord.
- `analysis/key`: key-fit scoring, globally and along a keyed path, and
  placing a decoded function path under one global key (`keyed_path`).
- `analysis/memory`: harmonic memory along a keyed path.
- `analysis/modulation`: span candidates and pivots, the beam search over
  key routes, and applying the selected spans to a keyed path.
- `romanizer`: per-chord labels and the annotated progression.
- `analysis/candidates`, `analysis/lattice`: the candidate lattice and its
  k-best decoder, with the optimality laws.
- `display`: labels projected from the best path.
