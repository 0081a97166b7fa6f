# word-tally

Tallies the number of times each word appears in unicode input, with the tallying logic
specified and proved with Verus.

- `src/` is the library. `tally_map` counts words into a hash map, splits text into
  whitespace-aligned chunks for parallel counting and decides each step of streamed
  counting; `lib.rs` turns a tally into a filtered, totalled and sorted `WordTally`;
  `options` holds the settings (case, sort, encoding, filters, delimiters, I/O and
  performance); `output` and `verbose` give the text, JSON and CSV of a tally and of its
  details;
  `exit_code` maps errors to sysexits codes. `case`, `config`, `formatting` and
  `performance` hold standalone settings types: formatting choices, capacity configuration
  and performance tuning with size hints and thread counts.
- `app/` is the `word-tally` command: argument parsing, reading files and stdin, the
  streaming read loops and writing output.
- `tests/` runs the library on concrete inputs.

Word boundaries come from ICU4X's word segmenter, regular expressions from `regex`, hashing
from `hashbrown`, byte searches from `memchr`, UTF-8 validation from `simdutf8`, CSV quoting from `csv` and
parallel work from `rayon`; the contracts of the calls into these crates are stated beside them.
