# erusert

A terminal companion that reads web pages for context (`[read:<url>]`), keeps a
virtual processor temperature while it "thinks", and is configured once through
a setup wizard.

Layout:

- `src/` — the verified library (Verus):
  - `models.rs` — the Eru model catalogue: menu keys, labels, sizes, danger.
  - `text.rs` — whitespace, trimming, word splitting and collapsing, decimals,
    stated over character sequences.
  - `fetcher.rs` — the `[read:<url>]` command, URL checking, and extraction of
    a page's title and body text from HTML.
  - `setup.rs` — the configuration types and the setup wizard as a state
    machine, with its laws.
  - `svaisurt.rs` — the personalisation editor as a state machine, with its
    laws.
  - `vnpu.rs` — what a context shows (words, numbers, quotes) and the wording
    of the digest in each thermal band.
  - `session.rs` — what a typed line asks for.
  - `overpanic.rs` — the Over-Panic monitor: when the companion halts itself
    (overheating, three contradicting digests in a row, a cycle slower than ten
    times the baseline, a third failed fetch, a fifth correction), and how it
    words the reason. Two digests contradict when fewer than half of the
    earlier digest's words recur in the later one. The seizure test compares
    a cycle with the baseline as it stood before that cycle. The temperature
    test (above 92 degrees) and the moving baseline are floating point and are
    computed by the program, which hands the monitor their results.
- `app/` — the program around it: prompts, terminal drawing, HTTP, the
  configuration file, the floating-point thermal model, and the Over-Panic
  report with its diagnostic log. The thermal model cools by 5% and warms by
  at most 8 degrees per cycle, so one dense page read from 40 degrees lands
  near 46 degrees, not above 50.
- `tests/` — tests of the library.
