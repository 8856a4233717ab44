# vibe_lights

The model and rules of the VibeLights light-show sequencer, as a Verus
library with proved contracts, and a thin command-line program around it.

## Layout

- `src/` — the verified library.
  - `color` — colour blending: every blend mode on whole channel values
    (override, add, multiply, max, min, subtract, average, screen, mask) as
    exact integer arithmetic, with its algebraic laws (identities,
    saturation, opacity). Alpha compositing and intensity overlay weigh the
    channels by fractions and are computed in floating point by the program.
  - `fixture` — fixtures, DMX addresses, controllers and groups; group
    resolution with cycle detection, proved sound and complete against
    reachability through nesting.
  - `importer` — the Vixen 3 system-configuration import: the node tree and
    the controllers read event by event, and the fixtures and groups built
    from the tree (leaf merging, id allocation), with the law that ids stay
    unique; the whole configuration read in one call. Also the parts of a
    sequence import that read no numbers: the track each effect goes to
    (orphan targets dropped), what the track targets, its name and lane
    suffix, the effect cap, and the grouping of preview pixels by fixture
    (node ids met before passed over, orphans counted, unknown shapes
    warned of).
  - `preview` — the search for a Vixen preview data file, as a state machine
    whose file-system questions the application answers, and the reading of
    the preview document: sections, display items, node ids and coordinate
    texts, the largest section kept.
  - `sequence` — the reading of a Vixen sequence (`.tim`) file: the data
    models, every effect node resolved against them (by instance, then by
    module type, else `Solid`), the sequence length and media file; times,
    levels, curves and colours kept as the texts that count, number texts
    checked against the grammar std documents for its parsers.
  - `llm` — provider resolution and the translation between the
    Anthropic-shaped conversation and the OpenAI chat format.
  - `timeline`, `easing`, `analysis` — the effect vocabulary and settings.
  - `project`, `profile`, `paths` — slugs, file-name checks, calendar
    timestamps, media extensions and the storage layout.
  - `vixen` — Vixen import constants and name mappings, and which effect
    kind (or solid fallback) each Vixen effect type name maps to.
- `tests/` — tests of the library on concrete values.
- `app/` — the command-line program: file and network I/O, JSON and XML
  reading, the serde copies of the model, and the floating-point parts of
  the model (curves, gradients, easing, motion paths, alpha compositing,
  layout positions, and the numbers, effect parameters and lane placement
  of a sequence import).
