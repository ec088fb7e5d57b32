# tokotchi

A terminal pet that levels up off the tokens spent in coding-assistant sessions. The pet's
model is a Verus-verified library; the terminal program around it is ordinary Rust.

## Layout

- `src/` — the verified library. Every function carries a `requires`/`ensures` contract
  stated over spec functions, and the public `lemma_*` proof functions state the laws that
  tie several operations together.
  - `model` — level curve (`⌊√(Σ / 1M)⌋`, at least 1), level progress, evolution stages.
  - `mode` — counting modes (raw, subscription, API), their token weights and detection.
  - `ledger` — the per-session token ledger: merge, totals, and reading transcript lines.
  - `anim` — clip files (frames and options), frame selection, sprite lookup.
  - `care` — moods, interaction outcomes, the day-by-day care streak.
  - `state` — each counting mode's token-anchored economy: rebirth, activity, re-leveling,
    and the discrete part of a death (the grave and the next generation).
  - `statusline` — the tab-separated record printed for shell statuslines.
  - `screen` — the character-cell buffer: text, boxes, and diffing two frames.
  - `scene` — card placement, centering and the creature's pose on each tick.
  - `card` — the pet card, the graveyard view and the one-line fallback, drawn into a buffer.
  - `particles` — sparkles (the celebration burst and a stage's ambient flavor): one tick
    given its random draws, and the draws themselves from `fastrand`.
  - `ui` — key handling for the card, naming prompt, graveyard and dev panel.
  - `text` — the string helpers the rest builds on (trimming, lines, tokens, digits).
- `app/` — the program: file and terminal I/O, JSON (serde), the wall-clock care rules
  (floating point), and the terminal loop that performs what the library decides.
- `tests/` — tests of the library, run against the compiled crate.
