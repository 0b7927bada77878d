# dreadstep-bevy

The presentation layer of the Dreadstep desktop showcase, written in Verus: every decision the
client makes between the deterministic simulation and the screen is a verified function over
plain values, and the process, file and JSON work around it is ordinary Rust.

## What is not here

The simulation runtime (rules, legal commands, replay digests) and the Bevy client (ECS
systems, windows, sprites, audio playback) are not part of this crate. The library takes what
they would supply as plain values (snapshots, legal commands, keys held, existing entities) and
returns plans and decisions; nothing in `app/` assembles a running client or drives a run.

## Layout

- `src/` — the verified library.
  - `geometry`, `world` — cells, directions, pixel placement, windows, viewports, and the plain
    records the presentation reads of the simulation (tiles, actors, items, snapshots).
  - `visibility` — the field of view, proved equal to a breadth-first sight relation.
  - `scene` — the mirrors of tiles, actors and items, and their keyed reconciliation
    (one entity per key, the least one kept), with the camera, viewport and window singletons.
  - `render` — sprite roles, keys, the key-ordered render projection, the layered draw plan,
    placeholder nodes and their reuse, and asset joins.
  - `assets`, `audio` — validated local asset paths, the image and audio manifests, audio cues
    and the replay-token rule for cue batches.
  - `events`, `evidence`, `feedback` — semantic events, their HUD sentences, their compact JSON
    evidence, messages, animation cues, the HUD record and the enemy intent.
  - `state` — the compact JSON of snapshots, actors and items, and the journal payload frame.
  - `input`, `session`, `hud`, `panels` — keys and commands, the session state machine, and the
    HUD text.
  - `cli`, `runner`, `text` — argument parsing, the runner's decisions (startup, file names,
    journal framing, asset and audio outcomes, finalization, the smoke script) and text helpers.
- `tests/` — tests of the library.
- `app/` — the adapters around it: command line, journal and replay files, JSON values, the
  finalization handle, panic text, and the floating-point animation and placement.
