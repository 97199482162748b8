# pumpkin

Server-side game logic of a Minecraft server, written in Verus: every
function in `src/` carries a contract that Verus proves.

## Layout

- `src/datapack.rs`, `src/datapack/` — datapacks: pack order and metadata,
  the JSON values of pack files, their decoding from raw text or bytes (with
  serde_json) and how tag files, recipes and raw resources are read from
  them, tag merging, validation and membership, function files, archive
  entries and resource ids.
- `src/recipe.rs` — recipe-book keys, the limited-crafting gate, and the
  runtime that publishes a reload's recipes, tags, functions and resources in
  one step.
- `src/function_scheduler.rs` — the queue of scheduled functions.
- `src/entity.rs`, `src/entity/` — mobs, goals, doors, hunger, fishing,
  experience orbs, minecarts, projectiles and decorations: their state
  machines and decisions over plain values.
- `src/items.rs` — name tags, firework rockets and tridents.
- `src/datapack/candidate.rs`, `src/datapack/archive.rs` — the candidate
  a reload builds, and pack archives unpacked (with the `zip` crate) and
  filed into it entry by entry.
- `src/keyed.rs` — entries filed under ids, where filing an id again
  replaces its entry: a later pack wins.
- `src/identifier.rs`, `src/text.rs`, `src/sorted.rs` — identifiers, text and
  sorted key lists used throughout.
- `src/random.rs` — the random draws, from `rand`.
- `tests/` — tests of the library.
- `app/` — what stays outside the proofs: reading pack files and archives
  from disk, the published serde_json form of raw resources, the lock around
  the runtime, and the floating-point physics that applies the library's
  decisions.

## Known gap

Structure files (`.nbt`) are checked only for their size (between 1 byte
and 16 MiB). Their NBT content is not decoded, so a structure file with
malformed NBT is accepted: the NBT reader of the server this library
belongs to is not available here.
