# ec_data

The game data of a turn-based space strategy game: the fixed-size binary
record files (`PLAYER.DAT`, `PLANETS.DAT`, `FLEETS.DAT`, `BASES.DAT`,
`IPBM.DAT`, `SETUP.DAT`, `CONQUEST.DAT`, `DATABASE.DAT`) and a set of the
building blocks of yearly maintenance (event timing, combat arithmetic and
fleet handling in battle, routes, the campaign header), written in Verus
with their contracts proved. The maintenance turn that drives these
blocks is not part of this crate: several of its phases (battles, assaults,
merging, build completion, planet economics) rest on game rules that this
code base does not contain.

Layout:

- `src/records/` — the record files: parsing, field accessors, writing back;
  every file reads back as the bytes it was parsed from.
- `src/maint/` — maintenance building blocks: event timing and ordering,
  combat arithmetic and fleet handling in battle, movement bookkeeping,
  fleet removal with fleet-id renumbering, civil-disorder defections,
  colonization, the year's fleet movement, mission retargeting, contact
  reports, repair of invalid player records, computer-run economics, the
  campaign header, the maintenance gate.
- `src/pathfinding.rs` — fleet routes by A* search over the sector grid.
- `src/mapgen.rs`, `src/map_dimensions.rs` — seeded map generation helpers.
- `src/starmap.rs`, `src/map_export.rs` — player star maps and their text
  exports.
- `src/player_mail.rs` — the queued player mail format.
- `src/storage/` — campaign settings, session lease states, intel tiers and
  the hexadecimal form of raw report bytes.
- `app/` — file access, the maintenance token files and the floating-point
  geometry that sit around the library.
- `tests/` — tests of the library.
