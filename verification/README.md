# onlinerpg_estate

The logic of a game server's housing and terrain services, verified with
Verus.

- `src/grass.rs`: the grass v3 tile format (a header with a magic number and
  three per-type instance counts, then 6-byte instances), its validation, and
  removing the instances that a predicate picks, with the statistics of a
  removal over many tiles.
- `src/cells.rs`: the grid cells that inclusive rectangles cover, each listed
  once; used for the tiles an exclusion touches and for house foundations.
- `src/house.rs`: houses as room plans: foundation cells, the scrolls that
  carry a house template, the preview made from a template, owner ids, bag
  lookups and the construction announcement.
- `src/placement.rs`, `src/routes.rs`: placing and demolishing a house, and
  the housing HTTP routes, as walks through fixed stages; the caller performs
  each stage and reports how it went, the library decides what follows.
- `src/le_bytes.rs`, `src/text.rs`: little-endian integers in byte buffers,
  and decimal and hexadecimal text.

`app/` holds what stays outside the proofs: the floating-point geometry
(instance positions in world space, foundation rectangles, the ground
survey) and the storage loop that clears grass tile by tile.
