# my_little_rpg

The rules of a small text role-playing game, verified with Verus.

A game holds places to move to, equipped items and an inventory, treasure,
item resources, statistics and a seeded PCG random number generator. Moving to
a place lets every equipped item pay its costs and apply its gains; enough
damage wins the place's treasure and new items. Treasure and items buy
expansions: more places, more attack types, wider resistance bounds, more
equipment slots, new or rerolled item modifiers.

Layout:

- `src/` is the verified library. `the_world/` holds the game model (attack
  types, items, places, treasure, difficulty, statistics, index specifiers),
  `generator/` rolls new games and places, `command/` holds one module per
  player command plus the command parser and help texts, `hex_encoder.rs` the
  hex text in which a game's seed is shown, and `rng.rs` the trusted wrappers
  around `rand` and `rand_pcg`.
- `tests/` holds the tests, run against the compiled library.
- `app/` is ordinary Rust around the library: JSON output of the command
  reports through serde, and saving and loading games on disk.
