# pacman

The rules of a Pac-Man game as a verified library: how maps are read and laid out, how ghosts
choose where to go, how their states and schedules change, how the game moves through its phases,
how points, lives, speeds and music follow the game, and how sprite sheets are cut into sprites.
Every function states its behaviour in `requires` / `ensures` contracts that Verus proves, with
one exception: `ghosts::target::Random::zero_to`, which draws a random number with the `rand`
crate, is trusted. Its contract (given a bound above zero, the number lies below it) is believed,
not proved.

## Layout

- `src/common.rs` – directions, positions, neighbours and distances.
- `src/position_map.rs` – a map from positions to values, kept as a list of insertions.
- `src/map/` – text maps (`pacmap`), the board of field types they give (`field_board`), tile
  maps read from map files (`tile_map`), the collision board (`board`) and the ghost house layout
  (`ghost_house`).
- `src/new_map/` – the maze with several elements per field and its board.
- `src/ghosts/` – ghost states and their changes (`state`), targets outside the house
  (`target`, `target_setter`, `target_set_strategy`), the house (`house`), spawning
  (`spawner`) and appearance (`appearance`).
- `src/schedule.rs` – timers and the scatter/chase schedules per level.
- `src/life_cycle.rs` – the phases of a game.
- `src/score.rs`, `src/lives.rs`, `src/speed.rs`, `src/interactions.rs`, `src/music.rs`,
  `src/pacman.rs` – points, lives, speed factors, hits, background music and pacman's moves.
- `src/stop.rs` – pauses of entities, sound effects and the pause after pacman eats a ghost.
- `src/helper.rs`, `src/sprite_sheet.rs`, `src/aseprite_data.rs`, `src/sheet_paths.rs`,
  `src/sprite_sheets.rs` – cutting sprite sheets into sprites, pairing sheet descriptions with their
  images and collecting the named sheets.
- `app/` – a command line front end that reads map and sheet files and prints what the library
  makes of them, and the movement on the screen, which works on floating point coordinates.
- `tests/` – tests of the library.
