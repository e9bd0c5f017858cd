# zelda_like

A small top-down action game in the spirit of the early Zelda games: tile maps made with
Tiled, a player with hearts, rubies and keys, enemies, chests, bushes, doors between maps,
dialogues with villagers, three save slots.

The rules of the game are a library verified with Verus (`src/`); the window, sound, input,
files and everything measured in floating-point world coordinates are an ordinary Rust program
around it (`app/`).

## Layout

- `src/` — the verified library.
  - `text.rs`, `xml.rs`: characters, decimal numbers, splitting; XML documents read with
    roxmltree and queried as node lists.
  - `tile_properties.rs`, `tilemap.rs`, `map_loader.rs`, `map_utils.rs`: tilesets (`.tsx`),
    maps (`.tmx`, CSV layers), tile grids, and the objects collected on each map.
  - `player.rs`, `enemy.rs`, `enemy_type.rs`, `combat.rs`, `objects.rs`, `npc.rs`: life, blows,
    pick-ups, chests and their loot, ruby drops, spritesheet layout.
  - `game.rs`, `utils.rs`, `transition.rs`, `run.rs`: dialogues and their pages, screen
    transitions, doors and keys, spawn points.
  - `save.rs`, `menu.rs`, `pause.rs`, `hud.rs`, `inventory.rs`: save slots, menus and what each
    key does in them, the HUD and inventory layouts.
- `tests/` — tests of the library.
- `app/` — the game program (SDL2 window, events, sound, drawing, JSON save files).
