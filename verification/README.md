# sas_game

Game logic of a 2D arena shooter in the style of Quake III, written in
Verus: the functions in `src/` carry contracts that Verus proves, apart
from three small wrappers around `String::push`, `str::to_uppercase` and
`str::to_lowercase`, whose contracts are taken on trust.

- `src/nav.rs` — navigation graph of the bots: nodes, moves, connected
  parts, route rebuilding.
- `src/tiles.rs` — solid tiles, ground tiles, tile borders.
- `src/shader_script.rs`, `src/model_shader.rs`, `src/text.rs` — reader of
  `.shader` scripts and the texture-to-shader lookup of models.
- `src/skin.rs` — reader of `.skin` files.
- `src/story.rs` — the story campaign.
- `src/items.rs` — item pickups and powerup clocks.
- `src/sync.rs`, `src/net_events.rs` — projectiles brought in line with a
  server snapshot; what the client does with the server's messages.
- `src/combat.rs`, `src/scoreboard.rs`, `src/roster.rs` — damage, awards,
  frags, scoreboard order, bots.
- `src/effects.rs`, `src/animation.rs`, `src/models.rs`, `src/palette.rs`,
  `src/usercmd.rs`, `src/weapon.rs` — frame counters, model frames, asset
  paths, colours, player commands, weapons.

`app/` holds what Verus does not check: floating-point geometry and
physics (path search costs, the trajectory tests of the graph generator,
distances), file and asset loading, key handling and the JSON forms of
graphs and shaders.  `tests/` runs the library on concrete inputs.
