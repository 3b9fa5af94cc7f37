# gameclient

The client of *Quest of the Endless Path*, a game in which walking in the real
world moves a hero across a map.

- `src/` is the library: the rules of the client, with contracts that Verus
  proves. `terrain` holds the world, its fog, route finding, interiors and what
  is baked into textures; `player` applies the server's reports and plans
  routes; `dialogue`, `hud`, `combat`, `music` and the other modules decide what
  the screens show and what is asked of the server.
- `tests/` runs the library on examples.
- `app/` is the Bevy application around it: windows, sprites, shaders, sound and
  requests. The embedding program hands it a `Host` with the rules it shares
  with the server and the files it carries, and calls `start`.

`Cargo.toml` names `idna_adapter`, which no file uses: it is a dependency of a
dependency, held to a version that leaves out the Unicode tables, which a client
that talks to one ASCII host does not need.

Routes are found by A* over the overworld and by breadth-first search inside
interiors; both are proved to find a best route wherever there is one. Measures
that are floating-point numbers (speeds, meters between two tiles, light) stay
in `app/`; the library works on whole meters, hundredths and tiles.
