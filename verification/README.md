# chorus

The world, protocol-state and registry logic of a Minecraft: Bedrock Edition
server, written in Verus with its behaviour stated in contracts and proved.

- `src/` — the verified library: bit arrays and palettes that pack block
  ids, sub-chunks, chunks, dimensions and the level; the block, item and
  command registries; the session state machine and the decisions of the
  packet handlers; the built-in commands.
- `tests/` — tests on concrete values.
- `app/` — reading the JSON data files, logging and reply formatting around
  the library.
