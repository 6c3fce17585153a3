# mince_raft

A Minecraft (Java Edition 1.17.1, protocol 756) client library, verified with Verus, and
a small command-line client around it.

## Layout

- `src/` — the verified library.
  - `network/` — the wire types (`VarInt`, `VarLong`, fixed-width integers, strings,
    positions, UUIDs) with their round-trip laws; the packet builder and decoder; the
    clientbound packets and the decoder that picks them by ID and protocol state; the
    serverbound packets and their exact encodings; framing with zlib compression; the
    login and keep-alive decisions; the layout check of NBT compounds before they are
    read.
  - `world/`, `world.rs` — chunk decoding (paletted sections, heightmaps), block lookup
    and block changes, and the map of loaded chunks.
  - `session.rs` — how each packet from the server changes what the client knows, and
    what it answers; how the player's input moves the input state and sends the chat.
  - `players.rs` — the `PlayerInfo` packet and the list of players it keeps.
  - `state.rs` — the input state machine (playing, paused, chatting).
  - `chat.rs`, `resources.rs`, `generators.rs` — chat history, block and entity names,
    and the generated block and entity tables.
  - `json.rs` — the game's blocks and entities data files, parsed with `serde_json`,
    and the lists the tables are built from.
- `tests/` — tests of the library on concrete values.
- `app/` — the command-line client: networking, reading and writing files, the entity
  table and the block models, whose values are floating point.
