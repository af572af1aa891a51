# minerust

The game logic of MineRust, a voxel sandbox, as a library verified with
Verus, and a small program around it.

## Layout

- `src/` — the verified library.
  - `blocks`, `items`, `entities`: block, item and mob kinds, their ids and
    properties, drops, furnaces.
  - `inventory`, `slots`, `crafting`, `workshop`: the inventory, slot
    clicks, recipe matching, and trades, brewing, enchanting, anvil,
    grindstone and smithing.
  - `coords`, `hashing`, `world`, `edits`, `fluids`, `actions`: chunk
    storage, block edits and what they set off, redstone power, liquid flow,
    support checks, tree growth, portals, chunk adoption and loading order.
  - `codec`, `text`, `net`, `save`: byte codecs, the LAN message protocol
    and the save-file format.
  - `mcproto`, `mcclient`: the Minecraft wire protocol (server-list ping and
    login refusal; joining a server, packet compression through `flate2`,
    chunk decoding).
  - `sound`, `colors`: WAV framing; PNG texture decoding through `png`,
    color averaging, the choice of texture files per block face, and tinting.
- `tests/` — tests of the library.
- `app/` — the program: the headless Minecraft-compatible server, the
  headless survey client, the offline block-color tool (reading files), and
  the sockets, files and floating-point pieces around the
  library.

Floating-point values (positions, timers, sample synthesis) stay outside the
library; where one crosses it, it travels as its IEEE-754 bit pattern.
