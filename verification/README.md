# TwoDrive

A OneDrive client whose decisions are verified with Verus: files on demand
behind a FUSE mount, a device peer that exchanges sealed control messages and
installs signed updates, and a desktop engine with its tray.

`src/` is the library. It holds no I/O: what the programs have to do outside is
handed out as orders and comes back as events, so every rule is a function on
plain values with a contract.

| Module | What it decides |
| --- | --- |
| `fs::inodes`, `fs::listings`, `fs::filesystem` | the numbers and names of items, open files, reading, writing, renaming and removing |
| `fs::hydration`, `fs::probes` | when content is brought into the cache, and for whom it is not |
| `fs::upload_queue`, `fs::recovery`, `fs::conflicts`, `fs::sweep` | what is brought to the cloud, in which order, what becomes of conflicts, and which failure ends the rest |
| `fs::metadata`, `fs::activity`, `fs::record` | changes in the cloud, the list of running transfers, what is recorded of an item |
| `peer::identity`, `peer::crypto`, `peer::protocol` | devices, sealed envelopes, the handshake and the messages |
| `peer::runtime`, `peer::tick` | whom the peer trusts, its rounds and the supervision of its process |
| `peer::update`, `peer::version` | signed releases, their staging, activation and rollback |
| `desktop` | the engine's requests and transfers, the frames of its connection, the tray |

What is taken from other crates on trust stands in `peer::primitives`,
`peer::version`, `fs::probes`, `json` and `text`, each with the contract that is
relied on.

`app/` is the programs: arguments, files, the network, the mount and the
desktop. `tests/` runs the library.
