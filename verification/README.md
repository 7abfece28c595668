# pgress_session

The session layer between the wire and the engine shards, verified with Verus.

| Module | What it holds |
|--------|---------------|
| `opcode`, `admission` | classes of opcodes, and what becomes of them under load |
| `auth`, `domain`, `profile` | authority: policies, ceilings, partition rows, session profiles |
| `session`, `recovery` | sessions, transport paths, expiry; outcomes of the engine |
| `telemetry`, `topology` | the event ring; shard health and placement |
| `runtime` | routing: session, tenant, replay, authority, admission |
| `decode` | stream preambles, record headers, profiles |
| `isa`, `attr`, `grammar` | instructions, attributes, and the grammar of payloads |
| `dispatch`, `encode`, `roundtrip` | parsing, writing, and what a reader gets back of it |
| `dispatcher` | the driver of a stream, up to and after the engine |
| `sim` | a deterministic simulation of several shards |
| `idmap`, `bytes`, `text` | maps by identifier, little-endian numbers, numbers as text |

Contracts speak of the `View` of each type. Functions named `law_…` state what holds across
operations. Outside code is reached in three places: the Fx hash map (`idmap`), UTF-8 validation
(`bytes`) and Ed25519 verification (`profile`).

`app/` is what surrounds the library in a host: readable errors, the engines, floating point.
