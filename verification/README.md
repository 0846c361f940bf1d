# rust_miner

A small Bitcoin pool miner. `src/` is the verified library; `app/` puts it
behind sockets, threads and a window.

| Module | What it holds |
| --- | --- |
| `text` | decimal numbers, digit groups, joined lines |
| `bytes` | numbers as bytes in both orders |
| `hexcode` | hexadecimal text, by the `hex` crate |
| `hashing` | SHA-256 twice, by the `sha2` crate |
| `target` | difficulty, target and what meets it, by the `num-bigint` crate |
| `json` | JSON texts, by the `serde_json` crate |
| `job` | jobs, coinbase, Merkle root and block header |
| `miner` | rounds of nonces, shares and hash reports |
| `worker` | the worker that begins rounds, tries nonces and reports, and what holds over its whole run |
| `protocol` | what the lines of a pool mean |
| `session` | one connection from subscription to its end |
| `pools` | the known pools and the choice between them |
| `address` | the wallet address and its configuration file |
| `events`, `dashboard`, `display` | what the window is told, keeps and shows |
| `demo` | invented events for trying the window |

Floating-point numbers stay in `app/`: the library holds a difficulty as the
bits of a double-precision number, and turns one that is given in millionths
into a target.

The `bevy` features that `Cargo.toml` names cover the user interface; a build
that opens a window adds `bevy_winit`, a platform and a renderer.
