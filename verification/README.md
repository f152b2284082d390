# substrate-api-client

A client library for Substrate nodes, whose core is verified with Verus.

The library reads a node's runtime metadata (versions 13 and 14) into
lookup tables of modules, storage items, calls, events, errors and
constants; builds storage keys from it; builds the parameters of JSON-RPC
requests; reads the node's answers (hashes, runtime versions, storage
values); and follows the status updates of a submitted extrinsic. Each of
these functions states in its contract what it returns, over mathematical
models of the metadata and of the JSON and hex texts involved, and Verus
proves it.

## Layout

- `src/` — the verified library.
  - `metadata/` — the metadata of versions 13 and 14 as plain values, how
    each is read into `node_metadata::Metadata`, and (`decode.rs`) how the
    SCALE encoding that `frame-metadata` decodes is read into them.
  - `node_metadata.rs` — the lookup tables, storage items and storage keys.
  - `assoc.rs` — the insertion-ordered map behind the lookup tables.
  - `hashing.rs` — the storage hashers (over `sp-crypto-hashing`).
  - `hexstr.rs`, `json.rs`, `text.rs` — hex, JSON (over `hex` and
    `serde_json`) and decimal text.
  - `json_req.rs` — request parameters.
  - `api.rs` — reading the answers of a node, the runtime metadata among them.
  - `rpc.rs` — extrinsic statuses and the decision of when waiting for one ends.
  - `extrinsic.rs` — call indices.
- `tests/` — tests of the library.
- `app/` — the network side: the WebSocket client, the asynchronous API,
  error types with `Display`, and printing.
