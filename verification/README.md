# blipmq

The core of the BlipMQ message broker as a Verus-verified library, with a
thin unverified program around it.

- `src/` is the library. Every function in it is verified by Verus against
  its `requires`/`ensures` contract, except the small wrappers marked
  `#[verifier::external_body]` that call `std` or an outside crate (`bytes`,
  `sha2`, `base64`, `uuid`, `rand`, `crossbeam-queue`, `dashmap`,
  `num_cpus`, `ahash`, `hdrhistogram`); their doc comments say what their
  contracts claim of the call.
  - Wire formats: `protocol` (binary frames), `message` (length-prefixed
    server frames), `codec`, `command`, `vectored_io`, `wal` (log records
    and segment names).
  - Delivery: `lockfree` (bounded FIFO ring), `queue`, `registry`,
    `fanout`, `delivery`, `batch`, `timer` (expiry wheel), `qos`
    (acknowledgements, retries, duplicate filtering), `dlq` (dead letters).
  - Access: `auth`, `accounts`, `auth_manager` (sign-in, session tokens,
    rate limits), `connection`, `connections`, `session`.
  - Operations: `config`, `advanced_config`, `admin`, `collector`,
    `counters`, `health`, `monitoring`, `report`, `performance`, `pool`,
    `shutdown`, `shell`, `api`.
  - Helpers: `assoc` (string-keyed map), `text`, `bufs`, `clock`, `crypto`,
    `dmap`, `backoff`.
- `tests/` runs the library on concrete values.
- `app/` is the program: the TCP server, the interactive client, the
  configuration files (TOML) and the JSON side of session tokens.
