# modelrelay

The logic of the ModelRelay client SDK, written in Verus and proved against
its contracts: API key parsing, the bash command policy and its tokenizer,
client setup, retry decisions and backoff, request headers and paths, error
envelopes, NDJSON stream framing and queueing, stream event decoding and
collection, stream timeouts and structured
stream records, the local filesystem and bash tool packs' rules, the SQL tool
loop's rules, and plugin sources, parsing, planning and prompts.

## Layout

- `src/` — the verified library. Each module states what its functions
  return in `ensures` clauses over plain mathematical values (`Seq`, `Set`,
  `int`), and the public proof functions (`lemma_*`) state the properties
  that hold across calls (a denied command is refused whatever else is
  allowed, an accepted plan only depends on earlier steps, a stream's
  deadline has passed exactly when one of its limits is exceeded, ...).
- `tests/` — tests of the library on concrete values.
- `app/` — what runs around the library: the filesystem walks, file reads
  and writes and the `bash` process of the local tool packs, a blocking
  NDJSON stream over any response body that the library's stream state
  drives, and the serde forms of the library's types.

Calls into `regex`, `serde_json`, `fastrand` and `reqwest`'s URL parser and
status codes, and into `str::to_lowercase` and std's UTF-8 decoding, go
through small trusted wrappers whose contracts say what the library relies
on; the library's own code is proved against its contracts. The HTTP
client, its async plumbing and the agent loops are not part of this crate.
