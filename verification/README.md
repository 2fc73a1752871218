# fluxora_stream events

The event layer of the Fluxora stream contract, with its behaviour proved by Verus.

- `src/topics.rs`: the topic catalogue. Each event's topic symbol, the key
  that follows it, and its cardinality; proofs that no two events share a
  symbol and that every symbol fits a short Soroban symbol.
- `src/events.rs`: the payload types and one function per emit helper that
  builds the published event (topic list and payload); every event built is
  well formed for its topic.
- `src/schema.rs`: payload schemas and the additive-only evolution policy:
  the violations of a registry against its baseline, the safe-default rule
  for appended fields, and the laws that relate the checks to the policy.
- `src/docs.rs`: checks that the event documentation names each topic and
  documents its cardinality.
- `src/doc_schemas.rs`: the payload shapes written in the documentation
  (fenced `pub struct` and `StreamEvent` blocks, `data: Name { .. }` blocks).
- `src/doc_agreement.rs`: the mismatches of those shapes with a schema
  registry, with the law that no mismatch means the two agree. The catalogue
  as it stands has drifted: a comment after a field's comma leaves the comma
  in the field's type, and `metadata:` and `calldata:` in table rows read as
  `data:` blocks; `tests/event_schema_consistency.rs` pins the mismatches
  that result.
- `src/text.rs`: the character-sequence helpers these checks use.
- `app/lib.rs`: the Soroban binding: contract-type copies of the payloads and
  the emit helpers that publish the events the library builds.
