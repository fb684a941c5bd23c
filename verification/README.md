# settings_routes

The decisions behind the index settings routes of a search server, verified:
which settings a write request carries, which ones a reset clears, how an
index's stored settings are assembled for a read, and which requests are
refused.

- `src/settings.rs`: settings, settings updates and their meaning.
- `src/schema.rs`: what the routes read of an index schema.
- `src/text.rs`: the order of strings, with its laws and a verified comparison.
- `src/collections.rs`: the sorted set of stop words, the set of displayed
  names and the sorted map of synonyms.
- `src/read.rs`: the reads, one setting at a time and all together.
- `src/update.rs`: the writes and the refusal of a bad body.
- `src/error.rs`: the refusals.
- `src/laws.rs`: properties that relate several routes.
- `app/`: the HTTP handlers, which read and write the index store.
