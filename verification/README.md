# notebot

The verified core of a Misskey bot, in Verus.

- `src/router.rs`: command parsing of mention texts (leading mentions skipped,
  first token lower-cased as the command, the rest as arguments), with laws on
  mentions, blank texts and whitespace splitting.
- `src/text.rs`: Unicode whitespace, characters of a string, substring search.
- `src/gate.rs`: the retry policy of the send gate (exponential backoff on
  rate limits only), with laws on how many attempts a send makes.
- `src/scheduler.rs`: what a cron job does next (sleep until the next
  occurrence, or stop).
- `src/store.rs`: the in-memory JSON key-value store and the bytes of its file.
- `app/`: the runtime around it: file I/O of the store, the async gate with
  its lock, and the tokio tasks of the scheduler.
