# craig

The rules of a Discord chat bot that answers mentions, prefix messages and an `/ai`
slash command with the replies of an AI model, as a library verified with Verus.

- `src/text.rs` — character-level text operations (whitespace, trimming, collapsing
  whitespace, replacing, decimal numbers) with their specifications and lemmas.
- `src/chat.rs` — chat sources, prompt extraction, cutting replies into Discord messages.
- `src/chat_log.rs` — the record kept of each exchange.
- `src/dispatch.rs` — what to do with a message or an unknown prefix command, and the
  record of an exchange; the laws on who gets answered.
- `src/ai.rs` — the models offered, the completion request, reading the reply.
- `src/config.rs` — reading and checking the settings.
- `src/commands.rs` — replies of the `ping`, `sync` and `unsync` commands, owner check.
- `app/` — the program: Discord, database, inference service, environment and logging.
