# tiny_discord_bot

A Discord bot that lets members of a server create characters (a name and an
avatar) and post messages as them through webhooks, plus a little fuzzy phrase
matching in one channel.

- `src/` is the verified library (Verus): character ID and avatar rules,
  per-server data (`servers`), webhook users (`fake_user`), fuzzy matching
  (`fuzzy`), autocompletion order (`autocomplete`), logging decisions
  (`logger`), event filtering (`events`), the steps of speaking as a character
  (`say_as`), the bot's texts and replies (`commands`) and the text and number
  routines they rest on (`text`).
- `app/` is the program around it: the Discord client, slash commands (which
  perform the actions the library decides on), YAML storage, the process
  logger and the floating-point scores.
- `tests/` exercises the library.
