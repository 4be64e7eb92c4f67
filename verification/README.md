# inactivity_bot

A Discord bot that records when each member of a guild was last active
(messages and reactions) and reports who is about to be timed out for
inactivity.

`src/` is the verified library (Verus):

- `time`: instants in UTC and the `chrono`/serenity calls on them.
- `text`: decimal numerals written into strings.
- `activity`: merging the per-user activity rows and ordering users by
  latest activity.
- `report`: the text of the `timing_out` command.
- `config`: the `config` command's settings update.
- `scan`: the indexing of a channel, as a state machine driven by the bot.
- `store`: the database writes and the values they bind.
- `events`: what each gateway event records.

`app/` is the bot itself: Discord (poise/serenity), the SQLite database
(sqlx) and the runtime (tokio); it drives the library.
