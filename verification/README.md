# livepeer_payout_bot

A Discord bot that watches the Livepeer protocol explorer API and posts
orchestrator payout digests, daily/weekly/monthly network summaries,
subscriber DMs (rewards, delegator activity, cut changes) and reward-call
watch alerts.

The crate is split in two:

- `src/` is the library, written in Verus and verified: configuration
  parsing and its error reporting, calendar windows and digest boundaries,
  digest planning, the summary readiness gate, delivery decisions (DM
  failure handling, webhook retries and back-off, fan-out), event paging
  and delegator classification, the reward-call watcher's round
  bookkeeping and digest run, the Prometheus exposition, the texts of the
  command replies, and the description texts that the DM embeds carry.
  Calls into `url`, `chrono` and `str::parse` sit behind small trusted
  wrappers whose contracts name what those calls return.
- `app/` is the process around it: environment access, SQLite (sqlx),
  the explorer HTTP client (reqwest), Discord delivery and slash commands
  (poise/serenity), the task loops, and the embed builders: they compute
  and print floating-point amounts and wrap the library's texts in Discord
  embeds.

`tests/` exercises the library on concrete values.
