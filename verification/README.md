# gasmask_bot

A Discord bot for a Wynncraft guild: member profiles, a weekly XP
leaderboard and a reputation system (`/prep`, `/nrep`, `/rep`).

- `src/` is the verified library (Verus). It holds everything the bot
  decides: which commands exist and which one answers an interaction, how a
  leaderboard is ranked and written, what a profile shows, when a reputation
  may be given, and how numbers, dates and names are rendered.
  - `text.rs`: decimal and grouped numbers, pattern removal, case mapping,
    code-point ordering of strings.
  - `calendar.rs`: days as chrono day numbers, midnight timestamps, the text
    of a `Date<Utc>`.
  - `util.rs`: reputation kinds and tallies, the contribution log, the values
    the database queries take.
  - `wynn.rs`: the Wynncraft records as plain values, checks on API answers.
  - `commands/`: leaderboard, profile, reputation and its two kinds of grant.
  - `handler.rs`: the registered slash commands and the dispatch.
- `app/` is the program around it: Discord (serenity), HTTP (reqwest), the
  SQLite database (sqlx) and the environment.
- `tests/` exercise the library on concrete values.
