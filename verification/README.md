# dicemaiden_rs

A dice roller for tabletop role-playing games, run as a Discord bot. A request
such as `4d6 k3 + 2 ! strength` is expanded (game-system aliases), parsed into
rolls, rolled, and rendered as message text.

## Layout

- `src/` is the library, written in Verus, which checks every function in
  it. The functions that compute carry contracts that Verus proves; a few
  small trusted wrappers call `rand`, `getrandom` and the standard library
  (the clock, lower-casing, appending a character), and their contracts are
  assumed, not proved:
  - `text.rs`: character-level helpers and the specifications they share
    (digits, whitespace, trimming, decimal rendering);
  - `dice/grammar.rs`, `dice/parser.rs`: the request grammar and its parser;
  - `dice/aliases.rs`: the alias expansions of the supported game systems;
  - `dice/roller.rs`, `dice/handlers.rs`, `dice/systems.rs`, `dice/arith.rs`:
    rolling, the modifier pipeline and the game-system readings;
  - `dice/format.rs`: rendering of results and the message size limits;
  - `dice/rng.rs`: the random number generators, behind small trusted
    wrappers around the `rand` and `getrandom` crates;
  - `commands.rs`, `help_text.rs`, `bot.rs`: the replies of the bot's
    commands and the decisions of its process (shards, purge, statistics).
- `tests/` exercises the library on concrete values.
- `app/` is the Discord program around the library: configuration, the
  gateway client, the database and the statistics timer.
