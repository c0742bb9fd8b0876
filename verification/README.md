# shapka

The server of a party word game: players join a game, each adds words, the players
are split in teams of two, and in turn one player explains words to a teammate
against the clock, over three rounds.

`src/` is the library, verified with Verus:

- `models/game.rs` — the game and its state, creation, and the split in teams;
- `controllers/` — what each request does to a game: joining, leaving and kicking,
  adding and removing words, starting, fetching, guessing and taking back words,
  passing turns and rounds, and which page a player sees;
- `auth/` — which endpoints need a token, and the token check;
- `throttling/` — per-sender request counters and the rate limits;
- `extentions/` — shared strings, the name-keyed map, and small helpers;
- `game.rs` — the first, simpler form of the game state.

The contracts state each request's effect on the game exactly; proof functions
state the laws that span requests (taking back a guess, removing an added word,
the rotation of turns, the teams).

`app/` is the web server around the library (Rocket routes, server-sent events,
request fairings, the registry of games), and `tests/` runs the library on
concrete games.
