# kanitomo

A terminal pet crab that lives on your git commits, with a handful of
mini-games. The library under `src/` holds the rules, verified with Verus:

- `state`: the saved state, happiness from today's commits, the weekday
  streak, per-project and per-day counts, recording a new commit.
- `git`: what the recent commits of the watched repositories add up to.
- `mood`, `crab`, `messages`: Kani's mood, its animation frames and lines.
- `environment`: time of day, ground styles and the sky.
- `games`: 2048, tetris, snake, breakout, crab catch, the rhythm game and the
  dash playfield, each on whole cells.
- `controls`: what each key does on each screen, and the command line.
- `scores`, `text`: high-score tables and text helpers.
- `rng`, `clock`: the random numbers and the local clock, taken from `rand`
  and `chrono`.

`app/` is the program around it: the terminal, the file watcher, reading the
repositories, saving the state, and whatever moves in fractional steps of
time (the crab's walk, falling food, the ball, the dash runner).
