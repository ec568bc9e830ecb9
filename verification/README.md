# survey

The deterministic core of a star-survey game, verified with Verus.

- `src/rng.rs`: the xorshift64 generator (its state is never zero).
- `src/star.rs`: per-star seeds (injective in the star index and in the
  world seed) and the random draws behind each star and its planets.
- `src/starfield.rs`: sprite sizes, where a star sprite lands in the
  starfield, kernel tap geometry and bloom neighbourhoods.
- `src/matching.rs`: scoring planet guesses against the true planets.
- `src/survey.rs`: rounds, the star each round examines, and the confirm
  sequence that closes a round.
- `src/spectral.rs`: spectral line sources.

`app/` is the game itself (macroquad window, floating-point light and orbit
models, UI, audio experiments) built on the library.
