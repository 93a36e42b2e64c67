# polyrhythm

The rules of five small rhythm games — falling arrows (`stepmania`), drum
notes (`taiko`), guitar frets with hold notes (`clone_hero`), clickable
circles (`osu`) and falling words to type (`rhythm_typer`) — as a library
verified with Verus.

* `src/` holds the rules: judgement of a press by its distance to the hit
  line, points, combo, note movement and removal, spawning, and the mapping
  from keys to lanes. Each game has an abstract state (`*State`) that the
  contracts speak of, and each rule is stated as a spec function over it;
  the `law_*` proof functions state what holds across calls. Positions are
  integers in thousandths of a pixel, frame times microseconds, clock
  readings milliseconds.
* `app/` runs a game in a ggez window: `app <game>`, where `<game>` is one
  of stepmania, osu, taiko, rhythm_typer or clone_hero. It loads images,
  draws, measures time and turns window events into library calls.
* `tests/` exercises the library on concrete values.
