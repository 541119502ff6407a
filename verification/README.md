# sokoban

Sokoban in Rust, with the game logic verified by Verus.

- `src/` is the verified library: `level` reads puzzle-set text into maps,
  `game` holds the rules of moving, pushing and undoing, `render` draws the
  board and its legend, `colorize` colours the symbols, `touch_input` turns
  touch-screen positions into swipes, `session` decides what each command does
  in the game loop, and `laws` proves what every move and undo keeps.
- `app/` is the terminal program: it reads the puzzle set given with
  `--file` (or `microban.txt` in the working directory), and drives the game
  with crossterm.

Symbols: `#` wall, `o` cube, `O` cube on button, `x` button, `K` player,
`F` finish (active once every button is pressed).
