# soltty

A GPU terminal emulator whose logic is verified with Verus. The library in
`src/` holds everything that decides or computes; `app/` opens the window,
talks to OpenGL, the clipboard and the shell, and calls the library.

## Layout of the library

| modules | what they hold |
|---------|----------------|
| `text`, `conf`, `config`, `theme`, `theme_lib`, `startup` | text helpers, the configuration format, themes, decisions at the start |
| `grid`, `grid_laws` | cells, rows, history, cursor, every editing operation |
| `vt`, `sgr`, `mouse`, `term`, `term_laws`, `view_laws` | escape sequences, character attributes, mouse reports, the two screens, the view into the history |
| `selection`, `search`, `motion`, `yank` | what is selected, found, moved over and copied |
| `vi`, `vi_bind`, `vi_search`, `vi_keys` | vi mode |
| `keys`, `pointer`, `picker`, `session` | the way of a key press or a mouse event |
| `charmap`, `font`, `font_files`, `atlas`, `overlay`, `frame`, `damage`, `prepare` | glyphs and frames |
| `pacing`, `reader`, `clipboard`, `offers`, `bench` | frame pacing, reading in batches, the ways to the clipboard and what is on offer there, benchmark workloads |

Each type has a mathematical model (`GridModel`, `TermModel`, `ViState`,
`SessionModel`, ...) and each operation is a function on that model; the
executable code is proved to do what the function says. Properties that span
operations are public proof functions whose names begin with `law_`.

## What is believed

Calls into `vte`, `swash` and `etagere`, and a few calls into the standard
library, stand behind small functions whose contracts are not proved. They are
marked `external_body` or `assume_specification`, and each says above it what
it claims of the call.
