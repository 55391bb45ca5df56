# tiger

Checks the files of mods for Paradox grand strategy games (Crusader Kings III first) and
reports mistakes: script syntax, localization, map data, modifiers, triggers and more.

The library is written in Verus. Every function in `src/` has a `requires`/`ensures`
contract that Verus proves, and the properties that span several functions are stated as
public proof functions named `law_*`.

## Layout

- `src/` — the verified library.
  - `pdxfile/`, `parse/`: the parsers for script files, localization files, `.csv` files,
    suppression lists and ignore comments. Each parser is a function on text.
  - `validator/`, `validate.rs`, `trigger.rs`, `modifs.rs`, `scopes.rs`: checks on parsed
    script.
  - `provinces.rs`, `rivers.rs`: checks on the map data, including decoding its images.
  - `report/`: collecting, filtering, suppressing, sorting and laying out reports.
- `tests/` — tests run against the compiled library.
- `app/` — the command-line program. It finds the game and mod directories, reads files,
  hands their contents to the library and prints the reports it gets back.

## Running

    tiger [--ck3 GAME_DIR] [--suppress FILE] [MOD_DIR]

`--suppress` takes the text output of an earlier run. Reports listed there are not shown
again.
