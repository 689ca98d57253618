# Issen

A launcher for Windows: press a hotkey, type a few letters, and run what is found.
This repository holds the launcher's logic as a verified library, and the program
around it.

- `src/` is the library, verified with Verus: fuzzy matching, ranking and history,
  the index of installed apps, aliases and Windows settings, the text field, the
  state of the main, settings, tools and About windows, hotkeys, and the texts in
  two languages. What an operation does is stated in its contract; what holds of
  several operations together is stated in the proof functions whose names begin
  with `law_`.
- `tests/` runs the library on concrete values.
- `app/` is the program: windows, files, plugins and the calls into Windows.

The library asks for what it cannot do itself: its methods return requests and
flags, and `app/` carries them out and reports back. Calls into other crates that
only compute (regular expressions, grapheme clusters) stay in the library, behind
contracts that are believed and not proved; their doc comments say what is claimed.
