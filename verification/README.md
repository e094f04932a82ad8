# Enigmascope

An Enigma I in the terminal that shows the path of the current through plugboard,
rotors and reflector, key by key.

`src/` is a library written in Verus. It holds the machine, the daily key, the
session with everything that keys do, the transcript, and the contents of every
screen, each with a contract. Beyond the contracts it proves, among other things,
that two machines set alike decode each other, that no letter stands for itself,
that the rotors double-step, that whatever is typed from the start of a session on,
its tape records what the machine makes of the text under the settings in use, and
that a transcript can be verified under the settings it shows.

`app/` is the program: it reads keys and clocks, moves the drums on the screen,
saves transcripts, and draws what the library wants shown.

`tests/` runs the library.

Three things are trusted: `String::push`, and ratatui's `Layout::split` and
`Block::inner`. Their contracts stand in `src/text.rs` and `src/area.rs`.
