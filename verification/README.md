# uncurses

The logic of a terminal application library, written in Rust and verified with Verus:
what the bytes of a terminal mean, and what bytes a terminal has to be sent.

- `src/ansi`: escape sequences and how they are written.
- `src/event`: events, keys and mice, and the decoder that turns input bytes into them.
- `src/screen`: the state of a screen. It stages the bytes that bring a terminal in line
  with the cells an application draws and the modes it asks for, and it takes in what the
  terminal reports of itself.
- `app`: input and output on a Unix terminal around the library.

Every function of `src` carries a contract over mathematical models: byte strings are
sequences, a decoder is a `DecoderView`, a screen is a `ScreenView`, and a method is stated
as a function from the model before the call to the model after it. What holds across
functions stands in proof functions whose names begin with `law_`: that the chunks in which
input arrives do not matter, that a paste is handed over verbatim, that reports decode to
what they were written for, that a teardown leaves the tracked modes to be applied again.
