# nun

The application layer of the terminal editor nun, written in Verus: what every
key, click and answer means, as functions from what the editor knows to what it
knows next and what is left to be done.

- `src/` is the library. Every function in it has a contract, which Verus proves
  of all but a few. Those few call out: the text itself is held in a `ropey`
  rope, and grapheme clusters and column widths come from `unicode-segmentation`
  and `unicode-width`. They are in `rope.rs`, `unicode.rs` and `text.rs`, each
  with what is taken on trust of what it calls. What holds of the editor as a whole is stated by the public
  proof functions.
- `tests/` runs it.
- `app/` is the plain Rust around it: terminal events in, cells out, and the
  programs it starts.

The library starts no program, reads no file and asks no clock. Times are
milliseconds handed in, and anything that has to be sent, opened or drawn comes
back to the caller as a value.
