# media_tool

A small media tool with a verified core. It splits a media file into one file
per stream, and runs the audio of a file through a filter into another file.

- `src/` is the library: names and paths of the output, the order of the
  packets, the steps of opening, transcoding and closing, the report, and what
  every answer from outside leads to. Verus proves each function against its
  contract, and the laws that hold of them together.
- `app/` is the tool itself: the command line, the network, the files and
  FFmpeg. It does what the library decides.
- `tests/` runs the library.

Four functions are believed, not proved: those that call `reqwest` for the
segments of a URL's path, for the meaning of a status code and for its words, and
the one that asks `libc` for the number of an input or output error.
