# radioware

The Radioware audio source receives 32-bit float PCM over UDP, encodes it
with Opus and streams the packets to another UDP endpoint.

- `src/` is the verified library: codec frame geometry and the checks around
  one encode call (`codec`), the byte-to-sample framing and the decisions of
  the receive loop (`input`), frame assembly on the output side (`output`),
  configuration defaults (`config`), error reports (`errors`), socket
  addresses (`listener`) and decimal rendering (`text`).
- `app/` is the program around it: argument and settings resolution
  (clap, figment), sockets and polling (mio), signals, threads, the libopus
  calls, and the float conversions of samples.
- `tests/` exercises the library on concrete values.
