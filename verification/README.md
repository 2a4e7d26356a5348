# LoopMaster

A router for audio: it takes the sound of programs, devices and network streams, mixes it on
buses, and sends it to devices and over the network. A remote console shows and changes the
routes.

`src/` is the library. Every function in it is verified with Verus against its contract; the
few that only hand a call to an outside crate are marked, and their contracts are trusted.

- `routing`, `editor`, `snapshot`: route graphs, their edits, and graphs that were checked.
- `mixer`, `fifo`, `resampler`, `tone`, `decibels`: blocks of samples. A sample is the bit
  pattern of a single; the arithmetic on it is handed in as functions.
- `runtime`: what an engine's threads decide, from state and event to the next state.
- `windows`: endpoints and formats of the audio service, the order of its calls, and what their
  replies mean.
- `vban`, `network`: packets, jitter buffers, streams, nodes and addresses.
- `service`: configuration, devices, the engine as a service, and the state that front ends share.
- `web`: pairing, certificates, control messages, levels, files and listeners of the console.
- `window`, `diagnostics`: what the window and the trials show.
- `text`, `text_map`, `paths`, `arithmetic`, `faults`: what the others are built from.

`app/` is the program around the library: threads, sockets, files, the audio service of
Windows, HTTP, and floating point. `tests/` holds the tests of the library.
