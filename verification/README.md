# pet-render

The renderer of a desktop pet: a small Wayland mascot whose animation shows
what the user's coding agents are doing, with a speech bubble for the session
that needs an answer.

`src/` is the library. Everything that decides what is shown and what happens
lives there, written in Verus and proved against its contracts:

| module | role |
|---|---|
| `sprite` | pet manifests, spritesheets, animation playback, gaze |
| `surface` | bubble, layout, position, outputs, visibility |
| `input` | hit-testing, clicks, hover, drag |
| `compositor` | which window has the focus, and when that is worth reporting |
| `compose`, `preview`, `canvas`, `text` | what a frame looks like |
| `app` | one renderer run, as a state machine over its events |
| `supervisor` | starting the renderer again when it stops |
| `proto` | what the renderer and its daemon tell each other |

Laws that relate several functions (that the debounce never reports a value
twice in a row, that a state animation plays its passes and then settles, that
a dismissed bubble stays away until its content changes) stand beside them as
public proof functions.

`app/` is ordinary Rust around the library: Wayland, sockets, files, threads,
text shaping, and all drawing in floating point. It tests what the library
requires before it calls it.

`tests/` runs the library on concrete values.
