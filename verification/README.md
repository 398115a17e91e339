# MorReel Studio

An editor for vertical video. The library in `src/` holds what the editor decides;
it is verified with Verus, down to five small wrappers around calls into other crates
and the standard library, whose contracts are trusted. The program in `app/` draws the
window and does the reading, writing and waiting.

- Times are whole ticks, three million to the second. Gains, speeds and shares of the
  frame are whole thousandths, and so are pixels on the screen.
- `model` describes a reel; `track`, `edges`, `lanes` and `magnet` say where things lie
  on its timeline.
- `editor` holds a reel being edited with what can be undone. Its operations are spread
  over `cuts`, `trims`, `moves`, `holds`, `groups`, `items`, `adds`, `clipboard`, `looks`,
  `knobs`, `inspect`, `beds`, `cards`, `titles`, `sound`, `autocut`, `drags` and `project`; `saved`
  says what a project file records and whether the reel has changed since.
- `keyframes` describes values that move, by keys on a curve.
- `drop`, `paths`, `dialog`, `live`, `hub` and `icon` decide on what comes from outside.
- `playback`, `queues`, `mix` and `monitor` decide what is played, shown and heard.
- `ruler`, `palette`, `shelf`, `tiles`, `shortcuts`, `menus` and `workspace` belong to the window;
  `upload` knows how long a reel the platforms take, and `otio` lays a reel out as tracks
  for other editors.

Proof functions whose names begin with `law_` state what holds across operations.

The program hands media work (probing, frames, mixing, export) to a separate
`morreel-engine` program over JSON.
