# kiosk

A minimal Wayland compositor that runs one application fullscreen on one output and
exits when it exits, with its decisions written in Verus and proved.

`src/` is the library: everything the compositor decides, without the hardware.
`app/` carries the decisions out: it owns the GPU, the input devices, the Wayland
protocol objects, the log file and the child process, asks the library what to do, and
tells it what came of it.

| Module | What it decides |
| --- | --- |
| `backend::discovery` | which connectors there are, in what order, and which one to use |
| `backend::drm`, `frames`, `pacing` | how to bring an output up, when to draw, and how to recover from a failed frame |
| `backend::input`, `focus` | where input goes, what the exit key is, which window is raised |
| `handlers` | what clients may ask for, and what they are answered |
| `state` | the window stack, focus, and what is drawn in what order |
| `cli`, `logging` | what the arguments mean, and where logs may be written |
| `child` | how to start the application, and whom to signal for how long |
| `run` | what is checked at startup, what each event means, and the exit status |
| `text`, `paths`, `order`, `sorting`, `seqs` | text, path order, and sorting underneath |

Some of what is proved of every input and every sequence of events:

- No two page flips are ever in flight, and the frame loop never stalls: whenever there
  is something to show, a flip or a retry is on its way, or the compositor is to exit.
- A named output is used or startup fails: there is no fallback. The default output does
  not depend on the order in which devices turn up.
- The first exit status wins, and the child's own status, or 128 and the number of the
  signal it died by, is what the process exits with.
- Every toplevel stays fullscreen at the output's size, whatever its client asks for.
- No more than 64 popups are tracked at a time, and the end of a popup that was refused
  makes no room for another.
- A log file that is refused is not touched.
- A child that was reaped is never signalled again.

Not proved here, but relied on: a handful of functions of other crates and of the
standard library, each behind a function marked `external_body` or an
`assume_specification`, whose doc comment says what is taken for granted.
