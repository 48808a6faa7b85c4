# vellum_app

The rules of a whiteboard application, written in Verus: what a gesture means, what an edit
does, where a board is filed, how boards are sent to a server, what a record of a crashed
session says. Each rule is executable Rust with a contract, and Verus proves that the code
keeps it.

`src/` is the library. It holds no window, no disk and no network.

| Module | What it decides |
|---|---|
| `input` | pointer, wheel and keys: what a gesture asks for |
| `handle`, `mesh`, `hud`, `note` | grips, ribbons, the overlay's letters, the parts of a note |
| `inspect`, `item` | the properties panel, from items to controls and back |
| `editor`, `session` | the selection, what follows an edit, the boards that are open |
| `library` | titles, file names, spaces, stars, Recently deleted, preferences |
| `push`, `worker`, `hash` | sending boards: which board is which, and the run as a machine |
| `frames` | frame rates, counted over a window |
| `flight`, `readback` | the flight record, and what it says once it is read back |
| `options` | the command line |
| `menubar` | the native menus, their ids and their keys |
| `links`, `export`, `kanban`, `mindmap` | link cards, media types, default boards |
| `path`, `text`, `scalar` | paths by their places, strings, floating point by its bits |

Floating point stays outside. Where a rule depends on a distance, a speed or a fraction, it
takes the number measured, as the bits of an IEEE double (`scalar::Scalar`), and only
compares it. Times are integers.

Public proof functions state the laws that span several functions: that every run of the
push worker ends, that a board's document goes only when each of its pictures was sent,
proved present or skipped, that a killed session is reported with its peak, that restoring
undoes deleting.

`app/` is the program around the library: the window, the camera's arithmetic, files,
threads and requests. What a board's document and its store do is behind traits there.

`tests/` runs the library.
