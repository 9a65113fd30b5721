# Runway

Runway syncs the assets of a Roblox project: images, sounds and models are
copied into Studio's content folder or uploaded to the Roblox cloud, and the
next sync leaves alone what has not changed.

`src/` is the library. It holds every decision that a sync makes, each with a
contract that Verus proves:

| Module | What it is about |
| --- | --- |
| `flow` | A sync from the command line to its outcome, one stage after another |
| `session` | The assets that were found, which of them need a sync, and the state left behind |
| `walker` | The directory walk that looks for assets |
| `local` | Copying assets into Studio's content folder |
| `upload` | The upload of one asset, with its retries |
| `roblox` | A sync to the Roblox cloud as a whole |
| `permissions` | Letting universes use uploaded sounds |
| `hash`, `paths`, `text`, `ordered_map` | What the others are built from |
| `asset`, `config`, `state`, `error` | The data that they share |

The modules whose names end in `_laws` state what holds across functions: that
a second sync has nothing left to do, that requests to the service are bounded,
that a local sync needs no upload options, that no failure goes unreported.

Paths are texts, joined as the platform at hand joins them. Where the outside
world is asked (a file, a service, the clock), the library says what to ask for
and takes the answer as a value.

`app/` does the asking: it reads and writes files, walks directories and talks
to Roblox. `tests/` runs the library on concrete values.
