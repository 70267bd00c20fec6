# wiparse_gui

The logic of a bench workstation: a serial log tool with tabs, filters, search and an editor, a
rack of bench instruments (oscilloscopes, sources, loads, multimeters, probes and USB bridges) and
a plugin market. The library under `src/` is verified with Verus; the window around it is in
`app/`.

## Layout

| module | what it holds |
| --- | --- |
| `text`, `search`, `editor` | characters and bytes of a text, search and replace, the editor's keys |
| `files`, `browser`, `capture` | file names and paths, the folder browser, captured lines |
| `pane`, `pane_laws` | one view of a log: filter, matches, result list, eviction of old lines |
| `log_tab`, `log_edit`, `log_laws` | a tab with its two views, editing and saving a file |
| `tabs`, `serial` | the tab bar and its file loads, the capture file and its name |
| `instrument`, `rack`, `discovery` | kinds, cards and selection, scan results and connections |
| `controls` | the controls of each kind of instrument and the commands they send |
| `bench`, `bench_status`, `bench_events`, `bench_api` | the bench: jobs, readings, events, requests |
| `worker` | what the instrument thread does for each job, and what it reports |
| `overview` | the overview of all instruments |
| `screenshot`, `waveform` | pictures and waveform files |
| `market`, `tektronix` | the plugin market and the scope page |
| `json`, `request` | JSON values, and what requests ask for in them |

`app/` is the program: windows, ports, files, dialogs and threads. `tests/` runs the library.

## Conventions

- A contract says what a function returns on every input, over spec functions named after what
  they describe; `wf` is the invariant of a type.
- `law_*` proof functions state what holds between several operations.
- Numbers with a fraction pass through the library by their bits (`controls::Real`); arithmetic on
  them belongs to `app/`.
- Calls into outside crates stand in functions marked `external_body`; each says in its doc comment
  what is taken on trust.
