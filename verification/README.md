# fintwind

The state and rules of a desktop client for coding agents, written and proved in Verus.

- `src/` is the library. Everything a session, a project, the sidebar, the right panel, the
  settings or the page of providers can hold is a plain value with a view, and every change of
  it is a function whose contract says what comes out. What a change asks of its host (start a
  driver, read a file, show a note) is listed in the `effects` of the value that changed. The
  clock and random identifiers come in as a `Stamp`.
- `app/` is what surrounds it: files, `git`, threads, channels and key bindings.
- `tests/` runs the library on concrete values.

The modules, from the bottom up:

| modules | what they hold |
| --- | --- |
| `ids`, `seqs`, `text`, `keyed`, `lines`, `lexical`, `ranking` | identifiers, text, ordered maps, lines, orders |
| `model`, `transcript`, `text_parts`, `activities`, `truncation` | sessions with their messages, turns and activities |
| `events`, `desk`, `live`, `streaming`, `turns`, `driver_step`, `driver_events`, `pump`, `stopping` | what a driver reports, and what becomes of it |
| `submissions`, `preparations`, `hosting`, `rewinds`, `forks`, `fork_title`, `attachments` | prompts on their way, edits of them, copies of tasks, tasks of a daemon |
| `sessions`, `options`, `probes`, `version`, `navigation`, `shell`, `visible_state`, `computer_use` | which session is on screen and how it is set up |
| `sidebar_groups`, `sidebar`, `sidebar_views`, `panels` | the list of tasks and the widths of the window |
| `surfaces`, `right_panel`, `file_editors`, `file_types`, `working_tree`, `diff_files`, `panel_views` | the right panel with its tabs, files and changes |
| `settings`, `provider_types`, `providers_page`, `provider_forms`, `provider_probes`, `provider_views`, `modalities` | the settings and the providers of models |
| `stream_laws`, `desk_laws`, `sidebar_laws`, `provider_laws` | laws that hold across these |
