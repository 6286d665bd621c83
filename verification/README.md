# zerostack terminal interface

The interface layer of a terminal coding agent: the line editor with its
history and kill ring, the pickers for files, commands, prompts, models and
themes, the chat view with scrolling and selection, markdown rendering, and
the status line, with the decisions of the main loop (what each key, mouse
event and submitted line does, and where a line goes), of showing a
streamed run, of the permission prompt, of a session's transcript, and of
`/sessions`, `/advisor`, `/models` and `/queue`. These are written in Verus
under `src/` with their contracts proved; the terminal, the file system,
the clock and the floating-point figures stay in `app/`.

Not everything the interface decides is here:

- What happens at the end of a run (token totals, compaction, saving the
  session, the next round of a `/loop`) rests on the session, loop and
  pricing modules, which are not part of this crate.
- The one-line summaries of tool calls are built from their JSON arguments
  and shortened by a truncation helper that is not part of this crate.
- The other slash commands belong to the agent and its configuration.

`app/` reaches all of these through the `Host` trait of its main loop.

## Layout

- `src/text.rs`, `src/cursor.rs`, `src/edit.rs`: the character model of text,
  byte offsets of UTF-8 text, cursor motion over lines and words.
- `src/editor.rs`, `src/picker_keys.rs`: key handling of the input line and
  of the attached picker.
- `src/filter.rs`, `src/picker.rs`, `src/fuzzy.rs`, `src/list_view.rs`,
  `src/walk.rs`: picker contents, filtering, ranking, the visible window of a
  list, and the entries of a directory walk.
- `src/renderer.rs`, `src/output.rs`: the chat view's buffer, scrolling,
  selection and input layout, and writing text into it as terminal
  operations.
- `src/markdown.rs`, `src/styled.rs`, `src/table.rs`: word wrapping and
  markdown rendering (the events come from `pulldown-cmark`).
- `src/statusline.rs`, `src/items.rs`, `src/color.rs`: the status line, its
  items and the color theme.
- `src/commands.rs`, `src/events.rs`, `src/patterns.rs`: submissions and
  their routes, `/undo`, `/queue`, `.` prompt lines, command texts, output
  sanitizing and permission patterns; `src/permission.rs`: the permission
  prompt.
- `src/dispatch.rs`: the main loop's step from state and event to action
  and next state; `src/stream.rs`: the step that shows a streamed run, the
  task list and tool results; `src/transcript.rs`: a loaded session's
  transcript.
- `src/sessions.rs`, `src/advisor.rs`, `src/models.rs`: the `/sessions`,
  `/advisor` and `/models` requests and replies.
- `app/`: the main loop over terminal and agent events, drawing with
  `crossterm`, the
  directory walk with `ignore`, the clipboard, the external editor, time
  stamps and prices.
- `tests/`: tests of the library on concrete values.
