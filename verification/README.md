# tuiedit

A terminal text editor whose editing core is verified with Verus.

- `src/` is the library: buffers and their edits (`buffer`), the search bar
  (`search`), the command palette (`cmd_palette`), the terminal panel's
  output and state (`term_panel`), the project generator's templates and
  answer parsing (`ai_project`), the file tree (`filetree`), the editor's
  key handling, command line and project form (`app`), syntax colouring and
  the gutter (`editor`), the status bar (`status`), the colour theme
  (`theme`) and text helpers (`text`). `laws` states and proves properties
  that span several operations, such as saving and reopening a file giving
  back its lines, or typing then Backspace restoring the text.
- `app/` is the program around it: it reads keys with crossterm, draws with
  ratatui, runs shells in a pseudo-terminal, reads and writes files, and asks
  a local model for project files. Each key goes to `App::try_handle_event`,
  whose `Effect` tells the program what outside work to do.
- `tests/` runs the library on concrete examples.
