# cazean-tui

A terminal interface for sessions with an agent: a dashboard of saved sessions,
a workspace with transcript, inspector and composer, full-screen previews of
subagents, a picker for the agent's questions and an overlay that reviews plans.

## Layout

- `src/` is the library. It holds the state of the interface (`ui::UiModel`), and
  everything that decides: how events change the state, which effects are asked
  for, and what is drawn where. It is written in Verus: every function states
  what it returns or changes, and the proofs are checked.
- `app/` is the program around it: the terminal, the application server, the
  disk. It hands events to the library, performs the effects that come back, and
  carries out drawing steps.
- `tests/` runs the library on concrete values.

## How it works

`UiModel::update` takes one `UiEvent` and returns the effects that the program
has to perform. What came of an effect comes back as another event, under the
same number. `ui::run` keeps effects in order. `UiModel::render` gives the
drawing steps of a screen.

Contracts speak of views: `UiModel` has a `ModelView` of mathematical values, and
`final(self)@ == old(self)@.step(event)` says what an event does. Caches of
wrapped rows are not part of a view; an invariant says that they hold what
drawing would give.

Each module ends with its laws: proof functions that relate several of its
functions, such as that wrapping loses nothing that is visible, that duplicate
events of a previewed thread add no row, or that the selected row is on screen.

Time is passed in as nanoseconds. Skills, plans and instruction files are read by
the program and passed in as texts.
