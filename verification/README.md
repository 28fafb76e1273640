# workspace_pane

The logic of a workspace pane, verified with Verus: a row of tabs with one active item, the
history of activations, the back, forward and closed-item stacks, closing and saving items,
walking the history, keeping a pane between runs, moving items between panes, and what is drawn.

The library is pure. Items are identifiers; what is true of them is read from an `AppContext`.
What the application has to do is recorded, in order, in a `ViewContext`. Where the user or a file
has to be waited for, a function returns what it waits for, and another one takes the answer.

- `src/` is the library. Every contract relates the value before a call to the value after it,
  over the models `PaneModel`, `NavModel`, `CloseModel` and `WorkspaceModel`.
- `src/laws/` states and proves what holds of the library as a whole.
- `tests/` runs it on concrete values.
- `app/` performs what the library asks for, waits where it has to wait, and draws.
