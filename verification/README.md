# taste_app

The decisions behind a workbench for many development environments: which
environments there are and what their rows say, when the coordinator is woken,
what the file tree shows and what an action on it comes to, how an editor page
is saved, previewed and compared, and what the console pane keeps of its shells.

- `src/` holds the decisions. Each is a function over plain values whose
  contract says what it returns or changes, and Verus proves the contract. What
  holds across several functions is stated as a public proof function beside
  them.
- `app/` holds the widgets, the files, the processes and the clock. It asks the
  library what to do, does it, and hands back what happened.
- `tests/` runs the library on concrete values.

A few outside functions are trusted, each behind a declared contract: the
Unicode lowercase mapping and `String::push` (`src/text.rs`), gitignore
matching (`src/filetree/ignoring.rs`), line diffs (`src/editor/diff.rs`) and
EditorConfig fallbacks (`src/editor/policy.rs`).
