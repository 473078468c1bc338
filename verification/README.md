# pilegit

`pgit` manages a stack of commits as a stack of code reviews: reorder, squash, edit and
insert commits in a terminal screen, and submit, update and sync each commit as a review on
GitHub, GitLab, Gitea, Phabricator, or through a command of your own. The platform stands in
`.pilegit.toml`; a command in the variable `PGIT_SUBMIT_CMD` comes before it.

- `src/` is the library. It holds what the program decides: the stack and its history, what
  every key does, what the screen shows, how the output of git and of the platforms' tools is
  read, which commands are run, and the operations, each as a machine that takes an answer and
  says what to do next. Verus proves each function against its contract; the contracts of the
  few calls into other crates are stated beside them, and trusted.
- `app/` is the program around it. It runs git and the other tools, reads and writes files,
  draws, and hands the answers to the library.
- `tests/` runs the library on concrete values.

What the library promises beyond single calls stands in the public proof functions whose names
begin with `law_`: that undo and redo restore the stack, that no operation pushes over changes
that someone else made, that only listed branches are deleted, and others.
