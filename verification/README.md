# shell-cmd

Recursively finds files whose path matches a pattern and runs a shell command for
each, or one command for all of them.

    shell-cmd-rs [options] path "command %1 [%2 %3..]" regex [extra_args..]

`src/` is the library. It is written in Verus: each function has a contract, and
Verus proves that the code keeps it. The library decides what to do and never
touches the system itself.

- `setup`, `options`: from the command line to a run
- `glob`, `pattern`, `token`, `parser`, `expr`, `grammar`: what paths to look for
- `filter`: size, age, permissions, owner, group, type
- `walk`, `walk_laws`: going through a directory tree
- `path`, `command`, `placeholder_laws`: filling in a command template
- `session`, `session_laws`: running commands, one at a time or in parallel
- `system`: running one command with the signals of the parent out of the way
- `report`, `help`: what is printed, and exit codes
- `text`: strings

`app/` is the program around it: it reads directories, starts processes and
prints. `tests/` runs the library.

What Verus takes on trust is the `regex` crate, known here by the text of a
regular expression, and a few functions of the standard library on characters and
strings (see `pattern` and `text`).
