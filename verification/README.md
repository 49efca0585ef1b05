# body

Prints the header line(s) of piped standard input untouched, then hands the
remaining body of the input to another command (`sort` by default):

    COMMAND | body [-h|--help] [N] [COMMAND_TO_PROCESS_BODY [ARGS...]]

`N` (default 1, may be 0) is read in decimal and may not exceed
9223372036854775807. Without a command, the value of `BODY_DEFAULT_COMMAND`
(or `sort` when it is unset or empty) is split into words and run; a value
that is only white space is refused.

Layout:

- `src/` is the library, verified with Verus: the header count, word
  splitting, the decision taken from the arguments, the byte-at-a-time
  header reader (which never takes a byte past the header, so the command
  gets the rest of the input untouched), the usage text and exit statuses.
- `app/main.rs` is the program around it: arguments, environment, terminal
  detection, raw reads from file descriptor 0, output, and running the
  command.
- `tests/` exercises the library.
