# ssher

A manager for saved SSH servers: it keeps server records, chooses and
starts a terminal emulator running `ssh`, keeps passwords in the system
keyring, and offers an interactive menu.

- `src/` is the library, verified with Verus: the server records and the
  operations on them (`models`), the checks on new servers and the choices
  made when reading the configuration (`storage`), the `ssh` arguments and
  the keyring access (`ssh`), the choice of terminal and the quoted command
  line it runs (`terminal`), the table of servers (`listing`), the menu
  state (`tui`) and text helpers (`text`).
- `app/` is the program around it: command line parsing, files, the
  process spawning, the terminal screen and the JSON form of the records.
- `tests/` runs the library on concrete values.
