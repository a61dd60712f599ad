# ghn

A terminal client for GitHub notifications, with its decisions verified by Verus.

- `src/` is the verified library:
  - `text.rs`: character-level string work (search, replacement, decimal numbers, UTF-8
    byte positions);
  - `notifications.rs`: the notification records;
  - `config.rs`: where the configuration and the cache live;
  - `github.rs`: turning API threads into notifications, merging a fresh listing with the
    known one and ordering it, completing a notification's details step by step, and
    pushing local status changes back;
  - `app.rs`: the client's state, what each key does to it, and the texts on screen.
- `app/` is the program around it: the terminal, the GitHub requests, files and YAML.
- `tests/` runs the library on concrete values.
