# kitsune

The decision logic of a systemless root daemon for Android, verified with Verus:
what the daemon answers to whom, which boot stage runs when, which partition keeps
files for the next boot, how code gets into a zygote and how it behaves there.

- `src/` is the library. Nothing in it touches files, sockets, processes or foreign
  memory, and only the name of a file to mount on is drawn from the system's
  randomness: its functions take what was read and tell what to do, and every one
  of them but the trusted ones below is proved against its contract. Longer exchanges with the system are state
  machines from phase and event to phase and action.
  - `text`, `num`, `bytes`: strings, numbers and byte strings.
  - `daemon`, `bootstages`, `mount`: the daemon.
  - `zygisk`: watching `init`, loading a library into a zygote, and the daemon's
    side of what injected code asks for.
  - `init`: the program that takes the place of `init`.
  - `inject`: the library that is loaded into zygotes.
- `tests/` run the library on concrete values.
- `app/` performs the actions: system calls, sockets, threads, and the tables that
  are shared with C code.

What is trusted stands behind `external_body` and `assume_specification`: `libc`'s
`major`, `WIFEXITED` and `WEXITSTATUS`, `rand::random`, `String::push` and
`core::str::from_utf8`.
