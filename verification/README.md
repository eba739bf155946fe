# drcom-campus

A Dr.COM campus-network client whose logic is verified with Verus.

* `src/` is the library: frames, parsers, retry rules, the session and the client behind the window,
  as functions over plain values with proved contracts. Laws that span several functions stand
  beside them as public proof functions named `law_...`; those of the session are in
  `session_laws.rs`.
* `app/` is the program around it: sockets, files, threads, the window, and the calls into Windows.
* `tests/` runs the library on concrete values.

A session never touches a socket. `LoginSession` answers every input with what to report and what to
do next, and `app/driver.rs` does it. The window works the same way: `ui_backend::Backend` turns
clicks, ticks and session reports into effects.
