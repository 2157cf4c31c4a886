# fission-web

Browser front end for the Fission decompiler, built with Dioxus.

- `src/` is the verified library (Verus): the application state with its
  bounded log and navigation history, the hex view of a loaded binary, the
  function list's names, markers and search filter, the editor's content per
  tab, the status bar texts, and the decision taken after each poll for the
  function list.
- `app/` is the Dioxus program around it: components, file reading,
  timers, and the calls into the analysis engine of the `fission-ui` crate.
- `tests/` exercises the library on concrete values.
