# wlrix_compositor

The rules of a Wayland compositor for a 4Dwm-style desktop, written in Verus: executable Rust whose
contracts say what each function returns or changes, with proofs that it does.

- `src/` is the library. It holds no display, socket or file: a function takes what the program
  knows and returns what is to be done, as plain values. `state` is the desktop (windows, stack,
  screens, desks); `window_ops`, `icons`, `menu`, `placement` and `shell_rules` work on it;
  `input` decides what an event leads to and `render` what is drawn, in which order; the modules
  named after protocols keep what their clients were told and have asked for.
- `stacking`, `defaults` and `theme_names` hold proofs alone: what the operations on the stack keep,
  that every default key binding parses, and that a theme's rules name each of its assets and no
  other file.
- `tests/` runs the library.
- `app/` is the program around it: the event loop, smithay's delegates, the files, the helpers it
  starts, and what is computed in floating point.

Public proof functions state the laws of the library, such as that unmaximizing undoes maximizing,
that a locked session shows the lock and nothing else, or that a stale configuration is cancelled.

Only two things are believed rather than proved, both in `src/scan.rs`: what `String::push` does,
and that quoting a text depends on the text alone.
