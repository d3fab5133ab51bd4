# Kurogane

Kurogane embeds Chromium into desktop applications by way of CEF, the Chromium
Embedded Framework. This crate is its runtime: it finds a CEF installation,
brings CEF up, keeps track of browsers and windows, and ends in good order.

- `src/` is the runtime's logic, verified with Verus. It makes no call into CEF
  or the operating system; it says what is to be done and takes in what came of
  it.
- `app/` does it: CEF, files, threads, signals, and the macOS application
  object.
- `tests/` runs the library on concrete values.
