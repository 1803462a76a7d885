# larris

A controller for GRBL laser engravers. It finds and opens a serial port, talks
to the machine, jogs and homes it, turns drawings into G-code, shows the job as
a picture, and streams it line by line, waiting for each `ok`.

What the program decides is a library of verified functions; what it does to
the outside world is a thin layer of ordinary Rust around it.

## Layout

- `src/` – the library.
  - Reading and writing the machine: `grbl` (reports and commands), `serial`
    (the stream of a job and the serial actor's steps), `trace` (the path of a
    G-code text), `raster` (its picture).
  - Making a job: `svg` (layers of a drawing), `visitor` and `program` (shapes
    to moves), `turtle` (moves to G-code), `converter` (settings, checks and
    the accepted job), `settings` and `layers` (what can be set).
  - The program's state: `app`, `talk` (console, status line, link), `input`
    (the command line), `actions` (what is done), `keys` and `events` (what a
    key does).
  - What is shown: `view`, `message`, and a module for each pane; `pages` and
    `window` for the desktop window.
  - `binary64` – the order of binary floating-point numbers, by their bits.
  - `text` – strings.
- `tests/` – tests of the library.
- `app/` – the program: `main.rs` is the terminal program. `desktop.rs` is the
  root of the desktop program; it is built where GTK 4 is installed, with
  `relm4` beside the dependencies listed in `Cargo.toml`.

Numbers that the library does not compute with are kept by their bits, in
`binary64::Real`; arithmetic on them is done in `app/`.
