# mamba

Builds a Rust project on another machine, transparently: a `cargo` shim stands in front of the
real one, and in a project with a `.mamba.toml`, `cargo build` runs on the machine that file
names.

The library under `src/` holds the rules and is verified with Verus: what a command line and a
config file amount to, what is put on a shell's command line, what travels over a socket, where
things are on either machine, and in which order a build is taken through its steps. Functions
whose names begin with `law_` state what holds across functions, such as that a frame that was
written is read back, that none of the shim's own flags reaches a cargo, or that nothing that
happens to an artifact changes a build's exit code.

The library starts no process and opens no file. `app/` does that: it is the `cargo` shim, the
daemon and the server, and does nothing but carry out what the library asks for and hand back how
it went. Which of the three programs it is follows from the name it is started under: `cargo`,
`mamba-daemon` or `mamba-server`.

Trusted are the contracts of the few functions of `toml` and of the standard library that the
rules call; each says what it claims where it stands, in `src/document.rs` and `src/text.rs`.
