//! Building a Rust project on another machine, transparently.
//!
//! A `cargo` shim stands in front of the real one. In a project with a `.mamba.toml`,
//! `cargo build` runs on the machine that file names; everything else, and every other project,
//! is left to the real cargo. The source is pushed with rsync, the build runs over ssh or
//! through a `mamba-server`, and what is wanted of it is fetched back.
//!
//! This library holds the rules: what a command line and a config file amount to, what is put on
//! a shell's command line, what travels over a socket, where things are on either machine, and
//! in which order a build is taken through its steps. It starts no process and opens no file. The
//! outcome of whatever has to be done outside is handed to it as a plain value, and it answers
//! with what to do next.
//!
//! - [`input`] decides what one `cargo` command line means; [`config`] reads the settings of a
//!   project that is built without a daemon.
//! - [`ipc`] is the wire format between the shim and the daemon, and [`daemon`] takes one build
//!   through its steps and keeps channels open.
//! - [`channel`], [`ssh`] and [`grpc`] are the ways to a build machine; [`service`] and [`server`]
//!   are what answers on it, and [`proto`] is what is said.
//! - [`transfer`] moves files; [`layout`] knows where cargo puts them.
//! - [`shim`], [`remote`] and [`artifact`] take a build through its steps over plain ssh.
//! - [`shell`], [`paths`], [`document`], [`text`] and [`keyed`] are what the rest stands on.

pub mod artifact;
pub mod channel;
pub mod config;
pub mod daemon;
pub mod document;
pub mod grpc;
pub mod input;
pub mod ipc;
pub mod keyed;
pub mod layout;
pub mod paths;
pub mod proto;
pub mod remote;
pub mod server;
pub mod service;
pub mod shell;
pub mod shim;
pub mod ssh;
pub mod text;
pub mod transfer;
