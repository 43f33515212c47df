//! A harness for recursive language models.
//!
//! Long context is not pasted into a prompt. It lives in an environment that a model navigates by
//! small scripts, and from which it can ask sub-models over slices of the context. The library
//! holds what is decided and computed; files, processes, HTTP and the script engine are outside
//! and are reached by actions: each loop is a machine that takes what came back from outside and
//! says what to do next.

/// Texts: numbers, cutting, lines, searching.
pub mod text;
/// What holds of every text.
pub mod text_laws;
/// Maps by text, in order.
pub mod textmap;

/// The configuration.
pub mod config;
/// Chat messages and model servers.
pub mod client;
/// The persistent memory.
pub mod memory;

/// The script in a message.
pub mod fence;
/// Searching contexts.
pub mod grep;
/// The environment of scripts.
pub mod env;
/// What holds of every script.
pub mod env_laws;
/// The root loop.
pub mod engine;
/// What holds of every loop.
pub mod run_laws;

/// Bringing up a model server.
pub mod server;
/// What comes before a run.
pub mod setup;

/// What a request asks for.
pub mod route;
/// What a run is granted.
pub mod admission;
/// A run as its clients see it.
pub mod runs;
/// All runs.
pub mod store;
/// What holds of all runs.
pub mod store_laws;
/// Events on their way to a client.
pub mod stream;
/// The control plane.
pub mod daemon;

/// The command line.
pub mod cli;
/// What operations leave behind.
pub mod effect_laws;
