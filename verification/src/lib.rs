//! Orchestration core of a real-time renderer.
//!
//! The crate turns draw requests (a mesh, a shading program, a set of
//! shader-input bindings) into the ordered stream of state-change and draw
//! requests that a GPU executor consumes. It performs no I/O itself: every
//! operation appends requests to an outbox and, where the executor has to
//! answer first, parks until the reply is handed back.
//!
//! - `handle`: append-only tables and the handles they issue.
//! - `shade`, `mesh`, `target`: programs, meshes and output targets.
//! - `envir`: environments, and matching one against a program.
//! - `protocol`: the messages exchanged with the executor.
//! - `binding`: the requests that bind a mesh, an environment, a slice.
//! - `model`: the renderer as a state machine over mathematical values.
//! - `renderer`: the renderer itself, verified against `model`.
//! - `laws`, `mirror`: what holds across operations.
//! - `search`, `lift`: lookup by name and views of sequences.

pub mod binding;
pub mod envir;
pub mod handle;
pub mod laws;
pub mod lift;
pub mod mesh;
pub mod mirror;
pub mod model;
pub mod protocol;
pub mod renderer;
pub mod search;
pub mod shade;
pub mod target;
