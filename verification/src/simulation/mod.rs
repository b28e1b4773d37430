//! The simulation core: grid cell classification, obstacles, animation,
//! configuration types, and the per-run frame bookkeeping.

/// The grid of per-cell wall classifications that the fluid solver's boundary
/// handling reads, together with the index arithmetic into it.
pub mod fluid;

/// Various obstacles defined by their corner points can be put into the
/// simulation, as long as the obstacle's points are inside the fluid's
/// container. The fluid will avoid those.
pub mod obstacle;

/// Evolves the obstacle set frame-to-frame with a cellular automaton over a
/// coarsened grid of fixed-size blocks.
pub mod animation;

/// Contains the configuration types for the project. The renderer and the
/// fluid use them to define their own behaviour.
pub mod configs;

/// Performs the current simulation only: the per-frame state machine that
/// stamps obstacles, advances the grid and emits finished frames in order.
pub mod current_simulation;

/// Renders the simulation: orchestrates a run from buffered configurations
/// and hands finished frames to the rendering consumer.
pub mod renderer;

/// The rendering consumer's state and the per-pixel and file-naming rules it
/// follows.
pub mod renderer_helpers;
