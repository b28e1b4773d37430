//! A grid-based fluid simulation core: the per-cell wall classification that
//! the solver's boundary handling reads, axis-aligned rectangular obstacles,
//! a cellular-automaton obstacle animation, and the bookkeeping that drives a
//! simulation run frame by frame and hands each rendered frame to a consumer.

/// Space for all the structures that concern the fluid's behaviour during the
/// simulation: the grid of cell classifications, the obstacles that are
/// stamped onto it, their animation, and the configuration types.
pub mod simulation;

/// The settings panels' data model: the values the panels edit and hand to
/// the renderer between runs. The drawing of the panels is not part of the
/// library.
pub mod widgets;

/// Small text utilities: the decimal rendering used for frame file names and
/// widget labels.
pub mod text;
