//! Move engine of a 3x3x3 rotating-layer puzzle.
//!
//! Twenty-seven cubies sit on a lattice with the coordinates -2, 0 and 2
//! along each axis. A move turns the nine cubies of one layer by a right
//! angle about the axis of the layer. The engine tags the cubies among the
//! nodes of a loaded scene, sorts them into layers, resolves input symbols
//! to moves, and runs the moves one after the other, never two at a time.
//!
//! The engine works on exact, integer-valued geometry: positions are held in
//! fixed point, orientations as the images of a cubie's three local axes, and
//! every completed move is an exact quarter turn. What lies between the two
//! ends of a move is left to the renderer, which is told the axis, the
//! placement before the move and the angle reached.
//!
//! - [`geometry`]: axes, directions, integer points, quarter turns.
//! - [`position`]: fixed-point positions and their rounding to layers.
//! - [`placement`]: orientations, placements, the rotation of one cubie.
//! - [`moves`]: the move table.
//! - [`classifier`]: the layer maps of a list of cubies.
//! - [`rest`]: the puzzle at rest and the partition of its layers.
//! - [`settling`]: what a completed move does to the cubies.
//! - [`batch`]: the cubies of one move, each with its rotation.
//! - [`bootstrap`]: which nodes of a scene are cubies.
//! - [`engine`]: the scheduler and its state machine.

pub mod geometry;
pub mod position;
pub mod placement;
pub mod moves;
pub mod classifier;
pub mod rest;
pub mod settling;
pub mod batch;
pub mod bootstrap;
pub mod engine;
