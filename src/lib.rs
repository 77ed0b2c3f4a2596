//! A grid world of agents whose behaviour is wired by their genomes.
//!
//! Each agent carries a genome of 32-bit genes. A gene wires a sensor or an
//! internal neuron to an internal neuron or an actuator, with a signed weight.
//! Every tick the agents sense the world as it stood before the tick, run
//! their wiring, and act; the actions change the world for the next tick.
//!
//! Neuron values are fixed-point numbers (see `fixed`).

pub mod gene;
pub mod fixed;
pub mod grid;
pub mod rng;
pub mod cell;
pub mod neuron;
pub mod network;
pub mod world;
