//! A terminal fireworks simulation: rockets launch from the bottom of the
//! screen, ascend to a randomly chosen height, and burst into a radial spray
//! of fading particles. The whole simulation is integer-valued and verified:
//! frame-rate gating, particle motion, burst geometry, lifecycle and culling
//! all carry contracts. Randomness comes from an explicit `rand` generator
//! handed into every function that needs it.

pub mod pixel;
pub mod rng;
pub mod trig;
pub mod explosion;
pub mod firework;
pub mod sim;
