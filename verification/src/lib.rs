//! Starting-position core of a two-player territorial wargame on an
//! irregular 13x5 board: board topology and piece taxonomy, a legality
//! validator for candidate starting positions, and a deterministic
//! seeded generator that always produces a legal start.

pub mod board;
pub mod counting;
pub mod engine;
pub mod prng;
