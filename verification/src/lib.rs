//! Cellular automata on a fixed-size toroidal grid: the grid and its
//! wrap-around index arithmetic, Life-like automata driven by survive and born
//! tables, elementary automata driven by an eight-bit rule, and the frame
//! logic of an interactive session.

pub mod torus;
pub mod grid;
pub mod classic;
pub mod elementary;
pub mod rule;
pub mod driver;
