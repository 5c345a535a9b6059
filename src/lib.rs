pub mod gen;
pub mod hash;
pub mod num;
pub mod partition;
pub mod solver;
