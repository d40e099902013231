pub mod particle;
pub mod rational;
pub mod vector;
