//! Discrete structure of a staggered-grid incompressible fluid solver:
//! grid geometry, the solidity mask, the cell and face schedules that gate
//! every solver phase, and the data-parallel pass decomposition of the
//! pressure projection.

pub mod mask;
pub mod passes;
pub mod schedule;
pub mod shape;
