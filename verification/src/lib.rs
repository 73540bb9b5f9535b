//! Hierarchical task network planning: a text format for task networks,
//! conditions and effects over a typed world state, and a backtracking
//! planner that decomposes compound tasks into a plan of primitive tasks.

pub mod checks;
pub mod conditions;
pub mod dsl;
pub mod effects;
pub mod error;
pub mod executor;
pub mod lexer;
pub mod model;
pub mod plan;
pub mod planner;
pub mod prelude;
pub mod tasks;
pub mod text;
