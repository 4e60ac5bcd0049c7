//! Building the shaders: permutations of compile-time options, duplicates among
//! the results, and the source file that embeds them.

pub mod index_map;
pub mod paths;
pub mod names;
pub mod config;
pub mod product;
pub mod permutations;
pub mod compile;
pub mod params;
pub mod codegen;
pub mod cli;
pub mod sdk;
