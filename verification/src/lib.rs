//! Analysis of C/C++ sources and the text processing around their conversion to Rust.
pub mod patterns;
pub mod text;
pub mod types;
pub mod utf;
pub mod memory;
pub mod stl_containers;
pub mod virtual_fn;
pub mod void_ptr;
pub mod analyzer;
pub mod ownership;
pub mod prompt;
pub mod comparator;
pub mod compiler;
pub mod sanitizer;
pub mod fix_loop;
pub mod generator;
pub mod preprocessor;
pub mod paths;
pub mod json;
pub mod config;
