//! The item transformation pipeline of a generator of foreign-function
//! headers: it takes the items of a parsed source library and hands on the
//! concrete items to write, in the order in which to write them.
//!
//! The pipeline erases wrapper types that only the source language has
//! (`erase`), instantiates generic items (`instantiate`, `monomorph`,
//! `mangle`), resolves how each name is declared
//! (`declarationtyperesolver`), renames (`rewrite`, `passes`) and chooses
//! and orders the items to emit (`dependencies`). `library` runs the stages
//! in their order. `load` builds items from the syntax of the source.
//!
//! The modules `laws`, `idempotence`, `reach`, `order` and `shape` state and prove
//! what holds of the stages whatever the library.

pub mod bindings;
pub mod config;
pub mod declarationtyperesolver;
pub mod dependencies;
pub mod erase;
pub mod function;
pub mod generic_path;
pub mod idempotence;
pub mod instantiate;
pub mod item;
pub mod item_map;
pub mod laws;
pub mod library;
pub mod load;
pub mod mangle;
pub mod model;
pub mod monomorph;
pub mod opaque;
pub mod order;
pub mod passes;
pub mod path;
pub mod reach;
pub mod reserved;
pub mod rewrite;
pub mod shape;
pub mod sorting;
pub mod syntax;
pub mod text;
pub mod ty;
pub mod warning;
