//! A JavaScript and TypeScript toolchain for Elixir: parsing, transforming, minifying, listing
//! imports, and bundling projects that live in memory.
//!
//! Single modules are handled by [`compile`]. A project is bundled by a [`bundle::BundleRun`], which
//! decides what is done next while its caller touches files and runs the bundler. What the oxc
//! toolchain computes enters through [`toolchain`].
//!
//! Paths are those of Unix: a slash separates, and virtual names may use a backslash for it.
//! [`compile::collect_imports`], [`compile::parse`], the transformer and the minifier walk the whole
//! syntax tree and need a stack that is as deep as the tree.
pub mod bundle;
pub mod compile;
pub mod config;
pub mod externals;
pub mod imports;
pub mod json;
pub mod options;
pub mod paths;
pub mod preamble;
pub mod sorted;
pub mod sourcemap;
pub mod syntax;
pub mod text;
pub mod toolchain;
