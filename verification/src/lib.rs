//! Request coalescing: many single-item calls are gathered into one batch,
//! the aggregate operation runs once on the batch, and every caller gets
//! back its own share of the result.
//!
//! The library decides; it does not wait. [`collector`] is the state machine
//! that gathers submissions into a [`batch`] and says when the batch is
//! flushed, by the [`window`] policy of the [`attributes`]. [`distribute`]
//! cuts the result of the aggregate into the shares of the submitters, and
//! [`error`] lets one error reach all of them. [`function`] and [`builder`]
//! read the declaration of an aggregate and name and type its call surface,
//! over what [`syntax`] reads of Rust syntax. [`trace`] is the tracing hook,
//! and [`laws`] states what holds of all of this for every input.

pub mod attributes;
pub mod batch;
pub mod builder;
pub mod collector;
pub mod distribute;
pub mod error;
pub mod function;
pub mod laws;
pub mod syntax;
pub mod text;
pub mod trace;
pub mod window;
