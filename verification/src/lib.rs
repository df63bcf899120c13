//! A cell that owns one payload and gives it up exactly once: to its owner,
//! by extraction, or to a finalizer, which receives it by value.
//!
//! - [`DetachedDrop`] is the finalizer, an operation carried by a marker type.
//! - [`IntoInnerHelper`] is the cell, ended by value.
//! - [`Slot`] holds a cell that is ended through `&mut`, as a destructor must.
//! - [`lifecycle`] holds the model of a slot's life and the lemmas about it.

pub mod detached_drop;
pub mod helper;
pub mod lifecycle;
pub mod slot;

pub use detached_drop::DetachedDrop;
pub use helper::IntoInnerHelper;
pub use slot::Slot;
