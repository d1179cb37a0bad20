//! The public evaluation interface of the [`Engine`](crate::Engine).

pub mod eval;
