//! Small tools that need no allocator behind them.

pub mod format_non_alloc;
pub mod pointer_ops;
