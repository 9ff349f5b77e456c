//! Chained stream handles over an explicit console.
//!
//! A chain starts at one of the handles [`rout`], [`rerr`] and [`rin`] and
//! acts, step by step and from left to right, on a [`Console`]: a value that
//! holds what was asked of the two output streams and what is still to be
//! read from the input stream. The sentinels [`endl`] and [`flush`] end a
//! chain.

pub mod console;
pub mod decimal;
pub mod sink;
pub mod source;
pub mod stream;
pub mod text;

pub use console::Console;
pub use sink::{Request, Sink};
pub use source::{Line, Source};
pub use stream::{endl, flush, rerr, rin, rout, Failure};
pub use text::{Faithful, Formattable, Parseable};
