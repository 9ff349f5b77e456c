//! The console that a chain acts on: the two output streams and the input
//! stream of a process, each held as a plain value.

use crate::sink::{Effect, Sink};
use crate::source::Source;
use vstd::prelude::*;

verus! {

/// The three streams of a process.
pub struct Console {
    /// The primary output stream.
    pub out: Sink,
    /// The diagnostic output stream.
    pub err: Sink,
    /// The input stream.
    pub input: Source,
}

/// A console as a contract speaks of it.
pub struct ConsoleView {
    /// The requests made of the primary output stream, oldest first.
    pub out: Seq<Effect>,
    /// The requests made of the diagnostic output stream, oldest first.
    pub err: Seq<Effect>,
    /// The text that is still to be read from the input stream.
    pub input: Seq<char>,
}

impl View for Console {
    type V = ConsoleView;

    open spec fn view(&self) -> ConsoleView {
        ConsoleView { out: self.out@, err: self.err@, input: self.input@ }
    }
}

impl Console {
    /// A console on which nothing was written and nothing is left to read.
    pub fn new() -> (console: Console)
        ensures
            console@.out == Seq::<Effect>::empty(),
            console@.err == Seq::<Effect>::empty(),
            console@.input == Seq::<char>::empty(),
    {
        Console { out: Sink::new(), err: Sink::new(), input: Source::new() }
    }
}

} // verus!
