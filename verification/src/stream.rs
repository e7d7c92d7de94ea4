//! Character sources for the lexer: a line-buffered character stream with
//! peeking, stepping, bounded lookahead, and an accumulator that remembers
//! every character stepped over since it was last cleared.

pub mod accumulator_stream;
pub mod analyzable_stream;
pub mod buffered_stream;
pub mod burst_stream;
pub mod text_stream;
pub mod wrapper_stream;

use vstd::prelude::*;

verus! {

/// A sequence of values of type `T`, read one at a time.
pub trait Stream<T> {
    /// True while some values are left.
    fn has_next(&self) -> bool;

    /// The next value; the stream moves past it.
    fn grab(&mut self) -> T;

    /// The number of values read so far.
    fn get_offset(&self) -> usize;
}

} // verus!
