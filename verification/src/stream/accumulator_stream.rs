//! A character stream with an accumulator that saves every character it has
//! stepped over, so that the lexer can revise the text of the token it has
//! just read.

use vstd::prelude::*;

use crate::stream::Stream;
use crate::stream::wrapper_stream::WrapperStream;

verus! {

/// A stream that remembers the characters stepped over since the last
/// `clear`.
pub trait AccumulatorStream: Stream<Option<char>> {
    /// The next unread character, without moving.
    fn peek(&mut self) -> Option<char>;

    /// Moves past the next unread character.
    fn step(&mut self);

    /// Forgets the accumulated text.
    fn clear(&mut self);

    /// The accumulated text.
    fn revise_all(&self) -> String;

    /// Steps exactly when the next character is the given one.
    fn accept(&mut self, next: char) -> bool;

    /// True when the next character lies between the two given ones, both
    /// included.
    fn expect_in(&mut self, from: char, to: char) -> bool;
}

/// The plain accumulator stream over an in-memory character source.
#[derive(Debug)]
pub struct SimpleAccumulatorStream {
    /// Delegate for reading characters.
    pub delegate: WrapperStream,
    /// The characters stepped over since the last `clear`.
    pub accumulator: String,
}

impl SimpleAccumulatorStream {
    /// The characters not yet read.
    pub open spec fn remaining(self) -> Seq<char> {
        self.delegate.remaining()
    }

    /// The accumulated text.
    pub open spec fn acc(self) -> Seq<char> {
        self.accumulator@
    }

    /// True while the inner read position is in range.
    pub open spec fn wf(self) -> bool {
        self.delegate.wf()
    }

    /// A fresh accumulator stream over a character source, with nothing
    /// accumulated yet.
    pub fn new(delegate: WrapperStream) -> (r: SimpleAccumulatorStream)
        ensures
            r.delegate == delegate,
            r.acc() == Seq::<char>::empty(),
    {
        SimpleAccumulatorStream { delegate, accumulator: String::new() }
    }
}

impl Stream<Option<char>> for SimpleAccumulatorStream {
    /// True while unread characters are left.
    fn has_next(&self) -> (r: bool)
        ensures
            self.wf() ==> r == (self.remaining().len() > 0),
    {
        self.delegate.has_next()
    }

    /// The next character, stepped over and accumulated; `None` at the end.
    fn grab(&mut self) -> (r: Option<char>)
        ensures
            old(self).wf() ==> {
                &&& final(self).wf()
                &&& r == if old(self).remaining().len() > 0 {
                    Some(old(self).remaining()[0])
                } else {
                    None::<char>
                }
                &&& (old(self).remaining().len() > 0 ==> final(self).remaining() == old(self).remaining().skip(1) && final(self).acc() == old(self).acc().push(
                    old(self).remaining()[0],
                ))
                &&& (old(self).remaining().len() == 0 ==> *final(self) == *old(self))
            },
    {
        let it = self.peek();
        self.step();
        it
    }

    /// The number of characters read so far.
    fn get_offset(&self) -> (r: usize)
        ensures
            r == self.delegate.next,
    {
        self.delegate.get_offset()
    }
}

impl AccumulatorStream for SimpleAccumulatorStream {
    /// The next unread character, without moving.
    fn peek(&mut self) -> (r: Option<char>)
        ensures
            *final(self) == *old(self),
            old(self).wf() ==> r == if old(self).remaining().len() > 0 {
                Some(old(self).remaining()[0])
            } else {
                None::<char>
            },
    {
        self.delegate.peek()
    }

    /// Moves past the next unread character, accumulating it; at the end it
    /// stays put.
    fn step(&mut self)
        ensures
            old(self).wf() ==> {
                &&& final(self).wf()
                &&& (old(self).remaining().len() > 0 ==> final(self).remaining() == old(self).remaining().skip(1) && final(self).acc() == old(self).acc().push(
                    old(self).remaining()[0],
                ))
                &&& (old(self).remaining().len() == 0 ==> *final(self) == *old(self))
            },
    {
        let it = self.delegate.peek();
        match it {
            Some(symbol) => {
                self.accumulator.push(symbol);
                self.delegate.step();
            },
            None => {},
        }
    }

    /// Forgets the accumulated text; the read position stays.
    fn clear(&mut self)
        ensures
            final(self).delegate == old(self).delegate,
            final(self).acc() == Seq::<char>::empty(),
    {
        self.accumulator = String::new();
    }

    /// The accumulated text.
    fn revise_all(&self) -> (r: String)
        ensures
            r@ == self.acc(),
    {
        self.accumulator.clone()
    }

    /// Steps exactly when the next character is the given one.
    fn accept(&mut self, next: char) -> (r: bool)
        ensures
            old(self).wf() ==> {
                &&& final(self).wf()
                &&& r == (old(self).remaining().len() > 0 && old(self).remaining()[0] == next)
                &&& (r ==> final(self).remaining() == old(self).remaining().skip(1) && final(self).acc() == old(self).acc().push(next))
                &&& (!r ==> *final(self) == *old(self))
            },
    {
        let it = self.peek();
        match it {
            Some(symbol) => {
                if symbol == next {
                    self.step();
                    true
                } else {
                    false
                }
            },
            None => false,
        }
    }

    /// True when the next character lies between the two given ones, both
    /// included; the stream does not move.
    fn expect_in(&mut self, from: char, to: char) -> (r: bool)
        ensures
            *final(self) == *old(self),
            old(self).wf() ==> r == (old(self).remaining().len() > 0 && from <= old(self).remaining()[0] && old(self).remaining()[0] <= to),
    {
        let it = self.peek();
        match it {
            Some(symbol) => from <= symbol && symbol <= to,
            None => false,
        }
    }
}

} // verus!
