//! The stream the tokenizer reads from: a text stream with lookahead and an
//! accumulator in one.

use vstd::prelude::*;

use crate::stream::Stream;
use crate::stream::accumulator_stream::AccumulatorStream;
use crate::stream::buffered_stream::BufferedStream;
use crate::stream::buffered_stream::SimpleBufferedStream;
use crate::stream::text_stream::SimpleTextStream;
use crate::stream::text_stream::TextStream;
use crate::stream::wrapper_stream::WrapperStream;

verus! {

/// A stream that is both a text stream and an accumulator stream.
pub trait AnalyzableStream: TextStream + AccumulatorStream {

}

/// The plain analyzable stream: a text stream with an accumulator bolted
/// on.
#[derive(Debug)]
pub struct SimpleAnalyzableStream {
    /// Delegate for reading and lookahead.
    pub delegate: SimpleTextStream,
    /// The characters stepped over since the last `clear`.
    pub accumulator: String,
}

impl SimpleAnalyzableStream {
    /// The characters not yet read.
    pub open spec fn remaining(self) -> Seq<char> {
        self.delegate.remaining()
    }

    /// The accumulated text.
    pub open spec fn acc(self) -> Seq<char> {
        self.accumulator@
    }

    /// True while the inner read position is in range.
    pub open spec fn wf(self) -> bool {
        self.delegate.wf()
    }

    /// A fresh analyzable stream around a text stream, with nothing
    /// accumulated yet.
    pub fn new(delegate: SimpleTextStream) -> (r: SimpleAnalyzableStream)
        ensures
            r.delegate == delegate,
            r.acc() == Seq::<char>::empty(),
    {
        SimpleAnalyzableStream { delegate, accumulator: String::new() }
    }

    /// A fresh analyzable stream assembled over a character source, with a
    /// lookahead window of the given size and a newline as the out-of-range
    /// default.
    pub fn acquire(buffer_size: usize, buffer_indent: usize, backend: WrapperStream) -> (r:
        SimpleAnalyzableStream)
        ensures
            r.delegate.delegate.backend == backend,
            r.delegate.delegate.buffer_size == buffer_size,
            r.delegate.delegate.buffer_indent == buffer_indent,
            r.delegate.delegate.default == Some('\n'),
            r.acc() == Seq::<char>::empty(),
    {
        SimpleAnalyzableStream::new(
            SimpleTextStream::new(
                SimpleBufferedStream::new(backend, buffer_size, buffer_indent, Some('\n')),
            ),
        )
    }
}

impl Stream<Option<char>> for SimpleAnalyzableStream {
    /// True while unread characters are left.
    fn has_next(&self) -> (r: bool)
        ensures
            self.wf() ==> r == (self.remaining().len() > 0),
    {
        self.delegate.has_next()
    }

    /// The next character, stepped over and accumulated; `None` at the end.
    fn grab(&mut self) -> (r: Option<char>)
        ensures
            old(self).wf() ==> {
                &&& final(self).wf()
                &&& r == if old(self).remaining().len() > 0 {
                    Some(old(self).remaining()[0])
                } else {
                    None::<char>
                }
                &&& (old(self).remaining().len() > 0 ==> final(self).remaining() == old(self).remaining().skip(1) && final(self).acc() == old(self).acc().push(
                    old(self).remaining()[0],
                ))
                &&& (old(self).remaining().len() == 0 ==> *final(self) == *old(self))
            },
    {
        let it = self.peek();
        self.step();
        it
    }

    /// The number of characters read so far.
    fn get_offset(&self) -> (r: usize)
        ensures
            r == self.delegate.delegate.backend.next,
    {
        self.delegate.get_offset()
    }
}

impl AccumulatorStream for SimpleAnalyzableStream {
    /// The next unread character, without moving.
    fn peek(&mut self) -> (r: Option<char>)
        ensures
            *final(self) == *old(self),
            old(self).wf() ==> r == if old(self).remaining().len() > 0 {
                Some(old(self).remaining()[0])
            } else {
                None::<char>
            },
    {
        self.delegate.delegate.backend.peek()
    }

    /// Moves past the next unread character, accumulating it; at the end it
    /// stays put.
    fn step(&mut self)
        ensures
            old(self).wf() ==> {
                &&& final(self).wf()
                &&& (old(self).remaining().len() > 0 ==> final(self).remaining() == old(self).remaining().skip(1) && final(self).acc() == old(self).acc().push(
                    old(self).remaining()[0],
                ))
                &&& (old(self).remaining().len() == 0 ==> *final(self) == *old(self))
            },
    {
        let it = self.delegate.delegate.backend.peek();
        match it {
            Some(symbol) => {
                self.accumulator.push(symbol);
                self.delegate.delegate.backend.step();
            },
            None => {},
        }
    }

    /// Forgets the accumulated text; the read position stays.
    fn clear(&mut self)
        ensures
            final(self).delegate == old(self).delegate,
            final(self).acc() == Seq::<char>::empty(),
    {
        self.accumulator = String::new();
    }

    /// The accumulated text.
    fn revise_all(&self) -> (r: String)
        ensures
            r@ == self.acc(),
    {
        self.accumulator.clone()
    }

    /// Steps exactly when the next character is the given one.
    fn accept(&mut self, next: char) -> (r: bool)
        ensures
            old(self).wf() ==> {
                &&& final(self).wf()
                &&& r == (old(self).remaining().len() > 0 && old(self).remaining()[0] == next)
                &&& (r ==> final(self).remaining() == old(self).remaining().skip(1) && final(self).acc() == old(self).acc().push(next))
                &&& (!r ==> *final(self) == *old(self))
            },
    {
        let it = self.peek();
        match it {
            Some(symbol) => {
                if symbol == next {
                    self.step();
                    true
                } else {
                    false
                }
            },
            None => false,
        }
    }

    /// True when the next character lies between the two given ones, both
    /// included; the stream does not move.
    fn expect_in(&mut self, from: char, to: char) -> (r: bool)
        ensures
            *final(self) == *old(self),
            old(self).wf() ==> r == (old(self).remaining().len() > 0 && from <= old(self).remaining()[0] && old(self).remaining()[0] <= to),
    {
        let it = self.peek();
        match it {
            Some(symbol) => from <= symbol && symbol <= to,
            None => false,
        }
    }
}

impl BufferedStream<Option<char>> for SimpleAnalyzableStream {
    /// A look `position` places ahead, delegated.
    fn lookahead(&self, position: usize) -> (r: Option<char>)
        ensures
            self.wf() ==> r == if position < self.delegate.delegate.buffer_size && position
                < self.remaining().len() {
                Some(self.remaining()[position as int])
            } else {
                self.delegate.delegate.default
            },
    {
        self.delegate.lookahead(position)
    }

    /// A copy of the visible window, delegated.
    fn get_buffer(&self) -> (r: Vec<Option<char>>)
        ensures
            r@.len() == self.delegate.delegate.buffer_size,
    {
        self.delegate.get_buffer()
    }
}

impl TextStream for SimpleAnalyzableStream {
    /// The visible window as a string, delegated.
    fn get_text(&self) -> (r: String)
        ensures
            self.wf() ==> r@ == self.remaining().take(
                if self.delegate.delegate.buffer_size < self.remaining().len() {
                    self.delegate.delegate.buffer_size as int
                } else {
                    self.remaining().len() as int
                },
            ),
    {
        self.delegate.get_text()
    }

    /// Literal matching against the next characters, delegated.
    fn match_text(&self, next: &str) -> (r: usize)
        ensures
            self.wf() ==> (r != 0 ==> r == next@.len() && next@.len()
                <= self.remaining().len() && self.remaining().take(next@.len() as int)
                == next@),
    {
        self.delegate.match_text(next)
    }

    /// The next character as a one-character string, accumulated; empty at
    /// the end.
    fn grab_string(&mut self) -> (r: String)
        ensures
            old(self).wf() ==> {
                &&& final(self).wf()
                &&& (old(self).remaining().len() > 0 ==> r@ == seq![
                    old(self).remaining()[0],
                ] && final(self).remaining() == old(self).remaining().skip(1))
            },
    {
        let it = self.grab();
        match it {
            Some(symbol) => crate::text::char_string(symbol),
            None => String::new(),
        }
    }
}

impl AnalyzableStream for SimpleAnalyzableStream {

}

} // verus!
