//! A character stream with bounded lookahead: a reader may look a few
//! characters ahead of the next unread one without moving.

use vstd::prelude::*;

use crate::stream::Stream;
use crate::stream::wrapper_stream::WrapperStream;

verus! {

/// A stream with lookahead within a bounded window.
pub trait BufferedStream<T>: Stream<T> {
    /// A look at the value `position` places ahead.
    fn lookahead(&self, position: usize) -> T;

    /// A copy of the window the stream can see.
    fn get_buffer(&self) -> Vec<T>;
}

/// The plain buffered stream over an in-memory character source. The window
/// is `buffer_size` characters wide; a look past the window, or past the end
/// of the input, yields the default value the stream was built with.
#[derive(Debug)]
pub struct SimpleBufferedStream {
    /// The stream used as a backend.
    pub backend: WrapperStream,
    /// The width of the lookahead window.
    pub buffer_size: usize,
    /// The number of already visited characters the window may keep.
    pub buffer_indent: usize,
    /// What a look outside the window yields.
    pub default: Option<char>,
}

impl SimpleBufferedStream {
    /// The characters not yet read.
    pub open spec fn remaining(self) -> Seq<char> {
        self.backend.remaining()
    }

    /// True while the inner read position is in range.
    pub open spec fn wf(self) -> bool {
        self.backend.wf()
    }

    /// A fresh buffered stream over a character source.
    pub fn new(backend: WrapperStream, buffer_size: usize, buffer_indent: usize, default: Option<
        char,
    >) -> (r: SimpleBufferedStream)
        ensures
            r.backend == backend,
            r.buffer_size == buffer_size,
            r.buffer_indent == buffer_indent,
            r.default == default,
    {
        SimpleBufferedStream { backend, buffer_size, buffer_indent, default }
    }

    /// The next unread character, or the default at the end.
    pub fn peek(&self) -> (r: Option<char>)
        ensures
            self.wf() ==> r == if self.remaining().len() > 0 {
                Some(self.remaining()[0])
            } else {
                self.default
            },
    {
        match self.backend.peek() {
            Some(symbol) => Some(symbol),
            None => self.default,
        }
    }

    /// Moves past the next unread character; at the end it stays put.
    pub fn step(&mut self)
        ensures
            final(self).buffer_size == old(self).buffer_size,
            final(self).buffer_indent == old(self).buffer_indent,
            final(self).default == old(self).default,
            old(self).wf() ==> {
                &&& final(self).wf()
                &&& (old(self).remaining().len() > 0 ==> final(self).remaining() == old(self).remaining().skip(1))
                &&& (old(self).remaining().len() == 0 ==> *final(self) == *old(self))
            },
    {
        self.backend.step();
    }
}

impl Stream<Option<char>> for SimpleBufferedStream {
    /// True while unread characters are left.
    fn has_next(&self) -> (r: bool)
        ensures
            self.wf() ==> r == (self.remaining().len() > 0),
    {
        self.backend.has_next()
    }

    /// The next character, or the default at the end.
    fn grab(&mut self) -> (r: Option<char>)
        ensures
            final(self).buffer_size == old(self).buffer_size,
            final(self).buffer_indent == old(self).buffer_indent,
            final(self).default == old(self).default,
            old(self).wf() ==> {
                &&& final(self).wf()
                &&& r == if old(self).remaining().len() > 0 {
                    Some(old(self).remaining()[0])
                } else {
                    old(self).default
                }
                &&& (old(self).remaining().len() > 0 ==> final(self).remaining() == old(self).remaining().skip(1))
                &&& (old(self).remaining().len() == 0 ==> *final(self) == *old(self))
            },
    {
        let it = self.peek();
        self.step();
        it
    }

    /// The number of characters read so far.
    fn get_offset(&self) -> (r: usize)
        ensures
            r == self.backend.next,
    {
        self.backend.get_offset()
    }
}

impl BufferedStream<Option<char>> for SimpleBufferedStream {
    /// A look `position` places ahead; outside the window, or past the end
    /// of the input, it yields the stream's default.
    fn lookahead(&self, position: usize) -> (r: Option<char>)
        ensures
            self.wf() ==> r == if position < self.buffer_size && position
                < self.remaining().len() {
                Some(self.remaining()[position as int])
            } else {
                self.default
            },
    {
        if position >= self.buffer_size {
            return self.default;
        }
        match self.backend.lookahead(position) {
            Some(symbol) => Some(symbol),
            None => self.default,
        }
    }

    /// A copy of the window: the next characters up to the window's width,
    /// padded with the default.
    fn get_buffer(&self) -> (r: Vec<Option<char>>)
        ensures
            r@.len() == self.buffer_size,
            self.wf() ==> forall|i: int|
                0 <= i < self.buffer_size ==> #[trigger] r@[i] == (if i
                    < self.remaining().len() {
                    Some(self.remaining()[i])
                } else {
                    self.default
                }),
    {
        let mut window: Vec<Option<char>> = Vec::new();
        let mut index: usize = 0;
        while index < self.buffer_size
            invariant
                index <= self.buffer_size,
                window@.len() == index,
                self.wf() ==> forall|i: int|
                    0 <= i < index ==> #[trigger] window@[i] == (if i
                        < self.remaining().len() {
                        Some(self.remaining()[i])
                    } else {
                        self.default
                    }),
            decreases self.buffer_size - index,
        {
            match self.backend.lookahead(index) {
                Some(symbol) => window.push(Some(symbol)),
                None => window.push(self.default),
            }
            index = index + 1;
        }
        window
    }
}

} // verus!
