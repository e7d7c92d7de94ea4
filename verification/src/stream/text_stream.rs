//! A buffered stream of characters with text-level conveniences: reading
//! the visible window as a string and matching a literal against the next
//! characters.

use vstd::prelude::*;
use vstd::string::StrSliceExecFns;

use crate::stream::Stream;
use crate::stream::buffered_stream::BufferedStream;
use crate::stream::buffered_stream::SimpleBufferedStream;
use crate::text::char_string;

verus! {

/// A buffered character stream that works with text.
pub trait TextStream: BufferedStream<Option<char>> {
    /// The visible window as a string.
    fn get_text(&self) -> String;

    /// The number of matching characters when `next` spells out the next
    /// unread characters, and `0` otherwise.
    fn match_text(&self, next: &str) -> usize;

    /// The next character as a one-character string; empty at the end.
    fn grab_string(&mut self) -> String;
}

/// The plain text stream, delegating the buffering.
#[derive(Debug)]
pub struct SimpleTextStream {
    /// The backend for this stream that manages the hard work.
    pub delegate: SimpleBufferedStream,
}

impl SimpleTextStream {
    /// The characters not yet read.
    pub open spec fn remaining(self) -> Seq<char> {
        self.delegate.remaining()
    }

    /// True while the inner read position is in range.
    pub open spec fn wf(self) -> bool {
        self.delegate.wf()
    }

    /// A fresh text stream around a buffered one.
    pub fn new(delegate: SimpleBufferedStream) -> (r: SimpleTextStream)
        ensures
            r.delegate == delegate,
    {
        SimpleTextStream { delegate }
    }
}

impl Stream<Option<char>> for SimpleTextStream {
    /// True while unread characters are left.
    fn has_next(&self) -> (r: bool)
        ensures
            self.wf() ==> r == (self.remaining().len() > 0),
    {
        self.delegate.has_next()
    }

    /// The next character, or the delegate's default at the end.
    fn grab(&mut self) -> (r: Option<char>)
        ensures
            old(self).wf() ==> {
                &&& final(self).wf()
                &&& r == if old(self).remaining().len() > 0 {
                    Some(old(self).remaining()[0])
                } else {
                    old(self).delegate.default
                }
                &&& (old(self).remaining().len() > 0 ==> final(self).remaining() == old(self).remaining().skip(1))
                &&& (old(self).remaining().len() == 0 ==> *final(self) == *old(self))
            },
    {
        self.delegate.grab()
    }

    /// The number of characters read so far.
    fn get_offset(&self) -> (r: usize)
        ensures
            r == self.delegate.backend.next,
    {
        self.delegate.get_offset()
    }
}

impl BufferedStream<Option<char>> for SimpleTextStream {
    /// A look `position` places ahead, delegated.
    fn lookahead(&self, position: usize) -> (r: Option<char>)
        ensures
            self.wf() ==> r == if position < self.delegate.buffer_size && position
                < self.remaining().len() {
                Some(self.remaining()[position as int])
            } else {
                self.delegate.default
            },
    {
        self.delegate.lookahead(position)
    }

    /// A copy of the visible window, delegated.
    fn get_buffer(&self) -> (r: Vec<Option<char>>)
        ensures
            r@.len() == self.delegate.buffer_size,
    {
        self.delegate.get_buffer()
    }
}

impl TextStream for SimpleTextStream {
    /// The visible window as a string: the next characters up to the
    /// window's width.
    fn get_text(&self) -> (r: String)
        ensures
            self.wf() ==> r@ == self.remaining().take(
                if self.delegate.buffer_size < self.remaining().len() {
                    self.delegate.buffer_size as int
                } else {
                    self.remaining().len() as int
                },
            ),
    {
        let position = self.delegate.backend.next;
        let total = self.delegate.backend.buffer.len();
        let avail = if position <= total {
            total - position
        } else {
            0
        };
        let limit = if avail < self.delegate.buffer_size {
            avail
        } else {
            self.delegate.buffer_size
        };
        let mut result = String::new();
        let mut index: usize = 0;
        while index < limit
            invariant
                position == self.delegate.backend.next,
                total == self.delegate.backend.buffer@.len(),
                limit == 0 || position + limit <= total,
                index <= limit,
                self.wf() ==> result@ =~= self.remaining().take(index as int),
            decreases limit - index,
        {
            result.push(self.delegate.backend.buffer[position + index]);
            proof {
                if self.wf() {
                    assert(result@ =~= self.remaining().take(index as int + 1));
                }
            }
            index = index + 1;
        }
        proof {
            if self.wf() {
                assert(limit as int == if self.delegate.buffer_size < self.remaining().len() {
                    self.delegate.buffer_size as int
                } else {
                    self.remaining().len() as int
                });
            }
        }
        result
    }

    /// The number of matching characters when `next` spells out the next
    /// unread characters (within the window), and `0` otherwise.
    fn match_text(&self, next: &str) -> (r: usize)
        ensures
            self.wf() ==> (r != 0 ==> r == next@.len() && next@.len()
                <= self.remaining().len() && self.remaining().take(next@.len() as int)
                == next@),
    {
        let length = next.unicode_len();
        if length == 0 {
            return 0;
        }
        if length > self.delegate.buffer_size {
            return 0;
        }
        let position = self.delegate.backend.next;
        let total = self.delegate.backend.buffer.len();
        let avail = if position <= total {
            total - position
        } else {
            0
        };
        if length > avail {
            return 0;
        }
        let mut index: usize = 0;
        while index < length
            invariant
                length == next@.len(),
                position == self.delegate.backend.next,
                total == self.delegate.backend.buffer@.len(),
                position + length <= total,
                index <= length,
                forall|i: int|
                    0 <= i < index ==> #[trigger] self.delegate.backend.buffer@[position + i]
                        == next@[i],
            decreases length - index,
        {
            if self.delegate.backend.buffer[position + index] != next.get_char(index) {
                return 0;
            }
            index = index + 1;
        }
        proof {
            if self.wf() {
                assert forall|i: int|
                    0 <= i < next@.len() implies self.remaining().take(next@.len() as int)[i]
                    == next@[i] by {
                    assert(self.delegate.backend.buffer@[position + i] == next@[i]);
                    assert(self.remaining()[i] == self.delegate.backend.buffer@[position + i]);
                }
                assert(self.remaining().take(next@.len() as int) =~= next@);
            }
        }
        length
    }

    /// The next character as a one-character string; empty at the end of
    /// the input.
    fn grab_string(&mut self) -> (r: String)
        ensures
            old(self).wf() ==> {
                &&& final(self).wf()
                &&& (old(self).remaining().len() > 0 ==> r@ == seq![
                    old(self).remaining()[0],
                ] && final(self).remaining() == old(self).remaining().skip(1))
            },
    {
        let position = self.delegate.backend.next;
        let total = self.delegate.backend.buffer.len();
        if position < total {
            let symbol = self.delegate.backend.buffer[position];
            self.delegate.step();
            char_string(symbol)
        } else {
            String::new()
        }
    }
}

} // verus!
