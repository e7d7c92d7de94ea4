//! An in-memory character source: the plainest backend a stream chain can
//! stand on. It hands out the characters of a fixed buffer one at a time.

use vstd::prelude::*;
use vstd::string::StrSliceExecFns;

use crate::stream::Stream;

verus! {

/// A character source over a fixed buffer.
#[derive(Debug)]
pub struct WrapperStream {
    /// The decoded characters.
    pub buffer: Vec<char>,
    /// The index of the next unread character.
    pub next: usize,
}

impl WrapperStream {
    /// The characters not yet read.
    pub open spec fn remaining(self) -> Seq<char> {
        self.buffer@.skip(self.next as int)
    }

    /// True while the read position is inside the buffer.
    pub open spec fn wf(self) -> bool {
        self.next <= self.buffer@.len()
    }

    /// A stream over a run of bytes, each byte read as one character with
    /// the same code. Text that may hold multi-byte characters comes in
    /// through `from_text` instead, already decoded.
    pub fn new(backend: &[u8]) -> (r: WrapperStream)
        ensures
            r.wf(),
            r.next == 0,
            r.buffer@.len() == backend@.len(),
            forall|i: int|
                0 <= i < backend@.len() ==> #[trigger] r.buffer@[i] == backend@[i] as char,
    {
        let mut buffer: Vec<char> = Vec::new();
        let mut index: usize = 0;
        while index < backend.len()
            invariant
                index <= backend@.len(),
                buffer@.len() == index,
                forall|i: int| 0 <= i < index ==> #[trigger] buffer@[i] == backend@[i] as char,
            decreases backend@.len() - index,
        {
            buffer.push(backend[index] as char);
            index = index + 1;
        }
        WrapperStream { buffer, next: 0 }
    }

    /// A stream over the characters of a piece of text.
    pub fn from_text(text: &str) -> (r: WrapperStream)
        ensures
            r.wf(),
            r.next == 0,
            r.buffer@ == text@,
            r.remaining() == text@,
    {
        let len = text.unicode_len();
        let mut buffer: Vec<char> = Vec::new();
        let mut index: usize = 0;
        while index < len
            invariant
                len == text@.len(),
                index <= len,
                buffer@.len() == index,
                forall|i: int| 0 <= i < index ==> #[trigger] buffer@[i] == text@[i],
            decreases len - index,
        {
            buffer.push(text.get_char(index));
            index = index + 1;
        }
        proof {
            assert(buffer@ =~= text@);
            assert(buffer@.skip(0) =~= text@);
        }
        WrapperStream { buffer, next: 0 }
    }

    /// The next unread character, without moving.
    pub fn peek(&self) -> (r: Option<char>)
        ensures
            self.wf() ==> r == if self.remaining().len() > 0 {
                Some(self.remaining()[0])
            } else {
                None::<char>
            },
    {
        if self.next < self.buffer.len() {
            Some(self.buffer[self.next])
        } else {
            None
        }
    }

    /// Moves past the next unread character; at the end it stays put.
    pub fn step(&mut self)
        ensures
            final(self).buffer == old(self).buffer,
            old(self).wf() ==> {
                &&& final(self).wf()
                &&& (old(self).remaining().len() > 0 ==> final(self).next == old(self).next + 1
                    && final(self).remaining() == old(self).remaining().skip(1))
                &&& (old(self).remaining().len() == 0 ==> *final(self) == *old(self))
            },
    {
        if self.next < self.buffer.len() {
            self.next = self.next + 1;
            proof {
                if old(self).wf() {
                    assert(self.remaining() =~= old(self).remaining().skip(1));
                }
            }
        }
    }

    /// A look at the character `position` places ahead, if the buffer still
    /// holds one there.
    pub fn lookahead(&self, position: usize) -> (r: Option<char>)
        ensures
            self.wf() ==> r == if position < self.remaining().len() {
                Some(self.remaining()[position as int])
            } else {
                None::<char>
            },
    {
        if self.next >= self.buffer.len() {
            None
        } else if position < self.buffer.len() - self.next {
            Some(self.buffer[self.next + position])
        } else {
            None
        }
    }

    /// A copy of the whole inner buffer.
    pub fn get_buffer(&self) -> (r: Vec<char>)
        ensures
            r@ == self.buffer@,
    {
        let mut copy: Vec<char> = Vec::new();
        let mut index: usize = 0;
        while index < self.buffer.len()
            invariant
                index <= self.buffer@.len(),
                copy@ =~= self.buffer@.subrange(0, index as int),
            decreases self.buffer@.len() - index,
        {
            copy.push(self.buffer[index]);
            proof {
                assert(copy@ =~= self.buffer@.subrange(0, index as int + 1));
            }
            index = index + 1;
        }
        proof {
            assert(self.buffer@.subrange(0, self.buffer@.len() as int) =~= self.buffer@);
        }
        copy
    }
}

impl Stream<Option<char>> for WrapperStream {
    /// True while unread characters are left.
    fn has_next(&self) -> (r: bool)
        ensures
            self.wf() ==> r == (self.remaining().len() > 0),
    {
        self.next < self.buffer.len()
    }

    /// The next character, or `None` at the end.
    fn grab(&mut self) -> (r: Option<char>)
        ensures
            old(self).wf() ==> {
                &&& final(self).wf()
                &&& r == if old(self).remaining().len() > 0 {
                    Some(old(self).remaining()[0])
                } else {
                    None::<char>
                }
                &&& final(self).remaining() == if old(self).remaining().len() > 0 {
                    old(self).remaining().skip(1)
                } else {
                    old(self).remaining()
                }
            },
    {
        let it = self.peek();
        self.step();
        it
    }

    /// The number of characters read so far.
    fn get_offset(&self) -> (r: usize)
        ensures
            r == self.next,
    {
        self.next
    }
}

} // verus!
