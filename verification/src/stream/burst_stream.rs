//! A stream that can mimic further input with blanks once a newline is
//! reached, which is handy when input arrives interactively but later
//! stages want lookahead.

use vstd::prelude::*;

use crate::stream::Stream;
use crate::stream::wrapper_stream::WrapperStream;

verus! {

/// A character stream that may pad the end of a line with blanks.
pub trait BurstStream: Stream<Option<char>> {

}

/// The plain burst stream over an in-memory character source.
#[derive(Debug)]
pub struct SimpleBurstStream {
    /// Delegate for all operations.
    pub backend: WrapperStream,
    /// True while blanks are handed out instead of real characters.
    pub locked: bool,
    /// The number of blanks handed out before the lock resets.
    pub maximum_lock_length: usize,
    /// The number of blanks handed out so far.
    pub current_lock_size: usize,
    /// A value read ahead of its turn, still owed to the reader.
    pub last_peeked: Option<char>,
}

impl SimpleBurstStream {
    /// The characters not yet read.
    pub open spec fn remaining(self) -> Seq<char> {
        self.backend.remaining()
    }

    /// True while the inner read position is in range.
    pub open spec fn wf(self) -> bool {
        self.backend.wf()
    }

    /// A fresh burst stream over a character source.
    pub fn new(backend: WrapperStream, maximum_lock_length: usize) -> (r: SimpleBurstStream)
        ensures
            r.backend == backend,
            r.locked == false,
            r.maximum_lock_length == maximum_lock_length,
            r.current_lock_size == 0,
            r.last_peeked is None,
    {
        SimpleBurstStream {
            backend,
            locked: false,
            maximum_lock_length,
            current_lock_size: 0,
            last_peeked: None,
        }
    }
}

impl Stream<Option<char>> for SimpleBurstStream {
    /// True while an owed character or unread input is left.
    fn has_next(&self) -> (r: bool)
        ensures
            self.wf() ==> r == (self.last_peeked is Some || self.remaining().len() > 0),
    {
        match self.last_peeked {
            Some(_) => true,
            None => self.backend.has_next(),
        }
    }

    /// The owed character if one is held, otherwise the next character of
    /// the input.
    fn grab(&mut self) -> (r: Option<char>)
        ensures
            old(self).wf() ==> {
                &&& final(self).wf()
                &&& (old(self).last_peeked matches Some(c) ==> r == Some(c) && final(self).remaining() == old(self).remaining())
                &&& (old(self).last_peeked is None && old(self).remaining().len() > 0 ==> r
                    == Some(old(self).remaining()[0]) && final(self).remaining() == old(self).remaining().skip(1))
                &&& (old(self).last_peeked is None && old(self).remaining().len() == 0 ==> r
                    is None)
            },
    {
        match self.last_peeked {
            Some(peeked) => Some(peeked),
            None => self.backend.grab(),
        }
    }

    /// The number of characters read so far, the owed one not counted.
    fn get_offset(&self) -> (r: usize)
        ensures
            self.last_peeked is None ==> r == self.backend.next,
    {
        let offset = self.backend.get_offset();
        match self.last_peeked {
            Some(_) => {
                if offset > 0 {
                    offset - 1
                } else {
                    0
                }
            },
            None => offset,
        }
    }
}

impl BurstStream for SimpleBurstStream {

}

} // verus!
