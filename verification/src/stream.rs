use vstd::prelude::*;

use crate::tree::{models, Tok, Tree};

verus! {

broadcast use crate::tree::lemma_models;

/// A random-access cursor over an immutable, finite token sequence.
///
/// The cursor owns its backing sequence and keeps a position `pos` with
/// `0 <= pos <= len`; the end is reached once `pos` is past the last valid
/// index.  Every movement is bounds checked: a request that would leave the
/// sequence yields `None` and, for the multi-step movements, leaves the
/// position unchanged.
pub struct Stream {
    toks: Vec<Tree>,
    pos: usize,
}

impl Stream {
    /// The backing token sequence.
    pub closed spec fn toks(&self) -> Seq<Tree> {
        self.toks@
    }

    /// The models of the backing tokens.
    pub open spec fn model(&self) -> Seq<Tok> {
        models(self.toks())
    }

    /// The current position.
    pub closed spec fn pos(&self) -> int {
        self.pos as int
    }

    /// The cursor never stands beyond the end of its sequence.
    pub open spec fn wf(&self) -> bool {
        0 <= self.pos() <= self.toks().len()
    }

    /// Wraps a token sequence in a cursor standing at its start.
    pub fn new(tokens: Vec<Tree>) -> (s: Stream)
        ensures
            s.wf(),
            s.toks() == tokens@,
            s.pos() == 0,
    {
        Stream { toks: tokens, pos: 0 }
    }

    /// True once the position is past the last valid index.
    pub fn end(&self) -> (r: bool)
        requires
            self.wf(),
        ensures
            r == (self.pos() >= self.toks().len()),
    {
        self.pos >= self.toks.len()
    }

    /// The token under the cursor, without moving; `None` at the end.
    pub fn peek(&self) -> (r: Option<Tree>)
        requires
            self.wf(),
        ensures
            match r {
                Some(t) => self.pos() < self.toks().len() && t.model() == self.model()[self.pos()],
                None => self.pos() >= self.toks().len(),
            },
    {
        if self.pos < self.toks.len() {
            Some(self.toks[self.pos].clone())
        } else {
            None
        }
    }

    /// The token `steps` places ahead of the cursor, without moving;
    /// `None` if that place is out of bounds.
    pub fn peek_steps(&self, steps: usize) -> (r: Option<Tree>)
        requires
            self.wf(),
        ensures
            match r {
                Some(t) => self.pos() + steps < self.toks().len() && t.model() == self.model()[
                    self.pos() + steps
                ],
                None => self.pos() + steps >= self.toks().len(),
            },
    {
        if steps < self.toks.len() - self.pos {
            Some(self.toks[self.pos + steps].clone())
        } else {
            None
        }
    }

    /// Returns the token under the cursor and moves one place forward;
    /// `None` at the end, where the position stays put.
    pub fn forward(&mut self) -> (r: Option<Tree>)
        requires
            old(self).wf(),
        ensures
            final(self).wf(),
            final(self).toks() == old(self).toks(),
            match r {
                Some(t) => old(self).pos() < old(self).toks().len() && t.model() == old(
                    self,
                ).model()[old(self).pos()] && final(self).pos() == old(self).pos() + 1,
                None => old(self).pos() >= old(self).toks().len() && final(self).pos() == old(
                    self,
                ).pos(),
            },
    {
        if self.pos < self.toks.len() {
            let t = self.toks[self.pos].clone();
            self.pos = self.pos + 1;
            Some(t)
        } else {
            None
        }
    }

    /// Moves `steps` places forward and returns the token then under the
    /// cursor.  All-or-nothing: if the target is out of bounds the position
    /// stays unchanged and the result is `None`.
    pub fn forward_steps(&mut self, steps: usize) -> (r: Option<Tree>)
        requires
            old(self).wf(),
        ensures
            final(self).wf(),
            final(self).toks() == old(self).toks(),
            match r {
                Some(t) => old(self).pos() + steps < old(self).toks().len() && final(self).pos()
                    == old(self).pos() + steps && t.model() == old(self).model()[final(self).pos()],
                None => old(self).pos() + steps >= old(self).toks().len() && final(self).pos()
                    == old(self).pos(),
            },
    {
        if steps < self.toks.len() - self.pos {
            self.pos = self.pos + steps;
            Some(self.toks[self.pos].clone())
        } else {
            None
        }
    }

    /// Moves `steps` places back and returns the token then under the
    /// cursor.  If the move would underflow below the start, the position
    /// stays unchanged and the result is `None`.
    pub fn back_steps(&mut self, steps: usize) -> (r: Option<Tree>)
        requires
            old(self).wf(),
        ensures
            final(self).wf(),
            final(self).toks() == old(self).toks(),
            steps > old(self).pos() ==> r is None && final(self).pos() == old(self).pos(),
            steps <= old(self).pos() ==> final(self).pos() == old(self).pos() - steps && match r {
                Some(t) => final(self).pos() < old(self).toks().len() && t.model() == old(
                    self,
                ).model()[final(self).pos()],
                None => final(self).pos() >= old(self).toks().len(),
            },
    {
        if steps > self.pos {
            None
        } else {
            self.pos = self.pos - steps;
            if self.pos < self.toks.len() {
                Some(self.toks[self.pos].clone())
            } else {
                None
            }
        }
    }

    /// Moves one place back and returns the token then under the cursor;
    /// `None` at the start, where the position stays put.
    pub fn back(&mut self) -> (r: Option<Tree>)
        requires
            old(self).wf(),
        ensures
            final(self).wf(),
            final(self).toks() == old(self).toks(),
            old(self).pos() == 0 ==> r is None && final(self).pos() == 0,
            old(self).pos() > 0 ==> final(self).pos() == old(self).pos() - 1 && match r {
                Some(t) => t.model() == old(self).model()[final(self).pos()],
                None => false,
            },
    {
        if self.pos == 0 {
            None
        } else {
            self.pos = self.pos - 1;
            Some(self.toks[self.pos].clone())
        }
    }
}

} // verus!
