//! The cursor: an owned input sequence with a read position.

use vstd::prelude::*;

verus! {

/// What a [`Stream`] stands for: the whole input and the read position in it.
pub struct Cursor<T> {
    pub data: Seq<T>,
    pub pos: int,
}

/// The symbol of `data` at `pos`, or `None` outside the input.
pub open spec fn symbol_at<T>(data: Seq<T>, pos: int) -> Option<T> {
    if 0 <= pos < data.len() {
        Some(data[pos])
    } else {
        None
    }
}

/// `b` is a clone of `a`, or both are absent.
pub open spec fn cloned_opt<T: Clone>(a: Option<T>, b: Option<T>) -> bool {
    match (a, b) {
        (Some(x), Some(y)) => cloned(x, y),
        (None, None) => true,
        _ => false,
    }
}

/// An input sequence with a read position that never passes its end.
#[derive(Debug)]
pub struct Stream<T>(Vec<T>, usize);

impl<T: Clone> Clone for Stream<T> {
    /// A second cursor at the same position over a clone of the input.
    fn clone(&self) -> (r: Self)
        ensures
            r@.pos == self@.pos,
            r@.data.len() == self@.data.len(),
            forall|i: int| 0 <= i < self@.data.len() ==> cloned(self@.data[i], #[trigger] r@.data[i]),
    {
        proof {
            use_type_invariant(self);
        }
        Stream(self.0.clone(), self.1)
    }
}

impl<T> View for Stream<T> {
    type V = Cursor<T>;

    closed spec fn view(&self) -> Cursor<T> {
        Cursor {
            data: self.0@,
            pos: if self.1 <= self.0@.len() {
                self.1 as int
            } else {
                self.0@.len() as int
            },
        }
    }
}

impl<T: Clone> Stream<T> {
    /// The symbol under the cursor, without consuming it.
    pub fn peak(&self) -> (r: Option<T>)
        ensures
            cloned_opt(symbol_at(self@.data, self@.pos), r),
            0 <= self@.pos <= self@.data.len(),
    {
        proof {
            use_type_invariant(self);
        }
        if self.1 < self.0.len() {
            Some(self.0[self.1].clone())
        } else {
            None
        }
    }

    /// The symbol `i` places after the cursor, without consuming anything.
    pub fn peak_index(&self, i: usize) -> (r: Option<T>)
        ensures
            cloned_opt(symbol_at(self@.data, self@.pos + i), r),
            0 <= self@.pos <= self@.data.len(),
    {
        proof {
            use_type_invariant(self);
        }
        match self.1.checked_add(i) {
            Some(at) => {
                if at < self.0.len() {
                    Some(self.0[at].clone())
                } else {
                    None
                }
            },
            None => None,
        }
    }
}

impl<T> Stream<T> {
    #[verifier::type_invariant]
    spec fn in_bounds(&self) -> bool {
        self.1 <= self.0.len()
    }

    /// The read position of every stream lies within its input.
    pub proof fn lemma_in_bounds(self)
        ensures
            0 <= self@.pos <= self@.data.len(),
    {
    }

    /// A cursor at the start of `data`.
    pub fn new(data: Vec<T>) -> (s: Self)
        ensures
            s@.data == data@,
            s@.pos == 0,
    {
        Stream(data, 0)
    }

    /// The read position; it lies within the input.
    pub fn pos(&self) -> (p: usize)
        ensures
            p == self@.pos,
            0 <= self@.pos <= self@.data.len(),
    {
        proof {
            use_type_invariant(self);
        }
        self.1
    }

    /// Moves the cursor to `pos`, or leaves it where it is when `pos` lies
    /// beyond the end of the input.
    pub fn set_pos(&mut self, pos: usize) -> (r: Option<()>)
        ensures
            final(self)@.data == old(self)@.data,
            r is Some <==> pos <= old(self)@.data.len(),
            final(self)@.pos == if r is Some { pos as int } else { old(self)@.pos },
    {
        if pos <= self.0.len() {
            self.1 = pos;
            Some(())
        } else {
            None
        }
    }

    /// Advances the cursor by `x` symbols, or leaves it where it is when that
    /// would pass the end of the input.
    pub fn add_pos(&mut self, x: usize) -> (r: Option<()>)
        ensures
            final(self)@.data == old(self)@.data,
            r is Some <==> old(self)@.pos + x <= old(self)@.data.len(),
            final(self)@.pos == if r is Some { old(self)@.pos + x } else { old(self)@.pos },
    {
        proof {
            use_type_invariant(&*self);
        }
        match self.1.checked_add(x) {
            Some(pos) => self.set_pos(pos),
            None => None,
        }
    }

    /// Consumes one symbol; at the end of the input nothing moves.
    pub fn next(&mut self) -> (r: Option<()>)
        ensures
            final(self)@.data == old(self)@.data,
            r is Some <==> old(self)@.pos < old(self)@.data.len(),
            final(self)@.pos == if r is Some { old(self)@.pos + 1 } else { old(self)@.pos },
    {
        self.add_pos(1)
    }

    /// Whether the cursor stands at the end of the input.
    pub fn eof(&self) -> (r: bool)
        ensures
            r == (self@.pos >= self@.data.len()),
            0 <= self@.pos <= self@.data.len(),
    {
        proof {
            use_type_invariant(self);
        }
        self.0.len() <= self.1
    }
}

} // verus!
