use vstd::prelude::*;

verus! {

/// Walks a list of items and, after every `steps_req` of them, hands out
/// one extra item freshly produced by the stored function.
pub struct Extra<T, F> {
    pub items: Vec<T>,
    pub steps_req: usize,
    pub steps_done: usize,
    pub func: F,
}

impl<T, F: Fn() -> T> Extra<T, F> {
    /// Builds the walk from its items, the step count between extras, and
    /// the producer of the extras.
    pub fn new(items: Vec<T>, steps_req: usize, func: F) -> (s: Self)
        ensures
            s.items == items,
            s.steps_req == steps_req,
            s.steps_done == 0,
            s.func == func,
    {
        Extra { items, steps_req, steps_done: 0, func }
    }

    /// The next item: once the step count is reached, one produced by the
    /// stored function and a reset of the count; otherwise the next stored
    /// item, or `None` when they ran out.
    pub fn next(&mut self) -> (r: Option<T>)
        requires
            old(self).steps_done <= old(self).steps_req,
            old(self).steps_done == old(self).steps_req ==> call_requires(old(self).func, ()),
        ensures
            final(self).steps_done <= final(self).steps_req,
            final(self).steps_req == old(self).steps_req,
            final(self).func == old(self).func,
            old(self).steps_done == old(self).steps_req ==> final(self).steps_done == 0
                && final(self).items == old(self).items && (r matches Some(x) && call_ensures(
                old(self).func,
                (),
                x,
            )),
            old(self).steps_done != old(self).steps_req ==> final(self).steps_done
                == old(self).steps_done + 1 && (if old(self).items@.len() == 0 {
                r is None && final(self).items == old(self).items
            } else {
                r == Some(old(self).items@[0]) && final(self).items@
                    == old(self).items@.drop_first()
            }),
    {
        if self.steps_done == self.steps_req {
            self.steps_done = 0;
            return Some((self.func)());
        }
        proof {
            assert(self.steps_done != self.steps_req);
        }
        self.steps_done = self.steps_done + 1;
        if self.items.len() == 0 {
            None
        } else {
            let first = self.items.remove(0);
            proof {
                assert(self.items@ =~= old(self).items@.drop_first());
            }
            Some(first)
        }
    }
}

/// Pairs the items of a list up two by two; a leftover single item at the
/// end is dropped, and the walk then stays finished.
pub struct Tuplenation<T> {
    pub items: Vec<T>,
    pub done: bool,
}

impl<T> Tuplenation<T> {
    /// Builds the pairing walk over the given items.
    pub fn new(items: Vec<T>) -> (s: Self)
        ensures
            s.items == items,
            !s.done,
    {
        Tuplenation { items, done: false }
    }

    /// The next pair of items, in order; `None` once fewer than two are
    /// left, after which the walk stays finished.
    pub fn next(&mut self) -> (r: Option<(T, T)>)
        ensures
            old(self).done ==> r is None && *final(self) == *old(self),
            !old(self).done && old(self).items@.len() >= 2 ==> !final(self).done && r == Some(
                (old(self).items@[0], old(self).items@[1]),
            ) && final(self).items@ == old(self).items@.subrange(
                2,
                old(self).items@.len() as int,
            ),
            !old(self).done && old(self).items@.len() < 2 ==> final(self).done && r is None
                && final(self).items@.len() == 0,
    {
        if self.done {
            return None;
        }
        if self.items.len() >= 2 {
            let first = self.items.remove(0);
            let second = self.items.remove(0);
            proof {
                assert(self.items@ =~= old(self).items@.subrange(
                    2,
                    old(self).items@.len() as int,
                ));
            }
            Some((first, second))
        } else {
            if self.items.len() == 1 {
                let _ = self.items.remove(0);
            }
            self.done = true;
            None
        }
    }
}

} // verus!
