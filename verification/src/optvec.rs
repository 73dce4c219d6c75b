use vstd::prelude::*;

verus! {

/// A list that allocates its backing storage only on first use: `None`
/// until something is pushed, then `Some` of the items in push order.
pub struct OptVec<T> {
    vec: Option<Vec<T>>,
    num: usize,
    is_ready: bool,
}

impl<T> OptVec<T> {
    /// The items, where any were ever pushed.
    pub closed spec fn items(&self) -> Option<Seq<T>> {
        match self.vec {
            Some(v) => Some(v@),
            None => None,
        }
    }

    /// The backing list itself.
    pub closed spec fn inner(&self) -> Option<Vec<T>> {
        self.vec
    }

    /// The size hint given at construction.
    pub closed spec fn hint(&self) -> usize {
        self.num
    }

    /// The readiness flag agrees with the storage.
    pub closed spec fn wf(&self) -> bool {
        self.is_ready <==> self.vec is Some
    }

    /// Builds an empty list that will suggest `num` as its first capacity.
    pub fn new(num: usize) -> (s: Self)
        ensures
            s.wf(),
            s.items() is None,
            s.hint() == num,
    {
        OptVec { vec: None, num, is_ready: false }
    }

    /// Appends one item, allocating the backing storage on first use.
    pub fn push(&mut self, item: T)
        requires
            old(self).wf(),
        ensures
            final(self).wf(),
            final(self).hint() == old(self).hint(),
            final(self).items() == (match old(self).items() {
                Some(s) => Some(s.push(item)),
                None => Some(seq![item]),
            }),
    {
        match self.vec {
            Some(ref mut v) => {
                v.push(item);
            },
            None => {
                let mut container: Vec<T> = Vec::new();
                container.push(item);
                self.vec = Some(container);
                self.is_ready = true;
                proof {
                    assert(self.vec->0@ =~= seq![item]);
                }
            },
        }
    }

    /// Hands the backing list out, consuming the wrapper.
    pub fn into_self(self) -> (r: Option<Vec<T>>)
        ensures
            match r {
                Some(v) => self.items() == Some(v@),
                None => self.items() is None,
            },
    {
        self.vec
    }

    /// Applies the function to the items where any exist; the default
    /// otherwise.
    pub fn do_something<F, Ret>(&self, default: Ret, function: F) -> (r: Ret) where
        F: FnOnce(&Vec<T>) -> Ret,

        requires
            self.inner() matches Some(v) ==> call_requires(function, (&v,)),
        ensures
            match self.inner() {
                Some(v) => call_ensures(function, (&v,), r),
                None => r == default,
            },
    {
        match self.vec {
            Some(ref vec) => function(vec),
            None => default,
        }
    }

    /// Applies the function to the items, taking them out, where any
    /// exist; the default otherwise.
    pub fn do_take<F, Ret>(&mut self, default: Ret, function: F) -> (r: Ret) where
        F: FnOnce(Vec<T>) -> Ret,

        requires
            old(self).inner() matches Some(v) ==> call_requires(function, (v,)),
        ensures
            final(self).wf(),
            final(self).items() is None,
            final(self).hint() == old(self).hint(),
            match old(self).inner() {
                Some(v) => call_ensures(function, (v,), r),
                None => r == default,
            },
    {
        let mut taken: Option<Vec<T>> = None;
        core::mem::swap(&mut self.vec, &mut taken);
        self.is_ready = false;
        match taken {
            None => default,
            Some(vec) => function(vec),
        }
    }

    /// Takes the backing list out, leaving the wrapper empty.
    pub fn get_inside(&mut self) -> (r: Option<Vec<T>>)
        ensures
            final(self).wf(),
            final(self).items() is None,
            final(self).hint() == old(self).hint(),
            r == old(self).inner(),
    {
        let mut taken: Option<Vec<T>> = None;
        core::mem::swap(&mut self.vec, &mut taken);
        self.is_ready = false;
        taken
    }
}

} // verus!
