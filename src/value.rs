use vstd::prelude::*;

verus! {

/// Append-only pool of constants, indexed by position. The values are opaque
/// to this library: any `Copy` type may stand for them.
#[derive(Clone)]
pub struct ValueArray<T> {
    values: Vec<T>,
}

impl<T> View for ValueArray<T> {
    type V = Seq<T>;

    closed spec fn view(&self) -> Seq<T> {
        self.values@
    }
}

impl<T: Copy> ValueArray<T> {
    /// An empty pool.
    pub fn new() -> (r: ValueArray<T>)
        ensures
            r@ == Seq::<T>::empty(),
    {
        ValueArray { values: Vec::new() }
    }

    /// The value stored at `index`.
    pub fn get(&self, index: usize) -> (r: T)
        requires
            index < self@.len(),
        ensures
            r == self@[index as int],
    {
        self.values[index]
    }

    /// Appends `value`; equal values are stored again, not shared.
    pub fn add_constant(&mut self, value: T)
        ensures
            final(self)@ == old(self)@.push(value),
    {
        self.values.push(value);
    }

    /// Number of values in the pool.
    pub fn get_count(&self) -> (r: usize)
        ensures
            r == self@.len(),
    {
        self.values.len()
    }

    /// A pool with the same values, in the same order.
    pub fn duplicate(&self) -> (r: ValueArray<T>)
        ensures
            r@ == self@,
    {
        let mut values: Vec<T> = Vec::new();
        let mut i: usize = 0;
        while i < self.values.len()
            invariant
                i <= self.values@.len(),
                values@ == self.values@.subrange(0, i as int),
            decreases self.values.len() - i,
        {
            values.push(self.values[i]);
            i = i + 1;
        }
        assert(values@ =~= self.values@);
        ValueArray { values }
    }
}

} // verus!
