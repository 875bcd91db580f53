//! Append-only, index-addressed stores. An [`Arena`] owns a growing
//! collection of values; an [`Node`] is a small integer handle into the
//! arena that handed it out. A handle is meaningless outside its owning
//! arena, so every dereference demands that the handle is in bounds.

use vstd::prelude::*;

verus! {

/// A handle into an [`Arena`]: the index at which the value was added.
#[derive(Clone, Copy, PartialEq, Eq, Structural, Debug, Hash)]
pub struct Node(pub usize);

/// An append-only store of values of one kind. `add` appends a value and
/// returns its handle; `get` dereferences a handle from this same arena.
/// The arena never removes or rearranges entries, so a handle stays valid
/// for the arena's whole lifetime.
pub struct Arena<T> {
    items: Vec<T>,
}

impl<T> View for Arena<T> {
    type V = Seq<T>;

    closed spec fn view(&self) -> Seq<T> {
        self.items@
    }
}

impl<T> Arena<T> {
    /// An empty arena.
    pub fn new() -> (r: Self)
        ensures
            r@ == Seq::<T>::empty(),
    {
        Arena { items: Vec::new() }
    }

    /// An empty arena that has room for `n` entries before reallocating.
    pub fn with_capacity(n: usize) -> (r: Self)
        ensures
            r@ == Seq::<T>::empty(),
    {
        Arena { items: Vec::with_capacity(n) }
    }

    /// Appends `value` and returns its handle. The handle is the index of
    /// the new entry, so handles handed out by one arena are unique.
    pub fn add(&mut self, value: T) -> (n: Node)
        ensures
            final(self)@ == old(self)@.push(value),
            n.0 == old(self)@.len(),
    {
        let n = Node(self.items.len());
        self.items.push(value);
        n
    }

    /// Dereferences a handle obtained from this arena. Passing a handle of
    /// another arena is a caller bug; out-of-bounds handles are excluded.
    pub fn get(&self, node: Node) -> (r: &T)
        requires
            node.0 < self@.len(),
        ensures
            *r == self@[node.0 as int],
    {
        &self.items[node.0]
    }

    /// An arena holds its entries in memory, so their number fits the
    /// machine's word.
    pub proof fn lemma_len_bound(&self)
        ensures
            self@.len() <= usize::MAX,
    {
        assert(self.items.len() == self.items@.len());
    }

    /// The number of entries added so far.
    pub fn len(&self) -> (n: usize)
        ensures
            n == self@.len(),
    {
        self.items.len()
    }
}

} // verus!
