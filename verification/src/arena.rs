//! The node arena: a fixed pool of memory words handed out in blocks, with a
//! free list per size class and a fatal capacity-exceeded condition when the
//! pool is exhausted.  The layout engine itself works on the typed node tree;
//! this component models the storage substrate underneath it, and keeping it
//! behind block handles is what stops a freed slot from aliasing a live one.

use vstd::prelude::*;

verus! {

/// The largest block size a node record needs.
pub const MAX_NODE_SIZE: usize = 33;

/// The arena's fatal failure: no block of the requested class is free and
/// the unused frontier cannot supply one.  The run cannot continue.
#[derive(Clone, Copy, Debug, PartialEq, Eq, Structural)]
pub struct ArenaOverflow {
    /// How many words were requested.
    pub requested: usize,
}

pub struct NodeArena {
    words: Vec<i64>,
    free_lists: Vec<Vec<usize>>,
    frontier: usize,
}

impl NodeArena {
    pub closed spec fn capacity(self) -> int {
        self.words@.len() as int
    }

    pub closed spec fn frontier_spec(self) -> int {
        self.frontier as int
    }

    /// The free pool of one size class, most recently freed block last.
    pub closed spec fn free_pool(self, size: int) -> Seq<usize> {
        self.free_lists@[size]@
    }

    pub closed spec fn word(self, a: int) -> i64 {
        self.words@[a]
    }

    pub closed spec fn wf(self) -> bool {
        &&& self.free_lists@.len() == MAX_NODE_SIZE + 1
        &&& self.frontier <= self.words@.len()
        &&& forall|s: int, i: int|
            1 <= s <= MAX_NODE_SIZE && 0 <= i < self.free_lists@[s]@.len()
                ==> #[trigger] self.free_lists@[s]@[i] + s <= self.frontier
    }

    /// Whether an allocation of `size` words can succeed.
    pub open spec fn can_allocate(self, size: int) -> bool {
        self.free_pool(size).len() > 0 || self.frontier_spec() + size <= self.capacity()
    }

    /// A fresh arena of `capacity` words, all unallocated.
    pub fn new(capacity: usize) -> (r: NodeArena)
        ensures
            r.wf(),
            r.capacity() == capacity,
            r.frontier_spec() == 0,
            forall|s: int| 1 <= s <= MAX_NODE_SIZE ==> #[trigger] r.free_pool(s).len() == 0,
    {
        let mut words: Vec<i64> = Vec::new();
        let mut i: usize = 0;
        while i < capacity
            invariant
                words@.len() == i,
                i <= capacity,
            decreases capacity - i,
        {
            words.push(0);
            i = i + 1;
        }
        let mut free_lists: Vec<Vec<usize>> = Vec::new();
        let mut s: usize = 0;
        while s < MAX_NODE_SIZE + 1
            invariant
                free_lists@.len() == s,
                s <= MAX_NODE_SIZE + 1,
                forall|j: int| 0 <= j < s ==> #[trigger] free_lists@[j]@.len() == 0,
            decreases MAX_NODE_SIZE + 1 - s,
        {
            free_lists.push(Vec::new());
            s = s + 1;
        }
        NodeArena { words, free_lists, frontier: 0 }
    }

    /// Allocate a zeroed block of `size` words.  The most recently freed
    /// block of that class is reused first; otherwise the block comes from
    /// the unused frontier; and when neither can supply one the allocation
    /// fails with the overflow condition and returns no address.
    pub fn allocate(&mut self, size: usize) -> (r: Result<usize, ArenaOverflow>)
        requires
            old(self).wf(),
            1 <= size <= MAX_NODE_SIZE,
        ensures
            final(self).wf(),
            final(self).capacity() == old(self).capacity(),
            r is Ok <==> old(self).can_allocate(size as int),
            r is Err ==> *final(self) == *old(self) && r == Err::<usize, ArenaOverflow>(
                ArenaOverflow { requested: size },
            ),
            r matches Ok(a) ==> {
                &&& a + size <= final(self).frontier_spec()
                &&& (if old(self).free_pool(size as int).len() > 0 {
                    a == old(self).free_pool(size as int).last() && final(self).free_pool(
                        size as int,
                    ) == old(self).free_pool(size as int).drop_last() && final(self).frontier_spec()
                        == old(self).frontier_spec()
                } else {
                    a == old(self).frontier_spec() && final(self).frontier_spec() == old(
                        self,
                    ).frontier_spec() + size && final(self).free_pool(size as int) == old(
                        self,
                    ).free_pool(size as int)
                })
                &&& forall|s2: int|
                    1 <= s2 <= MAX_NODE_SIZE && s2 != size ==> final(self).free_pool(s2) == old(
                        self,
                    ).free_pool(s2)
                &&& forall|w: int| a <= w < a + size ==> final(self).word(w) == 0
                &&& forall|w: int|
                    0 <= w < old(self).capacity() && !(a <= w < a + size) ==> final(self).word(w)
                        == old(self).word(w)
            },
    {
        let pool_len = self.free_lists[size].len();
        if pool_len > 0 {
            let a = self.free_lists[size][pool_len - 1];
            let lst = &mut self.free_lists[size];
            lst.pop();
            self.zero_block(a, size);
            Ok(a)
        } else if size <= self.words.len() && self.frontier <= self.words.len() - size {
            let a = self.frontier;
            self.frontier = self.frontier + size;
            self.zero_block(a, size);
            Ok(a)
        } else {
            Err(ArenaOverflow { requested: size })
        }
    }

    fn zero_block(&mut self, a: usize, size: usize)
        requires
            a + size <= old(self).words@.len(),
        ensures
            final(self).words@.len() == old(self).words@.len(),
            final(self).free_lists == old(self).free_lists,
            final(self).frontier == old(self).frontier,
            forall|w: int| a <= w < a + size ==> final(self).words@[w] == 0,
            forall|w: int|
                0 <= w < old(self).words@.len() && !(a <= w < a + size) ==> final(self).words@[w]
                    == old(self).words@[w],
    {
        let cap = self.words.len();
        let mut i: usize = 0;
        while i < size
            invariant
                i <= size,
                a + size <= cap,
                a + size <= self.words@.len(),
                self.words@.len() == old(self).words@.len(),
                self.free_lists == old(self).free_lists,
                self.frontier == old(self).frontier,
                forall|w: int| a <= w < a + i ==> self.words@[w] == 0,
                forall|w: int|
                    0 <= w < old(self).words@.len() && !(a <= w < a + i) ==> self.words@[w] == old(
                        self,
                    ).words@[w],
            decreases size - i,
        {
            self.words.set(a + i, 0);
            i = i + 1;
        }
    }

    /// Return a block to the free pool of its size class.
    pub fn free(&mut self, a: usize, size: usize)
        requires
            old(self).wf(),
            1 <= size <= MAX_NODE_SIZE,
            a + size <= old(self).frontier_spec(),
        ensures
            final(self).wf(),
            final(self).capacity() == old(self).capacity(),
            final(self).frontier_spec() == old(self).frontier_spec(),
            final(self).free_pool(size as int) == old(self).free_pool(size as int).push(a),
            forall|s2: int|
                1 <= s2 <= MAX_NODE_SIZE && s2 != size ==> final(self).free_pool(s2) == old(
                    self,
                ).free_pool(s2),
            forall|w: int| 0 <= w < old(self).capacity() ==> final(self).word(w) == old(self).word(
                w,
            ),
    {
        let lst = &mut self.free_lists[size];
        lst.push(a);
    }

    /// Write a word of an allocated block.
    pub fn write(&mut self, a: usize, v: i64)
        requires
            old(self).wf(),
            a < old(self).frontier_spec(),
        ensures
            final(self).wf(),
            final(self).capacity() == old(self).capacity(),
            final(self).frontier_spec() == old(self).frontier_spec(),
            forall|s2: int| 1 <= s2 <= MAX_NODE_SIZE ==> final(self).free_pool(s2) == old(
                self,
            ).free_pool(s2),
            final(self).word(a as int) == v,
            forall|w: int|
                0 <= w < old(self).capacity() && w != a ==> final(self).word(w) == old(self).word(
                    w,
                ),
    {
        self.words.set(a, v);
    }

    /// Read a word.
    pub fn read(&self, a: usize) -> (r: i64)
        requires
            self.wf(),
            a < self.frontier_spec(),
        ensures
            r == self.word(a as int),
    {
        self.words[a]
    }
}

} // verus!
