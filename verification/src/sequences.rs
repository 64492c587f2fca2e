use vstd::prelude::*;

verus! {

/// The Fibonacci numbers: 0, 1, 1, 2, 3, 5, ...
pub open spec fn fib(n: nat) -> nat
    decreases n,
{
    if n == 0 {
        0
    } else if n == 1 {
        1
    } else {
        fib((n - 2) as nat) + fib((n - 1) as nat)
    }
}

/// Fibonacci numbers never decrease.
pub proof fn lemma_fib_monotonic(i: nat, j: nat)
    requires
        i <= j,
    ensures
        fib(i) <= fib(j),
    decreases j - i,
{
    if i < j {
        lemma_fib_monotonic(i, (j - 1) as nat);
        if j >= 2 {
            assert(fib(j) == fib((j - 2) as nat) + fib((j - 1) as nat));
        }
    }
}

/// A generator of the Fibonacci numbers.
pub struct Fibonacci {
    cur: u32,
    next: u32,
}

impl Fibonacci {
    /// The number that the next call of `next` yields.
    pub closed spec fn spec_cur(&self) -> u32 {
        self.cur
    }

    /// The number after that.
    pub closed spec fn spec_next(&self) -> u32 {
        self.next
    }

    /// The generator is at position `k`: it yields `fib(k)` next.
    pub open spec fn at(&self, k: nat) -> bool {
        self.spec_cur() == fib(k) && self.spec_next() == fib(k + 1)
    }

    /// Yields the current number and moves one position on.
    pub fn next(&mut self) -> (r: Option<u32>)
        requires
            old(self).spec_cur() + old(self).spec_next() <= u32::MAX,
        ensures
            r == Some(old(self).spec_cur()),
            final(self).spec_cur() == old(self).spec_next(),
            final(self).spec_next() == old(self).spec_cur() + old(self).spec_next(),
            forall|k: nat| old(self).at(k) ==> final(self).at(k + 1),
    {
        let prev = self.cur;
        self.cur = self.next;
        self.next = self.next + prev;
        proof {
            assert forall|k: nat| old(self).at(k) implies self.at(k + 1) by {
                assert(fib(k + 2) == fib(k) + fib(k + 1));
            }
        }
        Some(prev)
    }

    /// The first `n` numbers that the generator yields from position 0.
    pub fn take(n: u32) -> (r: Vec<u32>)
        requires
            fib(n as nat + 1) <= u32::MAX,
        ensures
            r@.len() == n,
            forall|i: int| 0 <= i < n ==> r@[i] == fib(i as nat),
    {
        let mut f = Fibonacci::default();
        let mut r: Vec<u32> = Vec::new();
        let mut i: u32 = 0;
        while i < n
            invariant
                0 <= i <= n,
                f.at(i as nat),
                fib(n as nat + 1) <= u32::MAX,
                r@.len() == i,
                forall|j: int| 0 <= j < i ==> r@[j] == fib(j as nat),
            decreases n - i,
        {
            proof {
                lemma_fib_monotonic(i as nat + 2, n as nat + 1);
                assert(fib(i as nat + 2) == fib(i as nat) + fib(i as nat + 1));
            }
            let v = f.next();
            match v {
                Some(x) => {
                    r.push(x);
                },
                None => {},
            }
            i = i + 1;
        }
        r
    }
}

impl Default for Fibonacci {
    /// The generator at position 0.
    fn default() -> (r: Self)
        ensures
            r.at(0),
    {
        Self { cur: 0, next: 1 }
    }
}

/// A list that stores the squares of the numbers pushed onto it.
pub struct SquaredVec {
    vec: Vec<i32>,
}

impl SquaredVec {
    /// The stored squares.
    pub closed spec fn spec_items(&self) -> Seq<i32> {
        self.vec@
    }

    /// An empty list.
    pub fn new() -> (r: Self)
        ensures
            r.spec_items() == Seq::<i32>::empty(),
    {
        Self { vec: Vec::new() }
    }

    /// Stores the square of `item`.
    pub fn push(&mut self, item: i32)
        requires
            item * item <= i32::MAX,
        ensures
            final(self).spec_items() == old(self).spec_items().push((item * item) as i32),
    {
        assert(item * item >= 0) by (nonlinear_arith);
        self.vec.push(item * item);
    }

    /// The stored squares as a slice.
    pub fn as_slice(&self) -> (r: &[i32])
        ensures
            r@ == self.spec_items(),
    {
        self.vec.as_slice()
    }
}

} // verus!
