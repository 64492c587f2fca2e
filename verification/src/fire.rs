use vstd::prelude::*;
use std::collections::HashSet;
use vstd::std_specs::iter::IteratorSpec;

verus! {

broadcast use vstd::std_specs::hash::group_hash_axioms;

/// A set of numbers and a list that can be filled from it.
pub struct SetVec {
    pub set: HashSet<u32>,
    pub vec: Vec<u32>,
}

impl SetVec {
    /// Squares a local 5 through a closure and hands back the result, 25.
    pub fn do_nothing(&mut self) -> (r: u32)
        ensures
            r == 25,
            final(self).set@ == old(self).set@,
            final(self).vec@ == old(self).vec@,
    {
        let mut x: u32 = 5;
        let square_x = |v: u32| -> (w: u32)
            requires
                v <= 5,
            ensures
                w == v * v,
            {
                assert(v * v <= 25) by (nonlinear_arith)
                    requires
                        v <= 5;
                v * v
            };
        x = square_x(x);
        assert(x == 25);
        x
    }

    /// Appends every number of the set to the list, each once, in the order
    /// in which the set is walked; the set is left as it is.
    pub fn populate(&mut self)
        ensures
            final(self).set@ == old(self).set@,
            exists|keys: Seq<u32>|
                #![trigger keys.to_set()]
                keys.to_set() == old(self).set@ && keys.no_duplicates() && final(self).vec@
                    == old(self).vec@ + keys,
    {
        let ghost start = self.vec@;
        let set = &self.set;
        let vec = &mut self.vec;
        let ghost keys = vstd::std_specs::hash::spec_hash_keys_iter(set).remaining().unref();
        for n in it: set.iter()
            invariant
                vec@ == start + it.seq().unref().take(it.index()),
                it.seq().unref() == keys,
        {
            assert(it.seq().unref().take(it.index() + 1) =~= it.seq().unref().take(it.index()).push(*n));
            vec.push(*n);
        }
        proof {
            assert(keys.take(keys.len() as int) =~= keys);
        }
    }
}

} // verus!
