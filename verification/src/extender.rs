use vstd::prelude::*;

verus! {

/// Appends three letters to a message and gives back the message.
pub fn basic_usage() -> (r: String)
    ensures
        r@ == "the first three letters are: abc"@,
        r@.subrange(29, 32) == "abc"@,
{
    let mut message = String::from_str("the first three letters are: ");
    message.append("abc");
    proof {
        reveal_strlit("the first three letters are: ");
        reveal_strlit("abc");
        reveal_strlit("the first three letters are: abc");
        assert(message@ =~= "the first three letters are: abc"@);
        assert(message@.subrange(29, 32) =~= "abc"@);
    }
    message
}

/// A growable collection of numbers.
#[derive(Debug)]
pub struct MyCollection(pub Vec<i32>);

impl MyCollection {
    /// An empty collection.
    pub fn new() -> (r: Self)
        ensures
            r.0@ == Seq::<i32>::empty(),
    {
        MyCollection(Vec::new())
    }

    /// Adds one number at the end.
    pub fn add(&mut self, elem: i32)
        ensures
            final(self).0@ == old(self).0@.push(elem),
    {
        self.0.push(elem);
    }

    /// Adds the numbers of `iter`, in order, at the end.
    pub fn extend(&mut self, iter: Vec<i32>)
        ensures
            final(self).0@ == old(self).0@ + iter@,
    {
        let mut i: usize = 0;
        while i < iter.len()
            invariant
                0 <= i <= iter@.len(),
                self.0@ == old(self).0@ + iter@.take(i as int),
            decreases iter@.len() - i,
        {
            self.add(iter[i]);
            assert(iter@.take(i + 1) =~= iter@.take(i as int).push(iter@[i as int]));
            i = i + 1;
        }
        assert(iter@.take(iter@.len() as int) =~= iter@);
    }
}

/// Adds 5, 6 and 7 to a new collection, then extends it with 1, 2 and 3.
pub fn test_my_collection() -> (c: MyCollection)
    ensures
        c.0@ == seq![5i32, 6, 7, 1, 2, 3],
{
    let mut c = MyCollection::new();
    c.add(5);
    c.add(6);
    c.add(7);
    let mut v: Vec<i32> = Vec::new();
    v.push(1);
    v.push(2);
    v.push(3);
    c.extend(v);
    assert(c.0@ =~= seq![5i32, 6, 7, 1, 2, 3]);
    c
}

} // verus!
