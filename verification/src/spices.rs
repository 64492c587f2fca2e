use vstd::prelude::*;

verus! {

/// A set of spices held as bit flags.
#[derive(Debug, Clone, Copy, PartialEq, Eq, Structural)]
pub struct Spices {
    bits: u32,
}

impl Spices {
    /// The bits of the set.
    pub closed spec fn spec_bits(&self) -> u32 {
        self.bits
    }

    /// The set with exactly the given bits.
    pub fn from_bits_retain(bits: u32) -> (r: Spices)
        ensures
            r.spec_bits() == bits,
    {
        Spices { bits }
    }

    /// No spice.
    pub fn none() -> (r: Spices)
        ensures
            r.spec_bits() == 0,
    {
        Spices { bits: 0b0000_0000 }
    }

    /// Salt.
    pub fn salt() -> (r: Spices)
        ensures
            r.spec_bits() == 1,
    {
        Spices { bits: 0b0000_0001 }
    }

    /// Pepper.
    pub fn pepper() -> (r: Spices)
        ensures
            r.spec_bits() == 2,
    {
        Spices { bits: 0b0000_0010 }
    }

    /// Chili.
    pub fn chili() -> (r: Spices)
        ensures
            r.spec_bits() == 4,
    {
        Spices { bits: 0b0000_0100 }
    }

    /// Saffron.
    pub fn saffron() -> (r: Spices)
        ensures
            r.spec_bits() == 8,
    {
        Spices { bits: 0b0000_1000 }
    }

    /// Every spice: salt, pepper, chili and saffron.
    pub fn all() -> (r: Spices)
        ensures
            r.spec_bits() == 15,
    {
        let bits = Self::salt().bits | Self::pepper().bits | Self::chili().bits | Self::saffron().bits;
        assert(1u32 | 2u32 | 4u32 | 8u32 == 15u32) by (bit_vector);
        Spices { bits }
    }

    /// The bits of the set.
    pub fn bits(&self) -> (r: u32)
        ensures
            r == self.spec_bits(),
    {
        self.bits
    }

    /// The spices of either set.
    pub fn union(self, other: Spices) -> (r: Spices)
        ensures
            r.spec_bits() == self.spec_bits() | other.spec_bits(),
    {
        Spices { bits: self.bits | other.bits }
    }

    /// Every spice of `other` is in the set.
    pub fn contains(&self, other: Spices) -> (r: bool)
        ensures
            r == (self.spec_bits() & other.spec_bits() == other.spec_bits()),
    {
        self.bits & other.bits == other.bits
    }

    /// Adds the spices of `other`.
    pub fn insert(&mut self, other: Spices)
        ensures
            final(self).spec_bits() == old(self).spec_bits() | other.spec_bits(),
    {
        self.bits = self.bits | other.bits;
    }

    /// Takes away the spices of `other`.
    pub fn remove(&mut self, other: Spices)
        ensures
            final(self).spec_bits() == old(self).spec_bits() & !other.spec_bits(),
    {
        self.bits = self.bits & !other.bits;
    }

    /// Adds the spices of `other` that are missing and takes away those that
    /// are there.
    pub fn toggle(&mut self, other: Spices)
        ensures
            final(self).spec_bits() == old(self).spec_bits() ^ other.spec_bits(),
    {
        self.bits = self.bits ^ other.bits;
    }
}

/// After `insert`, the set contains what was inserted; after `remove`, it
/// shares nothing with what was removed.
pub proof fn lemma_insert_remove(a: u32, b: u32)
    ensures
        (a | b) & b == b,
        (a & !b) & b == 0,
{
    assert((a | b) & b == b) by (bit_vector);
    assert((a & !b) & b == 0) by (bit_vector);
}

/// Toggling the same spices twice gives back the set.
pub proof fn lemma_toggle_twice(a: u32, b: u32)
    ensures
        (a ^ b) ^ b == a,
{
    assert((a ^ b) ^ b == a) by (bit_vector);
}

/// A list of numbers, each doubled on the way in.
#[derive(Debug)]
pub struct DoubleVec(pub Vec<i32>);

impl DoubleVec {
    /// Doubles every number of `value`.
    pub fn from_vec(value: Vec<i32>) -> (r: DoubleVec)
        requires
            forall|i: int| 0 <= i < value@.len() ==> i32::MIN <= 2 * #[trigger] value@[i] <= i32::MAX,
        ensures
            r.0@.len() == value@.len(),
            forall|i: int| 0 <= i < value@.len() ==> r.0@[i] == 2 * value@[i],
    {
        let mut value = value;
        let ghost orig = value@;
        let mut i: usize = 0;
        while i < value.len()
            invariant
                value@.len() == orig.len(),
                0 <= i <= value@.len(),
                forall|j: int| 0 <= j < orig.len() ==> i32::MIN <= 2 * #[trigger] orig[j] <= i32::MAX,
                forall|j: int| 0 <= j < i ==> value@[j] == 2 * orig[j],
                forall|j: int| i <= j < value@.len() ==> value@[j] == orig[j],
            decreases value@.len() - i,
        {
            let x = value[i];
            assert(i32::MIN <= 2 * orig[i as int] <= i32::MAX);
            value.set(i, x * 2);
            i = i + 1;
        }
        DoubleVec(value)
    }

    /// Doubles every number of a copy of `value`.
    pub fn from_slice(value: &[i32]) -> (r: DoubleVec)
        requires
            forall|i: int| 0 <= i < value@.len() ==> i32::MIN <= 2 * #[trigger] value@[i] <= i32::MAX,
        ensures
            r.0@.len() == value@.len(),
            forall|i: int| 0 <= i < value@.len() ==> r.0@[i] == 2 * value@[i],
    {
        let mut v: Vec<i32> = Vec::new();
        let mut i: usize = 0;
        while i < value.len()
            invariant
                0 <= i <= value@.len(),
                v@ == value@.take(i as int),
            decreases value@.len() - i,
        {
            v.push(value[i]);
            assert(v@ =~= value@.take(i + 1));
            i = i + 1;
        }
        assert(v@ =~= value@);
        DoubleVec::from_vec(v)
    }

    /// The doubled numbers.
    pub fn as_ref(&self) -> (r: &Vec<i32>)
        ensures
            r@ == self.0@,
    {
        &self.0
    }
}

/// A binary tree node whose children come in pairs.
#[derive(Debug)]
pub struct Node<T> {
    data: T,
    child_nodes: Option<(Box<Node<T>>, Box<Node<T>>)>,
}

impl<T> Node<T> {
    /// The data of the node.
    pub closed spec fn spec_data(&self) -> T {
        self.data
    }

    /// The children, if any.
    pub closed spec fn spec_children(&self) -> Option<(Node<T>, Node<T>)> {
        match self.child_nodes {
            Some((a, b)) => Some((*a, *b)),
            None => None,
        }
    }

    /// A leaf holding `data`.
    pub fn new(data: T) -> (r: Self)
        ensures
            r.spec_data() == data,
            r.spec_children() == None::<(Node<T>, Node<T>)>,
    {
        Self { data, child_nodes: None }
    }

    /// The data of the node.
    pub fn data(&self) -> (r: &T)
        ensures
            *r == self.spec_data(),
    {
        &self.data
    }

    /// The node has no children.
    pub fn is_leaf(&self) -> (r: bool)
        ensures
            r == (self.spec_children() is None),
    {
        self.child_nodes.is_none()
    }

    /// Gives a leaf the children `a` and `b`.
    pub fn add_child_nodes(&mut self, a: Node<T>, b: Node<T>)
        requires
            old(self).spec_children() is None,
        ensures
            final(self).spec_data() == old(self).spec_data(),
            final(self).spec_children() == Some((a, b)),
    {
        self.child_nodes = Some((Box::new(a), Box::new(b)));
    }

    /// The first child, for changes, when there are children.
    pub fn first_child_mut(&mut self) -> (r: Option<&mut Node<T>>)
        ensures
            match old(self).spec_children() {
                Some((a, b)) => r matches Some(c) && *c == a && final(self).spec_data() == old(self).spec_data()
                    && final(self).spec_children() == Some((*final(c), b)),
                None => r is None && *final(self) == *old(self),
            },
    {
        match &mut self.child_nodes {
            Some((a, _)) => Some(&mut **a),
            None => None,
        }
    }
}

} // verus!
