use vstd::prelude::*;
use vstd::string::StringSliceAdditionalSpecFns;
use vstd::utf8::encode_utf8;
use crate::ownership::{byte_len, first_segment, first_space_char};
use vstd::std_specs::cmp::PartialOrdSpec;
use vstd::laws_cmp::obeys_partial_cmp_spec_properties;
use std::fmt::Debug;
use std::fmt::Display;

verus! {

/// Something that can describe itself in one line.
pub trait Summary {
    fn summarize(&self) -> String;

    fn summarize_default(&self) -> (r: String)
        default_ensures
            r@ == "loading..."@,
    {
        String::from_str("loading...")
    }
}

/// Something that can be shown on a screen.
pub trait TV: Display {}

/// A point of two coordinates of one type.
pub struct Point<T> {
    pub x: T,
    pub y: T,
}

/// `a` compares greater than `b`.
pub open spec fn greater<T: PartialOrd>(a: T, b: T) -> bool {
    a.partial_cmp_spec(&b) == Some(core::cmp::Ordering::Greater)
}

/// Whatever compares greater than `y` also compares greater than every item
/// that compares equal to `y`.
pub open spec fn greater_passes_equal<T: PartialOrd>() -> bool {
    forall|x: T, y: T, z: T|
        #![trigger x.partial_cmp_spec(&y), z.partial_cmp_spec(&y)]
        greater(x, y) && z.partial_cmp_spec(&y) == Some(core::cmp::Ordering::Equal) ==> greater(x, z)
}

/// `T`'s comparison is specified, its greater-than is transitive, and it
/// carries over to items that compare equal.
pub open spec fn lawful_order<T: PartialOrd>() -> bool {
    &&& T::obeys_partial_cmp_spec()
    &&& obeys_partial_cmp_spec_properties::<T>()
    &&& greater_passes_equal::<T>()
}

/// Greater-than is transitive for a lawful order.
pub proof fn lemma_greater_transitive<T: PartialOrd>(a: T, b: T, c: T)
    requires
        lawful_order::<T>(),
        greater(a, b),
        greater(b, c),
    ensures
        greater(a, c),
{
    reveal(obeys_partial_cmp_spec_properties);
}

/// Greater-than is asymmetric, hence irreflexive, for a lawful order.
pub proof fn lemma_greater_asymmetric<T: PartialOrd>(a: T, b: T)
    requires
        lawful_order::<T>(),
        greater(a, b),
    ensures
        !greater(b, a),
{
    reveal(obeys_partial_cmp_spec_properties);
    assert(b.partial_cmp_spec(&a) == Some(core::cmp::Ordering::Less));
}

/// What compares less is compared greater by the other side.
pub proof fn lemma_less_converse<T: PartialOrd>(a: T, b: T)
    requires
        lawful_order::<T>(),
        a.partial_cmp_spec(&b) == Some(core::cmp::Ordering::Less),
    ensures
        greater(b, a),
{
    reveal(obeys_partial_cmp_spec_properties);
}

/// Any two items of `s` compare (none is like a NaN).
pub open spec fn compares_totally<T: PartialOrd>(s: Seq<T>) -> bool {
    forall|i: int, j: int|
        0 <= i < s.len() && 0 <= j < s.len() ==> #[trigger] s[i].partial_cmp_spec(&s[j]) is Some
}

/// No item of `s` compares greater than `s[k]`.
pub open spec fn maximal<T: PartialOrd>(s: Seq<T>, k: int) -> bool {
    forall|i: int| 0 <= i < s.len() ==> !greater(#[trigger] s[i], s[k])
}

/// Some item of `s` compares greater than `s[i]`.
pub open spec fn beaten<T: PartialOrd>(s: Seq<T>, i: int) -> bool {
    exists|j: int| 0 <= j < s.len() && greater(#[trigger] s[j], s[i])
}

/// The largest item of a non-empty list. Scanning from the front, an item
/// replaces the current candidate only when it compares greater, so for a
/// lawful order the result is an item that nothing compares greater than,
/// and when all items compare it is the first such item, so of items that
/// compare equal the earliest is kept.
pub fn largest<T: PartialOrd + Copy>(list: &[T]) -> (r: T)
    requires
        list@.len() > 0,
    ensures
        exists|k: int|
            #![trigger list@[k]]
            0 <= k < list@.len() && list@[k] == r && (lawful_order::<T>() ==> maximal(list@, k)) && (
            lawful_order::<T>() && compares_totally(list@) ==> forall|i: int|
                0 <= i < k ==> beaten(list@, i)),
{
    let mut largest = list[0];
    let ghost mut k: int = 0;
    proof {
        if lawful_order::<T>() && greater(largest, largest) {
            lemma_greater_asymmetric(largest, largest);
        }
    }
    let mut i: usize = 1;
    while i < list.len()
        invariant
            1 <= i <= list@.len(),
            0 <= k < i,
            list@[k] == largest,
            lawful_order::<T>() ==> forall|j: int| 0 <= j < i ==> !greater(#[trigger] list@[j], largest),
            lawful_order::<T>() && compares_totally(list@) ==> forall|j: int| 0 <= j < k ==> beaten(list@, j),
        decreases list@.len() - i,
    {
        let item = list[i];
        // The position of `item`, as an integer.
        let ghost ii: int = i + 0;
        if item > largest {
            proof {
                if lawful_order::<T>() {
                    assert(greater(item, largest));
                    assert forall|j: int| 0 <= j < i + 1 implies !greater(#[trigger] list@[j], item) by {
                        if j == i {
                            if greater(item, item) {
                                lemma_greater_asymmetric(item, item);
                            }
                        } else if greater(list@[j], item) {
                            lemma_greater_transitive(list@[j], item, largest);
                        }
                    }
                    if compares_totally(list@) {
                        assert forall|j: int| 0 <= j < ii implies beaten(list@, j) by {
                            if j == k {
                                assert(greater(list@[ii], list@[j]));
                            } else if j > k {
                                assert(!greater(list@[j], largest));
                                assert(list@[j].partial_cmp_spec(&list@[k]) is Some);
                                if list@[j].partial_cmp_spec(&list@[k]) == Some(core::cmp::Ordering::Equal) {
                                    assert(greater(list@[ii], list@[k]));
                                    assert(greater(list@[ii], list@[j]));
                                } else {
                                    let o = list@[j].partial_cmp_spec(&list@[k]);
                                    match o {
                                        Some(core::cmp::Ordering::Less) => {},
                                        Some(core::cmp::Ordering::Greater) => {
                                            assert(greater(list@[j], largest));
                                        },
                                        _ => {},
                                    }
                                    lemma_less_converse(list@[j], largest);
                                    assert(greater(list@[k], list@[j]));
                                }
                            }
                        }
                    }
                }
                k = ii;
            }
            largest = item;
        }
        i = i + 1;
    }
    largest
}

pub struct NewsArticle {
    pub headline: String,
    pub location: String,
    pub author: String,
    pub content: String,
}

impl Summary for NewsArticle {
    /// `"<headline>, by <author> (<location>)"`.
    fn summarize(&self) -> (r: String)
        ensures
            r@ == self.headline@ + ", by "@ + self.author@ + " ("@ + self.location@ + ")"@,
    {
        let mut s = self.headline.clone();
        s.append(", by ");
        s.append(self.author.as_str());
        s.append(" (");
        s.append(self.location.as_str());
        s.append(")");
        s
    }
}

pub struct Tweet {
    pub username: String,
    pub content: String,
    pub reply: bool,
    pub retweet: bool,
}

impl Summary for Tweet {
    /// `"<username>: <content>"`.
    fn summarize(&self) -> (r: String)
        ensures
            r@ == self.username@ + ": "@ + self.content@,
    {
        let mut s = self.username.clone();
        s.append(": ");
        s.append(self.content.as_str());
        s
    }
}

/// Accepts any item that can be summarised and displayed, and does nothing with it.
pub fn notifying<T: Summary + Display>(_item: &T) {
}

/// Accepts two cloneable values and returns 0.
pub fn some_function<T, U>(_t: &T, _u: &U) -> (r: i32)
    where T: Display + Clone, U: Clone + Debug,
    ensures
        r == 0,
{
    0
}

/// A pair of values of one type.
pub struct Pair<T> {
    pub x: T,
    pub y: T,
}

impl<T> Pair<T> {
    pub fn new(x: T, y: T) -> (r: Self)
        ensures
            r.x == x,
            r.y == y,
    {
        Self { x, y }
    }
}

impl<T: PartialOrd> Pair<T> {
    /// The member that is shown: `x` when it compares greater than or equal
    /// to `y`, else `y`.
    pub fn cmp_display(&self) -> (r: &T)
        ensures
            r == &self.x || r == &self.y,
            T::obeys_partial_cmp_spec() ==> r == (if (self.x.partial_cmp_spec(&self.y) matches Some(
                core::cmp::Ordering::Greater | core::cmp::Ordering::Equal,
            )) {
                &self.x
            } else {
                &self.y
            }),
    {
        if self.x >= self.y {
            &self.x
        } else {
            &self.y
        }
    }
}

/// A part of a longer text.
pub struct ImportantExcerpt<'a> {
    pub part: &'a str,
}

/// The excerpt made of the first sentence of `novel`: the text before its
/// first space.
pub fn important<'a>(novel: &'a str) -> (r: ImportantExcerpt<'a>)
    ensures
        r.part@ == novel@.take(first_space_char(novel@)),
{
    let first_sentence = first_segment(novel);
    ImportantExcerpt { part: first_sentence }
}

/// The longer of two strings by length in bytes; `y` when they are as long.
pub fn longest_with_an_announcement<'a>(x: &'a str, y: &'a str) -> (r: &'a str)
    ensures
        r == (if byte_len(x@) > byte_len(y@) { x } else { y }),
{
    proof {
        assert(x.spec_bytes() == encode_utf8(x@));
        assert(y.spec_bytes() == encode_utf8(y@));
    }
    if x.len() > y.len() {
        x
    } else {
        y
    }
}

} // verus!
