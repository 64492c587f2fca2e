use vstd::prelude::*;
use crate::console::same_text;

verus! {

/// Something that can describe itself as a string.
pub trait Stringer {
    fn to_string(&self) -> String;
}

/// A person with an optional middle name.
pub struct Person {
    pub first_name: String,
    pub middle_name: Option<String>,
    pub last_name: String,
}

impl Stringer for Person {
    /// The empty string.
    fn to_string(&self) -> (r: String)
        ensures
            r@ == Seq::<char>::empty(),
    {
        String::new()
    }
}

/// What a lookup in the fruit list finds.
#[derive(Debug, Clone, Copy, PartialEq, Eq)]
pub enum FruitLookup<'a> {
    /// No fruit at that index.
    NoFruit,
    /// The kiwi, which no one loves.
    Kiwi,
    /// Another fruit.
    Fruit(&'a str),
}

/// The fruit at `index`, with the kiwi told apart.
pub fn lookup_fruit<'a>(frs: &Vec<&'a str>, index: usize) -> (r: FruitLookup<'a>)
    ensures
        r == (if index >= frs@.len() {
            FruitLookup::NoFruit
        } else if frs@[index as int]@ == "kiwi"@ {
            FruitLookup::Kiwi
        } else {
            FruitLookup::Fruit(frs@[index as int])
        }),
{
    match frs.get(index) {
        None => FruitLookup::NoFruit,
        Some(name) => {
            if same_text(name, "kiwi") {
                FruitLookup::Kiwi
            } else {
                FruitLookup::Fruit(name)
            }
        },
    }
}

/// The sample fruit list: banana, apple, orange and kiwi.
pub fn fruits() -> (r: Vec<&'static str>)
    ensures
        r@.len() == 4,
        r@[0]@ == "banana"@,
        r@[1]@ == "apple"@,
        r@[2]@ == "orange"@,
        r@[3]@ == "kiwi"@,
{
    vec!["banana", "apple", "orange", "kiwi"]
}

} // verus!
