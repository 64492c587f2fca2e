use vstd::prelude::*;

verus! {

/// Hands a fresh string to the caller.
pub fn gives_ownership() -> (r: String)
    ensures
        r@ == "hello"@,
{
    let some_string = String::from_str("hello");
    some_string
}

/// Appends `", world"` to the string it is given and hands it back.
pub fn takes_and_gives_back(a_string: String) -> (r: String)
    ensures
        r@ == a_string@ + ", world"@,
{
    let mut a_string = a_string;
    a_string.append(", world");
    a_string
}

/// A person's sex.
#[allow(non_camel_case_types)]
#[derive(Debug, Clone, Copy, PartialEq, Eq, Structural)]
pub enum Sex {
    MALE,
    FEMALE,
}

/// A person with a name, an age, a sex and an email address.
pub struct Person {
    pub name: String,
    pub age: i8,
    pub sex: Sex,
    pub email: String,
}

/// The sample person.
pub fn new_person() -> (p: Person)
    ensures
        p.name@ == "Hao"@,
        p.age == 12,
        p.sex == Sex::MALE,
        p.email@ == "abc@email.com"@,
{
    let person = Person {
        name: String::from_str("Hao"),
        age: 12,
        sex: Sex::MALE,
        email: String::from_str("abc@email.com"),
    };
    person
}

/// A person with empty strings and age 0, built from the parent module's types.
pub fn use_super() -> (p: Person)
    ensures
        p.name@ == Seq::<char>::empty(),
        p.age == 0,
        p.sex == Sex::MALE,
        p.email@ == Seq::<char>::empty(),
{
    Person { name: String::new(), age: 0, sex: Sex::MALE, email: String::new() }
}

/// A holder of a static string.
#[derive(Debug)]
pub struct Foo {
    s: &'static str,
}

impl Foo {
    /// The held string.
    pub closed spec fn spec_s(&self) -> Seq<char> {
        self.s@
    }

    /// Holds `s`.
    pub fn new(s: &'static str) -> (r: Foo)
        ensures
            r.spec_s() == s@,
    {
        Foo { s }
    }

    /// The held string.
    pub fn s(&self) -> (r: &'static str)
        ensures
            r@ == self.spec_s(),
    {
        self.s
    }
}

/// What the vector example reads and leaves: the third element read by
/// index, the third element read by `get`, and the vector after a push.
pub struct VecVisit {
    pub third: i32,
    pub got: Option<i32>,
    pub after: Vec<i32>,
}

/// Reads the third element of `[1, 2, 3, 4, 5]` by index and by `get`, then
/// pushes 6.
pub fn use_vec_() -> (r: VecVisit)
    ensures
        r.third == 3,
        r.got == Some(3i32),
        r.after@ == seq![1i32, 2, 3, 4, 5, 6],
{
    let mut v: Vec<i32> = vec![1, 2, 3, 4, 5];
    let third: i32 = v[2];
    proof {
        broadcast use vstd::slice::axiom_slice_get_usize;
    }
    let got: Option<i32> = match v.as_slice().get(2) {
        Some(t) => Some(*t),
        None => None,
    };
    v.push(6);
    VecVisit { third, got, after: v }
}

} // verus!
