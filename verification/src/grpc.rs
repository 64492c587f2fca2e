use vstd::prelude::*;

verus! {

/// A greeting request: a name, a message and an optional extra text.
#[derive(Debug, PartialEq)]
pub struct HelloRequest {
    pub name: String,
    pub message: String,
    pub extra: Option<String>,
}

impl HelloRequest {
    /// A request with empty name and message and no extra text.
    pub fn new() -> (r: Self)
        ensures
            r.name@ == Seq::<char>::empty(),
            r.message@ == Seq::<char>::empty(),
            r.extra is None,
    {
        Self { name: String::new(), message: String::new(), extra: None }
    }
}

/// The sample request: name `hello`, message `world`.
pub fn _hello() -> (r: HelloRequest)
    ensures
        r.name@ == "hello"@,
        r.message@ == "world"@,
        r.extra is None,
{
    HelloRequest { name: String::from_str("hello"), message: String::from_str("world"), extra: None }
}

} // verus!
