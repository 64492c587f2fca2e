use std::borrow::Cow;
use std::cell::{Cell, RefCell};
use std::fmt::Display;
use std::rc::{Rc, Weak};

#[test]
fn test_collect() {
    let _a: Vec<_> = (b'A'..b'z' + 1)
        .map(|c| c as char)
        .filter(|c| c.is_alphabetic())
        .collect();
    println!("{:?}", _a);
    assert_eq!(_a.len(), 52);
}

enum Temp {
    C(i32),
    F(i32),
}

fn age() -> u32 {
    15
}

fn some_number() -> Option<i32> {
    Some(1)
}

#[test]
fn test_match() {
    let t = Temp::C(35);
    let _t = Temp::F(34);
    match t {
        Temp::C(tt) if tt > 30 => println!("{}", tt),
        Temp::C(tt) => println!("{}", tt),
        Temp::F(ff) if ff > 86 => println!("{}", ff),
        Temp::F(ff) => println!("{}", ff),
    }

    match age() {
        0 => println!("oops"),
        n @ 1..=12 => println!("{}", n),
        n @ 13..=19 => println!("{}", n),
        n => println!("{}", n),
    }

    match some_number() {
        Some(n @ 1) => println!("{}", n),
        Some(n) => println!("{},,", n),
        _ => (),
    }
}

fn extend_vec(v: &mut Vec<i32>) {
    (2..34).for_each(|i| v.push(i));
}

fn print_vec<T>(name: &str, data: Vec<T>) {
    println!("{}: {}, {}", name, data.capacity(), data.len());
}

#[test]
fn container_main() {
    let mut v = vec![1];
    let v1: Vec<i32> = Vec::with_capacity(8);

    print_vec("v1", v1);

    println!("heap start: {:p}", &v[0]);
    extend_vec(&mut v);

    println!("new heap start: {:p}", &v[0]);
    assert_eq!(v.len(), 33);
    print_vec("v", v);
}

struct Owner {
    name: String,
    gadgets: RefCell<Vec<Weak<Gadget>>>,
}

struct Gadget {
    id: i32,
    owner: Rc<Owner>,
}

#[test]
fn ref_check() {
    let owner: Rc<Owner> = Rc::new(Owner {
        name: "chris".to_owned(),
        gadgets: RefCell::new(Vec::new()),
    });

    let gadget1 = Rc::new(Gadget { id: 1, owner: owner.clone() });
    let gadget2 = Rc::new(Gadget { id: 2, owner: owner.clone() });

    owner.gadgets.borrow_mut().push(Rc::downgrade(&gadget1));
    owner.gadgets.borrow_mut().push(Rc::downgrade(&gadget2));

    for g_opt in owner.gadgets.borrow().iter() {
        let g = g_opt.upgrade().unwrap();

        println!("gadget {} owned by {}", g.id, g.owner.name);
    }
}

fn by_moving() {
    let hello = "hello, ".to_owned();
    let world = "world!";
    let hello_world = hello + world;
    println!("{}", hello_world);
}

fn by_cloning() {
    let hello = "hello, ".to_owned();
    let world = "world!";
    let hello_world = hello.clone() + world;
    println!("{}", hello);
    println!("{}", hello_world);
}

fn by_mutating() {
    let mut hello = "hello, ".to_owned();
    let world = "world!";
    hello.push_str(world);
    println!("{}", hello);
}

#[test]
fn concat_string() {
    by_moving();
    by_cloning();
    by_mutating();
}

struct Demo;

impl Display for Demo {
    fn fmt(&self, f: &mut std::fmt::Formatter<'_>) -> std::fmt::Result {
        f.write_str("demo")
    }
}

#[test]
fn format() {
    let color = "red";
    let favor = format!("{} is my favorite color", color);
    let _favor = format!("{c} is my favorite color", c = color);
    println!("{}", favor);

    let d = Demo {};
    println!("{}", format!("{} is demo?", d));

    let ddg = format!("{0}, {0}, {1}", "duck", "goose");
    let intro = format!("my name is {sur}, {fore}, {sur}", sur = "bond", fore = "james");

    println!("{} {}", ddg, intro);

    println!("{}", format!("{1} {} {0} {}", "a", "b"));
    println!("{}", format!("{:.*}", 2, 1.123435));
}

#[test]
fn default() {
    let foo: i32 = Default::default();
    println!("{}", foo);
    assert_eq!(foo, 0);
}

struct NameLen<'a> {
    name: Cow<'a, str>,
    length: usize,
}

impl<'a> NameLen<'a> {
    fn new<S>(name: S) -> Self
    where
        S: Into<Cow<'a, str>>,
    {
        let name: Cow<'a, str> = name.into();
        Self { length: name.len(), name }
    }
}

#[test]
fn structs() {
    let n = NameLen::new("abc");
    assert_eq!(n.length, 3);
    assert_eq!(n.name, "abc");
}

#[test]
fn mem_test() {
    println!("i32: {}", std::mem::size_of::<i32>());
    println!("rc<i32>: {}", std::mem::size_of::<Rc<i32>>());
    println!("rc<RefCell<i32>>: {}", std::mem::size_of::<Rc<RefCell<i32>>>());
    println!("Option<rc<RefCell<i32>>>: {}", std::mem::size_of::<Option<Rc<RefCell<i32>>>>());
}

#[derive(Debug, Default)]
struct Structs {
    id: i32,
    age: Cell<i32>,
}

#[test]
fn t() {
    let st = Structs::default();
    st.age.set(9);
    println!("{}, {:?}", st.id, st);
}

async fn learn_song() -> String {
    "song".to_owned()
}

async fn sing_song(song: String) {
    println!("Singing {song}");
}

async fn dance() {
    println!("Dancing");
}

async fn learn_and_sing() {
    let song = learn_song().await;
    sing_song(song).await
}

async fn async_main() {
    let (f1, f2) = (learn_and_sing(), dance());
    drop((f1, f2));
}

#[test]
fn fut() {
    let rt = tokio::runtime::Builder::new_current_thread().build().expect("runtime");
    rt.block_on(async_main());
}
