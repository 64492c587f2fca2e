use little_rust::alloca::Matrix;
use little_rust::enums::Message;
use little_rust::files::{read_protocol, write_dummy_protocol};
use little_rust::smart_pointers::CustomSmartPointer;
use little_rust::spices::Node;
use std::io::Write;

#[test]
fn alloca_main() {
    let data = Box::<Matrix>::default();
    println!(
        "!!! allocated memory: {:p}, len: {}",
        &*data,
        std::mem::size_of::<Matrix>()
    );
    assert_eq!(std::mem::size_of::<Matrix>(), 505);
    drop(data);

    let mut buf: Vec<u8> = Vec::new();
    let writer: &mut dyn Write = &mut buf;

    writer.write_all("hello world".as_bytes()).unwrap();
    assert_eq!(buf, b"hello world");
}

#[test]
fn print_messages() {
    let messages = [
        Message::Move { x: 10, y: 30 },
        Message::Echo(String::from("hello world")),
        Message::ChangeColor((200, 255, 255)),
        Message::Quit,
    ];

    for message in &messages {
        println!("{:?}", &message);
    }
}

trait Animal: std::fmt::Debug {
    fn sound(&self) -> &'static str;
}

#[derive(Debug, Default)]
struct Dog;
impl Animal for Dog {
    fn sound(&self) -> &'static str {
        "Woof!"
    }
}

#[derive(Debug, Default)]
struct Cat;
impl Animal for Cat {
    fn sound(&self) -> &'static str {
        "Meow!"
    }
}

#[test]
fn boks() {
    let mut root = Node::new(12);
    root.add_child_nodes(Node::new(3), Node::new(4));
    root.first_child_mut()
        .expect("none")
        .add_child_nodes(Node::new(0), Node::new(1903));

    println!("{}", root.data());

    println!("{:?}", root);

    let zoo: Vec<Box<dyn Animal>> = vec![Box::<Dog>::default(), Box::<Cat>::default()];
    println!("{:?}", zoo);
    assert_eq!(zoo[0].sound(), "Woof!");
}

#[test]
fn droping() {
    let a = CustomSmartPointer::new(String::from("A"));
    std::mem::drop(a);

    let _ = CustomSmartPointer::new(String::from("B"));
    let _ = CustomSmartPointer::new(String::from("C"));
    let _ = CustomSmartPointer::new(String::from("D"));
}

#[test]
fn bin_file() {
    let bytes = write_dummy_protocol();
    let payload = read_protocol(&bytes).expect("fail to read protocol");

    for n in &payload {
        println!("0x{:X}", n);
    }
    assert_eq!(payload, vec![0xDEAD, 0xBEEF]);
}

#[test]
fn vec() {
    let _ = vec!["a", "b", "c"];

    let mut fruits = Vec::new();
    fruits.push("apple");
    fruits.push("banana");

    let last = fruits.pop();

    if let Some(last) = last {
        println!("removed {} from fruits {:?}", last, fruits);
    }

    fruits.insert(1usize, "grape");
    fruits.swap(0, 1);

    if let Some(first) = fruits.first() {
        println!("{}", first);
    }

    if let Some(last) = fruits.last() {
        println!("{}", last);
    }

    if let Some(second) = fruits.get(1) {
        println!("second fruit: {}", second);
    }

    let second_fruit = fruits[1];
    println!("the second is {}", second_fruit);

    let zeros = vec![0; 5];
    println!("{:?}", zeros);

    let mut nums = vec![1, 2, 4, 5, 6];
    let second = nums.remove(1);
    println!("removed {} from {:?}", second, nums);

    let mut names = vec!["Aaron", "Felicia", "Alex", "Daniel"];
    names.retain(|name| name.starts_with('A'));
    println!("{:?}", names);
    println!("{}", names.contains(&"Alex"));

    let mut nums = vec![1, 2, 2, 3, 4, 4, 4, 5];
    nums.dedup();
    println!("deduped: {:?}", nums);

    let mut nums = vec![2, 1, 4, 2, 3, 5, 1, 2];
    nums.dedup();
    println!("deduped, unsorted: {:?}", nums);

    nums.sort();
    nums.reverse();

    let mut alphabet = vec!['a', 'b', 'c'];
    let first_two: String = alphabet.drain(..2).collect();
    println!("the first two letters of the alphabet are: {}", first_two);

    let mut a = nums.split_off(2usize);
    nums.append(&mut a);
}
