use little_rust::container::{window_count, Color, Integer, Name};
use std::collections::{BTreeMap, BinaryHeap, HashMap};

#[test]
fn main_struct() {
    let int = Integer(10);
    assert_eq!(int.0, 10);
    let int: i32 = 10;
    assert_eq!(int, 10);
}

struct Empty;

#[test]
fn main_empty() {
    let x = Empty;
    println!("{:p}", &x);

    let y = x;
    println!("{:p}", &y);

    let z = Empty;
    println!("{:p}", &z);
    assert_eq!((..), std::ops::RangeFull);
}

#[test]
fn main_color() {
    println!("roses are ${:06x}", Color::Red.value());
    println!("leaves are ${:06x}", Color::Green.value());
    println!("violets are ${:06x}", Color::Blue.value());
    assert_eq!(format!("{:06x}", Color::Red.value()), "ff0000");
    assert_eq!(format!("{:06x}", Color::Green.value()), "00ff00");
    assert_eq!(format!("{:06x}", Color::Blue.value()), "0000ff");
}

#[test]
fn main_bh() {
    let mut heap = BinaryHeap::new();
    assert_eq!(heap.peek(), None);

    let arr = [1, 22, 39, 46, 54, 61, 27, 8, 823];
    for &i in arr.iter() {
        heap.push(i);
    }
    assert_eq!(heap.peek(), Some(&823));
    println!("{:?}", heap);
}

#[test]
fn create_boxt() {
    let mut v1 = vec![1, 2, 3, 4];
    v1.push(5);
    println!("cap should be 8: {}", v1.capacity());

    let b1 = v1.into_boxed_slice();
    let mut b2 = b1.clone();

    let v2 = b1.into_vec();
    println!("cap should be exactly 5: {}", v2.capacity());

    b2[0] = 2;
    println!("b2: {:?}", b2);

    let b3 = Box::new([2, 2, 3, 4, 5]);
    println!("b3: {:?}", b3);
    assert!(*b2 == *b3);
}

#[test]
fn main_window_count() {
    let data = vec![1, 2, 3, 4, 5];
    let result = window_count(&data, 2);
    println!("{:?}", result);
    assert_eq!(result, vec![vec![1, 2], vec![3, 4], vec![5]]);
}

#[test]
fn main_hashmap() {
    let mut map = HashMap::new();
    println!("empty: items: {}", map.len());
    map.insert('a', 1);
    println!("added 1: items: {}", map.len());
    map.insert('b', 2);
    map.insert('c', 3);
    println!("added 3: items: {}", map.len());
    map.insert('d', 4);
    println!("added 4: items: {}", map.len());
    map.remove(&'a');
    println!("final: items: {}", map.len());
    map.shrink_to_fit();
    println!("shrink: items: {}", map.len());
    assert_eq!(map.len(), 3);
}

#[test]
fn main_bt() {
    let mut map = BTreeMap::new();
    map.insert(Name::new("/etc/password", 0x1), 12);
    map.insert(Name::new("/etc/hosts", 0x1), 4);
    map.insert(Name::new("/home/tchen", 0x0), 28);
    for item in map.iter() {
        println!("{:?}", item);
    }
    let names: Vec<&str> = map.keys().map(|n| n.name.as_str()).collect();
    assert_eq!(names, vec!["/etc/hosts", "/etc/password", "/home/tchen"]);
}
