use little_rust::sequences::{Fibonacci, SquaredVec};
use std::collections::{HashMap, HashSet, VecDeque};

#[test]
fn string() {
    let mut s = String::new();
    s.push('h');
    s.push('e');
    println!("{}", s);

    let s = "中文 😊 🍺 *^____^*".to_string();
    println!("{}", s);

    let mut s = String::from("Hello, ");
    s.push_str("World!");

    let echoed: String = s.chars().collect();
    println!("{}", echoed);

    let (first, second) = "HelloThere".split_at(5);
    println!("{}, {}", first, second);

    let haiku = "\
        she watches \n\
        satisfied after love\n\
        he lies\n\
        looking up at nothing\n\
        ";
    for line in haiku.lines() {
        println!("\t {}.", line);
    }

    for s in "Never:Give:Up".split(':') {
        println!("{}", s);
    }

    let s: Vec<_> = "::Hi::There::".split("::").collect();
    println!("{:?}", s);

    let s: Vec<_> = "Mr.T.".split_terminator('.').collect();
    println!("{:?}", s);

    for s in "I'm2fast4you".split(char::is_numeric) {
        println!("{}", s);
    }

    for s in "It's not your fault, it's mine".splitn(3, char::is_whitespace) {
        println!("{}", s);
    }

    for c in "The Dark Knight rises".matches(char::is_uppercase) {
        println!("{}", c);
    }

    let saying = "The early bird gets the worm";
    let _ = saying.starts_with("The");
    let _ = saying.ends_with("worm");
    let _ = saying.contains("bird");

    let spaces_a_lot = "     I love     spaces      ";
    let s: Vec<_> = spaces_a_lot.split(' ').collect();
    println!("{:?}", s);
    println!("{:?}", spaces_a_lot.split_whitespace().collect::<Vec<_>>());

    let num = "12".parse::<i32>();
    if let Ok(num) = num {
        println!("{}", num * num);
    }

    let s = "My dad is the best dad";
    println!("{}", s.replace("dad", "mom"));
    println!("{}", s.to_uppercase());
    println!("{}", s.repeat(3));
}

#[test]
fn itr() {
    let names = vec!["joe", "miranda", "alice"];

    let mut iter = names.iter();
    let mut al = "abcdefg".chars();
    let _ = 0..=10;

    for (i, l) in "abc".chars().enumerate() {
        println!("#{} {}", i + 1, l);
    }

    if let Some(n) = iter.next() {
        println!("name is {}", n);
    }

    let ll = al.nth(3);
    if let Some(ll) = ll {
        println!("fourth is {}", ll);
    }

    let _: Vec<_> = (1..10).collect();
    let _nums = (1..10).collect::<Vec<_>>();

    let all_nums = 1..;
    let nums: Vec<_> = all_nums.take(5).collect();
    println!("the first five: {:?}", nums);

    let _: Vec<_> = (0..11).skip(2).collect();

    let _: Vec<_> = (0..).take_while(|x| x * x < 50).collect::<Vec<_>>();

    let countries = ["a", "b", "ab", "ac"];

    let _: Vec<_> = countries.iter().filter(|x| x.contains('a')).collect();

    if let Some(c) = countries.iter().find(|ctry| ctry.starts_with('a')) {
        println!("{}", c);
    }

    if let Some(id) = countries.iter().position(|cry| cry.ends_with('b')) {
        println!("{}", id);
    }

    let _sum: i32 = (1..11).sum();
    let _pdt: i32 = (1..11).product();

    let _some_numbers: Vec<_> = (1..4).cycle().take(10).collect();
    let _other: Vec<_> = (1..4).chain(10..14).collect();

    let swiss_postcodes = [8957, 5000, 5034];
    let swiss_towns = ["Spreitenbach", "Aarau", "Suhr"];

    let _zipped: Vec<_> = swiss_postcodes.iter().zip(swiss_towns.iter()).collect();
    println!("{:?}", _zipped);

    let _: Vec<_> = (b'A'..)
        .zip(1..)
        .take(10)
        .map(|(ch, num)| (ch as char, num))
        .collect();
}

#[test]
fn vec_deque() {
    let mut orders = VecDeque::new();
    orders.push_back("oysters");
    orders.push_back("fish and chips");

    if let Some(pp) = orders.pop_front() {
        println!("{}", pp);
    }

    let mut some_queue = VecDeque::with_capacity(5usize);
    some_queue.push_back(1);
    some_queue.push_back(2);
    some_queue.push_back(3);
    some_queue.push_back(4);
    some_queue.push_back(5);

    some_queue.swap_remove_back(2);
    println!("{:?}", some_queue);

    some_queue.swap_remove_front(2);
    println!("{:?}", some_queue);
}

#[test]
fn hash_map() {
    let mut mp = HashMap::new();
    mp.insert("1", 1);

    for (k, v) in &mp {
        println!("{}: {}", k, v);
    }

    mp.entry("2").and_modify(|v| *v *= 10).or_insert(2);
}

#[test]
fn hash_set() {
    let one_five: HashSet<_> = (1..=5).collect();
    let five_ten: HashSet<_> = (5..=10).collect();
    let one_ten: HashSet<_> = (1..=10).collect();

    let is_disjoint = one_five.is_disjoint(&five_ten);
    println!("{}", is_disjoint);

    let _ = one_five.is_subset(&one_ten);

    let _dif = one_five.difference(&five_ten);

    let _ = one_five.intersection(&five_ten);
}

#[test]
fn fib_itr() {
    let fib: Vec<_> = Fibonacci::take(10);
    println!("{:?}", fib);
    assert_eq!(fib, vec![0, 1, 1, 2, 3, 5, 8, 13, 21, 34]);
}

#[test]
fn fib_next_steps() {
    let mut f = Fibonacci::default();
    assert_eq!(f.next(), Some(0));
    assert_eq!(f.next(), Some(1));
    assert_eq!(f.next(), Some(1));
    assert_eq!(f.next(), Some(2));
}

#[test]
fn sq_itr() {
    let mut sq = SquaredVec::new();
    sq.push(1);
    sq.push(2);
    for (i, n) in sq.as_slice().iter().enumerate() {
        println!("{},{}", i + 1, n);
    }
    assert_eq!(sq.as_slice(), &[1, 4]);
}
