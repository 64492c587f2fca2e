use little_rust::spices::{DoubleVec, Node, Spices};

#[test]
fn bit_fields() {
    let classic = Spices::salt().union(Spices::pepper());
    let spicy = Spices::pepper().union(Spices::chili());

    println!("classic {:?}", classic);
    println!("classic {:08b}", classic.bits());
    assert_eq!(format!("{:08b}", classic.bits()), "00000011");

    println!("spicy {:?}", spicy);
    println!("spicy {:08b}", spicy.bits());
    assert_eq!(format!("{:08b}", spicy.bits()), "00000110");

    let mut custom = classic.union(spicy);
    custom.insert(Spices::saffron());
    println!("{:?}", custom);
    assert_eq!(custom.bits(), 0b1111);
    assert_eq!(custom, Spices::all());

    custom.toggle(Spices::chili());
    println!("{:?}", custom);
    assert_eq!(custom.bits(), 0b1011);

    custom.remove(Spices::salt());
    println!("{:?}", custom);
    assert_eq!(custom.bits(), 0b1010);
    assert!(custom.contains(Spices::pepper()));
    assert!(!custom.contains(Spices::salt()));
    assert_eq!(Spices::none().bits(), 0);
}

fn print_elm<T: std::fmt::Display>(slc: &[T]) {
    let line: Vec<String> = slc.iter().map(|el| format!("{} ", el)).collect();
    println!("{}", line.concat());
}

#[test]
fn cov() {
    let _ = "hello world".to_string();
    let _: String = "hello world".into();
    let _: String = String::from("hello world");

    let vec = vec![1, 2, 3];
    let a = DoubleVec::from_vec(vec.clone());
    let b = DoubleVec::from_vec(vec.clone());
    let dv = DoubleVec::from_slice(&vec[..]);
    print_elm(dv.as_ref());
    assert_eq!(a.as_ref(), &vec![2, 4, 6]);
    assert_eq!(b.0, vec![2, 4, 6]);
    assert_eq!(dv.as_ref(), &vec![2, 4, 6]);
}

#[test]
fn node_children() {
    let mut root = Node::new(12);
    assert!(root.is_leaf());
    root.add_child_nodes(Node::new(3), Node::new(4));
    assert!(!root.is_leaf());
    let first = root.first_child_mut().expect("none");
    assert_eq!(*first.data(), 3);
    first.add_child_nodes(Node::new(0), Node::new(1903));
    assert!(!root.first_child_mut().expect("none").is_leaf());
    assert_eq!(*root.data(), 12);
}
