use little_rust::relay::{client_step, write_warning, ClientAction, ClientEvent, StopReason};
use little_rust::panik::{recover_open, OpenFailure, OpenRecovery};
use little_rust::closures::{add_one_v1, generate_workout, Catcher, Workout};
use little_rust::console::{parse_command, parse_usize, restart_argument, Command};
use little_rust::demo::{gives_ownership, new_person, takes_and_gives_back, use_super, Foo, Sex};
use little_rust::employee::Employee;
use little_rust::extender::{basic_usage, test_my_collection, MyCollection};
use little_rust::flow::sample;
use little_rust::functional::count;
use little_rust::generic::{
    important, largest, longest_with_an_announcement, some_function, NewsArticle, Pair, Summary, Tweet,
};
use little_rust::grpc::{HelloRequest, _hello};
use little_rust::alloca::Matrix;
use little_rust::ownership::{
    calculate_length, calculate_length_ref, change, first_segment, first_word, first_word_sync, init,
    takes_and_give_back, Buffer, Render,
};
use little_rust::panik::longest_word;
use little_rust::staff::{max_index, min_index, sample_staff, scan_max, sort_by_salary};
use little_rust::thumbor::{generate, Params, BAD_REQUEST};

#[test]
fn ownership_strings() {
    assert_eq!(little_rust::ownership::gives_ownership(), "abc");
    assert_eq!(takes_and_give_back(String::from("x")), "x");
    let (s, l) = calculate_length(String::from("héllo"));
    assert_eq!(s, "héllo");
    assert_eq!(l, 6);
    assert_eq!(calculate_length_ref(&String::from("hello")), 5);
    let mut ss = String::from("Hello");
    change(&mut ss);
    assert_eq!(ss, "Hello, World");
}

#[test]
fn first_word_finds_space() {
    assert_eq!(first_word(&String::from("Hello World")), 5);
    assert_eq!(first_word(&String::from("Hello")), 5);
    assert_eq!(first_word(&String::from("é x")), 2);
    assert_eq!(first_word_sync(&String::from("Hello World")), "Hello");
    assert_eq!(first_word_sync(&String::from("é x")), "é");
    assert_eq!(first_word_sync(&String::from("")), "");
    assert_eq!(first_segment("nospace"), "nospace");
    assert_eq!(init(), (5, String::from("Hello"), String::from("World")));
}

#[test]
fn first_word_sync_is_prefix_to_first_word() {
    for text in ["Hello World", "Hello", "é x", "", " lead", "日本 語"] {
        let s = String::from(text);
        assert_eq!(first_word_sync(&s), &s[..first_word(&s)]);
    }
}

#[test]
fn render_swaps_buffers() {
    let mut r = Render {
        current_buffer: Buffer { buffer: String::from("a") },
        next_buffer: Buffer { buffer: String::from("b") },
    };
    r.update_buffer(String::from("c"));
    assert_eq!(r.current_buffer.buffer, "b");
    assert_eq!(r.next_buffer.buffer, "c");
}

#[test]
fn demo_values() {
    assert_eq!(gives_ownership(), "hello");
    assert_eq!(takes_and_gives_back(String::from("hello")), "hello, world");
    let p = new_person();
    assert_eq!(p.name, "Hao");
    assert_eq!(p.age, 12);
    assert_eq!(p.sex, Sex::MALE);
    assert_eq!(p.email, "abc@email.com");
    let q = use_super();
    assert_eq!(q.name, "");
    assert_eq!(Foo::new("hello").s(), "hello");
}

#[test]
fn largest_of_lists() {
    assert_eq!(largest(&[34, 50, 25, 100, 65]), 100);
    assert_eq!(largest(&['y', 'm', 'a', 'q']), 'y');
    assert_eq!(largest(&[7]), 7);
}

#[test]
fn largest_keeps_first_candidate_when_nothing_is_greater() {
    assert_eq!(largest(&[3, 9, 9, 1]), 9);
    assert!(largest(&[f64::NAN, 1.0, 2.0]).is_nan());
    assert_eq!(largest(&[1.0, f64::NAN, 2.0]), 2.0);
}

#[test]
fn summaries() {
    let a = NewsArticle {
        headline: String::from("Penguins win"),
        location: String::from("Pittsburgh"),
        author: String::from("Iceburgh"),
        content: String::from("..."),
    };
    assert_eq!(a.summarize(), "Penguins win, by Iceburgh (Pittsburgh)");
    let t = Tweet {
        username: String::from("horse_ebooks"),
        content: String::from("of course"),
        reply: false,
        retweet: false,
    };
    assert_eq!(t.summarize(), "horse_ebooks: of course");
    assert_eq!(t.summarize_default(), "loading...");
    assert_eq!(some_function(&1, &2), 0);
    assert_eq!(*Pair::new(3, 7).cmp_display(), 7);
    assert_eq!(*Pair::new(7, 7).cmp_display(), 7);
    assert_eq!(important("from ").part, "from");
    assert_eq!(longest_with_an_announcement("ab", "abc"), "abc");
    assert_eq!(longest_with_an_announcement("ab", "cd"), "cd");
    let x = String::from("long one");
    let y = String::from("short");
    assert_eq!(longest_word(&x, &y), "long one");
}

#[test]
fn staff_scans_and_sort() {
    let mut v = sample_staff();
    assert_eq!(v[scan_max(&v)].name, "Jack");
    assert_eq!(v[min_index(&v)].name, "Bob");
    assert_eq!(v[max_index(&v)].name, "Jack");
    sort_by_salary(&mut v);
    let names: Vec<&str> = v.iter().map(|e| e.name.as_str()).collect();
    assert_eq!(names, vec!["Bob", "Tom", "Hao", "Alice", "Mary", "Chen", "Jack"]);
}

#[test]
fn staff_ties() {
    let mut v = vec![
        Employee { name: String::from("a"), salary: 5 },
        Employee { name: String::from("b"), salary: 1 },
        Employee { name: String::from("c"), salary: 5 },
        Employee { name: String::from("d"), salary: 1 },
    ];
    assert_eq!(scan_max(&v), 0);
    assert_eq!(max_index(&v), 2);
    assert_eq!(min_index(&v), 1);
    assert!(v[0] == v[2]);
    assert!(v[1] < v[0]);
    sort_by_salary(&mut v);
    let names: Vec<&str> = v.iter().map(|e| e.name.as_str()).collect();
    assert_eq!(names, vec!["b", "d", "a", "c"]);
}

#[test]
fn catcher_remembers_first_result() {
    let mut c = Catcher::new(|x: u32| x + 1);
    assert_eq!(c.value(1), 2);
    assert_eq!(c.value(10), 2);
}

#[test]
fn workouts() {
    assert_eq!(generate_workout(10, 3), Workout::PushUpsThenSitUps(10));
    assert_eq!(generate_workout(25, 3), Workout::Break);
    assert_eq!(generate_workout(30, 1), Workout::Run(30));
    assert_eq!(add_one_v1(4), 5);
    assert_eq!(count(2, 3), 5);
}

#[test]
fn flow_sample_values() {
    let t = sample();
    assert_eq!(t.branch, "ok");
    assert_eq!(t.currents, vec![3, 4, 5, 6, 7, 8, 9, 10]);
    assert_eq!(t.nested, vec![(0, 10), (0, 9), (1, 10), (1, 9), (2, 10)]);
    assert_eq!(t.end_count, 2);
    assert_eq!(t.result, 20);
}

#[test]
fn console_restart_argument_is_raw_piece() {
    let arg = |line: &str| restart_argument(line).map(|a| a.into_iter().collect::<String>());
    assert_eq!(arg("restart +42\n"), Some(String::from("+42")));
    assert_eq!(arg("restart x"), Some(String::from("x")));
    assert_eq!(arg("restart 3\t"), Some(String::from("3")));
    assert_eq!(arg("restart"), None);
    assert_eq!(arg("restart  3"), None);
    assert_eq!(arg("start 3"), None);
}

#[test]
fn console_commands() {
    assert_eq!(parse_command("restart 3\n"), Command::Restart(3));
    assert_eq!(parse_command("  restart +42  "), Command::Restart(42));
    assert_eq!(parse_command("restart x"), Command::BadId);
    assert_eq!(parse_command("restart -1"), Command::BadId);
    assert_eq!(parse_command("restart 99999999999999999999999"), Command::BadId);
    assert_eq!(parse_command("restart"), Command::Unrecognized);
    assert_eq!(parse_command(""), Command::Unrecognized);
    assert_eq!(parse_command("restart  3"), Command::Unrecognized);
    assert_eq!(parse_command("start 3"), Command::Unrecognized);
    assert_eq!(parse_command("restart 3 4"), Command::Unrecognized);
    assert_eq!(parse_usize(&"+".chars().collect()), None);
    assert_eq!(parse_usize(&"007".chars().collect()), Some(7));
}

#[test]
fn collection_extends() {
    let c = test_my_collection();
    assert_eq!(format!("{:?}", c), "MyCollection([5, 6, 7, 1, 2, 3])");
    let mut d = MyCollection::new();
    d.extend(vec![4]);
    assert_eq!(d.0, vec![4]);
    assert_eq!(&basic_usage()[29..32], "abc");
}

#[test]
fn image_reply() {
    let p = Params { spec: String::from("s"), url: String::from("https%3A%2F%2Fa.b%2Fc%20d") };
    let (url, reply) = generate(&p, true);
    assert_eq!(url, "https://a.b/c d");
    assert_eq!(reply, Ok(String::from("ok")));
    let (_, bad) = generate(&p, false);
    assert_eq!(bad, Err(BAD_REQUEST));
}

#[test]
fn requests_and_matrix() {
    let r = HelloRequest::new();
    assert_eq!(r.name, "");
    assert!(r.extra.is_none());
    let h = _hello();
    assert_eq!(h.name, "hello");
    assert_eq!(h.message, "world");
    let m = Matrix::default();
    assert!(m.data.iter().all(|b| *b == 0));
}

#[test]
fn restart_with_any_displayed_id() {
    for n in [0usize, 7, 10, 4096, usize::MAX] {
        assert_eq!(parse_command(&format!("restart {}", n)), Command::Restart(n));
    }
}

#[test]
fn relay_steps() {
    assert_eq!(client_step(ClientEvent::ReadFailed), ClientAction::Stop(StopReason::ReadError));
    assert_eq!(client_step(ClientEvent::Read(0)), ClientAction::Stop(StopReason::Disconnected));
    assert_eq!(client_step(ClientEvent::Read(12)), ClientAction::Relay(12));
    assert_eq!(client_step(ClientEvent::Locked), ClientAction::Broadcast);
    assert_eq!(client_step(ClientEvent::LockPoisoned), ClientAction::Stop(StopReason::LockError));
    assert_eq!(client_step(ClientEvent::Written), ClientAction::Continue);
    assert_eq!(client_step(ClientEvent::WriteFailed), ClientAction::WarnWrite);
    assert_eq!(StopReason::ReadError.message(), "Error reading from stream");
    assert_eq!(StopReason::Disconnected.message(), "Client disconnected, failed to read data");
    assert_eq!(StopReason::LockError.message(), "Error acquiring lock on clients");
    assert_eq!(write_warning(), "Error writing to stream");
}

#[test]
fn open_failures_recover() {
    assert_eq!(recover_open(OpenFailure::NotFound), OpenRecovery::Create);
    assert_eq!(recover_open(OpenFailure::Other), OpenRecovery::Fail);
}

#[test]
fn vector_visit() {
    let r = little_rust::demo::use_vec_();
    assert_eq!(r.third, 3);
    assert_eq!(r.got, Some(3));
    assert_eq!(r.after, vec![1, 2, 3, 4, 5, 6]);
}

#[test]
fn destructured_color_change() {
    match little_rust::pattern::color_change() {
        little_rust::pattern::Message::ChangeColor(r, g, b) => assert_eq!((r, g, b), (0, 160, 255)),
        other => panic!("unexpected message {:?}", other),
    }
}
