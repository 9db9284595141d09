use panama::boks::Boks;
use panama::cell::Cell;
use panama::grouping::group_by;
use panama::locking::Mutex;
use panama::rc::Rc;
use panama::strtok::strtok;
use panama::text::{bar, say_hei, strlen, strlen2, strlen_dyn, strlen_dyn2, strlen_refstr,
    strlen_string, strlenb, Hei};

#[test]
fn lib_it_works() {
    let mut x = "hello world";
    let _z = &mut x;
    let hello = strtok(&mut x, ' ');
    assert_eq!(hello, "hello");
    assert_eq!(x, "world");
}

#[test]
fn it_works2() {
    let mut x = "hello world";
    strtok(&mut x, ' ');
    assert_eq!(x, "world");
}

#[test]
fn main_it_works() {
    assert_eq!(2 + 2, 4);
}

#[test]
fn strtok_without_delimiter_takes_everything() {
    let mut x = "hello";
    let all = strtok(&mut x, 'x');
    assert_eq!(all, "hello");
    assert_eq!(x, "");
}

#[test]
fn strtok_handles_multibyte_characters() {
    let mut x = "héllo wörld";
    let first = strtok(&mut x, ' ');
    assert_eq!(first, "héllo");
    assert_eq!(x, "wörld");
}

#[test]
fn strlen_variants_agree() {
    assert_eq!(strlen("hello world"), 11);
    assert_eq!(strlenb(String::from("hei verden")), 10);
    assert_eq!(strlen2("abc"), 3);
    assert_eq!(strlen_refstr(""), 0);
    assert_eq!(strlen_string(String::from("hola")), 4);
    assert_eq!(strlen_dyn(Box::new("hello")), 5);
    assert_eq!(strlen_dyn2(&"hello"), 5);
}

#[test]
fn strlen_counts_bytes_not_characters() {
    assert_eq!(strlen_refstr("héllo"), 6);
    assert_eq!(strlen("é"), 2);
    assert_eq!(strlen_string(String::from("dæhlie")), 7);
}

#[test]
fn greetings_are_prefixed() {
    assert_eq!(say_hei(&"J"), "hei J");
    assert_eq!(String::from("GG").hei(), "hei GG");
    let names = vec![String::from("J"), String::from("GG")];
    assert_eq!(bar(&names), vec![String::from("hei J"), String::from("hei GG")]);
}

#[test]
fn group_by_cuts_runs_of_equal_keys() {
    let items: Vec<u64> = vec![1, 1, 2, 2, 2, 1];
    let groups = group_by(items, |v: &u64| *v);
    assert_eq!(groups, vec![vec![1, 1], vec![2, 2, 2], vec![1]]);
}

#[test]
fn group_by_on_empty_input_gives_no_groups() {
    let items: Vec<u64> = vec![];
    let groups = group_by(items, |v: &u64| *v);
    assert_eq!(groups, Vec::<Vec<u64>>::new());
}

#[test]
fn group_by_with_constant_key_gives_one_group() {
    let items: Vec<u64> = vec![3, 1, 4];
    let groups = group_by(items, |_v: &u64| 0);
    assert_eq!(groups, vec![vec![3, 1, 4]]);
}

#[test]
fn cell_stores_and_updates() {
    let mut c = Cell::new(5u64);
    assert_eq!(c.get(), 5);
    c.set(9);
    assert_eq!(c.get(), 9);
}

#[test]
fn rc_handles_read_the_same_value() {
    let a = Rc::new(String::from("shared"));
    let b = a.clone();
    assert_eq!(a.get(), "shared");
    assert_eq!(b.get(), "shared");
}

#[test]
fn boks_round_trips_its_value() {
    let b = Boks::ny(42u64);
    assert_eq!(*b.get(), 42);
    assert_eq!(b.into_inner(), 42);
}

#[test]
fn boks_gives_mutable_access() {
    let mut b = Boks::ny(40u64);
    *b.get_mut() += 2;
    assert_eq!(b.into_inner(), 42);
}

#[test]
fn mutex_guards_a_value() {
    let mut m = Mutex::new(0u64);
    *m.lock() += 41;
    *m.lock() += 1;
    assert_eq!(m.into_inner(), 42);
}
