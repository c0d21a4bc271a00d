use std::rc::Rc;

use unrest::{Container, Handle, State, TypeKey};

#[test]
fn set_get() {
    let mut c = Container::new();
    let yo = "yo";

    assert_eq!(c.set(yo), true);
    assert_eq!(c.set(yo), false);

    assert_eq!(*c.get::<&'static str>().unwrap(), "yo");
}

#[test]
fn empty_container_holds_nothing() {
    let c = Container::new();
    assert_eq!(c.len(), 0);
    assert!(c.get::<u32>().is_none());
    assert!(!c.contains::<u32>());
}

#[test]
fn second_value_of_a_type_is_refused_and_the_first_stays() {
    let mut c = Container::new();
    assert!(c.set(1u32));
    assert!(!c.set(2u32));
    assert_eq!(*c.get::<u32>().unwrap(), 1);
    assert_eq!(c.len(), 1);
}

#[test]
fn values_are_found_by_their_type() {
    let mut c = Container::new();
    assert!(c.set(7u32));
    assert!(c.set(8u64));
    assert!(c.set(String::from("nine")));
    assert_eq!(*c.get::<u32>().unwrap(), 7);
    assert_eq!(*c.get::<u64>().unwrap(), 8);
    assert_eq!(*c.get::<String>().unwrap(), "nine");
    assert!(c.get::<i32>().is_none());
    assert!(c.contains::<u64>());
    assert!(!c.contains::<i64>());
    assert_eq!(c.len(), 3);
}

#[test]
fn a_clone_shares_the_values() {
    let mut c = Container::new();
    c.set(vec![1u8, 2, 3]);
    let d = c.clone();
    let a = c.get::<Vec<u8>>().unwrap();
    let b = d.get::<Vec<u8>>().unwrap();
    assert_eq!(*a, vec![1u8, 2, 3]);
    assert!(std::ptr::eq(&*a as &Vec<u8>, &*b as &Vec<u8>));
}

#[test]
fn a_state_handle_can_be_cloned() {
    let s = State::wrap(Rc::new(41u8));
    let t = s.clone();
    assert_eq!(*s, 41);
    assert_eq!(*t, 41);
    assert!(std::ptr::eq(&*s as &u8, &*t as &u8));
}

#[test]
fn type_keys_tell_types_apart() {
    let a = TypeKey::of::<u32>();
    let b = TypeKey::of::<u32>();
    let c = TypeKey::of::<i32>();
    assert!(a.same(&b));
    assert!(!a.same(&c));
    assert!(!c.same(&a));
}

#[test]
fn a_handle_gives_its_value_back_only_as_its_own_type() {
    let h = Handle::new(String::from("shared"));
    assert_eq!(*h.typed::<String>().unwrap(), "shared");
    assert!(h.typed::<u32>().is_none());
    let again = h.clone();
    let first = h.typed::<String>().unwrap();
    let second = again.typed::<String>().unwrap();
    assert_eq!(*second, "shared");
    assert!(std::ptr::eq(&*first as &String, &*second as &String));
    assert!(again.typed::<&'static str>().is_none());
}

#[test]
fn lookup_by_key_finds_what_set_registered() {
    let mut c = Container::new();
    c.set(5i64);
    let key = TypeKey::of::<i64>();
    assert!(c.contains_key(&key));
    let handle = c.lookup(&key).unwrap();
    assert_eq!(*handle.typed::<i64>().unwrap(), 5);
    assert!(c.lookup(&TypeKey::of::<u8>()).is_none());
}
