use cismute::{mutable, owned, reference, switch};
use std::cell::Cell;
use std::rc::Rc;

struct Counted {
    drops: Rc<Cell<u32>>,
}

impl Drop for Counted {
    fn drop(&mut self) {
        self.drops.set(self.drops.get() + 1);
    }
}

struct Other;

fn counted() -> (Counted, Rc<Cell<u32>>) {
    let drops = Rc::new(Cell::new(0));
    (Counted { drops: drops.clone() }, drops)
}

#[test]
fn a_reinterpreted_value_is_dropped_once() {
    let (val, drops) = counted();
    let out = owned::<Counted, Counted>(val);
    assert_eq!(drops.get(), 0);
    assert!(out.is_ok());
    drop(out);
    assert_eq!(drops.get(), 1);
}

#[test]
fn a_value_given_back_is_dropped_once() {
    let (val, drops) = counted();
    let back = owned::<Counted, Other>(val);
    assert_eq!(drops.get(), 0);
    assert!(back.is_err());
    drop(back);
    assert_eq!(drops.get(), 1);
}

#[test]
fn references_drop_nothing() {
    let (mut val, drops) = counted();
    assert!(reference::<Counted, Counted>(&val).is_ok());
    assert!(reference::<Counted, Other>(&val).is_err());
    assert!(mutable::<Counted, Counted>(&mut val).is_ok());
    assert!(mutable::<Counted, Other>(&mut val).is_err());
    assert_eq!(drops.get(), 0);
    drop(val);
    assert_eq!(drops.get(), 1);
}

#[test]
fn a_dispatched_value_is_dropped_once() {
    let (val, drops) = counted();
    let seen = switch(val, (|_: Other| 0, (|c: Counted| c.drops.get(), ())));
    assert_eq!(seen.ok(), Some(0));
    assert_eq!(drops.get(), 1);

    let (val, drops) = counted();
    let back: Result<i32, Counted> = switch(val, (|_: Other| 0, (|_: i32| 1, ())));
    assert_eq!(drops.get(), 0);
    assert!(back.is_err());
    drop(back);
    assert_eq!(drops.get(), 1);
}
