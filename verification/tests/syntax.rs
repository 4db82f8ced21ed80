use cismute::{value_with, Pair};
use std::fmt::Debug;

fn tell<T: Debug + 'static>(val: T) -> String {
    let told: Result<String, T> = loop {
        let val = match value_with(Pair::<(T, i32)>, val) {
            Ok(x) => break Ok(format!("got an i32: {x}")),
            Err(val) => val,
        };
        let val = match value_with(Pair::<(T, char)>, val) {
            Ok(x) => break Ok(format!("got a char: {x}")),
            Err(val) => val,
        };
        break Err(val);
    };
    told.unwrap_or_else(|x| format!("got something else: {x:?}"))
}

fn tell_mut<T: Debug + 'static>(val: &mut T) -> String {
    let told: Result<String, &mut T> = loop {
        let val = match value_with(Pair::<(T, i32)>, val) {
            Ok(x) => break Ok(format!("got an i32: {x}")),
            Err(val) => val,
        };
        let val = match value_with(Pair::<(T, char)>, val) {
            Ok(x) => break Ok(format!("got a char: {x}")),
            Err(val) => val,
        };
        break Err(val);
    };
    told.unwrap_or_else(|x| format!("got something else: {x:?}"))
}

#[test]
fn a_chain_of_tries_by_value() {
    assert_eq!(tell(42_i32), "got an i32: 42");
    assert_eq!(tell('!'), "got a char: !");
    assert_eq!(tell([1, 2]), "got something else: [1, 2]");
}

#[test]
fn a_chain_of_tries_by_mutable_reference() {
    assert_eq!(tell_mut(&mut 42_i32), "got an i32: 42");
    assert_eq!(tell_mut(&mut '!'), "got a char: !");
    assert_eq!(tell_mut(&mut [1, 2]), "got something else: [1, 2]");
}
