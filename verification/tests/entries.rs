use cismute::{mutable, owned, reference, value, value_with, Pair};

#[derive(Debug, PartialEq)]
struct Left;

#[derive(Debug, PartialEq)]
struct Right;

fn describe<T: 'static>(x: T) -> String {
    match owned::<T, i32>(x) {
        Ok(n) => format!("got an i32: {n}"),
        Err(_) => format!("got something else"),
    }
}

fn describe_ref<T: 'static>(x: &T) -> String {
    match reference::<T, i32>(x) {
        Ok(n) => format!("got an i32: {n}"),
        Err(_) => format!("got something else"),
    }
}

fn describe_with<T: 'static>(x: &T) -> String {
    match value_with(Pair::<(T, i32)>, x) {
        Ok(n) => format!("got an i32: {n}"),
        Err(_) => format!("got something else"),
    }
}

fn bump<T: 'static>(x: &mut T) -> bool {
    match mutable::<T, i32>(x) {
        Ok(n) => {
            *n += 1;
            true
        }
        Err(_) => false,
    }
}

#[test]
fn owned_gives_the_value_when_the_types_agree() {
    assert_eq!(owned::<i32, i32>(42), Ok(42));
    assert_eq!(owned::<String, String>(String::from("kept")), Ok(String::from("kept")));
    assert_eq!(owned::<Vec<u8>, Vec<u8>>(vec![1, 2, 3]), Ok(vec![1, 2, 3]));
}

#[test]
fn owned_gives_the_value_back_when_they_differ() {
    assert_eq!(owned::<i32, u32>(42), Err(42));
    assert_eq!(owned::<String, &'static str>(String::from("kept")), Err(String::from("kept")));
    assert_eq!(owned::<[i32; 2], i32>([1, 2]), Err([1, 2]));
}

#[test]
fn owned_in_generic_code() {
    assert_eq!(describe(42_i32), "got an i32: 42");
    assert_eq!(describe(":)"), "got something else");
    assert_eq!(describe(42_i64), "got something else");
}

#[test]
fn owned_tells_unit_types_apart() {
    assert_eq!(owned::<Left, Left>(Left), Ok(Left));
    assert_eq!(owned::<Left, Right>(Left), Err(Left));
    assert_eq!(owned::<(), Left>(()), Err(()));
    assert_eq!(owned::<(), ()>(()), Ok(()));
}

#[test]
fn owned_tells_a_type_from_what_wraps_it() {
    assert_eq!(owned::<i32, Option<i32>>(1), Err(1));
    assert_eq!(owned::<Option<i32>, i32>(Some(1)), Err(Some(1)));
    assert_eq!(owned::<Box<i32>, i32>(Box::new(1)), Err(Box::new(1)));
    assert_eq!(owned::<&'static i32, i32>(&1), Err(&1));
    assert_eq!(owned::<Option<i32>, Option<i32>>(None), Ok(None));
    assert_eq!(owned::<Option<i32>, Option<u32>>(None), Err(None));
}

#[test]
fn reference_gives_the_same_referent_when_the_types_agree() {
    let x = 42_i32;
    let out = reference::<i32, i32>(&x).unwrap();
    assert_eq!(*out, 42);
    assert!(std::ptr::eq(out, &x));
}

#[test]
fn reference_gives_the_same_reference_back_when_they_differ() {
    let x = 42_i32;
    let back = reference::<i32, char>(&x).unwrap_err();
    assert_eq!(*back, 42);
    assert!(std::ptr::eq(back, &x));
}

#[test]
fn reference_in_generic_code() {
    assert_eq!(describe_ref(&42_i32), "got an i32: 42");
    assert_eq!(describe_ref(&":)"), "got something else");
}

#[test]
fn mutable_writes_to_the_referent_when_the_types_agree() {
    let mut x = 42_i32;
    let out = mutable::<i32, i32>(&mut x).unwrap();
    assert_eq!(*out, 42);
    *out = 7;
    assert_eq!(x, 7);
}

#[test]
fn mutable_gives_the_same_reference_back_when_they_differ() {
    let mut x = 42_i32;
    let back = mutable::<i32, char>(&mut x).unwrap_err();
    assert_eq!(*back, 42);
    *back = 7;
    assert_eq!(x, 7);
}

#[test]
fn mutable_in_generic_code() {
    let mut n = 1_i32;
    assert!(bump(&mut n));
    assert_eq!(n, 2);
    let mut s = String::from("as it was");
    assert!(!bump(&mut s));
    assert_eq!(s, "as it was");
}

#[test]
fn value_keeps_the_shape_of_the_carrier() {
    let by_value: Result<i32, i32> = value::<i32, i32, _, _>(5);
    assert_eq!(by_value, Ok(5));

    let x = 5_i32;
    let by_ref: Result<&i32, &i32> = value::<i32, i32, _, _>(&x);
    assert!(std::ptr::eq(by_ref.unwrap(), &x));

    let mut y = 5_i32;
    let by_mut: Result<&mut i32, &mut i32> = value::<i32, i32, _, _>(&mut y);
    *by_mut.unwrap() = 6;
    assert_eq!(y, 6);
}

#[test]
fn value_gives_the_carrier_back_on_a_mismatch() {
    let by_value: Result<char, i32> = value::<i32, char, _, _>(5);
    assert_eq!(by_value, Err(5));

    let x = 5_i32;
    let by_ref: Result<&char, &i32> = value::<i32, char, _, _>(&x);
    assert!(std::ptr::eq(by_ref.unwrap_err(), &x));

    let mut y = 5_i32;
    let by_mut: Result<&mut char, &mut i32> = value::<i32, char, _, _>(&mut y);
    *by_mut.unwrap_err() = 6;
    assert_eq!(y, 6);
}

#[test]
fn value_with_takes_the_types_from_the_marker() {
    assert_eq!(describe_with(&42_i32), "got an i32: 42");
    assert_eq!(describe_with(&":)"), "got something else");
    assert_eq!(value_with(Pair::<(u8, u8)>, 3_u8), Ok(3_u8));
    assert_eq!(value_with::<u8, i8, _, u8, i8>(Pair::<(u8, i8)>, 3_u8), Err(3_u8));
}

#[test]
fn there_and_back_again() {
    let once: String = owned::<String, String>(String::from("round")).unwrap();
    let twice: String = owned::<String, String>(once).unwrap();
    assert_eq!(twice, "round");
}
