use batched::error::SharedError;
use std::io;

fn fails() -> Result<(), io::Error> {
    Err(io::Error::other("1234"))
}

#[test]
fn error_type_works() {
    fn _error() -> Result<(), SharedError<io::Error>> {
        fails()?;
        Ok(())
    }
    let error = _error().unwrap_err();
    assert_eq!(error.to_string(), "1234");
}

#[test]
fn auto_into_error_type_works() {
    // the body fails with the error inside, and the wrapping comes after it
    fn _inner(_v: Vec<bool>) -> Result<(), Box<dyn std::error::Error>> {
        fails()?;
        Ok(())
    }
    fn _error(v: Vec<bool>) -> Result<(), SharedError<Box<dyn std::error::Error>>> {
        let result = _inner(v);
        let result = result.map_err(|e: Box<dyn std::error::Error>| e.into());
        result
    }
    let error = _error(vec![]).unwrap_err();
    assert_eq!(error.inner().to_string(), "1234");
}

#[test]
fn holds_what_it_was_given() {
    let error = SharedError::new(7u32);
    assert_eq!(*error.inner(), 7);
    assert_eq!(*error, 7);
    let from: SharedError<u32> = 8.into();
    assert_eq!(*from.inner(), 8);
}

#[test]
fn copies_hold_the_same_error() {
    let error = SharedError::new(String::from("1234"));
    let copy = error.clone();
    assert!(std::ptr::eq(error.inner(), copy.inner()));
    assert_eq!(copy.inner(), "1234");
    assert!(error == copy);
    assert!(error != SharedError::new(String::from("4321")));
    assert!(error == SharedError::new(String::from("1234")));
}

#[test]
fn takes_only_the_last_copy() {
    let error = SharedError::new(String::from("1234"));
    let copy = error.clone();
    let error = match error.take() {
        Ok(_) => panic!("taken while a copy is alive"),
        Err(same) => same,
    };
    assert_eq!(error.inner(), "1234");
    drop(copy);
    match error.take() {
        Ok(inner) => assert_eq!(inner, "1234"),
        Err(_) => panic!("not taken though it is the last copy"),
    }
}

#[test]
fn displays_as_the_error_inside() {
    let error = SharedError::new(io::Error::other("1234"));
    assert_eq!(error.to_string(), "1234");
    assert_eq!(error.clone().to_string(), io::Error::other("1234").to_string());
}
