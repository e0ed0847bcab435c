use cch23::greeting::{error, hello_world, ServerError};

#[test]
fn day_negative_one_test_hello_world() {
    assert_eq!(hello_world(), "Hello, world!");
}

#[test]
fn main_test_hello_world() {
    assert_eq!(hello_world(), "Hello, world!");
}

#[test]
fn error_is_always_a_server_error() {
    for _ in 0..3 {
        assert!(matches!(error(), Err(ServerError::Internal)));
    }
}
