use bachelor::error::{Closed, TrySendError};

#[test]
fn rejected_item_comes_back() {
    assert_eq!(TrySendError::Full("a").into_inner(), "a");
    assert_eq!(TrySendError::Closed("b").into_inner(), "b");
}

#[test]
fn errors_say_what_happened() {
    assert_eq!(Closed.message(), "closed");
    assert_eq!(TrySendError::Full(1).message(), "full");
    assert_eq!(TrySendError::Closed(1).message(), "closed");
}
