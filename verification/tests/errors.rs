use radioware::errors::Error;

#[test]
fn messages_of_each_error() {
    assert_eq!(Error::Configuration("missing field".to_string()).message(), "Configuration error: missing field");
    assert_eq!(Error::IO("address in use".to_string()).message(), "IO error: address in use");
    assert_eq!(Error::Channel("receiving on a closed channel".to_string()).message(), "Channel error: receiving on a closed channel");
    assert_eq!(Error::Codec("bad".to_string()).message(), "Codec error: bad");
    assert_eq!(Error::System.message(), "System error");
}

#[test]
fn message_with_empty_cause() {
    assert_eq!(Error::IO(String::new()).message(), "IO error: ");
}
