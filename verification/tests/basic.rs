use std::string::String;

use widerror::codes::Kind;
use widerror::record::{Message, WidError};

#[test]
fn basic() {
    let err = WidError::new(123456789, Message::Default(String::from("this is message")))
        .set_source(WidError::default());
    println!("default widerror: {}", err.render());
    println!("{}", err.to_json());
    assert_eq!(err.code, 123456789);
    assert_eq!(err.kind, Kind::Okay);
}
