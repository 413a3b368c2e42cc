use widerror::codes::{Kind, PassThroughMode, RetryMode, Scope};
use widerror::decode::DecodeError;
use widerror::record::{Message, WidError};

#[test]
fn max_digits() {
    println!("u8::MAX {}", u8::MAX);
    println!("u16::MAX {}", u16::MAX);
    println!("u32::MAX {}", u32::MAX);
    println!("i32::MAX {}", i32::MAX);
    println!("i16::MAX {}", i16::MAX);
}

#[test]
fn new_fills_defaults() {
    let e = WidError::new(123450001, Message::Default(String::from("x")));
    assert_eq!(e.kind, Kind::Okay);
    assert_eq!(e.scope, Scope::Internal);
    assert_eq!(e.retry_mode, RetryMode::Unknown);
    assert_eq!(e.pass_through_mode, PassThroughMode::Auto);
    assert_eq!(e.level, 0);
    assert_eq!(e.mapping_code, 0);
    assert_eq!(e.name, String::new());
    assert_eq!(e.namespace, 0);
    assert!(e.source().is_none());
}

#[test]
fn discriminants_are_stable() {
    assert_eq!(Kind::NotFound.code(), 5);
    assert_eq!(Kind::Unauthenticated.code(), 16);
    assert_eq!(Kind::ResourceExhausted.code(), 8);
    assert_eq!(Kind::DataLoss.code(), 15);
    assert_eq!(Kind::Okay.code(), 0);
    assert_eq!(Scope::Serverside.code(), 2);
    assert_eq!(RetryMode::Denied.code(), 2);
    assert_eq!(PassThroughMode::Should.code(), 1);

    let mut e = WidError::default();
    e.kind = Kind::NotFound;
    assert!(e.to_json().contains("\"kind\":5"));
    e.kind = Kind::Unauthenticated;
    assert!(e.to_json().contains("\"kind\":16"));
}

#[test]
fn from_code_covers_exactly_the_closed_sets() {
    for x in 0..=16i64 {
        let k = Kind::from_code(x).unwrap();
        assert_eq!(k.code() as i64, x);
    }
    assert_eq!(Kind::from_code(17), None);
    assert_eq!(Kind::from_code(-1), None);
    assert_eq!(Scope::from_code(3), None);
    assert_eq!(RetryMode::from_code(99), None);
    assert_eq!(PassThroughMode::from_code(3), None);
}

#[test]
fn render_default_record() {
    let e = WidError::default();
    assert_eq!(
        e.render(),
        "code=0, name=, namespace=0, scope=0, kind=0, level=0, message=Default(\"\"), \
         retry_mode=0, pass_through_mode=0, mapping_code=0, source_error=()"
    );
}

#[test]
fn json_default_record() {
    let e = WidError::default();
    assert_eq!(
        e.to_json(),
        "{\"message\":{\"Default\":\"\"},\"code\":0,\"name\":\"\",\"namespace\":0,\"kind\":0,\
         \"scope\":0,\"level\":0,\"retry_mode\":0,\"pass_through_mode\":0,\"mapping_code\":0,\
         \"source_error\":null}"
    );
}

#[test]
fn concrete_scenario_render_and_round_trip() {
    let err = WidError::new(123456789, Message::Default(String::from("this is message")))
        .set_source(WidError::default());
    let rendered = err.render();
    assert!(rendered.starts_with(
        "code=123456789, name=, namespace=0, scope=0, kind=0, level=0, message="
    ));
    assert_eq!(
        rendered,
        "code=123456789, name=, namespace=0, scope=0, kind=0, level=0, \
         message=Default(\"this is message\"), retry_mode=0, pass_through_mode=0, \
         mapping_code=0, source_error=(code=0, name=, namespace=0, scope=0, kind=0, level=0, \
         message=Default(\"\"), retry_mode=0, pass_through_mode=0, mapping_code=0, \
         source_error=())"
    );
    let back = WidError::from_json(&err.to_json()).unwrap();
    assert_eq!(back, err);
}

#[test]
fn round_trip_all_fields() {
    let mut inner = WidError::new(100010001, Message::I18n(String::from("errors.db.lost")));
    inner.name = String::from("DB_LOST");
    inner.namespace = 10001;
    inner.kind = Kind::DataLoss;
    inner.scope = Scope::Serverside;
    inner.level = 255;
    inner.retry_mode = RetryMode::Denied;
    inner.pass_through_mode = PassThroughMode::Never;
    inner.mapping_code = -42;

    let mut middle = WidError::new(
        999999999,
        Message::Default(String::from("weird \"text\"\\with\nescapes\tinside")),
    );
    middle.kind = Kind::Unavailable;
    middle.mapping_code = i64::MIN;
    let middle = middle.set_source(inner);

    let mut outer = WidError::new(123456789, Message::Default(String::from("request failed")));
    outer.name = String::from("REQ_FAILED");
    outer.namespace = 12345;
    outer.kind = Kind::NotFound;
    outer.scope = Scope::Clientside;
    outer.level = 3;
    outer.retry_mode = RetryMode::Allowed;
    outer.pass_through_mode = PassThroughMode::Should;
    outer.mapping_code = i64::MAX;
    let outer = outer.set_source(middle);

    let json = outer.to_json();
    let back = WidError::from_json(&json).unwrap();
    assert_eq!(back, outer);
    assert_eq!(back.to_json(), json);
}

#[test]
fn unknown_scope_discriminant_is_rejected() {
    let good = WidError::default().to_json();
    let bad = good.replace("\"scope\":0", "\"scope\":99");
    assert_eq!(WidError::from_json(&bad), Err(DecodeError::UnknownEnumDiscriminant));
    let bad_kind = good.replace("\"kind\":0", "\"kind\":17");
    assert_eq!(WidError::from_json(&bad_kind), Err(DecodeError::UnknownEnumDiscriminant));
}

#[test]
fn malformed_records_are_rejected() {
    assert_eq!(WidError::from_json(""), Err(DecodeError::MalformedRecord));
    assert_eq!(WidError::from_json("null"), Err(DecodeError::MalformedRecord));
    let good = WidError::default().to_json();
    let mut truncated = good.clone();
    truncated.pop();
    assert_eq!(WidError::from_json(&truncated), Err(DecodeError::MalformedRecord));
    let trailing = format!("{} ", good);
    assert_eq!(WidError::from_json(&trailing), Err(DecodeError::MalformedRecord));
    let leading_zero = good.replace("\"code\":0", "\"code\":00");
    assert_eq!(WidError::from_json(&leading_zero), Err(DecodeError::MalformedRecord));
    let negative_kind = good.replace("\"kind\":0", "\"kind\":-1");
    assert_eq!(WidError::from_json(&negative_kind), Err(DecodeError::MalformedRecord));
}

#[test]
fn cause_chain_depth_three() {
    let root = WidError::new(100010003, Message::Default(String::from("root")));
    let mid = WidError::new(100010002, Message::Default(String::from("mid"))).set_source(root);
    let top = WidError::new(100010001, Message::Default(String::from("top"))).set_source(mid);
    let outer = WidError::new(100010000, Message::Default(String::from("outer"))).set_source(top);

    let rendered = outer.render();
    assert_eq!(rendered.matches("source_error=(").count(), 4);

    let mut steps = 0;
    let mut cur = &outer;
    while let Some(next) = cur.source() {
        steps += 1;
        cur = next;
    }
    assert_eq!(steps, 3);

    let back = WidError::from_json(&outer.to_json()).unwrap();
    assert_eq!(back, outer);
}

#[test]
fn json_output_is_plain_json() {
    let mut e = WidError::new(123456789, Message::Default(String::from("boom")));
    e.kind = Kind::NotFound;
    let e = e.set_source(WidError::default());
    let value: serde_json::Value = serde_json::from_str(&e.to_json()).unwrap();
    assert_eq!(value["kind"], serde_json::Value::from(5));
    assert_eq!(value["code"], serde_json::Value::from(123456789));
    assert_eq!(value["message"]["Default"], serde_json::Value::from("boom"));
    assert_eq!(value["source_error"]["source_error"], serde_json::Value::Null);
}
