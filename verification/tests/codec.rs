use liquid_handler::message::message_from_data;
use liquid_handler::message::parse_to_message;
use liquid_handler::message::serialize_message;
use liquid_handler::message::Message;

#[test]
fn parse_valid_wait_frame() {
    let crc = crc32fast::hash("W_150".as_bytes());
    let line = format!("4,W_150,{:x}", crc);
    let m = parse_to_message(line).expect("a well-formed frame must parse");
    assert_eq!(m.channel, 4);
    assert_eq!(m.data, "W_150");
    assert_eq!(m.crc, crc);
}

#[test]
fn parse_accepts_uppercase_crc() {
    let crc = crc32fast::hash("W_150".as_bytes());
    let line = format!("4,W_150,{:X}", crc);
    let m = parse_to_message(line).expect("uppercase checksum must parse");
    assert_eq!(m.crc, crc);
}

#[test]
fn reject_bad_crc() {
    assert!(parse_to_message("4,W_150,00000000".to_string()).is_none());
}

#[test]
fn reject_wrong_field_count() {
    assert!(parse_to_message("4,W_150".to_string()).is_none());
    let crc = crc32fast::hash("W_150".as_bytes());
    assert!(parse_to_message(format!("4,W_150,{:x},extra", crc)).is_none());
    assert!(parse_to_message(String::new()).is_none());
}

#[test]
fn reject_bad_channel() {
    let crc = crc32fast::hash("W_150".as_bytes());
    assert!(parse_to_message(format!("abc,W_150,{:x}", crc)).is_none());
    assert!(parse_to_message(format!("300,W_150,{:x}", crc)).is_none());
    assert!(parse_to_message(format!(",W_150,{:x}", crc)).is_none());
}

#[test]
fn reject_bad_checksum_text() {
    assert!(parse_to_message("4,W_150,zz".to_string()).is_none());
    assert!(parse_to_message("4,W_150,".to_string()).is_none());
    assert!(parse_to_message("4,W_150,123456789".to_string()).is_none());
}

#[test]
fn parse_keeps_negative_channel() {
    let crc = crc32fast::hash("W_1".as_bytes());
    let m = parse_to_message(format!("-3,W_1,{:x}", crc)).expect("negative channel must parse");
    assert_eq!(m.channel, -3);
}

#[test]
fn serialize_then_parse_round_trip() {
    let m = message_from_data(4, "LA_7_x_100 W_20".to_string());
    let line = serialize_message(&m);
    let p = parse_to_message(line).expect("a serialized message must parse back");
    assert_eq!(p.channel, m.channel);
    assert_eq!(p.data, m.data);
    assert_eq!(p.crc, m.crc);
}

#[test]
fn serialize_then_parse_round_trip_negative_channel() {
    let m = message_from_data(-128, "TC_1".to_string());
    let line = serialize_message(&m);
    let p = parse_to_message(line).expect("a serialized message must parse back");
    assert_eq!(p.channel, -128);
    assert_eq!(p.data, "TC_1");
    assert_eq!(p.crc, m.crc);
}

#[test]
fn message_from_data_computes_the_checksum() {
    let m = message_from_data(4, "W_150".to_string());
    assert_eq!(m.crc, crc32fast::hash("W_150".as_bytes()));
    let whole: Message = m;
    assert_eq!(whole.channel, 4);
}

#[test]
fn serialize_writes_lowercase_hex_without_padding() {
    let m = Message { channel: 4, data: "d".to_string(), crc: 0xAB };
    let line = serialize_message(&m);
    assert_eq!(line, "4,d,ab");
}
