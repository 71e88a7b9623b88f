use liquid_handler::devices::interpret_router_reply;
use liquid_handler::devices::pump_status_idle;
use liquid_handler::devices::split_completed_line;
use liquid_handler::numbers::i8_to_dec;
use liquid_handler::numbers::parse_hex_u32;
use liquid_handler::numbers::parse_i8;
use liquid_handler::numbers::parse_u64;
use liquid_handler::numbers::u32_to_hex;
use liquid_handler::numbers::u64_to_dec;
use liquid_handler::text::escape_chars;

#[test]
fn router_acknowledgement_continues() {
    assert!(interpret_router_reply("G1X10Y20Z-5\r\n", "G1:OK").is_ok());
}

#[test]
fn router_rejection_names_the_command() {
    let err = interpret_router_reply("G1X10Y20Z-5\r\n", "ERR")
        .expect_err("a reply other than the acknowledgement must abort");
    assert_eq!(err, "Router - error executing command: [G1X10Y20Z-5\r\n]");
}

#[test]
fn pump_idle_status() {
    assert!(pump_status_idle("A/0cB"));
    assert!(pump_status_idle("//0c\u{3}"));
    assert!(!pump_status_idle("A/0bB"));
    assert!(!pump_status_idle("/0c"));
    assert!(!pump_status_idle(""));
    assert!(!pump_status_idle("x"));
}

#[test]
fn completed_lines_are_split_off() {
    assert_eq!(split_completed_line("G1:OK\r\n", "\r\n"), Some("G1:OK".to_string()));
    assert_eq!(split_completed_line("\r\n", "\r\n"), Some(String::new()));
    assert_eq!(split_completed_line("G1:OK", "\r\n"), None);
    assert_eq!(split_completed_line("G1:OK\r\nx", "\r\n"), None);
    assert_eq!(split_completed_line("", "\r\n"), None);
}

#[test]
fn escaping_makes_control_characters_visible() {
    assert_eq!(escape_chars("a\r\nb"), "a\\r\\nb");
    assert_eq!(escape_chars("plain"), "plain");
    assert_eq!(escape_chars(""), "");
}

#[test]
fn decimal_rendering() {
    assert_eq!(u64_to_dec(0), "0");
    assert_eq!(u64_to_dec(2400), "2400");
    assert_eq!(u64_to_dec(u64::MAX), "18446744073709551615");
    assert_eq!(i8_to_dec(-5), "-5");
    assert_eq!(i8_to_dec(-128), "-128");
    assert_eq!(i8_to_dec(127), "127");
}

#[test]
fn hexadecimal_rendering() {
    assert_eq!(u32_to_hex(0), "0");
    assert_eq!(u32_to_hex(0xab), "ab");
    assert_eq!(u32_to_hex(u32::MAX), "ffffffff");
}

#[test]
fn unsigned_decimal_parsing() {
    assert_eq!(parse_u64("150"), Some(150));
    assert_eq!(parse_u64("+5"), Some(5));
    assert_eq!(parse_u64("18446744073709551615"), Some(u64::MAX));
    assert_eq!(parse_u64("18446744073709551616"), None);
    assert_eq!(parse_u64(""), None);
    assert_eq!(parse_u64("+"), None);
    assert_eq!(parse_u64("-1"), None);
    assert_eq!(parse_u64("1a"), None);
}

#[test]
fn signed_channel_parsing() {
    assert_eq!(parse_i8("4"), Some(4));
    assert_eq!(parse_i8("-128"), Some(-128));
    assert_eq!(parse_i8("+127"), Some(127));
    assert_eq!(parse_i8("128"), None);
    assert_eq!(parse_i8("-129"), None);
    assert_eq!(parse_i8("-"), None);
    assert_eq!(parse_i8(""), None);
}

#[test]
fn hexadecimal_checksum_parsing() {
    assert_eq!(parse_hex_u32("ff"), Some(255));
    assert_eq!(parse_hex_u32("FF"), Some(255));
    assert_eq!(parse_hex_u32("ffffffff"), Some(u32::MAX));
    assert_eq!(parse_hex_u32("100000000"), None);
    assert_eq!(parse_hex_u32("0g"), None);
    assert_eq!(parse_hex_u32(""), None);
}
