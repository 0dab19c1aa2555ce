use netstat::codec::get_ip;
use netstat::codec::get_port;
use netstat::codec::i32_to_string;
use netstat::codec::ip_port_readable;
use netstat::codec::parse_hex_u32;
use netstat::codec::render_hex;
use netstat::codec::to_big_endian_u32;
use netstat::codec::to_little_endian_u32;
use netstat::codec::to_readable_with_order;
use netstat::record::NetstatError;

#[test]
fn split_address_returns_text_before_colon() {
    assert_eq!(get_ip("0100007F:1F90").unwrap(), "0100007F");
}

#[test]
fn split_port_returns_text_after_colon() {
    assert_eq!(get_port("0100007F:1F90").unwrap(), "1F90");
}

#[test]
fn split_address_without_colon_is_malformed() {
    assert_eq!(get_ip("0100007F"), Err(NetstatError::MalformedAddress));
}

#[test]
fn split_port_without_colon_is_malformed() {
    assert_eq!(get_port("0100007F"), Err(NetstatError::MalformedAddress));
}

#[test]
fn split_port_with_nothing_after_colon_is_malformed() {
    assert_eq!(get_port("0100007F:"), Err(NetstatError::MalformedAddress));
}

#[test]
fn split_port_takes_everything_after_first_colon() {
    assert_eq!(get_port("AB:CD:EF").unwrap(), "CD:EF");
    assert_eq!(get_ip(":1F90").unwrap(), "");
}

#[test]
fn parse_hex_reads_both_cases() {
    assert_eq!(parse_hex_u32("FF").unwrap(), 255);
    assert_eq!(parse_hex_u32("ff").unwrap(), 255);
    assert_eq!(parse_hex_u32("0100007F").unwrap(), 0x0100007F);
    assert_eq!(parse_hex_u32("0").unwrap(), 0);
    assert_eq!(parse_hex_u32("FFFFFFFF").unwrap(), u32::MAX);
}

#[test]
fn parse_hex_rejects_empty_and_non_hex() {
    assert_eq!(parse_hex_u32(""), Err(NetstatError::CodecError));
    assert_eq!(parse_hex_u32("GG"), Err(NetstatError::CodecError));
    assert_eq!(parse_hex_u32("12 4"), Err(NetstatError::CodecError));
    assert_eq!(parse_hex_u32("+1F"), Err(NetstatError::CodecError));
}

#[test]
fn parse_hex_rejects_overflow() {
    assert_eq!(parse_hex_u32("100000000"), Err(NetstatError::CodecError));
    assert_eq!(parse_hex_u32("FFFFFFFFFFFFFFFFFF"), Err(NetstatError::CodecError));
}

#[test]
fn render_hex_pads_to_width() {
    assert_eq!(render_hex(0x1F90, 4), "1F90");
    assert_eq!(render_hex(0, 8), "00000000");
    assert_eq!(render_hex(0x50, 4), "0050");
    assert_eq!(render_hex(0x0100007F, 8), "0100007F");
    // A value wider than the asked width keeps its lowest digits.
    assert_eq!(render_hex(0x12345, 4), "2345");
}

#[test]
fn decimal_rendering_of_pids() {
    assert_eq!(i32_to_string(0), "0");
    assert_eq!(i32_to_string(123), "123");
    assert_eq!(i32_to_string(-42), "-42");
    assert_eq!(i32_to_string(i32::MIN), "-2147483648");
    assert_eq!(i32_to_string(i32::MAX), "2147483647");
}

#[test]
fn byte_swap_conversions() {
    assert_eq!(to_big_endian_u32(0x01020304, false), 0x04030201);
    assert_eq!(to_big_endian_u32(0x01020304, true), 0x01020304);
    assert_eq!(to_little_endian_u32(0x01020304, true), 0x04030201);
    assert_eq!(to_little_endian_u32(0x01020304, false), 0x01020304);
}

#[test]
fn readable_form_is_canonical() {
    assert_eq!(ip_port_readable("0100007F:0050").unwrap(), "0100007F:0050");
    // Lower-case and unpadded input comes out zero-padded and uppercase.
    assert_eq!(ip_port_readable("0100007f:50").unwrap(), "0100007F:0050");
}

#[test]
fn readable_form_agrees_on_both_byte_orders() {
    let big = to_readable_with_order("0100007F:0050", true).unwrap();
    let little = to_readable_with_order("0100007F:0050", false).unwrap();
    assert_eq!(big, little);
    assert_eq!(big, "0100007F:0050");
}

#[test]
fn readable_form_rejects_bad_input() {
    assert_eq!(ip_port_readable("0100007F"), Err(NetstatError::MalformedAddress));
    assert_eq!(ip_port_readable("XYZ:0050"), Err(NetstatError::CodecError));
    assert_eq!(ip_port_readable("0100007F:XYZ"), Err(NetstatError::CodecError));
    // The address must fit 32 bits and the port 16 bits.
    assert_eq!(ip_port_readable("100000000:0050"), Err(NetstatError::CodecError));
    assert_eq!(ip_port_readable("0100007F:12345"), Err(NetstatError::CodecError));
}
