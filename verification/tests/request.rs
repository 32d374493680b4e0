use n64_memmap::request::{interpret_argument, parse_address, Request};

#[test]
fn argument_with_prefix_is_an_address() {
    assert_eq!(interpret_argument("0x80000000"), Request::Address(0x8000_0000));
    assert_eq!(interpret_argument("0xA3F00010"), Request::Address(0xA3F0_0010));
    assert_eq!(interpret_argument("0xa3f00010"), Request::Address(0xA3F0_0010));
    assert_eq!(interpret_argument("0x0"), Request::Address(0));
    assert_eq!(interpret_argument("0xffffffff"), Request::Address(0xFFFF_FFFF));
    assert_eq!(interpret_argument("0x000000000004040100"), Request::Address(0x0404_0100));
}

#[test]
fn argument_with_prefix_and_no_number_is_invalid() {
    assert_eq!(interpret_argument("0x"), Request::InvalidAddress);
    assert_eq!(interpret_argument("0xg0"), Request::InvalidAddress);
    assert_eq!(interpret_argument("0x100000000"), Request::InvalidAddress);
    assert_eq!(interpret_argument("0x8000 0000"), Request::InvalidAddress);
    assert_eq!(interpret_argument("0x0x10"), Request::InvalidAddress);
}

#[test]
fn argument_without_prefix_is_a_file() {
    assert_eq!(interpret_argument("trace.log"), Request::TraceFile);
    assert_eq!(interpret_argument(""), Request::TraceFile);
    assert_eq!(interpret_argument("0"), Request::TraceFile);
    assert_eq!(interpret_argument("0X10"), Request::TraceFile);
    assert_eq!(interpret_argument("80000000"), Request::TraceFile);
    assert_eq!(interpret_argument("x0x10"), Request::TraceFile);
}

#[test]
fn address_text_is_parsed_as_32_bits() {
    assert_eq!(parse_address("0"), Some(0));
    assert_eq!(parse_address("1fc007c0"), Some(0x1FC0_07C0));
    assert_eq!(parse_address("FFFFFFFF"), Some(0xFFFF_FFFF));
    assert_eq!(parse_address("+10"), Some(0x10));
    assert_eq!(parse_address("100000000"), None);
    assert_eq!(parse_address("ffffffffffffffffff"), None);
    assert_eq!(parse_address(""), None);
    assert_eq!(parse_address("0x10"), None);
}
