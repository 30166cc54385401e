use pending_eth_transactions::block_util::{convert_to_address, Address, AddressError};

#[test]
fn address_reads_forty_hex_digits_after_the_prefix() {
    let a = convert_to_address("0x7be8076f4ea4a4ad08075c2508e481d6c946d12b").unwrap();
    assert_eq!(a.0[0], 0x7b);
    assert_eq!(a.0[19], 0x2b);
    assert_eq!(a.debug_string(), "0x7be8076f4ea4a4ad08075c2508e481d6c946d12b");
}

#[test]
fn address_accepts_uppercase_white_space_and_a_second_prefix() {
    let upper = convert_to_address("0x7BE8076F4EA4A4AD08075C2508E481D6C946D12B").unwrap();
    assert_eq!(upper.debug_string(), "0x7be8076f4ea4a4ad08075c2508e481d6c946d12b");
    let spaced = convert_to_address("0x7be8 076f4ea4a4ad08075c2508e481d6c946d12b\n").unwrap();
    assert_eq!(spaced.0, upper.0);
    let twice = convert_to_address("0x0x7be8076f4ea4a4ad08075c2508e481d6c946d12b").unwrap();
    assert_eq!(twice.0, upper.0);
    let other_prefix = convert_to_address("zz7be8076f4ea4a4ad08075c2508e481d6c946d12b").unwrap();
    assert_eq!(other_prefix.0, upper.0);
    let wide_prefix = convert_to_address("é7be8076f4ea4a4ad08075c2508e481d6c946d12b").unwrap();
    assert_eq!(wide_prefix.0, upper.0);
}

#[test]
fn address_with_a_bad_character_reports_it() {
    assert_eq!(
        convert_to_address("0x7be8076f4ea4a4ad08075c2508e481d6c946d12g").err(),
        Some(AddressError::InvalidHexCharacter('g', 39))
    );
    assert_eq!(convert_to_address("0xzz").err(), Some(AddressError::InvalidHexCharacter('z', 0)));
}

#[test]
fn address_of_the_wrong_length_is_refused() {
    assert_eq!(convert_to_address("0x7be8").err(), Some(AddressError::InvalidHexLength));
    assert_eq!(convert_to_address("0x").err(), Some(AddressError::InvalidHexLength));
    assert_eq!(
        convert_to_address("0x7be8076f4ea4a4ad08075c2508e481d6c946d12b00").err(),
        Some(AddressError::InvalidHexLength)
    );
    assert_eq!(
        convert_to_address("0x7be8076f4ea4a4ad08075c2508e481d6c946d12bzz").err(),
        Some(AddressError::InvalidHexLength)
    );
    assert_eq!(
        convert_to_address("0x7be8076f4ea4a4ad08075c2508e481d6c946d12").err(),
        Some(AddressError::InvalidHexLength)
    );
}

#[test]
fn address_round_trips_through_its_text() {
    let text = "0x00ff10aa0000000000000000000000000000beef";
    let a = convert_to_address(text).unwrap();
    assert_eq!(a.debug_string(), text);
    assert_eq!(Address([0u8; 20]).debug_string(), "0x0000000000000000000000000000000000000000");
}
