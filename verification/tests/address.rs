use wled_controller::address::{try_string_to_ipv4, try_string_to_mac};
use wled_controller::error::WledControllerError;

#[test]
fn test_try_string_to_ipv4() {
    let ip = try_string_to_ipv4(String::from("192.168.1.40")).unwrap();
    assert_eq!(ip, [192, 168, 1, 40]);

    let ip2 = try_string_to_ipv4(String::from("5.40")).unwrap_err().message();
    assert_eq!(ip2, WledControllerError::BadIp("5.40".to_string()).message());

    let ip2 = try_string_to_ipv4(String::from("0")).unwrap_err().message();
    assert_eq!(ip2, WledControllerError::BadIp("0".to_string()).message());
}

#[test]
fn test_try_string_to_mac() {
    let mac = try_string_to_mac(String::from("a00ac9225a10")).unwrap();
    assert_eq!(mac, [160, 10, 201, 34, 90, 16]);

    let mac2 = try_string_to_mac(String::from("a00ac922510")).unwrap_err().message();
    assert_eq!(mac2, WledControllerError::BadMac("a00ac922510".to_string()).message());

    let mac3 = try_string_to_mac(String::from("a00ac9h22510")).unwrap_err().message();
    assert_eq!(
        mac3,
        "error parsing integer from a string: invalid digit found in string".to_string()
    );
}

#[test]
fn ipv4_keeps_the_refused_text() {
    match try_string_to_ipv4(String::from("5.40")) {
        Err(WledControllerError::BadIp(text)) => assert_eq!(text, "5.40"),
        other => panic!("unexpected result {:?}", other),
    }
}

#[test]
fn ipv4_reads_the_ends_of_the_range() {
    assert_eq!(try_string_to_ipv4(String::from("0.0.0.0")).unwrap(), [0, 0, 0, 0]);
    assert_eq!(
        try_string_to_ipv4(String::from("255.255.255.255")).unwrap(),
        [255, 255, 255, 255]
    );
    assert_eq!(try_string_to_ipv4(String::from("10.0.200.9")).unwrap(), [10, 0, 200, 9]);
}

#[test]
fn ipv4_reads_leading_zeros() {
    assert_eq!(try_string_to_ipv4(String::from("001.02.3.0004")).unwrap(), [1, 2, 3, 4]);
    assert_eq!(
        try_string_to_ipv4(String::from("0000000000000000000255.0.0.1")).unwrap(),
        [255, 0, 0, 1]
    );
}

#[test]
fn ipv4_refuses_every_other_shape() {
    let refused = [
        "",
        ".",
        "...",
        "1.2.3",
        "1.2.3.4.5",
        "1..2.3",
        ".1.2.3",
        "1.2.3.",
        "1.2.3.4.",
        "256.1.1.1",
        "1.1.1.256",
        "1.1.1.1000",
        "99999999999999999999.1.1.1",
        "+1.2.3.4",
        "-1.2.3.4",
        " 1.2.3.4",
        "1.2.3.4 ",
        "1.2.3.a",
        "1,2,3,4",
        "0x10.1.1.1",
        "1.2.3.\u{663}",
        "\u{e9}.2.3.4",
    ];
    for text in refused {
        match try_string_to_ipv4(String::from(text)) {
            Err(WledControllerError::BadIp(kept)) => assert_eq!(kept, text),
            other => panic!("{:?} gave {:?}", text, other),
        }
    }
}

#[test]
fn mac_reads_both_cases() {
    assert_eq!(
        try_string_to_mac(String::from("A00AC9225A10")).unwrap(),
        [0xA0, 0x0A, 0xC9, 0x22, 0x5A, 0x10]
    );
    assert_eq!(
        try_string_to_mac(String::from("aAbBcCdDeEfF")).unwrap(),
        [0xAA, 0xBB, 0xCC, 0xDD, 0xEE, 0xFF]
    );
    assert_eq!(try_string_to_mac(String::from("000000000000")).unwrap(), [0, 0, 0, 0, 0, 0]);
    assert_eq!(
        try_string_to_mac(String::from("0123456789ab")).unwrap(),
        [0x01, 0x23, 0x45, 0x67, 0x89, 0xAB]
    );
}

#[test]
fn mac_of_wrong_length_is_refused_for_its_length() {
    for text in ["", "a00ac922510", "a00ac9225a100", "a0:0a:c9:22:5a:10", "zz"] {
        match try_string_to_mac(String::from(text)) {
            Err(WledControllerError::BadMac(kept)) => assert_eq!(kept, text),
            other => panic!("{:?} gave {:?}", text, other),
        }
    }
}

#[test]
fn mac_of_twelve_characters_with_a_stranger_is_a_malformed_numeral() {
    for text in ["a00ac9h22510", "g00000000000", "00000000000g", "+a0ac9225a10", "a00ac9 25a10",
        "a00ac9225a1\u{e9}", "\u{663}00ac9225a10"]
    {
        match try_string_to_mac(String::from(text)) {
            Err(WledControllerError::ParseIntError(kept)) => assert_eq!(kept, text),
            other => panic!("{:?} gave {:?}", text, other),
        }
    }
}

#[test]
fn mac_length_counts_characters() {
    // eleven characters, twelve bytes
    match try_string_to_mac(String::from("\u{e9}0123456789")) {
        Err(WledControllerError::BadMac(kept)) => assert_eq!(kept, "\u{e9}0123456789"),
        other => panic!("unexpected result {:?}", other),
    }
}
