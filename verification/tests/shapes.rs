use wled_controller::dispatcher::Dispatcher;
use wled_controller::error::WledControllerError;
use wled_controller::numeral::{decimal_digit_of, hex_digit_of, push_decimal_digits, push_decimal_text};
use wled_controller::universe::Universe;
use wled_controller::wled_net::{ConfigReport, InfoReport, PhysicalWled};

fn fixture(mac: &str, total: u16) -> PhysicalWled {
    let info = InfoReport {
        name: None,
        mac: Some(String::from(mac)),
        ip: Some(String::from("10.0.0.7")),
        seglc: None,
    };
    let cfg = ConfigReport { mdns: Some(String::from("w")), led_total: Some(total) };
    PhysicalWled::try_from_reports(&info, &cfg).unwrap()
}

#[test]
fn universe_keeps_its_parts_in_order() {
    let left = fixture("000000000001", 30);
    let right = fixture("000000000002", 60);
    let parts = vec![(&left, 0u16, 29u16), (&right, 10, 20), (&left, 5, 6)];
    let universe = Universe::from_parts(&parts);
    let slices = universe.slices();
    assert_eq!(slices.len(), 3);
    assert_eq!(slices[0].wled_ref.mac_address, left.mac_address);
    assert_eq!((slices[0].start, slices[0].stop), (0, 29));
    assert_eq!(slices[1].wled_ref.mac_address, right.mac_address);
    assert_eq!((slices[1].start, slices[1].stop), (10, 20));
    assert_eq!(slices[2].wled_ref.mac_address, left.mac_address);
    assert_eq!((slices[2].start, slices[2].stop), (5, 6));
}

#[test]
fn universe_does_not_hold_bounds_against_the_buffer() {
    let small = fixture("000000000001", 3);
    let universe = Universe::from_parts(&vec![(&small, 50, 2)]);
    assert_eq!(universe.slices().len(), 1);
    assert_eq!((universe.slices()[0].start, universe.slices()[0].stop), (50, 2));
    assert!(Universe::from_parts(&Vec::new()).slices().is_empty());
}

#[test]
fn dispatcher_starts_empty() {
    let _dispatcher = Dispatcher::new();
}

#[test]
fn decimal_text_of_numbers() {
    for (v, text) in [
        (0i16, "0"),
        (7, "7"),
        (10, "10"),
        (255, "255"),
        (32767, "32767"),
        (-1, "-1"),
        (-32768, "-32768"),
    ] {
        let mut out = String::from("x");
        push_decimal_text(&mut out, v);
        assert_eq!(out, format!("x{}", text));
    }
    let mut out = String::new();
    push_decimal_digits(&mut out, 65535);
    push_decimal_digits(&mut out, 0);
    push_decimal_digits(&mut out, 409);
    assert_eq!(out, "655350409");
}

#[test]
fn digits_are_read_from_bytes() {
    assert_eq!(decimal_digit_of(b'0'), Some(0));
    assert_eq!(decimal_digit_of(b'9'), Some(9));
    assert_eq!(decimal_digit_of(b'/'), None);
    assert_eq!(decimal_digit_of(b':'), None);
    assert_eq!(decimal_digit_of(b'a'), None);
    assert_eq!(hex_digit_of(b'0'), Some(0));
    assert_eq!(hex_digit_of(b'9'), Some(9));
    assert_eq!(hex_digit_of(b'a'), Some(10));
    assert_eq!(hex_digit_of(b'f'), Some(15));
    assert_eq!(hex_digit_of(b'A'), Some(10));
    assert_eq!(hex_digit_of(b'F'), Some(15));
    assert_eq!(hex_digit_of(b'g'), None);
    assert_eq!(hex_digit_of(b'G'), None);
    assert_eq!(hex_digit_of(b'@'), None);
    assert_eq!(hex_digit_of(b'`'), None);
    assert_eq!(hex_digit_of(0xe9), None);
}

#[test]
fn messages_of_this_crates_own_errors() {
    assert_eq!(
        WledControllerError::ParseIntError(String::from("zz")).message(),
        "error parsing integer from a string: invalid digit found in string"
    );
    assert_eq!(WledControllerError::UrlParseError.message(), "Error parsing url");
    assert_eq!(
        WledControllerError::MissingKey("led.total").message(),
        "The controller did not report the field led.total"
    );
    assert_eq!(
        WledControllerError::BadIp(String::from("5.40")).message(),
        "Not an IPv4 address in dotted-decimal form: 5.40"
    );
    assert_eq!(
        WledControllerError::BadMac(String::from("a0")).message(),
        "Not a hardware address of twelve hexadecimal digits: a0"
    );
    assert_eq!(
        WledControllerError::InvalidCapability(0).message(),
        "The controller reported a light with neither colour nor white, capability 0"
    );
    assert_eq!(
        WledControllerError::InvalidCapability(252).message(),
        "The controller reported a light with neither colour nor white, capability 252"
    );
}

#[test]
fn messages_of_foreign_errors_end_in_their_own_words() {
    let io = std::io::Error::new(std::io::ErrorKind::Other, "cable unplugged");
    assert_eq!(WledControllerError::from(io).message(), "std IO Error: cable unplugged");

    let ddp = ddp_rs::error::DDPError::InvalidPacket;
    assert_eq!(WledControllerError::from(ddp).message(), "Error in DDP library: Invalid packet");

    let api = wled_json_api_library::errors::WledJsonApiError::FlushNone;
    let message = WledControllerError::from(api).message();
    assert!(message.starts_with("Json Api Error: Attempted to flush"));
}

#[test]
fn foreign_errors_are_wrapped_as_they_are() {
    let ddp = ddp_rs::error::DDPError::NoValidSocketAddr;
    assert!(matches!(
        WledControllerError::from(ddp),
        WledControllerError::DdpError(ddp_rs::error::DDPError::NoValidSocketAddr)
    ));
    let api = wled_json_api_library::errors::WledJsonApiError::MissingKey;
    assert!(matches!(
        WledControllerError::from(api),
        WledControllerError::JsonApiError(
            wled_json_api_library::errors::WledJsonApiError::MissingKey
        )
    ));
}

#[test]
fn http_client_errors_are_wrapped_as_they_are() {
    let refused = reqwest::blocking::Client::new().get("no address at all").build().unwrap_err();
    let words = refused.to_string();
    assert!(refused.is_builder());
    let wrapped = WledControllerError::from(refused);
    assert_eq!(wrapped.message(), format!("reqwest error: {}", words));
    assert!(matches!(wrapped, WledControllerError::ReqwestError(e) if e.is_builder()));
}
