use wled_controller::error::WledControllerError;
use wled_controller::wled_color::{WledColor, WledColorType};

#[test]
fn capability_codes_decode_by_their_low_bits() {
    assert_eq!(WledColorType::try_new_from_json_type(1).unwrap(), WledColorType::RGB);
    assert_eq!(WledColorType::try_new_from_json_type(2).unwrap(), WledColorType::W);
    assert_eq!(WledColorType::try_new_from_json_type(3).unwrap(), WledColorType::RGBW);
    assert_eq!(WledColorType::try_new_from_json_type(5).unwrap(), WledColorType::RGB);
    assert_eq!(WledColorType::try_new_from_json_type(7).unwrap(), WledColorType::RGBW);
    assert_eq!(WledColorType::try_new_from_json_type(254).unwrap(), WledColorType::W);
    assert_eq!(WledColorType::try_new_from_json_type(255).unwrap(), WledColorType::RGBW);
}

#[test]
fn capability_code_without_low_bits_is_refused() {
    for code in [0u8, 4, 8, 128, 252] {
        match WledColorType::try_new_from_json_type(code) {
            Err(WledControllerError::InvalidCapability(bits)) => assert_eq!(bits, 0),
            other => panic!("{} gave {:?}", code, other),
        }
    }
}

#[test]
fn capability_decoding_has_period_four() {
    for code in 0u8..=251 {
        let here = WledColorType::try_new_from_json_type(code);
        let there = WledColorType::try_new_from_json_type(code + 4);
        match (here, there) {
            (Ok(a), Ok(b)) => assert_eq!(a, b),
            (
                Err(WledControllerError::InvalidCapability(a)),
                Err(WledControllerError::InvalidCapability(b)),
            ) => assert_eq!(a, b),
            other => panic!("{} gave {:?}", code, other),
        }
    }
}

#[test]
fn capability_decoding_fails_only_for_multiples_of_four() {
    for code in 0u8..=255 {
        assert_eq!(WledColorType::try_new_from_json_type(code).is_err(), code % 4 == 0);
    }
}

#[test]
fn default_sample_of_each_type_is_dark() {
    assert_eq!(WledColor::default_of_type(WledColorType::RGB), WledColor::RGB([0, 0, 0]));
    assert_eq!(WledColor::default_of_type(WledColorType::RGBW), WledColor::RGBW([0, 0, 0, 0]));
    assert_eq!(WledColor::default_of_type(WledColorType::W), WledColor::W(0));
}

#[test]
fn default_sample_is_dark_rgb() {
    assert_eq!(WledColor::default(), WledColor::RGB([0, 0, 0]));
}
