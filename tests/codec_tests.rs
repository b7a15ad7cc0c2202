use mini_rusaint::codec::{decode_sap_event, encode_sap_event, hex_escape_replacement};

#[test]
fn unreserved_characters_pass_through() {
    assert_eq!(encode_sap_event("AZaz09-_.~"), "AZaz09-_.~");
    assert_eq!(encode_sap_event(""), "");
}

#[test]
fn other_characters_become_four_hex_digits() {
    assert_eq!(encode_sap_event(":"), "~003A");
    assert_eq!(encode_sap_event("a b"), "a~0020b");
    assert_eq!(encode_sap_event("\u{e9}"), "~00E9");
    assert_eq!(encode_sap_event("\u{d55c}"), "~D55C");
    assert_eq!(encode_sap_event("\n"), "~000A");
}

#[test]
fn wide_code_points_take_more_digits() {
    assert_eq!(encode_sap_event("\u{1F600}"), "~1F600");
    assert_eq!(encode_sap_event("\u{10FFFF}"), "~10FFFF");
}

#[test]
fn encoded_text_holds_only_unreserved_characters() {
    let encoded = encode_sap_event("grade: A+ {\u{d55c}\u{ae00}}, 100%");
    assert!(encoded
        .chars()
        .all(|c| c.is_ascii_alphanumeric() || "-_.~".contains(c)));
}

#[test]
fn decode_of_literal_token() {
    let input = "Button_Press~E002Id~E004X~003AY~E003~E002ResponseData~E004delta~E003~E002~E003";
    assert_eq!(
        decode_sap_event(input),
        "Button_Press{Id:X:Y}{ResponseData:delta}{}"
    );
}

#[test]
fn decode_structural_escapes() {
    assert_eq!(decode_sap_event("~E001~E002~E003~E004~E005"), "\n{}:,");
}

#[test]
fn decode_generic_escapes_in_either_case() {
    assert_eq!(decode_sap_event("~00e9~00E9~0041"), "\u{e9}\u{e9}A");
}

#[test]
fn decode_keeps_escapes_that_name_no_character() {
    assert_eq!(decode_sap_event("~D800x"), "~D800x");
    assert_eq!(decode_sap_event("~DFFF"), "~DFFF");
}

#[test]
fn decode_keeps_malformed_escapes() {
    assert_eq!(decode_sap_event("~12G4~"), "~12G4~");
    assert_eq!(decode_sap_event("~123"), "~123");
    assert_eq!(decode_sap_event("~E006"), "\u{e006}");
}

#[test]
fn decode_is_identity_without_escapes() {
    let s = "plain-text_with.dots~and~tildes";
    let once = decode_sap_event(s);
    assert_eq!(once, s);
    assert_eq!(decode_sap_event(&once), once);
}

#[test]
fn unreserved_round_trip() {
    let s = "Abc-123_x.y~z";
    assert_eq!(encode_sap_event(s), s);
    assert_eq!(decode_sap_event(&encode_sap_event(s)), s);
}

#[test]
fn general_round_trip() {
    let s = "\u{d55c}\u{ae00} {grade: A+, rank: 3/40}\n100% ~ok";
    assert_eq!(decode_sap_event(&encode_sap_event(s)), s);
}

#[test]
fn round_trip_fails_for_a_tilde_escape_in_the_input() {
    let s = "~0041";
    assert_eq!(encode_sap_event(s), "~0041");
    assert_eq!(decode_sap_event(&encode_sap_event(s)), "A");
}

#[test]
fn round_trip_fails_for_structural_code_points() {
    assert_eq!(decode_sap_event(&encode_sap_event("\u{e001}")), "\n");
}

#[test]
fn replacement_of_one_escape() {
    assert_eq!(hex_escape_replacement("~0041"), "A");
    assert_eq!(hex_escape_replacement("~ac00"), "\u{ac00}");
    assert_eq!(hex_escape_replacement("~D800"), "~D800");
}
