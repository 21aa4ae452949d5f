use notes_b::text::extract_prefix;
use notes_b::text::i64_to_dec_string;
use notes_b::text::make_credential;
use notes_b::text::u64_to_dec_string;

#[test]
fn decimal_of_zero() {
    assert_eq!(u64_to_dec_string(0), "0");
}

#[test]
fn decimal_of_timestamp_sized_value() {
    assert_eq!(u64_to_dec_string(1234567890), "1234567890");
    assert_eq!(i64_to_dec_string(1700000000), "1700000000");
}

#[test]
fn decimal_of_negative_value() {
    assert_eq!(i64_to_dec_string(-42), "-42");
    assert_eq!(i64_to_dec_string(i64::MIN), "-9223372036854775808");
}

#[test]
fn prefix_stops_at_first_dot() {
    assert_eq!(extract_prefix("abc.def.g"), "abc");
    assert_eq!(extract_prefix("1700000000.2b3c"), "1700000000");
}

#[test]
fn prefix_of_dotless_value_is_the_value() {
    assert_eq!(extract_prefix("nodot"), "nodot");
    assert_eq!(extract_prefix(""), "");
}

#[test]
fn credential_joins_prefix_and_token() {
    let c = make_credential(&"17".to_string(), &"tok".to_string());
    assert_eq!(c, "17.tok");
    assert_eq!(extract_prefix(&c), "17");
}
