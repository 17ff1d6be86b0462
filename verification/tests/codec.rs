use swagger::api_key_from_header;
use swagger::boundary;
use swagger::AuthData;
use swagger::HeaderField;
use swagger::IntoHeaderValue;
use swagger::XSpanId;

fn field(name: &str, value: &[u8]) -> HeaderField {
    HeaderField {
        name: name.to_string(),
        value: value.to_vec(),
    }
}

#[test]
fn span_id_decode_reads_text_bytes() {
    let id = XSpanId::decode(&b"trace-7".to_vec()).expect("text bytes decode");
    assert_eq!(id.0, "trace-7");
}

#[test]
fn span_id_decode_rejects_non_text_bytes() {
    assert!(XSpanId::decode(&b"bad\x01".to_vec()).is_err());
    assert!(XSpanId::decode(&vec![0xffu8, 0xfe]).is_err());
}

#[test]
fn span_id_decode_accepts_empty_value() {
    let id = XSpanId::decode(&Vec::new()).expect("empty value is valid text");
    assert_eq!(id.0, "");
}

#[test]
fn span_id_encode_is_the_string_form() {
    let id = XSpanId("abc XYZ-123".to_string());
    assert_eq!(id.encode(), b"abc XYZ-123".to_vec());
}

#[test]
fn default_span_id_is_freshly_generated() {
    let one = XSpanId::default();
    let two = XSpanId::default();
    assert_eq!(one.0.len(), 36);
    assert!(one
        .0
        .chars()
        .all(|c| c.is_ascii_hexdigit() && !c.is_ascii_uppercase() || c == '-'));
    assert_ne!(one.0, two.0);
}

#[test]
fn span_id_round_trip() {
    let id = XSpanId("0a1b2c3d-4e5f-6789-abcd-ef0123456789".to_string());
    let decoded = XSpanId::decode(&id.encode()).expect("round trip decodes");
    assert_eq!(decoded, id);
}

#[test]
fn string_value_round_trip() {
    let original = IntoHeaderValue("some header text".to_string());
    let bytes = original.encode();
    assert_eq!(bytes, b"some header text".to_vec());
    let back = IntoHeaderValue::<String>::decode(&bytes).expect("text decodes");
    assert_eq!(back, original);
}

#[test]
fn string_value_decode_rejects_control_bytes() {
    assert!(IntoHeaderValue::<String>::decode(&b"a\nb".to_vec()).is_err());
}

#[test]
fn string_list_decode_splits_trims_and_drops_empties() {
    let decoded =
        IntoHeaderValue::<Vec<String>>::decode(&b" alpha, beta ,, gamma ".to_vec())
            .expect("text decodes");
    assert_eq!(
        decoded.0,
        vec!["alpha".to_string(), "beta".to_string(), "gamma".to_string()]
    );
}

#[test]
fn string_list_decode_of_blank_value_is_empty() {
    let decoded = IntoHeaderValue::<Vec<String>>::decode(&b"  ,  ".to_vec()).expect("text decodes");
    assert_eq!(decoded.0, Vec::<String>::new());
}

#[test]
fn string_list_encode_joins_with_comma_space() {
    let value = IntoHeaderValue(vec!["alpha".to_string(), "beta".to_string()]);
    assert_eq!(value.encode(), b"alpha, beta".to_vec());
}

#[test]
fn string_list_round_trip() {
    let items = vec!["one".to_string(), "two".to_string(), "three".to_string()];
    let bytes = IntoHeaderValue(items.clone()).encode();
    let back = IntoHeaderValue::<Vec<String>>::decode(&bytes).expect("text decodes");
    assert_eq!(back.0, items);
}

#[test]
fn u64_value_decodes_digits() {
    let decoded = IntoHeaderValue::<u64>::decode(&b"18446744073709551615".to_vec())
        .expect("largest value parses");
    assert_eq!(decoded.0, u64::MAX);
    let plus = IntoHeaderValue::<u64>::decode(&b"+307".to_vec()).expect("plus sign accepted");
    assert_eq!(plus.0, 307);
    let zero = IntoHeaderValue::<u64>::decode(&b"0".to_vec()).expect("zero parses");
    assert_eq!(zero.0, 0);
}

#[test]
fn u64_value_rejects_bad_digits() {
    assert!(IntoHeaderValue::<u64>::decode(&b"".to_vec()).is_err());
    assert!(IntoHeaderValue::<u64>::decode(&b"+".to_vec()).is_err());
    assert!(IntoHeaderValue::<u64>::decode(&b"12a".to_vec()).is_err());
    assert!(IntoHeaderValue::<u64>::decode(&b"-1".to_vec()).is_err());
    assert!(IntoHeaderValue::<u64>::decode(&b"18446744073709551616".to_vec()).is_err());
    assert!(IntoHeaderValue::<u64>::decode(&b"\x0912".to_vec()).is_err());
}

#[test]
fn u64_value_encodes_canonical_digits() {
    assert_eq!(IntoHeaderValue(0u64).encode(), b"0".to_vec());
    assert_eq!(IntoHeaderValue(907u64).encode(), b"907".to_vec());
    assert_eq!(
        IntoHeaderValue(u64::MAX).encode(),
        b"18446744073709551615".to_vec()
    );
}

#[test]
fn u64_value_round_trip() {
    for v in [0u64, 1, 9, 10, 4096, u64::MAX] {
        let bytes = IntoHeaderValue(v).encode();
        let back = IntoHeaderValue::<u64>::decode(&bytes).expect("encoded digits parse");
        assert_eq!(back.0, v);
    }
}

#[test]
fn i64_value_decodes_signed_digits() {
    let negative = IntoHeaderValue::<i64>::decode(&b"-42".to_vec()).expect("negative parses");
    assert_eq!(negative.0, -42);
    let least = IntoHeaderValue::<i64>::decode(&b"-9223372036854775808".to_vec())
        .expect("smallest value parses");
    assert_eq!(least.0, i64::MIN);
    let plus = IntoHeaderValue::<i64>::decode(&b"+7".to_vec()).expect("plus sign accepted");
    assert_eq!(plus.0, 7);
}

#[test]
fn i64_value_rejects_bad_digits() {
    assert!(IntoHeaderValue::<i64>::decode(&b"-".to_vec()).is_err());
    assert!(IntoHeaderValue::<i64>::decode(&b"-+5".to_vec()).is_err());
    assert!(IntoHeaderValue::<i64>::decode(&b"9223372036854775808".to_vec()).is_err());
    assert!(IntoHeaderValue::<i64>::decode(&b"-9223372036854775809".to_vec()).is_err());
}

#[test]
fn i64_value_round_trip() {
    for v in [i64::MIN, -1000, -1, 0, 1, i64::MAX] {
        let bytes = IntoHeaderValue(v).encode();
        let back = IntoHeaderValue::<i64>::decode(&bytes).expect("encoded digits parse");
        assert_eq!(back.0, v);
    }
    assert_eq!(IntoHeaderValue(-37i64).encode(), b"-37".to_vec());
}

#[test]
fn narrow_integer_values_respect_their_ranges() {
    let word = IntoHeaderValue::<u16>::decode(&b"65535".to_vec()).expect("in range");
    assert_eq!(word.0, u16::MAX);
    assert!(IntoHeaderValue::<u16>::decode(&b"65536".to_vec()).is_err());
    assert!(IntoHeaderValue::<u32>::decode(&b"4294967296".to_vec()).is_err());
    let short = IntoHeaderValue::<i16>::decode(&b"-32768".to_vec()).expect("in range");
    assert_eq!(short.0, i16::MIN);
    assert!(IntoHeaderValue::<i16>::decode(&b"-32769".to_vec()).is_err());
    assert_eq!(IntoHeaderValue(-5i32).encode(), b"-5".to_vec());
    assert_eq!(IntoHeaderValue(12usize).encode(), b"12".to_vec());
    let size = IntoHeaderValue::<isize>::decode(&b"-12".to_vec()).expect("in range");
    assert_eq!(size.0, -12isize);
}

#[test]
fn string_list_trims_tabs_as_blanks() {
    let decoded =
        IntoHeaderValue::<Vec<String>>::decode(&b"\ta\t, b".to_vec()).expect("text decodes");
    assert_eq!(decoded.0, vec!["a".to_string(), "b".to_string()]);
}

#[test]
fn first_matching_header_field_wins() {
    let headers = vec![field("X-API-Key", b"first"), field("x-api-key", b"second")];
    assert_eq!(
        api_key_from_header(&headers, "X-API-KEY"),
        Some("first".to_string())
    );
}

#[test]
fn api_key_found_by_case_insensitive_name() {
    let headers = vec![field("X-API-Key", b"secret-key")];
    assert_eq!(
        api_key_from_header(&headers, "x-api-key"),
        Some("secret-key".to_string())
    );
}

#[test]
fn api_key_absent_or_malformed_gives_nothing() {
    let headers = vec![field("X-API-Key", b"ok")];
    assert_eq!(api_key_from_header(&headers, "X-Other"), None);
    let bad = vec![field("X-API-Key", b"\x00")];
    assert_eq!(api_key_from_header(&bad, "X-API-Key"), None);
}

#[test]
fn auth_data_constructors() {
    let basic = AuthData::basic("user", "pass");
    assert!(matches!(basic, AuthData::Basic(_)));
    let bearer = AuthData::bearer("token-123");
    assert!(matches!(bearer, AuthData::Bearer(_)));
    let key = AuthData::apikey("k-9");
    assert_eq!(key, AuthData::ApiKey("k-9".to_string()));
}

#[test]
fn boundary_of_multipart_form_data() {
    let headers = vec![field(
        "Content-Type",
        b"multipart/form-data; boundary=MultipartBoundary",
    )];
    assert_eq!(boundary(&headers), Some("MultipartBoundary".to_string()));
}

#[test]
fn boundary_absent_for_other_media_types() {
    let plain = vec![field("Content-Type", b"text/plain")];
    assert_eq!(boundary(&plain), None);
    let no_param = vec![field("Content-Type", b"multipart/form-data")];
    assert_eq!(boundary(&no_param), None);
    let other_multipart = vec![field("Content-Type", b"multipart/mixed; boundary=x")];
    assert_eq!(boundary(&other_multipart), None);
    let none: Vec<HeaderField> = Vec::new();
    assert_eq!(boundary(&none), None);
}
