use metasort::sidecar::{extract_sidecar, parse_i64, taken_time};

#[test]
fn sidecar_fields_are_read() {
    let doc = r#"{"photoTakenTime":{"timestamp":"1641038400"},"cameraMake":"Google","cameraModel":"Pixel 6"}"#;
    let rec = extract_sidecar(doc).unwrap();
    assert_eq!(rec.taken, Some("2022:01:01 12:00:00".to_string()));
    assert_eq!(rec.camera_make, Some("Google".to_string()));
    assert_eq!(rec.camera_model, Some("Pixel 6".to_string()));
}

#[test]
fn malformed_sidecar_gives_no_record() {
    assert!(extract_sidecar("{not json").is_none());
    assert!(extract_sidecar("").is_none());
}

#[test]
fn missing_fields_are_absent() {
    let rec = extract_sidecar(r#"{"title":"x"}"#).unwrap();
    assert_eq!(rec.taken, None);
    assert_eq!(rec.camera_make, None);
    assert_eq!(rec.camera_model, None);
}

#[test]
fn non_integer_or_non_string_timestamp_is_absent() {
    let rec = extract_sidecar(r#"{"photoTakenTime":{"timestamp":"abc"}}"#).unwrap();
    assert_eq!(rec.taken, None);
    let rec = extract_sidecar(r#"{"photoTakenTime":{"timestamp":1641038400}}"#).unwrap();
    assert_eq!(rec.taken, None);
}

#[test]
fn epoch_start_and_negative_times() {
    assert_eq!(taken_time(&Some("0".to_string())), Some("1970:01:01 00:00:00".to_string()));
    assert_eq!(taken_time(&Some("-1".to_string())), Some("1969:12:31 23:59:59".to_string()));
    assert_eq!(taken_time(&Some("9223372036854775807".to_string())), None);
    assert_eq!(taken_time(&None), None);
}

#[test]
fn integers_are_parsed_like_std() {
    assert_eq!(parse_i64("42"), Some(42));
    assert_eq!(parse_i64("+5"), Some(5));
    assert_eq!(parse_i64("-17"), Some(-17));
    assert_eq!(parse_i64("007"), Some(7));
    assert_eq!(parse_i64("9223372036854775807"), Some(i64::MAX));
    assert_eq!(parse_i64("-9223372036854775808"), Some(i64::MIN));
    assert_eq!(parse_i64("9223372036854775808"), None);
    assert_eq!(parse_i64("-9223372036854775809"), None);
    assert_eq!(parse_i64(""), None);
    assert_eq!(parse_i64("-"), None);
    assert_eq!(parse_i64("12a"), None);
    assert_eq!(parse_i64(" 1"), None);
}

#[test]
fn location_fields_fall_back_one_by_one() {
    let doc = r#"{"geoData":{"latitude":48.85,"longitude":0.0},"geoDataExif":{"latitude":1.5,"longitude":2.25,"altitude":35}}"#;
    let rec = extract_sidecar(doc).unwrap();
    assert_eq!(rec.latitude, Some("48.85".to_string()));
    assert_eq!(rec.longitude, Some("0.0".to_string()));
    assert_eq!(rec.altitude, Some("35".to_string()));
}

#[test]
fn location_may_be_partial() {
    let rec = extract_sidecar(r#"{"geoDataExif":{"latitude":-12.5,"longitude":"x"}}"#).unwrap();
    assert_eq!(rec.latitude, Some("-12.5".to_string()));
    assert_eq!(rec.longitude, None);
    assert_eq!(rec.altitude, None);
}
