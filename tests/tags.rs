use metasort::sidecar::SidecarRecord;
use metasort::tags::{
    count_error_marks, date_tag_arg, embed_args, read_listing, text_contains, text_tag_arg,
    value_of_line,
};

#[test]
fn listing_is_read() {
    let lines: Vec<String> = vec![
        "Date/Time Original              : 2020:01:02 03:04:05".into(),
        "MIME Type                       : image/jpeg".into(),
        "Image Size                      : 4032x3024".into(),
        "File Type                       : JPEG".into(),
    ];
    let l = read_listing(&lines);
    assert_eq!(l.date_original, "2020:01:02 03:04:05");
    assert_eq!(l.mime_type, "image/jpeg");
    assert_eq!(l.image_size, "4032x3024");
    assert_eq!(l.file_type, "JPEG");
}

#[test]
fn listing_without_lines_is_empty() {
    let l = read_listing(&Vec::new());
    assert_eq!(l.date_original, "");
    assert_eq!(l.mime_type, "");
}

#[test]
fn later_line_overrides_and_value_keeps_colons() {
    let lines: Vec<String> = vec!["File Type : PNG".into(), "File Type : JPEG".into()];
    assert_eq!(read_listing(&lines).file_type, "JPEG");
    assert_eq!(value_of_line("Date/Time Original :  2020:01:02 03:04:05  "), "2020:01:02 03:04:05");
    assert_eq!(value_of_line("no colon here"), "");
}

#[test]
fn contains_finds_substrings() {
    assert!(text_contains("abcdef", "cde"));
    assert!(text_contains("abc", ""));
    assert!(!text_contains("abc", "abcd"));
    assert!(!text_contains("abcdef", "ce"));
}

#[test]
fn tag_arguments() {
    assert_eq!(date_tag_arg("a.PNG", "2020:01:01 00:00:00"), "-XMP:DateTimeOriginal=2020:01:01 00:00:00");
    assert_eq!(date_tag_arg("a.jpg", "2020:01:01 00:00:00"), "-DateTimeOriginal=2020:01:01 00:00:00");
    assert_eq!(text_tag_arg("Make", "Canon"), "-Make=Canon");
}

#[test]
fn error_marks_are_counted() {
    assert_eq!(count_error_marks("\u{274C} a\n\u{2705} b\n\u{274C} c"), 2);
    assert_eq!(count_error_marks(""), 0);
}

#[test]
fn embed_arguments_in_order() {
    let rec = SidecarRecord {
        taken: Some("2020:01:01 00:00:00".into()),
        latitude: Some("1.5".into()),
        longitude: Some("2.5".into()),
        altitude: Some("10".into()),
        camera_make: Some("Canon".into()),
        camera_model: None,
    };
    let args = embed_args("a.jpg", &Some("2020:01:01 00:00:00".into()), &Some(rec.clone()));
    assert_eq!(
        args,
        vec![
            "-DateTimeOriginal=2020:01:01 00:00:00".to_string(),
            "-GPSLatitude=1.5".to_string(),
            "-GPSLongitude=2.5".to_string(),
            "-GPSAltitude=10".to_string(),
            "-Make=Canon".to_string(),
        ]
    );
    let no_lon = SidecarRecord { longitude: None, ..rec };
    let args = embed_args("a.png", &None, &Some(no_lon));
    assert_eq!(args, vec!["-GPSAltitude=10".to_string(), "-Make=Canon".to_string()]);
    assert!(embed_args("a.jpg", &None, &None).is_empty());
}

#[test]
fn values_are_trimmed_of_unicode_white_space() {
    assert_eq!(value_of_line("Image Size :\t\u{00A0}640x480\u{3000}\r"), "640x480");
    assert_eq!(value_of_line("MIME Type :   "), "");
    assert_eq!(value_of_line("A : b c "), "b c");
}
