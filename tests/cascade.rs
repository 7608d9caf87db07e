use metasort::cascade::extract_date_from_filename;

fn guess(name: &str) -> Option<String> {
    extract_date_from_filename(name)
}

#[test]
fn whatsapp_numbered_name_gives_midnight() {
    assert_eq!(guess("IMG-20220101-WA0005.jpg"), Some("2022:01:01 00:00:00".to_string()));
}

#[test]
fn screenshot_with_dashes_gives_full_time() {
    assert_eq!(
        guess("Screenshot_2023-05-10-08-15-30.png"),
        Some("2023:05:10 08:15:30".to_string())
    );
}

#[test]
fn whatsapp_image_with_time() {
    assert_eq!(
        guess("WhatsApp Image 2022-01-01 at 12.34.56.jpg"),
        Some("2022:01:01 12:34:56".to_string())
    );
}

#[test]
fn screen_shot_with_time() {
    assert_eq!(
        guess("Screen Shot 2023-01-01 at 12.00.00.png"),
        Some("2023:01:01 12:00:00".to_string())
    );
}

#[test]
fn compact_screenshot() {
    assert_eq!(guess("Screenshot_20230102-131415.png"), Some("2023:01:02 13:14:15".to_string()));
}

#[test]
fn telegram_photo() {
    assert_eq!(guess("photo_2021-03-04 05.06.07.jpg"), Some("2021:03:04 05:06:07".to_string()));
}

#[test]
fn camera_img_name() {
    assert_eq!(guess("IMG_20230101_123456.jpg"), Some("2023:01:01 12:34:56".to_string()));
}

#[test]
fn generic_date_then_six_digits() {
    assert_eq!(guess("2023-01-02-123456.jpg"), Some("2023:01:02 12:34:56".to_string()));
}

#[test]
fn date_and_minutes_gives_zero_seconds() {
    assert_eq!(guess("clip.20230101-1234.mp4"), Some("2023:01:01 12:34:00".to_string()));
}

#[test]
fn numeric_underscore_pair() {
    assert_eq!(guess("20230101_123456.jpg"), Some("2023:01:01 12:34:56".to_string()));
}

#[test]
fn numeric_dash_pair() {
    assert_eq!(guess("20230101-123456.jpg"), Some("2023:01:01 12:34:56".to_string()));
}

#[test]
fn date_space_dotted_time() {
    assert_eq!(guess("2023-01-01 12.34.56.jpg"), Some("2023:01:01 12:34:56".to_string()));
}

#[test]
fn date_underscore_dashed_time() {
    assert_eq!(guess("2023-01-01_12-34-56.jpg"), Some("2023:01:01 12:34:56".to_string()));
}

#[test]
fn dotted_date_and_time() {
    assert_eq!(guess("2023.01.01_12.34.56.jpg"), Some("2023:01:01 12:34:56".to_string()));
}

#[test]
fn underscored_date_and_time() {
    assert_eq!(guess("2023_01_01_12_34_56.jpg"), Some("2023:01:01 12:34:56".to_string()));
}

#[test]
fn pixel_name_keeps_six_time_digits() {
    assert_eq!(guess("PXL_20230101_123456789.jpg"), Some("2023:01:01 12:34:56".to_string()));
}

#[test]
fn day_month_abbreviation_year() {
    assert_eq!(guess("San-1 Oct 2024.jxl"), Some("2024:10:01 00:00:00".to_string()));
    assert_eq!(guess("party 12 Dec 2020.png"), Some("2020:12:12 00:00:00".to_string()));
}

#[test]
fn unknown_month_abbreviation_does_not_match() {
    assert_eq!(guess("San-1 Okt 2024.jxl"), None);
}

#[test]
fn unmatched_names_give_none() {
    assert_eq!(guess("random_clip.mkv"), None);
    assert_eq!(guess("holiday.jpg"), None);
    assert_eq!(guess(""), None);
    assert_eq!(guess("IMG-2022010-WA0005.jpg"), None);
}

#[test]
fn result_is_zero_padded_and_fixed_width() {
    let t = guess("x 3 Feb 0999.png").unwrap();
    assert_eq!(t, "0999:02:03 00:00:00");
    assert_eq!(t.len(), 19);
}

#[test]
fn branded_rule_wins_over_later_generic_rule() {
    // The WhatsApp rule comes before the date-space-time rule.
    assert_eq!(
        guess("IMG-20220101-WA0005 2021-05-06 07.08.09.jpg"),
        Some("2022:01:01 00:00:00".to_string())
    );
}

#[test]
fn separator_minutes_rule_wins_over_dash_pair() {
    // `_20230101-1234` is read as date and minutes before the later
    // date-dash-time rule could read seconds.
    assert_eq!(guess("x_20230101-123456.jpg"), Some("2023:01:01 12:34:00".to_string()));
}

#[test]
fn camera_rule_wins_over_month_abbreviation() {
    assert_eq!(
        guess("IMG_20240113_143213Jan 13 2024.jpg"),
        Some("2024:01:13 14:32:13".to_string())
    );
}

#[test]
fn leftmost_match_of_a_rule_is_taken() {
    assert_eq!(
        guess("a_20200101_000000_20210101_000000.jpg"),
        Some("2020:01:01 00:00:00".to_string())
    );
}

#[test]
fn same_name_gives_same_result() {
    let a = guess("VID_20230405_060708.mp4");
    let b = guess("VID_20230405_060708.mp4");
    assert_eq!(a, b);
    assert_eq!(a, Some("2023:04:05 06:07:08".to_string()));
}
