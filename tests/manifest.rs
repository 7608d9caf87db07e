use metasort::manifest::{human_readable_size, sheet_file_name, sheet_for, Manifest, Sheet};
use metasort::routing::Category;

#[test]
fn sizes_below_a_kibibyte_are_bytes() {
    assert_eq!(human_readable_size(0), "0 B");
    assert_eq!(human_readable_size(512), "512 B");
    assert_eq!(human_readable_size(1023), "1023 B");
}

#[test]
fn larger_sizes_have_two_decimals() {
    assert_eq!(human_readable_size(1024), "1.00 KB");
    assert_eq!(human_readable_size(1536), "1.50 KB");
    assert_eq!(human_readable_size(1048575), "1024.00 KB");
    assert_eq!(human_readable_size(1048576), "1.00 MB");
    assert_eq!(human_readable_size(5 * 1073741824 + 268435456), "5.25 GB");
    assert_eq!(human_readable_size(1100), "1.07 KB");
}

#[test]
fn largest_size() {
    assert_eq!(human_readable_size(u64::MAX), "17179869184.00 GB");
}

#[test]
fn sheets_of_categories() {
    assert_eq!(sheet_for(Category::Photo), Sheet::Photos);
    assert_eq!(sheet_for(Category::WhatsApp), Sheet::Photos);
    assert_eq!(sheet_for(Category::Screenshot), Sheet::Photos);
    assert_eq!(sheet_for(Category::Video), Sheet::Videos);
    assert_eq!(sheet_for(Category::Mkv), Sheet::Mkv);
    assert_eq!(sheet_for(Category::UnknownTime), Sheet::UnknownTime);
    assert_eq!(sheet_for(Category::UnknownTimeFailedGuess), Sheet::FailedGuess);
    assert_eq!(sheet_file_name(Sheet::Photos), "photos.csv");
    assert_eq!(sheet_file_name(Sheet::FailedGuess), "failed_filename_guess.csv");
}

#[test]
fn rows_are_numbered_per_sheet() {
    let mut m = Manifest::new();
    m.record(Category::Photo, "a.jpg".into(), "JPEG".into(), Some("2020:01:01 00:00:00".into()), "10x10".into(), 2048);
    m.record(Category::Video, "b.mp4".into(), "MP4".into(), None, "".into(), 10);
    m.record(Category::WhatsApp, "c.jpg".into(), "JPEG".into(), None, "".into(), 1);
    let photos = m.rows(Sheet::Photos);
    assert_eq!(photos.len(), 2);
    assert_eq!(photos[0].number, 1);
    assert_eq!(photos[0].file_name, "a.jpg");
    assert_eq!(photos[0].taken, "2020:01:01 00:00:00");
    assert_eq!(photos[0].size_text, "2.00 KB");
    assert_eq!(photos[1].number, 2);
    assert_eq!(photos[1].file_name, "c.jpg");
    assert_eq!(photos[1].taken, "");
    let videos = m.rows(Sheet::Videos);
    assert_eq!(videos.len(), 1);
    assert_eq!(videos[0].number, 1);
    assert_eq!(videos[0].size_text, "10 B");
    assert!(m.rows(Sheet::Mkv).is_empty());
}
