use metasort::routing::{
    classify, classify_lowered, destination, month_name, resolve_date, Category, Config, Provenance, ResolvedDate,
    Sidecar,
};
use metasort::sidecar::SidecarRecord;

fn config(separate: bool, guess: bool, prefer_filename: bool) -> Config {
    Config {
        separate_chat_and_screenshots: separate,
        guess_from_filename: guess,
        prefer_filename_for_chat: prefer_filename,
        guess_when_sidecar_unreadable: false,
    }
}

fn read(taken: Option<&str>) -> Sidecar {
    Sidecar::Read(SidecarRecord {
        taken: taken.map(|t| t.to_string()),
        latitude: None,
        longitude: None,
        altitude: None,
        camera_make: None,
        camera_model: None,
    })
}

fn dated(t: &str) -> ResolvedDate {
    ResolvedDate { stamp: Some(t.to_string()), provenance: Provenance::Sidecar }
}

fn segments(v: &[&str]) -> Vec<String> {
    v.iter().map(|s| s.to_string()).collect()
}

#[test]
fn unpaired_whatsapp_name_is_guessed() {
    let r = resolve_date(&config(false, true, false), "IMG-20220101-WA0005.jpg", &Sidecar::Missing);
    assert_eq!(r.stamp, Some("2022:01:01 00:00:00".to_string()));
    assert_eq!(r.provenance, Provenance::Filename);
}

#[test]
fn screenshot_is_dated_and_separated() {
    let cfg = config(true, true, false);
    let name = "Screenshot_2023-05-10-08-15-30.png";
    let r = resolve_date(&cfg, name, &Sidecar::Missing);
    assert_eq!(r.stamp, Some("2023:05:10 08:15:30".to_string()));
    assert_eq!(classify(&cfg, name, &r, "image/png"), Category::Screenshot);
    assert_eq!(
        destination(Category::Screenshot, &r.stamp, name),
        segments(&["Media Files", "Screenshots", "2023", "May", name])
    );
}

#[test]
fn screenshot_without_separation_is_a_photo() {
    let cfg = config(false, true, false);
    let name = "Screenshot_2023-05-10-08-15-30.png";
    let r = resolve_date(&cfg, name, &Sidecar::Missing);
    assert_eq!(classify(&cfg, name, &r, "image/png"), Category::Photo);
}

#[test]
fn mkv_regardless_of_date() {
    let cfg = config(true, true, false);
    let none = ResolvedDate { stamp: None, provenance: Provenance::FailedGuess };
    assert_eq!(classify(&cfg, "random_clip.mkv", &none, ""), Category::Mkv);
    let some = dated("2020:02:02 02:02:02");
    assert_eq!(classify(&cfg, "random_clip.mkv", &some, "video/x-matroska"), Category::Mkv);
    assert_eq!(classify(&cfg, "random_clip.MKV", &some, ""), Category::Mkv);
    assert_eq!(
        destination(Category::Mkv, &some.stamp, "random_clip.mkv"),
        segments(&["Media Files", "mkv_files", "random_clip.mkv"])
    );
}

#[test]
fn unmatched_unpaired_name_with_guessing_is_failed_guess() {
    let cfg = config(false, true, false);
    let r = resolve_date(&cfg, "holiday.jpg", &Sidecar::Missing);
    assert_eq!(r.stamp, None);
    assert_eq!(r.provenance, Provenance::FailedGuess);
    assert_eq!(classify(&cfg, "holiday.jpg", &r, "image/jpeg"), Category::UnknownTimeFailedGuess);
    assert_eq!(
        destination(Category::UnknownTimeFailedGuess, &r.stamp, "holiday.jpg"),
        segments(&["Media Files", "Unknown Time", "Failed Filename Guess", "holiday.jpg"])
    );
}

#[test]
fn unmatched_unpaired_name_without_guessing_is_unknown_time() {
    let cfg = config(false, false, false);
    let r = resolve_date(&cfg, "holiday.jpg", &Sidecar::Missing);
    assert_eq!(r.stamp, None);
    assert_eq!(r.provenance, Provenance::NotGuessed);
    assert_eq!(classify(&cfg, "holiday.jpg", &r, "image/jpeg"), Category::UnknownTime);
    assert_eq!(
        destination(Category::UnknownTime, &r.stamp, "holiday.jpg"),
        segments(&["Media Files", "Unknown Time", "holiday.jpg"])
    );
}

#[test]
fn guessing_off_does_not_read_filenames() {
    let r = resolve_date(&config(false, false, false), "IMG-20220101-WA0005.jpg", &Sidecar::Missing);
    assert_eq!(r.stamp, None);
    assert_eq!(r.provenance, Provenance::NotGuessed);
}

#[test]
fn sidecar_time_is_preferred() {
    let cfg = config(true, true, false);
    let r = resolve_date(&cfg, "IMG_20230101_123456.jpg", &read(Some("2019:07:08 09:10:11")));
    assert_eq!(r.stamp, Some("2019:07:08 09:10:11".to_string()));
    assert_eq!(r.provenance, Provenance::Sidecar);
}

#[test]
fn sidecar_without_time_falls_back_to_filename() {
    let cfg = config(false, true, false);
    let r = resolve_date(&cfg, "IMG_20230101_123456.jpg", &read(None));
    assert_eq!(r.stamp, Some("2023:01:01 12:34:56".to_string()));
    assert_eq!(r.provenance, Provenance::Filename);
}

#[test]
fn chat_file_prefers_filename_in_that_mode() {
    let cfg = config(true, true, true);
    let name = "IMG-20220101-WA0005.jpg";
    let r = resolve_date(&cfg, name, &read(Some("2024:01:01 00:00:00")));
    assert_eq!(r.stamp, Some("2022:01:01 00:00:00".to_string()));
    assert_eq!(r.provenance, Provenance::Filename);
    assert_eq!(classify(&cfg, name, &r, "image/jpeg"), Category::WhatsApp);
    // Without separation the file is no chat file and keeps its sidecar time.
    let r = resolve_date(&config(false, true, true), name, &read(Some("2024:01:01 00:00:00")));
    assert_eq!(r.stamp, Some("2024:01:01 00:00:00".to_string()));
}

#[test]
fn unreadable_sidecar_drops_the_date() {
    let cfg = config(false, true, false);
    let r = resolve_date(&cfg, "IMG_20230101_123456.jpg", &Sidecar::Unreadable);
    assert_eq!(r.stamp, None);
    assert_eq!(r.provenance, Provenance::NotGuessed);
    assert_eq!(classify(&cfg, "IMG_20230101_123456.jpg", &r, ""), Category::UnknownTime);
    let lenient = Config { guess_when_sidecar_unreadable: true, ..cfg };
    let r = resolve_date(&lenient, "IMG_20230101_123456.jpg", &Sidecar::Unreadable);
    assert_eq!(r.stamp, Some("2023:01:01 12:34:56".to_string()));
}

#[test]
fn videos_by_mime_or_extension() {
    let cfg = config(false, true, false);
    let d = dated("2021:03:04 05:06:07");
    assert_eq!(classify(&cfg, "clip.mov", &d, ""), Category::Video);
    assert_eq!(classify(&cfg, "clip.bin.jpg", &d, "video/mp4"), Category::Video);
    assert_eq!(classify(&cfg, "pic.jpg", &d, "image/jpeg"), Category::Photo);
    assert_eq!(classify(&cfg, "pic.jpg", &d, "Video/mp4"), Category::Photo);
    assert_eq!(
        destination(Category::Video, &d.stamp, "clip.mov"),
        segments(&["Media Files", "Videos", "2021", "March", "clip.mov"])
    );
}

#[test]
fn whatsapp_destination_has_year_and_month() {
    let d = dated("2022:12:01 00:00:00");
    assert_eq!(
        destination(Category::WhatsApp, &d.stamp, "IMG-20221201-WA0001.jpg"),
        segments(&["Media Files", "Whatsapp", "2022", "December", "IMG-20221201-WA0001.jpg"])
    );
}

#[test]
fn invalid_date_gets_no_year_folder() {
    let d = dated("2023:13:01 00:00:00");
    assert_eq!(
        destination(Category::Photo, &d.stamp, "x.jpg"),
        segments(&["Media Files", "Photos", "x.jpg"])
    );
    let d = dated("2023:02:30 00:00:00");
    assert_eq!(
        destination(Category::Photo, &d.stamp, "x.jpg"),
        segments(&["Media Files", "Photos", "x.jpg"])
    );
    assert_eq!(
        destination(Category::Photo, &None, "x.jpg"),
        segments(&["Media Files", "Photos", "x.jpg"])
    );
}

#[test]
fn destination_is_the_same_on_every_call() {
    let d = dated("2020:06:15 10:00:00");
    let a = destination(Category::Photo, &d.stamp, "x.jpg");
    let b = destination(Category::Photo, &d.stamp, "x.jpg");
    assert_eq!(a, b);
    assert_eq!(a, segments(&["Media Files", "Photos", "2020", "June", "x.jpg"]));
}

#[test]
fn month_names() {
    assert_eq!(month_name(1), "January");
    assert_eq!(month_name(5), "May");
    assert_eq!(month_name(12), "December");
    assert_eq!(month_name(0), "Unknown");
    assert_eq!(month_name(13), "Unknown");
}

#[test]
fn routing_a_file_gives_category_and_destination() {
    let cfg = config(true, true, false);
    let r = resolve_date(&cfg, "IMG-20220101-WA0005.jpg", &Sidecar::Missing);
    let routed = metasort::routing::route_file(&cfg, "IMG-20220101-WA0005.jpg", &r, "image/jpeg");
    assert_eq!(routed.category, Category::WhatsApp);
    assert_eq!(
        routed.destination,
        segments(&["Media Files", "Whatsapp", "2022", "January", "IMG-20220101-WA0005.jpg"])
    );
}

#[test]
fn lowered_parts_decide_the_category() {
    let sep = config(true, true, false);
    let dated_png = dated("2023:05:10 08:15:30");
    assert_eq!(
        classify_lowered(&sep, "screenshot_2023-05-10-08-15-30.png", "png", &dated_png, ""),
        Category::Screenshot
    );
    let failed = ResolvedDate { stamp: None, provenance: Provenance::FailedGuess };
    let not_guessed = ResolvedDate { stamp: None, provenance: Provenance::NotGuessed };
    assert_eq!(classify_lowered(&sep, "random_clip.mkv", "mkv", &failed, ""), Category::Mkv);
    assert_eq!(classify_lowered(&sep, "random_clip.mkv", "mkv", &dated_png, ""), Category::Mkv);
    assert_eq!(
        classify_lowered(&sep, "random_photo.jpg", "jpg", &failed, "image/jpeg"),
        Category::UnknownTimeFailedGuess
    );
    assert_eq!(
        classify_lowered(&sep, "random_photo.jpg", "jpg", &not_guessed, "image/jpeg"),
        Category::UnknownTime
    );
    // The extension given is taken as already lowercased.
    assert_eq!(classify_lowered(&sep, "random_clip.mkv", "MKV", &dated_png, ""), Category::Photo);
}
