use metasort::conventions::{
    is_screenshot, is_whatsapp, matches_screenshot_lowered, matches_whatsapp_lowered,
};

#[test]
fn whatsapp_names_are_recognised() {
    assert!(is_whatsapp("IMG-20220101-WA0005.jpg"));
    assert!(is_whatsapp("VID-20220101-WA0001.mp4"));
    assert!(is_whatsapp("WA0001.jpg"));
    assert!(is_whatsapp("IMG-WA0007.jpeg"));
    assert!(is_whatsapp("WhatsApp Image 2022-01-01 at 12.34.56.jpg"));
    assert!(is_whatsapp("WhatsApp Video 2022-01-01 at 12.34.56.mp4"));
}

#[test]
fn whatsapp_match_ignores_letter_case() {
    assert!(is_whatsapp("img-20220101-wa0005.jpg"));
    assert!(is_whatsapp("WHATSAPP IMAGE 2022-01-01 AT 12.34.56.JPG"));
}

#[test]
fn non_whatsapp_names_are_not_recognised() {
    assert!(!is_whatsapp("water.jpg"));
    assert!(!is_whatsapp("my IMG-20220101-WA0005.jpg"));
    assert!(!is_whatsapp(""));
}

#[test]
fn lowered_whatsapp_matcher_is_case_exact() {
    assert!(matches_whatsapp_lowered("img-20220101-wa0005.jpg"));
    assert!(!matches_whatsapp_lowered("IMG-20220101-WA0005.jpg"));
}

#[test]
fn screenshot_names_are_recognised() {
    assert!(is_screenshot("Screenshot_2023-05-10-08-15-30.png"));
    assert!(is_screenshot("Screenshot 2023-05-10 08.15.30.png"));
    assert!(is_screenshot("Screenshot2023-05-10081530.png"));
    assert!(is_screenshot("Screenshot (12).png"));
    assert!(is_screenshot("Screen Shot 2023-01-01 at 12.00.00.png"));
    assert!(is_screenshot("Screenshot_20230101-120000.png"));
    assert!(is_screenshot("Bildschirmfoto 2023-01-01.png"));
    assert!(is_screenshot("Capture d'écran 2023.png"));
    assert!(is_screenshot("PrtSc.png"));
}

#[test]
fn localized_screenshot_names_in_any_case() {
    assert!(is_screenshot("Снимок экрана 2023.png"));
    assert!(is_screenshot("スクリーンショット 2023.png"));
    assert!(is_screenshot("SKÄRMBILD 1.png"));
    assert!(matches_screenshot_lowered("ekran görüntüsü.png"));
}

#[test]
fn non_screenshot_names_are_not_recognised() {
    assert!(!is_screenshot("my screenshot.png"));
    assert!(!is_screenshot("Screenshot (x).png"));
    assert!(!is_screenshot("holiday.jpg"));
}
