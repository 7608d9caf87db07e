use metasort::pairing::{
    extension, is_media_extension, is_video_extension, media_extension, pair_media,
    sidecar_names, sidecar_rename, Discovered, SidecarKind,
};

fn found(name: &str, ext_json: bool, plain_json: bool) -> Discovered {
    found_in("album", name, ext_json, plain_json)
}

fn found_in(dir: &str, name: &str, ext_json: bool, plain_json: bool) -> Discovered {
    Discovered {
        dir: dir.to_string(),
        name: name.to_string(),
        ext_json_exists: ext_json,
        plain_json_exists: plain_json,
    }
}

#[test]
fn extension_is_after_last_dot() {
    assert_eq!(extension("a.b.c"), Some("c".to_string()));
    assert_eq!(extension("photo.JPG"), Some("JPG".to_string()));
    assert_eq!(extension("noext"), None);
    assert_eq!(extension(".hidden"), None);
    assert_eq!(extension(".hidden.png"), Some("png".to_string()));
    assert_eq!(extension("trailing."), Some("".to_string()));
}

#[test]
fn media_extension_is_lowercased_and_recognised() {
    assert_eq!(media_extension("IMG_001.JPG"), Some("jpg".to_string()));
    assert_eq!(media_extension("raw.CR2"), Some("cr2".to_string()));
    assert_eq!(media_extension("movie.mkv"), Some("mkv".to_string()));
    assert_eq!(media_extension("notes.txt"), None);
    assert_eq!(media_extension("IMG_001.jpg.json"), None);
    assert_eq!(media_extension("jpg"), None);
}

#[test]
fn extension_sets() {
    assert!(is_media_extension("heic"));
    assert!(is_media_extension("xvid"));
    assert!(!is_media_extension("JPG"));
    assert!(is_video_extension("mov"));
    assert!(!is_video_extension("mkv"));
    assert!(!is_video_extension("jpg"));
}

#[test]
fn sidecar_names_in_trial_order() {
    assert_eq!(
        sidecar_names("IMG_001.JPG"),
        Some(("IMG_001.jpg.json".to_string(), "IMG_001.json".to_string()))
    );
    assert_eq!(
        sidecar_names("holiday.v2.mp4"),
        Some(("holiday.v2.mp4.json".to_string(), "holiday.v2.json".to_string()))
    );
    assert_eq!(sidecar_names("archive.tar.gz"), None);
}

#[test]
fn pairing_takes_first_existing_sidecar_and_partitions() {
    let files = vec![
        found("a.jpg", true, true),
        found("b.jpg", false, false),
        found("c.jpg", false, true),
        found("d.mp4", false, false),
    ];
    let p = pair_media(&files);
    assert_eq!(p.paired.len(), 2);
    assert_eq!(p.paired[0].media, 0);
    assert_eq!(p.paired[0].sidecar, SidecarKind::WithExtension);
    assert_eq!(p.paired[1].media, 2);
    assert_eq!(p.paired[1].sidecar, SidecarKind::Plain);
    assert_eq!(p.unpaired, vec![1, 3]);
    for i in 0..files.len() {
        let in_paired = p.paired.iter().filter(|q| q.media == i).count();
        let in_unpaired = p.unpaired.iter().filter(|u| **u == i).count();
        assert_eq!(in_paired + in_unpaired, 1);
    }
}

#[test]
fn pairing_of_nothing_is_empty() {
    let p = pair_media(&Vec::new());
    assert!(p.paired.is_empty());
    assert!(p.unpaired.is_empty());
}

#[test]
fn stray_sidecar_is_renamed() {
    assert_eq!(
        sidecar_rename("IMG.jpg", "IMG.jpg.supplemental-metadata.json"),
        Some("IMG.jpg.json".to_string())
    );
    assert_eq!(sidecar_rename("IMG.jpg", "IMG.jpg(1).json"), Some("IMG.jpg.json".to_string()));
    assert_eq!(sidecar_rename("IMG.jpg", "IMG.jpg.json"), None);
    assert_eq!(sidecar_rename("IMG.jpg", "Other.json"), None);
    assert_eq!(sidecar_rename("IMG.jpg", "IMG.jpg.txt"), None);
}

#[test]
fn a_shared_plain_sidecar_serves_only_the_first_file() {
    // IMG.jpg and IMG.png both see IMG.json, the only sidecar there.
    let files = vec![found("IMG.jpg", false, true), found("IMG.png", false, true)];
    let p = pair_media(&files);
    assert_eq!(p.paired.len(), 1);
    assert_eq!(p.paired[0].media, 0);
    assert_eq!(p.paired[0].sidecar, SidecarKind::Plain);
    assert_eq!(p.unpaired, vec![1]);
}

#[test]
fn a_later_file_falls_back_to_its_own_sidecar() {
    // IMG.jpg takes IMG.jpg.json; IMG.png then takes IMG.json.
    let files = vec![found("IMG.jpg", true, true), found("IMG.png", false, true)];
    let p = pair_media(&files);
    assert_eq!(p.paired.len(), 2);
    assert_eq!(p.paired[0].sidecar, SidecarKind::WithExtension);
    assert_eq!(p.paired[1].sidecar, SidecarKind::Plain);
    // IMG.json taken first by IMG.jpg leaves IMG.png its own IMG.png.json.
    let files = vec![found("IMG.jpg", false, true), found("IMG.png", true, true)];
    let p = pair_media(&files);
    assert_eq!(p.paired[1].sidecar, SidecarKind::WithExtension);
    assert!(p.unpaired.is_empty());
}

#[test]
fn same_names_in_different_folders_do_not_clash() {
    let files = vec![found_in("a", "IMG.jpg", false, true), found_in("b", "IMG.png", false, true)];
    let p = pair_media(&files);
    assert_eq!(p.paired.len(), 2);
}

#[test]
fn extensions_differing_in_case_share_one_sidecar_name() {
    // IMG.JPG and IMG.jpg both name IMG.jpg.json.
    let files = vec![found("IMG.JPG", true, false), found("IMG.jpg", true, false)];
    let p = pair_media(&files);
    assert_eq!(p.paired.len(), 1);
    assert_eq!(p.unpaired, vec![1]);
}
