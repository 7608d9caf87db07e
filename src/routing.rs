//! Resolving one timestamp per media file, classifying the file into one
//! category, and computing where it is filed.

use vstd::prelude::*;
use chrono::Datelike;
use crate::cascade::{date_from_name, extract_date_from_filename};
use crate::conventions::{
    is_screenshot, is_screenshot_lowered, is_screenshot_name, is_whatsapp, is_whatsapp_lowered,
    is_whatsapp_name, matches_screenshot_lowered, matches_whatsapp_lowered,
};
use crate::pairing::{extension, extension_of, is_video_ext, is_video_extension, same_text};
use crate::sidecar::{opt_view, SidecarRecord};
use crate::text::{chars_of, lower_of, lowercase, push_signed_decimal, signed_decimal, string_of};

verus! {

/// The operator's choices that steer resolution and classification.
#[derive(Clone, Copy, PartialEq, Eq, Structural, Debug)]
pub struct Config {
    /// WhatsApp files and screenshots are filed in folders of their own.
    pub separate_chat_and_screenshots: bool,
    /// A file whose sidecar gives no capture time has its date read from its
    /// filename.
    pub guess_from_filename: bool,
    /// For WhatsApp files and screenshots, a date read from the filename is
    /// preferred over the sidecar's (chat apps often lose the capture time).
    pub prefer_filename_for_chat: bool,
    /// A file whose sidecar cannot be read is treated as having none, and so
    /// may have its date guessed; otherwise it gets no date at all.
    pub guess_when_sidecar_unreadable: bool,
}

/// What was found of a media file's sidecar.
#[derive(Clone, Debug)]
pub enum Sidecar {
    /// The file has no sidecar.
    Missing,
    /// A sidecar stands beside the file but is not a readable document.
    Unreadable,
    /// The sidecar was read.
    Read(SidecarRecord),
}

/// Where a resolved timestamp came from, or why there is none.
#[derive(Clone, Copy, PartialEq, Eq, Structural, Debug)]
pub enum Provenance {
    /// The capture time recorded in the sidecar.
    Sidecar,
    /// Read from the filename by the cascade.
    Filename,
    /// Guessing from the filename was tried and no rule matched.
    FailedGuess,
    /// No date, and none was guessed.
    NotGuessed,
}

/// The one timestamp resolved for a media file, `YYYY:MM:DD HH:MM:SS`, and
/// its provenance.
#[derive(Clone, Debug)]
pub struct ResolvedDate {
    pub stamp: Option<String>,
    pub provenance: Provenance,
}

/// A file that separation files apart as a WhatsApp file or a screenshot.
pub open spec fn is_chat_file(cfg: Config, name: Seq<char>) -> bool {
    cfg.separate_chat_and_screenshots && (is_whatsapp_name(name) || is_screenshot_name(name))
}

pub open spec fn sidecar_taken(sc: Sidecar) -> Option<Seq<char>> {
    match sc {
        Sidecar::Read(rec) => opt_view(&rec.taken),
        _ => None,
    }
}

/// The timestamp and provenance resolved for the file `name` with sidecar
/// `sc`: the sidecar's capture time first (after the filename's, for chat
/// files when the operator prefers filenames), then, when guessing is on, the
/// filename's.
pub open spec fn resolution(cfg: Config, name: Seq<char>, sc: Sidecar) -> (
    Option<Seq<char>>,
    Provenance,
) {
    let guess = date_from_name(name);
    if sc is Unreadable && !cfg.guess_when_sidecar_unreadable {
        (None, Provenance::NotGuessed)
    } else if cfg.prefer_filename_for_chat && is_chat_file(cfg, name) && guess is Some {
        (guess, Provenance::Filename)
    } else if sidecar_taken(sc) is Some {
        (sidecar_taken(sc), Provenance::Sidecar)
    } else if !cfg.guess_from_filename {
        (None, Provenance::NotGuessed)
    } else if guess is Some {
        (guess, Provenance::Filename)
    } else {
        (None, Provenance::FailedGuess)
    }
}

/// Whether the file name `name` is filed apart as a WhatsApp file or a
/// screenshot.
pub fn chat_file(cfg: &Config, name: &str) -> (r: bool)
    ensures
        r == is_chat_file(*cfg, name@),
{
    cfg.separate_chat_and_screenshots && (is_whatsapp(name) || is_screenshot(name))
}

/// Resolves the one timestamp of the media file `name`.
pub fn resolve_date(cfg: &Config, name: &str, sc: &Sidecar) -> (r: ResolvedDate)
    ensures
        (opt_view(&r.stamp), r.provenance) == resolution(*cfg, name@, *sc),
{
    if let Sidecar::Unreadable = sc {
        if !cfg.guess_when_sidecar_unreadable {
            return ResolvedDate { stamp: None, provenance: Provenance::NotGuessed };
        }
    }
    let guess = extract_date_from_filename(name);
    if cfg.prefer_filename_for_chat && guess.is_some() && chat_file(cfg, name) {
        return ResolvedDate { stamp: guess, provenance: Provenance::Filename };
    }
    if let Sidecar::Read(rec) = sc {
        if let Some(t) = &rec.taken {
            return ResolvedDate { stamp: Some(t.clone()), provenance: Provenance::Sidecar };
        }
    }
    if !cfg.guess_from_filename {
        ResolvedDate { stamp: None, provenance: Provenance::NotGuessed }
    } else if guess.is_some() {
        ResolvedDate { stamp: guess, provenance: Provenance::Filename }
    } else {
        ResolvedDate { stamp: None, provenance: Provenance::FailedGuess }
    }
}

/// The category that decides where a media file is filed.
#[derive(Clone, Copy, PartialEq, Eq, Structural, Debug)]
pub enum Category {
    Photo,
    Video,
    WhatsApp,
    Screenshot,
    Mkv,
    UnknownTime,
    UnknownTimeFailedGuess,
}

/// The lowercased extension of the file name, empty when it has none.
pub open spec fn lowered_ext(name: Seq<char>) -> Seq<char> {
    match extension_of(name) {
        Some(e) => lower_of(e),
        None => Seq::empty(),
    }
}

pub open spec fn starts_with(s: Seq<char>, p: Seq<char>) -> bool {
    p.len() <= s.len() && s.subrange(0, p.len() as int) == p
}

/// The category of the file `name` with resolved timestamp `stamp` and MIME
/// type `mime`: the first rule that applies decides.
pub open spec fn category_of(
    cfg: Config,
    name: Seq<char>,
    stamp: Option<Seq<char>>,
    provenance: Provenance,
    mime: Seq<char>,
) -> Category {
    category_from_lowered(cfg, lower_of(name), lowered_ext(name), stamp, provenance, mime)
}

/// The category of a file from its lowercased name `lname`, its lowercased
/// extension `lext`, its resolved timestamp `stamp` and MIME type `mime`: the
/// first rule that applies decides.
pub open spec fn category_from_lowered(
    cfg: Config,
    lname: Seq<char>,
    lext: Seq<char>,
    stamp: Option<Seq<char>>,
    provenance: Provenance,
    mime: Seq<char>,
) -> Category {
    if cfg.separate_chat_and_screenshots && is_whatsapp_lowered(lname) {
        Category::WhatsApp
    } else if cfg.separate_chat_and_screenshots && is_screenshot_lowered(lname) {
        Category::Screenshot
    } else if lext == "mkv"@ {
        Category::Mkv
    } else if stamp is None && provenance == Provenance::FailedGuess {
        Category::UnknownTimeFailedGuess
    } else if stamp is None {
        Category::UnknownTime
    } else if starts_with(mime, "video"@) || is_video_ext(lext) {
        Category::Video
    } else {
        Category::Photo
    }
}

/// Whether `s` starts with `p`.
pub fn text_starts_with(s: &str, p: &str) -> (r: bool)
    ensures
        r == starts_with(s@, p@),
{
    let a = chars_of(s);
    let b = chars_of(p);
    if b.len() > a.len() {
        return false;
    }
    let mut i: usize = 0;
    while i < b.len()
        invariant
            a@ == s@,
            b@ == p@,
            b@.len() <= a@.len(),
            i <= b@.len(),
            forall|j: int| 0 <= j < i ==> a@[j] == b@[j],
        decreases b@.len() - i,
    {
        if a[i] != b[i] {
            assert(a@.subrange(0, b@.len() as int)[i as int] != b@[i as int]);
            return false;
        }
        i = i + 1;
    }
    assert(a@.subrange(0, b@.len() as int) =~= b@);
    true
}

/// The lowercased extension of `name`, empty when it has none.
pub fn lowered_extension(name: &str) -> (r: String)
    ensures
        r@ == lowered_ext(name@),
{
    match extension(name) {
        Some(e) => lowercase(e.as_str()),
        None => String::new(),
    }
}

/// Classifies the media file `name`, whose timestamp resolved to `date` and
/// whose MIME type was found to be `mime` (empty when unknown).
pub fn classify(cfg: &Config, name: &str, date: &ResolvedDate, mime: &str) -> (r: Category)
    ensures
        r == category_of(*cfg, name@, opt_view(&date.stamp), date.provenance, mime@),
{
    let lowered_name = lowercase(name);
    let ext = lowered_extension(name);
    classify_lowered(cfg, lowered_name.as_str(), ext.as_str(), date, mime)
}

/// Classifies a media file from its lowercased name `lowered_name` and
/// lowercased extension `lowered_ext` (empty when it has none), its resolved
/// timestamp and its MIME type.
pub fn classify_lowered(
    cfg: &Config,
    lowered_name: &str,
    lowered_ext: &str,
    date: &ResolvedDate,
    mime: &str,
) -> (r: Category)
    ensures
        r == category_from_lowered(
            *cfg,
            lowered_name@,
            lowered_ext@,
            opt_view(&date.stamp),
            date.provenance,
            mime@,
        ),
{
    if cfg.separate_chat_and_screenshots && matches_whatsapp_lowered(lowered_name) {
        Category::WhatsApp
    } else if cfg.separate_chat_and_screenshots && matches_screenshot_lowered(lowered_name) {
        Category::Screenshot
    } else if same_text(lowered_ext, "mkv") {
        Category::Mkv
    } else if date.stamp.is_none() && date.provenance == Provenance::FailedGuess {
        Category::UnknownTimeFailedGuess
    } else if date.stamp.is_none() {
        Category::UnknownTime
    } else if text_starts_with(mime, "video") || is_video_extension(lowered_ext) {
        Category::Video
    } else {
        Category::Photo
    }
}

/// Classification is total and follows a strict precedence: a file falls in
/// exactly one category, the one of the first rule whose condition it meets.
pub proof fn lemma_category_precedence(
    cfg: Config,
    name: Seq<char>,
    stamp: Option<Seq<char>>,
    provenance: Provenance,
    mime: Seq<char>,
)
    ensures
        ({
            let c = category_of(cfg, name, stamp, provenance, mime);
            let wa = cfg.separate_chat_and_screenshots && is_whatsapp_name(name);
            let sc = cfg.separate_chat_and_screenshots && is_screenshot_name(name);
            let mkv = lowered_ext(name) == "mkv"@;
            let failed = stamp is None && provenance == Provenance::FailedGuess;
            let undated = stamp is None;
            let video = starts_with(mime, "video"@) || is_video_ext(lowered_ext(name));
            &&& (c == Category::WhatsApp) == wa
            &&& (c == Category::Screenshot) == (!wa && sc)
            &&& (c == Category::Mkv) == (!wa && !sc && mkv)
            &&& (c == Category::UnknownTimeFailedGuess) == (!wa && !sc && !mkv && failed)
            &&& (c == Category::UnknownTime) == (!wa && !sc && !mkv && !failed && undated)
            &&& (c == Category::Video) == (!wa && !sc && !mkv && !undated && video)
            &&& (c == Category::Photo) == (!wa && !sc && !mkv && !undated && !video)
        }),
{
}

/// An MKV file that is not filed apart as a chat file or screenshot is
/// filed as MKV whatever its timestamp, provenance and MIME type.
pub proof fn lemma_mkv_ignores_date(
    cfg: Config,
    name: Seq<char>,
    stamp: Option<Seq<char>>,
    provenance: Provenance,
    mime: Seq<char>,
)
    requires
        lowered_ext(name) == "mkv"@,
        !(cfg.separate_chat_and_screenshots && (is_whatsapp_name(name) || is_screenshot_name(
            name,
        ))),
    ensures
        category_of(cfg, name, stamp, provenance, mime) == Category::Mkv,
{
}

/// A file without a readable date in its sidecar, whose name matches no rule
/// of the cascade and is neither MKV nor filed apart as a chat file, is filed
/// under the failed-guess category when guessing is on and under unknown
/// time when it is off.
pub proof fn lemma_unmatched_name_is_unknown(cfg: Config, name: Seq<char>, sc: Sidecar, mime: Seq<char>)
    requires
        date_from_name(name) is None,
        sidecar_taken(sc) is None,
        !(sc is Unreadable),
        lowered_ext(name) != "mkv"@,
        !is_chat_file(cfg, name),
    ensures
        ({
            let (stamp, prov) = resolution(cfg, name, sc);
            category_of(cfg, name, stamp, prov, mime) == if cfg.guess_from_filename {
                Category::UnknownTimeFailedGuess
            } else {
                Category::UnknownTime
            }
        }),
{
}

/// The English name of month `m`, `Unknown` outside 1 to 12.
pub open spec fn month_name_of(m: int) -> Seq<char> {
    if m == 1 {
        "January"@
    } else if m == 2 {
        "February"@
    } else if m == 3 {
        "March"@
    } else if m == 4 {
        "April"@
    } else if m == 5 {
        "May"@
    } else if m == 6 {
        "June"@
    } else if m == 7 {
        "July"@
    } else if m == 8 {
        "August"@
    } else if m == 9 {
        "September"@
    } else if m == 10 {
        "October"@
    } else if m == 11 {
        "November"@
    } else if m == 12 {
        "December"@
    } else {
        "Unknown"@
    }
}

/// The English name of month `month`, `Unknown` outside 1 to 12.
pub fn month_name(month: u32) -> (r: &'static str)
    ensures
        r@ == month_name_of(month as int),
{
    if month == 1 {
        "January"
    } else if month == 2 {
        "February"
    } else if month == 3 {
        "March"
    } else if month == 4 {
        "April"
    } else if month == 5 {
        "May"
    } else if month == 6 {
        "June"
    } else if month == 7 {
        "July"
    } else if month == 8 {
        "August"
    } else if month == 9 {
        "September"
    } else if month == 10 {
        "October"
    } else if month == 11 {
        "November"
    } else if month == 12 {
        "December"
    } else {
        "Unknown"
    }
}

/// The year and month of a `YYYY:MM:DD HH:MM:SS` timestamp as chrono reads
/// it, or `None` when it is no valid date and time.
pub uninterp spec fn exif_year_month(stamp: Seq<char>) -> Option<(int, int)>;

/// Relies on chrono's `NaiveDateTime::parse_from_str` with the format
/// `%Y:%m:%d %H:%M:%S`, and on `Datelike::year` and `Datelike::month`, whose
/// month lies in 1 to 12.
#[verifier::external_body]
fn parse_year_month(stamp: &str) -> (r: Option<(i32, u32)>)
    ensures
        match r {
            Some((y, m)) => exif_year_month(stamp@) == Some((y as int, m as int)) && 1 <= m <= 12,
            None => exif_year_month(stamp@) is None,
        },
{
    match chrono::NaiveDateTime::parse_from_str(stamp, "%Y:%m:%d %H:%M:%S") {
        Ok(dt) => Some((dt.year(), dt.month())),
        Err(_) => None,
    }
}

/// The folder, one name per level, that files of category `c` go to.
pub open spec fn category_folder(c: Category) -> Seq<Seq<char>> {
    match c {
        Category::Photo => seq!["Photos"@],
        Category::Video => seq!["Videos"@],
        Category::WhatsApp => seq!["Whatsapp"@],
        Category::Screenshot => seq!["Screenshots"@],
        Category::Mkv => seq!["mkv_files"@],
        Category::UnknownTime => seq!["Unknown Time"@],
        Category::UnknownTimeFailedGuess => seq!["Unknown Time"@, "Failed Filename Guess"@],
    }
}

/// Categories whose folders are split by year and month.
pub open spec fn is_dated_category(c: Category) -> bool {
    c is Photo || c is Video || c is WhatsApp || c is Screenshot
}

/// The year and month folders for a file of category `c` with timestamp
/// `stamp`: none unless the category is dated and the timestamp parses.
pub open spec fn date_folders(c: Category, stamp: Option<Seq<char>>) -> Seq<Seq<char>> {
    match stamp {
        Some(t) => if is_dated_category(c) && exif_year_month(t) is Some {
            seq![signed_decimal(exif_year_month(t).unwrap().0), month_name_of(exif_year_month(t).unwrap().1)]
        } else {
            Seq::empty()
        },
        None => Seq::empty(),
    }
}

/// Where the file `name` goes under the output root, one name per level:
/// `Media Files/<category folder>[/<year>/<month name>]/<name>`.
pub open spec fn destination_of(c: Category, stamp: Option<Seq<char>>, name: Seq<char>) -> Seq<
    Seq<char>,
> {
    seq!["Media Files"@] + category_folder(c) + date_folders(c, stamp) + seq![name]
}

pub open spec fn views(v: Seq<String>) -> Seq<Seq<char>> {
    v.map_values(|s: String| s@)
}

/// The path, one name per level below the output root, where the file
/// `name` of category `c` with timestamp `stamp` is filed.
pub fn destination(c: Category, stamp: &Option<String>, name: &str) -> (r: Vec<String>)
    ensures
        views(r@) == destination_of(c, opt_view(stamp), name@),
{
    let mut r: Vec<String> = Vec::new();
    r.push("Media Files".to_owned());
    match c {
        Category::Photo => r.push("Photos".to_owned()),
        Category::Video => r.push("Videos".to_owned()),
        Category::WhatsApp => r.push("Whatsapp".to_owned()),
        Category::Screenshot => r.push("Screenshots".to_owned()),
        Category::Mkv => r.push("mkv_files".to_owned()),
        Category::UnknownTime => r.push("Unknown Time".to_owned()),
        Category::UnknownTimeFailedGuess => {
            r.push("Unknown Time".to_owned());
            r.push("Failed Filename Guess".to_owned());
        },
    }
    let ghost head = views(r@);
    assert(head =~= seq!["Media Files"@] + category_folder(c));
    let dated = match c {
        Category::Photo | Category::Video | Category::WhatsApp | Category::Screenshot => true,
        _ => false,
    };
    if dated {
        if let Some(t) = stamp {
            if let Some((y, m)) = parse_year_month(t.as_str()) {
                let mut yc: Vec<char> = Vec::new();
                push_signed_decimal(&mut yc, y as i64);
                assert(yc@ =~= signed_decimal(y as int));
                r.push(string_of(&yc));
                r.push(month_name(m).to_owned());
            }
        }
    }
    assert(views(r@) =~= head + date_folders(c, opt_view(stamp)));
    r.push(name.to_owned());
    assert(views(r@) =~= destination_of(c, opt_view(stamp), name@));
    r
}

/// The outcome of classifying one media file: its category and where it is
/// filed below the output root.
pub struct Routed {
    pub category: Category,
    pub destination: Vec<String>,
}

/// Classifies the media file `name` and computes its destination.
pub fn route_file(cfg: &Config, name: &str, date: &ResolvedDate, mime: &str) -> (r: Routed)
    ensures
        r.category == category_of(*cfg, name@, opt_view(&date.stamp), date.provenance, mime@),
        views(r.destination@) == destination_of(r.category, opt_view(&date.stamp), name@),
{
    let category = classify(cfg, name, date, mime);
    let destination = destination(category, &date.stamp, name);
    Routed { category, destination }
}

/// The destination depends on the category, the timestamp and the file
/// name alone: equal inputs give equal destinations, call after call.
pub proof fn lemma_destination_is_pure(
    c1: Category,
    s1: Option<Seq<char>>,
    n1: Seq<char>,
    c2: Category,
    s2: Option<Seq<char>>,
    n2: Seq<char>,
)
    requires
        c1 == c2,
        s1 == s2,
        n1 == n2,
    ensures
        destination_of(c1, s1, n1) == destination_of(c2, s2, n2),
{
}

} // verus!
