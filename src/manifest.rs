//! The manifest: one row per processed file, kept per report sheet, with the
//! file's size written for people.

use vstd::prelude::*;
use crate::routing::Category;
use crate::sidecar::opt_view;
use crate::text::{decimal, digit, push_decimal, string_of, two_digits};

verus! {

pub const KB: u64 = 1024;

pub const MB: u64 = 1048576;

pub const GB: u64 = 1073741824;

/// `v / d` in hundredths, rounded to the nearest, ties to even.
pub open spec fn hundredths(v: nat, d: nat) -> nat {
    let q = (v * 100) / d;
    let r = (v * 100) % d;
    if 2 * r > d || (2 * r == d && q % 2 == 1) {
        q + 1
    } else {
        q
    }
}

/// `v / d` written with two decimal places.
pub open spec fn two_places(v: nat, d: nat) -> Seq<char> {
    let h = hundredths(v, d);
    decimal(h / 100) + seq!['.'] + two_digits((h % 100) as int)
}

/// A byte count for people: bytes below a kibibyte, otherwise kibi-, mebi-
/// or gibibytes with two decimal places.
pub open spec fn size_text(size: nat) -> Seq<char> {
    if size >= GB {
        two_places(size, GB as nat) + " GB"@
    } else if size >= MB {
        two_places(size, MB as nat) + " MB"@
    } else if size >= KB {
        two_places(size, KB as nat) + " KB"@
    } else {
        decimal(size) + " B"@
    }
}

fn push_text(out: &mut Vec<char>, t: &str)
    ensures
        final(out)@ == old(out)@ + t@,
{
    let cs = crate::text::chars_of(t);
    let mut i: usize = 0;
    while i < cs.len()
        invariant
            i <= cs@.len(),
            cs@ == t@,
            out@ == old(out)@ + cs@.subrange(0, i as int),
        decreases cs@.len() - i,
    {
        out.push(cs[i]);
        i = i + 1;
        assert(out@ =~= old(out)@ + cs@.subrange(0, i as int));
    }
    assert(cs@.subrange(0, i as int) =~= t@);
}

fn push_two_places(out: &mut Vec<char>, v: u64, d: u64)
    requires
        d > 0,
    ensures
        final(out)@ == old(out)@ + two_places(v as nat, d as nat),
{
    let big = (v as u128) * 100;
    let q = big / (d as u128);
    let r = big % (d as u128);
    let h = if 2 * r > d as u128 || (2 * r == d as u128 && q % 2 == 1) {
        q + 1
    } else {
        q
    };
    assert(h == hundredths(v as nat, d as nat));
    assert(q <= big) by (nonlinear_arith)
        requires
            q == big / (d as u128),
            d > 0,
    ;
    let whole = (h / 100) as u64;
    let frac = (h % 100) as u64;
    push_decimal(out, whole);
    out.push('.');
    out.push(digit(frac / 10));
    out.push(digit(frac % 10));
    assert(final(out)@ =~= old(out)@ + two_places(v as nat, d as nat));
}

/// The size `size` in bytes written for people, as `512 B`, `1.50 KB`,
/// `2.00 MB` or `3.25 GB`, the two decimals rounded to the nearest.
pub fn human_readable_size(size: u64) -> (r: String)
    ensures
        r@ == size_text(size as nat),
{
    let mut out: Vec<char> = Vec::new();
    if size >= GB {
        push_two_places(&mut out, size, GB);
        push_text(&mut out, " GB");
    } else if size >= MB {
        push_two_places(&mut out, size, MB);
        push_text(&mut out, " MB");
    } else if size >= KB {
        push_two_places(&mut out, size, KB);
        push_text(&mut out, " KB");
    } else {
        push_decimal(&mut out, size);
        push_text(&mut out, " B");
    }
    assert(out@ =~= size_text(size as nat));
    string_of(&out)
}

/// A report sheet of the manifest.
#[derive(Clone, Copy, PartialEq, Eq, Structural, Debug)]
pub enum Sheet {
    Photos,
    Videos,
    UnknownTime,
    Mkv,
    FailedGuess,
}

/// The sheet that lists files of category `c`: WhatsApp files and
/// screenshots are listed with the photos.
pub open spec fn sheet_of(c: Category) -> Sheet {
    match c {
        Category::Photo | Category::WhatsApp | Category::Screenshot => Sheet::Photos,
        Category::Video => Sheet::Videos,
        Category::Mkv => Sheet::Mkv,
        Category::UnknownTime => Sheet::UnknownTime,
        Category::UnknownTimeFailedGuess => Sheet::FailedGuess,
    }
}

/// The sheet that lists files of category `c`.
pub fn sheet_for(c: Category) -> (r: Sheet)
    ensures
        r == sheet_of(c),
{
    match c {
        Category::Photo | Category::WhatsApp | Category::Screenshot => Sheet::Photos,
        Category::Video => Sheet::Videos,
        Category::Mkv => Sheet::Mkv,
        Category::UnknownTime => Sheet::UnknownTime,
        Category::UnknownTimeFailedGuess => Sheet::FailedGuess,
    }
}

pub open spec fn sheet_file_name_of(s: Sheet) -> Seq<char> {
    match s {
        Sheet::Photos => "photos.csv"@,
        Sheet::Videos => "videos.csv"@,
        Sheet::UnknownTime => "unknown_time.csv"@,
        Sheet::Mkv => "mkv_files.csv"@,
        Sheet::FailedGuess => "failed_filename_guess.csv"@,
    }
}

/// The file name under which the sheet is written.
pub fn sheet_file_name(s: Sheet) -> (r: &'static str)
    ensures
        r@ == sheet_file_name_of(s),
{
    match s {
        Sheet::Photos => "photos.csv",
        Sheet::Videos => "videos.csv",
        Sheet::UnknownTime => "unknown_time.csv",
        Sheet::Mkv => "mkv_files.csv",
        Sheet::FailedGuess => "failed_filename_guess.csv",
    }
}

/// One row of a sheet: its number from 1, the file name, the file type, the
/// resolved timestamp (empty when none), the resolution, the size written for
/// people, and the size in bytes.
#[derive(Clone, Debug)]
pub struct ManifestRow {
    pub number: usize,
    pub file_name: String,
    pub file_type: String,
    pub taken: String,
    pub resolution: String,
    pub size_text: String,
    pub size: u64,
}

/// The rows appended so far, one list per sheet, each in order of arrival.
pub struct Manifest {
    photos: Vec<ManifestRow>,
    videos: Vec<ManifestRow>,
    unknown_time: Vec<ManifestRow>,
    mkv: Vec<ManifestRow>,
    failed_guess: Vec<ManifestRow>,
}

impl Manifest {
    /// The rows of sheet `s`.
    pub closed spec fn sheet(&self, s: Sheet) -> Seq<ManifestRow> {
        match s {
            Sheet::Photos => self.photos@,
            Sheet::Videos => self.videos@,
            Sheet::UnknownTime => self.unknown_time@,
            Sheet::Mkv => self.mkv@,
            Sheet::FailedGuess => self.failed_guess@,
        }
    }

    /// Every row is numbered by its place in its sheet, from 1.
    pub open spec fn wf(&self) -> bool {
        forall|s: Sheet, i: int|
            0 <= i < self.sheet(s).len() ==> (#[trigger] self.sheet(s)[i]).number == i + 1
    }

    /// An empty manifest.
    pub fn new() -> (r: Manifest)
        ensures
            r.wf(),
            forall|s: Sheet| (#[trigger] r.sheet(s)).len() == 0,
    {
        Manifest {
            photos: Vec::new(),
            videos: Vec::new(),
            unknown_time: Vec::new(),
            mkv: Vec::new(),
            failed_guess: Vec::new(),
        }
    }

    /// The rows of sheet `s`, in order.
    pub fn rows(&self, s: Sheet) -> (r: &Vec<ManifestRow>)
        ensures
            r@ == self.sheet(s),
    {
        match s {
            Sheet::Photos => &self.photos,
            Sheet::Videos => &self.videos,
            Sheet::UnknownTime => &self.unknown_time,
            Sheet::Mkv => &self.mkv,
            Sheet::FailedGuess => &self.failed_guess,
        }
    }

    /// Appends the row for a file of category `c` to the sheet of that
    /// category; the other sheets are left as they were.
    pub fn record(
        &mut self,
        c: Category,
        file_name: String,
        file_type: String,
        taken: Option<String>,
        resolution: String,
        size: u64,
    )
        requires
            old(self).wf(),
            old(self).sheet(sheet_of(c)).len() < usize::MAX,
        ensures
            final(self).wf(),
            final(self).sheet(sheet_of(c)).len() == old(self).sheet(sheet_of(c)).len() + 1,
            final(self).sheet(sheet_of(c)).subrange(0, old(self).sheet(sheet_of(c)).len() as int)
                == old(self).sheet(sheet_of(c)),
            ({
                let row = final(self).sheet(sheet_of(c)).last();
                &&& row.number == final(self).sheet(sheet_of(c)).len()
                &&& row.file_name == file_name
                &&& row.file_type == file_type
                &&& row.taken@ == match opt_view(&taken) {
                    Some(t) => t,
                    None => Seq::empty(),
                }
                &&& row.resolution == resolution
                &&& row.size_text@ == size_text(size as nat)
                &&& row.size == size
            }),
            forall|s: Sheet| s != sheet_of(c) ==> #[trigger] final(self).sheet(s) == old(self).sheet(s),
    {
        let taken = match taken {
            Some(t) => t,
            None => String::new(),
        };
        let size_text = human_readable_size(size);
        let sheet = sheet_for(c);
        let number = self.rows(sheet).len() + 1;
        let row = ManifestRow { number, file_name, file_type, taken, resolution, size_text, size };
        match sheet {
            Sheet::Photos => self.photos.push(row),
            Sheet::Videos => self.videos.push(row),
            Sheet::UnknownTime => self.unknown_time.push(row),
            Sheet::Mkv => self.mkv.push(row),
            Sheet::FailedGuess => self.failed_guess.push(row),
        }
        proof {
            assert forall|s: Sheet, i: int| 0 <= i < self.sheet(s).len() implies (
            #[trigger] self.sheet(s)[i]).number == i + 1 by {
                if s != sheet {
                    assert(self.sheet(s) == old(self).sheet(s));
                } else if i < old(self).sheet(s).len() {
                    assert(self.sheet(s)[i] == old(self).sheet(s)[i]);
                    assert(old(self).sheet(s)[i].number == i + 1);
                }
            }
            assert(self.sheet(sheet).subrange(0, old(self).sheet(sheet).len() as int) =~= old(
                self,
            ).sheet(sheet));
        }
    }
}

} // verus!
