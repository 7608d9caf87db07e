//! What is said to and read from the metadata tool: the listing it prints of
//! a file's tags, the arguments that write a file's tags, and the error
//! marks counted in the logs.

use vstd::prelude::*;
use crate::pairing::{prefix_at, push_all};
use crate::routing::{lowered_ext, lowered_extension};
use crate::pairing::same_text;
use crate::text::{chars_of, string_of};
use crate::routing::views;
use crate::sidecar::{opt_view, SidecarRecord};

verus! {

/// A Unicode `White_Space` character, as `char::is_whitespace` reads it.
pub open spec fn is_space(c: char) -> bool {
    c == '\u{0009}'
        || c == '\u{000A}'
        || c == '\u{000B}'
        || c == '\u{000C}'
        || c == '\u{000D}'
        || c == '\u{0020}'
        || c == '\u{0085}'
        || c == '\u{00A0}'
        || c == '\u{1680}'
        || c == '\u{2000}'
        || c == '\u{2001}'
        || c == '\u{2002}'
        || c == '\u{2003}'
        || c == '\u{2004}'
        || c == '\u{2005}'
        || c == '\u{2006}'
        || c == '\u{2007}'
        || c == '\u{2008}'
        || c == '\u{2009}'
        || c == '\u{200A}'
        || c == '\u{2028}'
        || c == '\u{2029}'
        || c == '\u{202F}'
        || c == '\u{205F}'
        || c == '\u{3000}'
}

fn space(c: char) -> (r: bool)
    ensures
        r == is_space(c),
{
    c == '\u{0009}'
        || c == '\u{000A}'
        || c == '\u{000B}'
        || c == '\u{000C}'
        || c == '\u{000D}'
        || c == '\u{0020}'
        || c == '\u{0085}'
        || c == '\u{00A0}'
        || c == '\u{1680}'
        || c == '\u{2000}'
        || c == '\u{2001}'
        || c == '\u{2002}'
        || c == '\u{2003}'
        || c == '\u{2004}'
        || c == '\u{2005}'
        || c == '\u{2006}'
        || c == '\u{2007}'
        || c == '\u{2008}'
        || c == '\u{2009}'
        || c == '\u{200A}'
        || c == '\u{2028}'
        || c == '\u{2029}'
        || c == '\u{202F}'
        || c == '\u{205F}'
        || c == '\u{3000}'
}

/// The first position at or after `i` that holds no white space.
pub open spec fn space_end(s: Seq<char>, i: int) -> int
    decreases s.len() - i,
{
    if 0 <= i < s.len() && is_space(s[i]) {
        space_end(s, i + 1)
    } else {
        i
    }
}

/// The position just after the last character before `j` that is no white
/// space.
pub open spec fn space_start(s: Seq<char>, j: int) -> int
    decreases j,
{
    if 0 < j <= s.len() && is_space(s[j - 1]) {
        space_start(s, j - 1)
    } else {
        j
    }
}

/// `s` without the white space at either end, as `str::trim` gives it.
pub open spec fn trim_of(s: Seq<char>) -> Seq<char> {
    let a = space_end(s, 0);
    if a >= s.len() {
        Seq::empty()
    } else {
        s.subrange(a, space_start(s, s.len() as int))
    }
}

proof fn lemma_space_start_after(s: Seq<char>, j: int, a: int)
    requires
        0 <= a < j <= s.len(),
        !is_space(s[a]),
    ensures
        a < space_start(s, j) <= j,
    decreases j,
{
    if is_space(s[j - 1]) {
        lemma_space_start_after(s, j - 1, a);
    }
}

/// `s` without the white space at either end.
fn trim(s: &str) -> (r: String)
    ensures
        r@ == trim_of(s@),
{
    let cs = chars_of(s);
    let n = cs.len();
    let mut a: usize = 0;
    while a < n && space(cs[a])
        invariant
            cs@ == s@,
            n == cs@.len(),
            a <= n,
            space_end(cs@, 0) == space_end(cs@, a as int),
        decreases n - a,
    {
        a = a + 1;
    }
    if a >= n {
        return String::new();
    }
    let mut b: usize = n;
    while b > a && space(cs[b - 1])
        invariant
            cs@ == s@,
            n == cs@.len(),
            a < b <= n,
            !is_space(cs@[a as int]),
            space_start(cs@, n as int) == space_start(cs@, b as int),
        decreases b,
    {
        b = b - 1;
    }
    let mut out: Vec<char> = Vec::new();
    push_all(&mut out, &cs, a, b);
    string_of(&out)
}

/// `p` occurs somewhere in `s`.
pub open spec fn contains_text(s: Seq<char>, p: Seq<char>) -> bool {
    exists|i: int| 0 <= i && i + p.len() <= s.len() && #[trigger] s.subrange(i, i + p.len()) == p
}

/// The position of the first `:` of `s` at or after `i`, or `s.len()`.
pub open spec fn colon_from(s: Seq<char>, i: int) -> int
    decreases s.len() - i,
{
    if 0 <= i < s.len() && s[i] != ':' {
        colon_from(s, i + 1)
    } else {
        i
    }
}

/// What follows the first colon of a listing line, trimmed; empty when the
/// line has no colon.
pub open spec fn line_value(line: Seq<char>) -> Seq<char> {
    let c = colon_from(line, 0);
    if c < line.len() {
        trim_of(line.subrange(c + 1, line.len() as int))
    } else {
        Seq::empty()
    }
}

/// The tags read from the listing `lines`: the capture date and time, the
/// MIME type, the image size and the file type, each from the last line that
/// names it, empty when none does.
pub open spec fn listing_fields(lines: Seq<Seq<char>>) -> (Seq<char>, Seq<char>, Seq<char>, Seq<char>)
    decreases lines.len(),
{
    if lines.len() == 0 {
        (Seq::empty(), Seq::empty(), Seq::empty(), Seq::empty())
    } else {
        let prev = listing_fields(lines.drop_last());
        let l = lines.last();
        if contains_text(l, "Date/Time Original"@) {
            (line_value(l), prev.1, prev.2, prev.3)
        } else if contains_text(l, "MIME Type"@) {
            (prev.0, line_value(l), prev.2, prev.3)
        } else if contains_text(l, "Image Size"@) {
            (prev.0, prev.1, line_value(l), prev.3)
        } else if contains_text(l, "File Type"@) {
            (prev.0, prev.1, prev.2, line_value(l))
        } else {
            prev
        }
    }
}

/// The tags of one file as the metadata tool lists them.
#[derive(Clone, Debug)]
pub struct ToolListing {
    pub date_original: String,
    pub mime_type: String,
    pub image_size: String,
    pub file_type: String,
}

/// Whether `p` occurs in `s`.
pub fn text_contains(s: &str, p: &str) -> (r: bool)
    ensures
        r == contains_text(s@, p@),
{
    let a = chars_of(s);
    let b = chars_of(p);
    let n = a.len();
    if b.len() > n {
        return false;
    }
    let mut i: usize = 0;
    while i <= n - b.len()
        invariant
            a@ == s@,
            b@ == p@,
            n == a@.len(),
            b@.len() <= n,
            forall|j: int| 0 <= j < i ==> #[trigger] a@.subrange(j, j + b@.len()) != b@,
        decreases n - i,
    {
        if prefix_at(&a, &b, i) {
            return true;
        }
        if i == n - b.len() {
            return false;
        }
        i = i + 1;
    }
    false
}

/// What follows the first colon of `line`, trimmed.
pub fn value_of_line(line: &str) -> (r: String)
    ensures
        r@ == line_value(line@),
{
    let cs = chars_of(line);
    let mut i: usize = 0;
    while i < cs.len() && cs[i] != ':'
        invariant
            cs@ == line@,
            i <= cs@.len(),
            colon_from(cs@, 0) == colon_from(cs@, i as int),
        decreases cs@.len() - i,
    {
        i = i + 1;
    }
    if i < cs.len() {
        let mut rest: Vec<char> = Vec::new();
        push_all(&mut rest, &cs, i + 1, cs.len());
        let rest = string_of(&rest);
        trim(rest.as_str())
    } else {
        String::new()
    }
}

/// Reads the tags from the lines that the metadata tool printed for a file.
pub fn read_listing(lines: &Vec<String>) -> (r: ToolListing)
    ensures
        (r.date_original@, r.mime_type@, r.image_size@, r.file_type@) == listing_fields(
            lines@.map_values(|l: String| l@),
        ),
{
    let ghost ls = lines@.map_values(|l: String| l@);
    let mut out = ToolListing {
        date_original: String::new(),
        mime_type: String::new(),
        image_size: String::new(),
        file_type: String::new(),
    };
    let mut k: usize = 0;
    assert(ls.subrange(0, 0) =~= Seq::<Seq<char>>::empty());
    while k < lines.len()
        invariant
            k <= lines@.len(),
            ls == lines@.map_values(|l: String| l@),
            (out.date_original@, out.mime_type@, out.image_size@, out.file_type@) == listing_fields(
                ls.subrange(0, k as int),
            ),
        decreases lines@.len() - k,
    {
        let l = lines[k].as_str();
        assert(ls.subrange(0, k + 1).drop_last() =~= ls.subrange(0, k as int));
        assert(ls.subrange(0, k + 1).last() == l@);
        if text_contains(l, "Date/Time Original") {
            out.date_original = value_of_line(l);
        } else if text_contains(l, "MIME Type") {
            out.mime_type = value_of_line(l);
        } else if text_contains(l, "Image Size") {
            out.image_size = value_of_line(l);
        } else if text_contains(l, "File Type") {
            out.file_type = value_of_line(l);
        }
        k = k + 1;
    }
    assert(ls.subrange(0, k as int) =~= ls);
    out
}

/// The argument that writes the capture time `date` into the file `name`:
/// PNG files take it as an XMP tag.
pub open spec fn date_tag_arg_of(name: Seq<char>, date: Seq<char>) -> Seq<char> {
    if lowered_ext(name) == "png"@ {
        "-XMP:DateTimeOriginal="@ + date
    } else {
        "-DateTimeOriginal="@ + date
    }
}

/// The argument that writes the capture time `date` into the file `name`.
pub fn date_tag_arg(name: &str, date: &str) -> (r: String)
    ensures
        r@ == date_tag_arg_of(name@, date@),
{
    let ext = lowered_extension(name);
    let tag = if same_text(ext.as_str(), "png") {
        "-XMP:DateTimeOriginal="
    } else {
        "-DateTimeOriginal="
    };
    let t = chars_of(tag);
    let d = chars_of(date);
    let mut out: Vec<char> = Vec::new();
    push_all(&mut out, &t, 0, t.len());
    push_all(&mut out, &d, 0, d.len());
    assert(out@ =~= date_tag_arg_of(name@, date@));
    string_of(&out)
}

/// The argument `-<tag>=<value>` that writes a text tag.
pub fn text_tag_arg(tag: &str, value: &str) -> (r: String)
    ensures
        r@ == seq!['-'] + tag@ + seq!['='] + value@,
{
    let t = chars_of(tag);
    let v = chars_of(value);
    let mut out: Vec<char> = Vec::new();
    out.push('-');
    push_all(&mut out, &t, 0, t.len());
    out.push('=');
    push_all(&mut out, &v, 0, v.len());
    assert(out@ =~= seq!['-'] + tag@ + seq!['='] + value@);
    string_of(&out)
}

/// The number of times `c` occurs in `s`.
pub open spec fn count_char(s: Seq<char>, c: char) -> nat
    decreases s.len(),
{
    if s.len() == 0 {
        0
    } else {
        count_char(s.drop_last(), c) + if s.last() == c {
            1nat
        } else {
            0nat
        }
    }
}

/// The mark that log lines of failures carry.
pub const ERROR_MARK: char = '\u{274C}';

/// The number of failures recorded in a log: its error marks.
pub fn count_error_marks(log: &str) -> (r: usize)
    ensures
        r == count_char(log@, ERROR_MARK),
{
    let cs = chars_of(log);
    let mut n: usize = 0;
    let mut i: usize = 0;
    while i < cs.len()
        invariant
            cs@ == log@,
            i <= cs@.len(),
            n == count_char(cs@.subrange(0, i as int), ERROR_MARK),
            n <= i,
        decreases cs@.len() - i,
    {
        assert(cs@.subrange(0, i + 1).drop_last() =~= cs@.subrange(0, i as int));
        if cs[i] == ERROR_MARK {
            n = n + 1;
        }
        i = i + 1;
    }
    assert(cs@.subrange(0, i as int) =~= log@);
    n
}

/// `-<tag>=<value>`
pub open spec fn tagged(tag: Seq<char>, value: Seq<char>) -> Seq<char> {
    seq!['-'] + tag + seq!['='] + value
}

pub open spec fn one_if(present: bool, arg: Seq<char>) -> Seq<Seq<char>> {
    if present {
        seq![arg]
    } else {
        Seq::empty()
    }
}

/// The arguments that write into the file `name` its resolved timestamp
/// `stamp` and what its sidecar `rec` records: the capture time, latitude and
/// longitude together when both are known, altitude, camera make and model,
/// in that order.
pub open spec fn embed_args_of(name: Seq<char>, stamp: Option<Seq<char>>, rec: Option<SidecarRecord>) -> Seq<
    Seq<char>,
> {
    let date = one_if(stamp is Some, date_tag_arg_of(name, stamp.unwrap()));
    match rec {
        None => date,
        Some(r) => {
            let lat = opt_view(&r.latitude);
            let lon = opt_view(&r.longitude);
            let alt = opt_view(&r.altitude);
            let make = opt_view(&r.camera_make);
            let model = opt_view(&r.camera_model);
            date + (if lat is Some && lon is Some {
                seq![tagged("GPSLatitude"@, lat.unwrap()), tagged("GPSLongitude"@, lon.unwrap())]
            } else {
                Seq::empty()
            }) + one_if(alt is Some, tagged("GPSAltitude"@, alt.unwrap())) + one_if(
                make is Some,
                tagged("Make"@, make.unwrap()),
            ) + one_if(model is Some, tagged("Model"@, model.unwrap()))
        },
    }
}

/// The arguments that write into the file `name` its resolved timestamp and
/// what its sidecar records.
pub fn embed_args(name: &str, stamp: &Option<String>, rec: &Option<SidecarRecord>) -> (r: Vec<String>)
    ensures
        views(r@) == embed_args_of(name@, opt_view(stamp), *rec),
{
    let mut r: Vec<String> = Vec::new();
    if let Some(d) = stamp {
        r.push(date_tag_arg(name, d.as_str()));
    }
    assert(views(r@) =~= one_if(opt_view(stamp) is Some, date_tag_arg_of(name@, opt_view(stamp).unwrap())));
    if let Some(s) = rec {
        if let (Some(lat), Some(lon)) = (&s.latitude, &s.longitude) {
            r.push(text_tag_arg("GPSLatitude", lat.as_str()));
            r.push(text_tag_arg("GPSLongitude", lon.as_str()));
        }
        if let Some(alt) = &s.altitude {
            r.push(text_tag_arg("GPSAltitude", alt.as_str()));
        }
        if let Some(make) = &s.camera_make {
            r.push(text_tag_arg("Make", make.as_str()));
        }
        if let Some(model) = &s.camera_model {
            r.push(text_tag_arg("Model", model.as_str()));
        }
        assert(views(r@) =~= embed_args_of(name@, opt_view(stamp), *rec));
    }
    r
}

} // verus!
