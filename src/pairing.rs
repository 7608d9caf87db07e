//! Finding the media files of a scanned tree and pairing each with its
//! sidecar document.

use vstd::prelude::*;
use crate::sidecar::opt_view;
use crate::text::{chars_of, lower_of, lowercase, string_of};

verus! {

/// A recognised media extension (lowercase): images, raw camera formats and
/// videos.
pub open spec fn is_media_ext(e: Seq<char>) -> bool {
    e == "jpg"@
        || e == "jpeg"@
        || e == "png"@
        || e == "webp"@
        || e == "heic"@
        || e == "heif"@
        || e == "bmp"@
        || e == "tiff"@
        || e == "gif"@
        || e == "avif"@
        || e == "jxl"@
        || e == "jfif"@
        || e == "raw"@
        || e == "cr2"@
        || e == "nef"@
        || e == "orf"@
        || e == "sr2"@
        || e == "arw"@
        || e == "dng"@
        || e == "pef"@
        || e == "raf"@
        || e == "rw2"@
        || e == "srw"@
        || e == "3fr"@
        || e == "erf"@
        || e == "k25"@
        || e == "kdc"@
        || e == "mef"@
        || e == "mos"@
        || e == "mrw"@
        || e == "nrw"@
        || e == "srf"@
        || e == "x3f"@
        || e == "svg"@
        || e == "ico"@
        || e == "psd"@
        || e == "ai"@
        || e == "eps"@
        || e == "mp4"@
        || e == "mov"@
        || e == "mkv"@
        || e == "avi"@
        || e == "webm"@
        || e == "3gp"@
        || e == "m4v"@
        || e == "mpg"@
        || e == "mpeg"@
        || e == "mts"@
        || e == "m2ts"@
        || e == "ts"@
        || e == "flv"@
        || e == "f4v"@
        || e == "wmv"@
        || e == "asf"@
        || e == "rm"@
        || e == "rmvb"@
        || e == "vob"@
        || e == "ogv"@
        || e == "mxf"@
        || e == "dv"@
        || e == "divx"@
        || e == "xvid"@
}

/// A video container extension (lowercase), MKV aside: MKV files are filed
/// apart.
pub open spec fn is_video_ext(e: Seq<char>) -> bool {
    e == "mp4"@
        || e == "mov"@
        || e == "avi"@
        || e == "webm"@
        || e == "3gp"@
        || e == "m4v"@
        || e == "mpg"@
        || e == "mpeg"@
        || e == "mts"@
        || e == "m2ts"@
        || e == "ts"@
        || e == "flv"@
        || e == "f4v"@
        || e == "wmv"@
        || e == "asf"@
        || e == "rm"@
        || e == "rmvb"@
        || e == "vob"@
        || e == "ogv"@
        || e == "mxf"@
        || e == "dv"@
        || e == "divx"@
        || e == "xvid"@
}

/// Whether two texts hold the same characters.
pub fn same_text(a: &str, b: &str) -> (r: bool)
    ensures
        r == (a@ == b@),
{
    let x = chars_of(a);
    let y = chars_of(b);
    if x.len() != y.len() {
        return false;
    }
    let mut i: usize = 0;
    while i < x.len()
        invariant
            x@ == a@,
            y@ == b@,
            x@.len() == y@.len(),
            i <= x@.len(),
            forall|j: int| 0 <= j < i ==> x@[j] == y@[j],
        decreases x@.len() - i,
    {
        if x[i] != y[i] {
            return false;
        }
        i = i + 1;
    }
    assert(x@ =~= y@);
    true
}

/// Whether the lowercase extension `e` is a recognised media extension.
pub fn is_media_extension(e: &str) -> (r: bool)
    ensures
        r == is_media_ext(e@),
{
    same_text(e, "jpg")
        || same_text(e, "jpeg")
        || same_text(e, "png")
        || same_text(e, "webp")
        || same_text(e, "heic")
        || same_text(e, "heif")
        || same_text(e, "bmp")
        || same_text(e, "tiff")
        || same_text(e, "gif")
        || same_text(e, "avif")
        || same_text(e, "jxl")
        || same_text(e, "jfif")
        || same_text(e, "raw")
        || same_text(e, "cr2")
        || same_text(e, "nef")
        || same_text(e, "orf")
        || same_text(e, "sr2")
        || same_text(e, "arw")
        || same_text(e, "dng")
        || same_text(e, "pef")
        || same_text(e, "raf")
        || same_text(e, "rw2")
        || same_text(e, "srw")
        || same_text(e, "3fr")
        || same_text(e, "erf")
        || same_text(e, "k25")
        || same_text(e, "kdc")
        || same_text(e, "mef")
        || same_text(e, "mos")
        || same_text(e, "mrw")
        || same_text(e, "nrw")
        || same_text(e, "srf")
        || same_text(e, "x3f")
        || same_text(e, "svg")
        || same_text(e, "ico")
        || same_text(e, "psd")
        || same_text(e, "ai")
        || same_text(e, "eps")
        || same_text(e, "mp4")
        || same_text(e, "mov")
        || same_text(e, "mkv")
        || same_text(e, "avi")
        || same_text(e, "webm")
        || same_text(e, "3gp")
        || same_text(e, "m4v")
        || same_text(e, "mpg")
        || same_text(e, "mpeg")
        || same_text(e, "mts")
        || same_text(e, "m2ts")
        || same_text(e, "ts")
        || same_text(e, "flv")
        || same_text(e, "f4v")
        || same_text(e, "wmv")
        || same_text(e, "asf")
        || same_text(e, "rm")
        || same_text(e, "rmvb")
        || same_text(e, "vob")
        || same_text(e, "ogv")
        || same_text(e, "mxf")
        || same_text(e, "dv")
        || same_text(e, "divx")
        || same_text(e, "xvid")
}

/// Whether the lowercase extension `e` names a video container other than MKV.
pub fn is_video_extension(e: &str) -> (r: bool)
    ensures
        r == is_video_ext(e@),
{
    same_text(e, "mp4")
        || same_text(e, "mov")
        || same_text(e, "avi")
        || same_text(e, "webm")
        || same_text(e, "3gp")
        || same_text(e, "m4v")
        || same_text(e, "mpg")
        || same_text(e, "mpeg")
        || same_text(e, "mts")
        || same_text(e, "m2ts")
        || same_text(e, "ts")
        || same_text(e, "flv")
        || same_text(e, "f4v")
        || same_text(e, "wmv")
        || same_text(e, "asf")
        || same_text(e, "rm")
        || same_text(e, "rmvb")
        || same_text(e, "vob")
        || same_text(e, "ogv")
        || same_text(e, "mxf")
        || same_text(e, "dv")
        || same_text(e, "divx")
        || same_text(e, "xvid")
}


/// The position of the last `.` of `s` before position `i`, or -1.
pub open spec fn last_dot_before(s: Seq<char>, i: int) -> int
    decreases i,
{
    if i <= 0 || i > s.len() {
        -1
    } else if s[i - 1] == '.' {
        i - 1
    } else {
        last_dot_before(s, i - 1)
    }
}

/// The position of the dot that starts the extension of the file name `s`:
/// the last dot, unless it is the first character; -1 when there is none.
pub open spec fn ext_dot(s: Seq<char>) -> int {
    let d = last_dot_before(s, s.len() as int);
    if d > 0 {
        d
    } else {
        -1
    }
}

/// The extension of a file name: what follows its last dot, when that dot is
/// not its first character.
pub open spec fn extension_of(s: Seq<char>) -> Option<Seq<char>> {
    if ext_dot(s) > 0 {
        Some(s.subrange(ext_dot(s) + 1, s.len() as int))
    } else {
        None
    }
}

/// The file name without its extension and the dot before it.
pub open spec fn stem_of(s: Seq<char>) -> Seq<char> {
    if ext_dot(s) > 0 {
        s.subrange(0, ext_dot(s))
    } else {
        s
    }
}

/// The lowercased extension of a media file name, or `None` for a name that
/// is not a media file's.
pub open spec fn media_ext_of(name: Seq<char>) -> Option<Seq<char>> {
    match extension_of(name) {
        Some(e) => if is_media_ext(lower_of(e)) {
            Some(lower_of(e))
        } else {
            None
        },
        None => None,
    }
}

/// The two names a media file's sidecar may have, in the order they are
/// tried: `<stem>.<ext>.json` with the extension lowercased, then
/// `<stem>.json`.
pub open spec fn sidecar_names_of(name: Seq<char>) -> Option<(Seq<char>, Seq<char>)> {
    match media_ext_of(name) {
        Some(e) => Some(
            (stem_of(name) + seq!['.'] + e + ".json"@, stem_of(name) + ".json"@),
        ),
        None => None,
    }
}

pub(crate) fn push_all(out: &mut Vec<char>, s: &Vec<char>, from: usize, to: usize)
    requires
        from <= to <= s@.len(),
    ensures
        final(out)@ == old(out)@ + s@.subrange(from as int, to as int),
{
    let mut i = from;
    while i < to
        invariant
            from <= i <= to,
            to <= s@.len(),
            out@ == old(out)@ + s@.subrange(from as int, i as int),
        decreases to - i,
    {
        out.push(s[i]);
        i = i + 1;
        assert(out@ =~= old(out)@ + s@.subrange(from as int, i as int));
    }
}

/// The position of the dot that starts the extension of `s`, if any.
fn find_ext_dot(s: &Vec<char>) -> (r: Option<usize>)
    ensures
        match r {
            Some(d) => ext_dot(s@) == d as int && d > 0 && d < s@.len(),
            None => ext_dot(s@) == -1,
        },
{
    let mut i = s.len();
    while i > 0 && s[i - 1] != '.'
        invariant
            i <= s@.len(),
            last_dot_before(s@, s@.len() as int) == last_dot_before(s@, i as int),
        decreases i,
    {
        i = i - 1;
    }
    if i > 1 {
        Some(i - 1)
    } else {
        None
    }
}

/// The extension of the file name `name`, if it has one.
pub fn extension(name: &str) -> (r: Option<String>)
    ensures
        match extension_of(name@) {
            Some(e) => r matches Some(x) && x@ == e,
            None => r is None,
        },
{
    let s = chars_of(name);
    match find_ext_dot(&s) {
        Some(d) => {
            let n = s.len();
            assert(d < n);
            let mut e: Vec<char> = Vec::new();
            push_all(&mut e, &s, d + 1, n);
            assert(e@ =~= s@.subrange(d + 1, s@.len() as int));
            Some(string_of(&e))
        },
        None => None,
    }
}

/// The lowercased extension of a media file name, or `None` when the name
/// has no recognised media extension.
pub fn media_extension(name: &str) -> (r: Option<String>)
    ensures
        match media_ext_of(name@) {
            Some(e) => r matches Some(x) && x@ == e,
            None => r is None,
        },
{
    match extension(name) {
        Some(e) => {
            let lowered = lowercase(e.as_str());
            if is_media_extension(lowered.as_str()) {
                Some(lowered)
            } else {
                None
            }
        },
        None => None,
    }
}

/// The two names that a sidecar of the media file `name` may have, in the
/// order they are tried; `None` when `name` is not a media file's.
pub fn sidecar_names(name: &str) -> (r: Option<(String, String)>)
    ensures
        match sidecar_names_of(name@) {
            Some((a, b)) => r matches Some((x, y)) && x@ == a && y@ == b,
            None => r is None,
        },
{
    match media_extension(name) {
        Some(e) => {
            let s = chars_of(name);
            let ec = chars_of(e.as_str());
            let json = chars_of(".json");
            let d = match find_ext_dot(&s) {
                Some(d) => d,
                None => {
                    return None;
                },
            };
            let mut stem: Vec<char> = Vec::new();
            push_all(&mut stem, &s, 0, d);
            assert(stem@ =~= stem_of(name@));
            let mut first: Vec<char> = Vec::new();
            push_all(&mut first, &stem, 0, stem.len());
            first.push('.');
            push_all(&mut first, &ec, 0, ec.len());
            push_all(&mut first, &json, 0, json.len());
            let mut second: Vec<char> = Vec::new();
            push_all(&mut second, &stem, 0, stem.len());
            push_all(&mut second, &json, 0, json.len());
            assert(first@ =~= stem_of(name@) + seq!['.'] + e@ + ".json"@);
            assert(second@ =~= stem_of(name@) + ".json"@);
            Some((string_of(&first), string_of(&second)))
        },
        None => None,
    }
}


/// What a scan found of one media file: the directory it stands in, its
/// name, and which of its two possible sidecars stand beside it.
#[derive(Clone, Debug)]
pub struct Discovered {
    pub dir: String,
    pub name: String,
    /// `<stem>.<ext>.json` exists.
    pub ext_json_exists: bool,
    /// `<stem>.json` exists.
    pub plain_json_exists: bool,
}

/// Which of the two sidecar names a media file was paired through.
#[derive(Clone, Copy, PartialEq, Eq, Structural, Debug)]
pub enum SidecarKind {
    /// `<stem>.<ext>.json`
    WithExtension,
    /// `<stem>.json`
    Plain,
}

/// A media file, by its index among the discovered ones, and its sidecar.
#[derive(Clone, Copy, PartialEq, Eq, Structural, Debug)]
pub struct Pair {
    pub media: usize,
    pub sidecar: SidecarKind,
}

/// The discovered media files split into those with a sidecar and those
/// without, each list in discovery order.
pub struct Pairing {
    pub paired: Vec<Pair>,
    pub unpaired: Vec<usize>,
}

/// The sidecar file, as directory and file name, that `kind` names for the
/// media file `d`.
pub open spec fn sidecar_key(d: Discovered, kind: SidecarKind) -> (Seq<char>, Seq<char>) {
    match sidecar_names_of(d.name@) {
        Some((a, b)) => (d.dir@, if kind is WithExtension {
            a
        } else {
            b
        }),
        None => (d.dir@, Seq::empty()),
    }
}

/// The sidecar of the media file `d` when the sidecar files `used` are
/// already taken: the first of its two names that exists and is not taken.
pub open spec fn pick(d: Discovered, used: Seq<(Seq<char>, Seq<char>)>) -> Option<SidecarKind> {
    if sidecar_names_of(d.name@) is None {
        None
    } else if d.ext_json_exists && !used.contains(sidecar_key(d, SidecarKind::WithExtension)) {
        Some(SidecarKind::WithExtension)
    } else if d.plain_json_exists && !used.contains(sidecar_key(d, SidecarKind::Plain)) {
        Some(SidecarKind::Plain)
    } else {
        None
    }
}

/// The files `found` paired one after the other, in order: the sidecar each
/// one got, and the sidecar files taken so far.
pub open spec fn pairing_state(found: Seq<Discovered>) -> (
    Seq<Option<SidecarKind>>,
    Seq<(Seq<char>, Seq<char>)>,
)
    decreases found.len(),
{
    if found.len() == 0 {
        (Seq::empty(), Seq::empty())
    } else {
        let prev = pairing_state(found.drop_last());
        let d = found.last();
        let c = pick(d, prev.1);
        (
            prev.0.push(c),
            match c {
                Some(k) => prev.1.push(sidecar_key(d, k)),
                None => prev.1,
            },
        )
    }
}

/// The sidecar that each of the files `found` is paired with, if any.
pub open spec fn assignment(found: Seq<Discovered>) -> Seq<Option<SidecarKind>> {
    pairing_state(found).0
}

/// Some pair of `ps` is for the media file of index `i`.
pub open spec fn lists_media(ps: Seq<Pair>, i: int) -> bool {
    exists|j: int| 0 <= j < ps.len() && (#[trigger] ps[j]).media == i
}

/// The index `i` is among `us`.
pub open spec fn lists_index(us: Seq<usize>, i: int) -> bool {
    exists|j: int| 0 <= j < us.len() && #[trigger] us[j] == i
}

pub open spec fn in_paired(p: Pairing, i: int) -> bool {
    lists_media(p.paired@, i)
}

pub open spec fn in_unpaired(p: Pairing, i: int) -> bool {
    lists_index(p.unpaired@, i)
}

/// `p` pairs each of the discovered files `found` with the sidecar it is
/// assigned and lists the others as unpaired, both lists in increasing index
/// order.
pub open spec fn is_pairing_of(found: Seq<Discovered>, p: Pairing) -> bool {
    let a = assignment(found);
    &&& forall|j: int|
        0 <= j < p.paired@.len() ==> (#[trigger] p.paired@[j]).media < found.len() && a[p.paired@[j].media as int]
            == Some(p.paired@[j].sidecar)
    &&& forall|j: int|
        0 <= j < p.unpaired@.len() ==> #[trigger] p.unpaired@[j] < found.len() && a[p.unpaired@[j] as int] is None
    &&& forall|x: int, y: int|
        0 <= x < y < p.paired@.len() ==> (#[trigger] p.paired@[x]).media < (
        #[trigger] p.paired@[y]).media
    &&& forall|x: int, y: int|
        0 <= x < y < p.unpaired@.len() ==> #[trigger] p.unpaired@[x] < #[trigger] p.unpaired@[y]
    &&& forall|i: int|
        0 <= i < found.len() ==> (#[trigger] a[i] is Some ==> in_paired(p, i)) && (a[i] is None
            ==> in_unpaired(p, i))
}

/// The sidecar files `(dirs[t], names[t])`.
pub open spec fn keys_of(dirs: Seq<String>, names: Seq<String>) -> Seq<(Seq<char>, Seq<char>)> {
    Seq::new(dirs.len(), |t: int| (dirs[t]@, names[t]@))
}

/// Whether the sidecar file `(dir, name)` is among those taken.
fn is_taken(dirs: &Vec<String>, names: &Vec<String>, dir: &str, name: &str) -> (r: bool)
    requires
        dirs@.len() == names@.len(),
    ensures
        r == keys_of(dirs@, names@).contains((dir@, name@)),
{
    let mut t: usize = 0;
    while t < dirs.len()
        invariant
            dirs@.len() == names@.len(),
            t <= dirs@.len(),
            forall|u: int| 0 <= u < t ==> keys_of(dirs@, names@)[u] != (dir@, name@),
        decreases dirs@.len() - t,
    {
        if same_text(dirs[t].as_str(), dir) && same_text(names[t].as_str(), name) {
            assert(keys_of(dirs@, names@)[t as int] == (dir@, name@));
            return true;
        }
        t = t + 1;
    }
    false
}

proof fn lemma_state_len(found: Seq<Discovered>)
    ensures
        pairing_state(found).0.len() == found.len(),
    decreases found.len(),
{
    if found.len() > 0 {
        lemma_state_len(found.drop_last());
    }
}

proof fn lemma_assignment_prefix(found: Seq<Discovered>, m: int, k: int)
    requires
        0 <= k < m <= found.len(),
    ensures
        assignment(found)[k] == assignment(found.subrange(0, m))[k],
    decreases found.len(),
{
    if m < found.len() {
        let f2 = found.drop_last();
        lemma_state_len(f2);
        lemma_assignment_prefix(f2, m, k);
        assert(f2.subrange(0, m) =~= found.subrange(0, m));
    } else {
        assert(found.subrange(0, m) =~= found);
    }
}

proof fn lemma_taken_stays_taken(found: Seq<Discovered>, j: int)
    requires
        0 <= j < found.len(),
        assignment(found)[j] is Some,
    ensures
        pairing_state(found).1.contains(sidecar_key(found[j], assignment(found)[j].unwrap())),
    decreases found.len(),
{
    let f2 = found.drop_last();
    lemma_state_len(f2);
    let used = pairing_state(found).1;
    if j == found.len() - 1 {
        assert(used[used.len() - 1] == sidecar_key(found[j], assignment(found)[j].unwrap()));
    } else {
        assert(f2[j] == found[j]);
        lemma_taken_stays_taken(f2, j);
        let key = sidecar_key(found[j], assignment(found)[j].unwrap());
        let w = choose|w: int| 0 <= w < pairing_state(f2).1.len() && pairing_state(f2).1[w] == key;
        assert(used[w] == key);
    }
}

/// No sidecar file serves two media files: files paired at different places
/// of the discovery order are paired with different sidecar files.
pub proof fn lemma_sidecar_serves_one(found: Seq<Discovered>, j: int, i: int)
    requires
        0 <= j < i < found.len(),
        assignment(found)[j] is Some,
        assignment(found)[i] is Some,
    ensures
        sidecar_key(found[j], assignment(found)[j].unwrap()) != sidecar_key(
            found[i],
            assignment(found)[i].unwrap(),
        ),
{
    let pre = found.subrange(0, i);
    let next = found.subrange(0, i + 1);
    lemma_assignment_prefix(found, i + 1, i);
    lemma_assignment_prefix(found, i + 1, j);
    assert(next.drop_last() =~= pre);
    lemma_state_len(pre);
    lemma_assignment_prefix(next, i, j);
    assert(pre[j] == found[j]);
    lemma_taken_stays_taken(pre, j);
}

/// Pairs each discovered media file, in order, with the first of its two
/// sidecar names that exists and that no earlier file has taken; the files
/// left without one are unpaired.
pub fn pair_media(found: &Vec<Discovered>) -> (r: Pairing)
    ensures
        is_pairing_of(found@, r),
{
    let mut paired: Vec<Pair> = Vec::new();
    let mut unpaired: Vec<usize> = Vec::new();
    let mut used_dirs: Vec<String> = Vec::new();
    let mut used_names: Vec<String> = Vec::new();
    let mut i: usize = 0;
    assert(keys_of(used_dirs@, used_names@) =~= pairing_state(found@.subrange(0, 0)).1);
    while i < found.len()
        invariant
            i <= found@.len(),
            used_dirs@.len() == used_names@.len(),
            keys_of(used_dirs@, used_names@) == pairing_state(found@.subrange(0, i as int)).1,
            assignment(found@.subrange(0, i as int)).len() == i,
            forall|j: int|
                0 <= j < paired@.len() ==> (#[trigger] paired@[j]).media < i && assignment(
                    found@.subrange(0, i as int),
                )[paired@[j].media as int] == Some(paired@[j].sidecar),
            forall|j: int|
                0 <= j < unpaired@.len() ==> #[trigger] unpaired@[j] < i && assignment(
                    found@.subrange(0, i as int),
                )[unpaired@[j] as int] is None,
            forall|x: int, y: int|
                0 <= x < y < paired@.len() ==> (#[trigger] paired@[x]).media < (
                #[trigger] paired@[y]).media,
            forall|x: int, y: int|
                0 <= x < y < unpaired@.len() ==> #[trigger] unpaired@[x] < #[trigger] unpaired@[y],
            forall|k: int|
                0 <= k < i ==> (#[trigger] assignment(found@.subrange(0, i as int))[k] is Some
                    ==> lists_media(paired@, k)) && (assignment(found@.subrange(0, i as int))[k] is None
                    ==> lists_index(unpaired@, k)),
        decreases found@.len() - i,
    {
        let ghost pre = found@.subrange(0, i as int);
        let ghost next = found@.subrange(0, i + 1);
        let ghost used = pairing_state(pre).1;
        assert(next.drop_last() =~= pre);
        assert(next.last() == found@[i as int]);
        let d = &found[i];
        let mut choice: Option<SidecarKind> = None;
        let mut key_name = String::new();
        match sidecar_names(d.name.as_str()) {
            Some((a, b)) => {
                if d.ext_json_exists && !is_taken(&used_dirs, &used_names, d.dir.as_str(), a.as_str()) {
                    choice = Some(SidecarKind::WithExtension);
                    key_name = a;
                } else if d.plain_json_exists && !is_taken(
                    &used_dirs,
                    &used_names,
                    d.dir.as_str(),
                    b.as_str(),
                ) {
                    choice = Some(SidecarKind::Plain);
                    key_name = b;
                }
            },
            None => {},
        }
        assert(choice == pick(found@[i as int], used));
        assert(choice matches Some(k) ==> (d.dir@, key_name@) == sidecar_key(found@[i as int], k));
        assert(assignment(next) == assignment(pre).push(choice));
        let ghost before_p = paired@;
        let ghost before_u = unpaired@;
        match choice {
            Some(k) => {
                paired.push(Pair { media: i, sidecar: k });
                used_dirs.push(d.dir.clone());
                used_names.push(key_name);
                assert(keys_of(used_dirs@, used_names@) =~= used.push(
                    sidecar_key(found@[i as int], k),
                ));
            },
            None => {
                unpaired.push(i);
            },
        }
        proof {
            assert forall|k: int|
                0 <= k <= i implies (#[trigger] assignment(next)[k] is Some ==> lists_media(
                paired@,
                k,
            )) && (assignment(next)[k] is None ==> lists_index(unpaired@, k)) by {
                if k == i {
                    if choice is Some {
                        assert(paired@[paired@.len() - 1].media == k);
                    } else {
                        assert(unpaired@[unpaired@.len() - 1] == k);
                    }
                } else {
                    assert(assignment(next)[k] == assignment(pre)[k]);
                    if assignment(pre)[k] is Some {
                        let j = choose|j: int|
                            0 <= j < before_p.len() && (#[trigger] before_p[j]).media == k;
                        assert(paired@[j] == before_p[j]);
                    } else {
                        let j = choose|j: int| 0 <= j < before_u.len() && #[trigger] before_u[j] == k;
                        assert(unpaired@[j] == before_u[j]);
                    }
                }
            }
            assert forall|j: int| 0 <= j < paired@.len() implies (#[trigger] paired@[j]).media < i + 1
                && assignment(next)[paired@[j].media as int] == Some(paired@[j].sidecar) by {
                if j < before_p.len() {
                    assert(paired@[j] == before_p[j]);
                }
            }
            assert forall|j: int| 0 <= j < unpaired@.len() implies #[trigger] unpaired@[j] < i + 1
                && assignment(next)[unpaired@[j] as int] is None by {
                if j < before_u.len() {
                    assert(unpaired@[j] == before_u[j]);
                }
            }
        }
        i = i + 1;
    }
    assert(found@.subrange(0, i as int) =~= found@);
    Pairing { paired, unpaired }
}

/// Pairing is a partition: every discovered media file is either paired or
/// unpaired, never both, and it appears in its list exactly once.
pub proof fn lemma_pairing_partitions(found: Seq<Discovered>, p: Pairing, i: int)
    requires
        is_pairing_of(found, p),
        0 <= i < found.len(),
    ensures
        in_paired(p, i) != in_unpaired(p, i),
        forall|a: int, b: int|
            0 <= a < p.paired@.len() && 0 <= b < p.paired@.len() && (#[trigger] p.paired@[a]).media
                == i && (#[trigger] p.paired@[b]).media == i ==> a == b,
        forall|a: int, b: int|
            0 <= a < p.unpaired@.len() && 0 <= b < p.unpaired@.len() && #[trigger] p.unpaired@[a]
                == i && #[trigger] p.unpaired@[b] == i ==> a == b,
{
    let asg = assignment(found);
    if in_paired(p, i) && in_unpaired(p, i) {
        let a = choose|j: int| 0 <= j < p.paired@.len() && (#[trigger] p.paired@[j]).media == i;
        let b = choose|j: int| 0 <= j < p.unpaired@.len() && #[trigger] p.unpaired@[j] == i;
        assert(asg[i] is Some);
        assert(asg[i] is None);
    }
    assert(asg[i] is Some ==> in_paired(p, i));
    assert forall|a: int, b: int|
        0 <= a < p.paired@.len() && 0 <= b < p.paired@.len() && (#[trigger] p.paired@[a]).media
            == i && (#[trigger] p.paired@[b]).media == i implies a == b by {
        if a < b {
            assert(p.paired@[a].media < p.paired@[b].media);
        } else if b < a {
            assert(p.paired@[b].media < p.paired@[a].media);
        }
    }
    assert forall|a: int, b: int|
        0 <= a < p.unpaired@.len() && 0 <= b < p.unpaired@.len() && #[trigger] p.unpaired@[a] == i
            && #[trigger] p.unpaired@[b] == i implies a == b by {
        if a < b {
            assert(p.unpaired@[a] < p.unpaired@[b]);
        } else if b < a {
            assert(p.unpaired@[b] < p.unpaired@[a]);
        }
    }
}

/// Pairing is one-to-one: no two pairs share a sidecar file.
pub proof fn lemma_pairing_one_to_one(found: Seq<Discovered>, p: Pairing, a: int, b: int)
    requires
        is_pairing_of(found, p),
        0 <= a < b < p.paired@.len(),
    ensures
        sidecar_key(found[p.paired@[a].media as int], p.paired@[a].sidecar) != sidecar_key(
            found[p.paired@[b].media as int],
            p.paired@[b].sidecar,
        ),
{
    let x = p.paired@[a];
    let y = p.paired@[b];
    assert(x.media < y.media);
    lemma_sidecar_serves_one(found, x.media as int, y.media as int);
}

/// Whether `s` starts with `p`.
pub open spec fn has_prefix(s: Seq<char>, p: Seq<char>) -> bool {
    p.len() <= s.len() && s.subrange(0, p.len() as int) == p
}

/// Whether `s` ends with `p`.
pub open spec fn has_suffix(s: Seq<char>, p: Seq<char>) -> bool {
    p.len() <= s.len() && s.subrange(s.len() - p.len(), s.len() as int) == p
}

/// The name a stray sidecar `json` beside the media file `media` is renamed
/// to: a JSON file whose name starts with the media file's whole name but is
/// not `<media>.json` (as when an exporter appends a suffix) becomes
/// `<media>.json`.
pub open spec fn sidecar_rename_of(media: Seq<char>, json: Seq<char>) -> Option<Seq<char>> {
    if has_prefix(json, media) && has_suffix(json, ".json"@) && json != media + ".json"@ {
        Some(media + ".json"@)
    } else {
        None
    }
}

pub(crate) fn prefix_at(s: &Vec<char>, p: &Vec<char>, at: usize) -> (r: bool)
    requires
        at <= s@.len(),
    ensures
        r == (p@.len() <= s@.len() - at && s@.subrange(at as int, at + p@.len()) == p@),
{
    let n = s.len();
    if p.len() > n - at {
        return false;
    }
    let mut i: usize = 0;
    while i < p.len()
        invariant
            n == s@.len(),
            at <= s@.len(),
            p@.len() <= s@.len() - at,
            i <= p@.len(),
            forall|j: int| 0 <= j < i ==> s@[at + j] == p@[j],
        decreases p@.len() - i,
    {
        if s[at + i] != p[i] {
            assert(s@.subrange(at as int, at + p@.len())[i as int] != p@[i as int]);
            return false;
        }
        i = i + 1;
    }
    assert(s@.subrange(at as int, at + p@.len()) =~= p@);
    true
}

/// The name that the JSON file `json_name` beside the media file
/// `media_name` is to be renamed to, if any.
pub fn sidecar_rename(media_name: &str, json_name: &str) -> (r: Option<String>)
    ensures
        opt_view(&r) == sidecar_rename_of(media_name@, json_name@),
{
    let m = chars_of(media_name);
    let j = chars_of(json_name);
    let suffix = chars_of(".json");
    let mut target: Vec<char> = Vec::new();
    push_all(&mut target, &m, 0, m.len());
    push_all(&mut target, &suffix, 0, suffix.len());
    assert(target@ =~= media_name@ + ".json"@);
    let target = string_of(&target);
    if !prefix_at(&j, &m, 0) {
        return None;
    }
    assert(j@.subrange(0, m@.len() as int) == m@);
    if j.len() < suffix.len() || !prefix_at(&j, &suffix, j.len() - suffix.len()) {
        return None;
    }
    if same_text(json_name, target.as_str()) {
        return None;
    }
    Some(target)
}

} // verus!
