//! Recognisers for the names that chat apps and screenshot tools give their
//! files. A name is compared from its start, after lowercasing, so letter case
//! does not matter.

use vstd::prelude::*;
use crate::cascade::{
    Tok, digits, lit_tok, lits, match_at, match_here, push_digits, push_word, spaced, spaced_toks,
};
use crate::text::{chars_of, lower_of, lowercase};

verus! {

pub const WHATSAPP_COUNT: usize = 7;

pub const SCREENSHOT_COUNT: usize = 17;

/// The `k`-th WhatsApp naming convention, lowercased.
pub open spec fn whatsapp_toks(k: int) -> Seq<Tok> {
    if k == 0 {
        lits("img-"@) + digits(8) + lits("-wa"@) + seq![Tok::Skip]
    } else if k == 1 {
        lits("img-wa"@) + seq![Tok::Skip]
    } else if k == 2 {
        lits("wa"@) + seq![Tok::Skip]
    } else if k == 3 {
        lits("vid-"@) + digits(8) + lits("-wa"@) + seq![Tok::Skip]
    } else if k == 4 {
        lits("vid-wa"@) + seq![Tok::Skip]
    } else if k == 5 {
        spaced("whatsapp image "@, '-', " at "@, '.')
    } else {
        spaced("whatsapp video "@, '-', " at "@, '.')
    }
}

/// The `k`-th screenshot naming convention, lowercased; the last ones are the
/// word for "screenshot" in several languages.
pub open spec fn screenshot_toks(k: int) -> Seq<Tok> {
    if k == 0 {
        lits("screenshot"@) + seq![Tok::MaybeOf('_', ' ', ' ')] + digits(4) + seq![lit_tok('-')]
            + digits(2) + seq![lit_tok('-')] + digits(2) + seq![Tok::MaybeOf('-', ' ', ' ')]
            + digits(2) + seq![Tok::MaybeOf('-', '.', ':')] + digits(2) + seq![
            Tok::MaybeOf('-', '.', ':'),
        ] + digits(2)
    } else if k == 1 {
        lits("screenshot ("@) + seq![Tok::Run, lit_tok(')')]
    } else if k == 2 {
        spaced("screen shot "@, '-', " at "@, '.')
    } else if k == 3 {
        lits("screenshot_"@) + seq![Tok::Skip]
    } else if k == 4 {
        lits("screenshot_"@) + digits(8) + seq![lit_tok('-')] + digits(6)
    } else if k == 5 {
        lits("スクリーンショット"@)
    } else if k == 6 {
        lits("снимок экрана"@)
    } else if k == 7 {
        lits("captura de pantalla"@)
    } else if k == 8 {
        lits("capture d'écran"@)
    } else if k == 9 {
        lits("bildschirmfoto"@)
    } else if k == 10 {
        lits("istantanea"@)
    } else if k == 11 {
        lits("skjermbilde"@)
    } else if k == 12 {
        lits("skärmbild"@)
    } else if k == 13 {
        lits("ekran görüntüsü"@)
    } else if k == 14 {
        lits("zrzut ekranu"@)
    } else if k == 15 {
        lits("prtsc"@)
    } else {
        lits("snip"@)
    }
}

/// The lowercased name `s` follows a WhatsApp naming convention.
pub open spec fn is_whatsapp_lowered(s: Seq<char>) -> bool {
    exists|k: int|
        0 <= k < WHATSAPP_COUNT && (#[trigger] match_at(whatsapp_toks(k), s, 0)) is Some
}

/// The lowercased name `s` follows a screenshot naming convention.
pub open spec fn is_screenshot_lowered(s: Seq<char>) -> bool {
    exists|k: int|
        0 <= k < SCREENSHOT_COUNT && (#[trigger] match_at(screenshot_toks(k), s, 0)) is Some
}

/// A file name that follows a WhatsApp naming convention, in any letter case.
pub open spec fn is_whatsapp_name(name: Seq<char>) -> bool {
    is_whatsapp_lowered(lower_of(name))
}

/// A file name that follows a screenshot naming convention, in any letter case.
pub open spec fn is_screenshot_name(name: Seq<char>) -> bool {
    is_screenshot_lowered(lower_of(name))
}

fn word_then_skip(w: &str) -> (t: Vec<Tok>)
    ensures
        t@ == lits(w@) + seq![Tok::Skip],
{
    let mut t: Vec<Tok> = Vec::new();
    push_word(&mut t, w);
    t.push(Tok::Skip);
    assert(t@ =~= lits(w@) + seq![Tok::Skip]);
    t
}

fn word_only(w: &str) -> (t: Vec<Tok>)
    ensures
        t@ == lits(w@),
{
    let mut t: Vec<Tok> = Vec::new();
    push_word(&mut t, w);
    assert(t@ =~= lits(w@));
    t
}

fn whatsapp_pattern(k: usize) -> (t: Vec<Tok>)
    requires
        k < WHATSAPP_COUNT,
    ensures
        t@ == whatsapp_toks(k as int),
{
    let mut t: Vec<Tok>;
    if k == 0 || k == 3 {
        t = Vec::new();
        push_word(&mut t, if k == 0 { "img-" } else { "vid-" });
        push_digits(&mut t, 8);
        push_word(&mut t, "-wa");
        t.push(Tok::Skip);
    } else if k == 1 {
        t = word_then_skip("img-wa");
    } else if k == 2 {
        t = word_then_skip("wa");
    } else if k == 4 {
        t = word_then_skip("vid-wa");
    } else if k == 5 {
        t = spaced_toks("whatsapp image ", '-', " at ", '.');
    } else {
        t = spaced_toks("whatsapp video ", '-', " at ", '.');
    }
    assert(t@ =~= whatsapp_toks(k as int));
    t
}

fn screenshot_pattern(k: usize) -> (t: Vec<Tok>)
    requires
        k < SCREENSHOT_COUNT,
    ensures
        t@ == screenshot_toks(k as int),
{
    let mut t: Vec<Tok>;
    if k == 0 {
        t = Vec::new();
        push_word(&mut t, "screenshot");
        t.push(Tok::MaybeOf('_', ' ', ' '));
        push_digits(&mut t, 4);
        t.push(Tok::Lit('-'));
        push_digits(&mut t, 2);
        t.push(Tok::Lit('-'));
        push_digits(&mut t, 2);
        t.push(Tok::MaybeOf('-', ' ', ' '));
        push_digits(&mut t, 2);
        t.push(Tok::MaybeOf('-', '.', ':'));
        push_digits(&mut t, 2);
        t.push(Tok::MaybeOf('-', '.', ':'));
        push_digits(&mut t, 2);
    } else if k == 1 {
        t = Vec::new();
        push_word(&mut t, "screenshot (");
        t.push(Tok::Run);
        t.push(Tok::Lit(')'));
    } else if k == 2 {
        t = spaced_toks("screen shot ", '-', " at ", '.');
    } else if k == 3 {
        t = word_then_skip("screenshot_");
    } else if k == 4 {
        t = Vec::new();
        push_word(&mut t, "screenshot_");
        push_digits(&mut t, 8);
        t.push(Tok::Lit('-'));
        push_digits(&mut t, 6);
    } else if k == 5 {
        t = word_only("スクリーンショット");
    } else if k == 6 {
        t = word_only("снимок экрана");
    } else if k == 7 {
        t = word_only("captura de pantalla");
    } else if k == 8 {
        t = word_only("capture d'écran");
    } else if k == 9 {
        t = word_only("bildschirmfoto");
    } else if k == 10 {
        t = word_only("istantanea");
    } else if k == 11 {
        t = word_only("skjermbilde");
    } else if k == 12 {
        t = word_only("skärmbild");
    } else if k == 13 {
        t = word_only("ekran görüntüsü");
    } else if k == 14 {
        t = word_only("zrzut ekranu");
    } else if k == 15 {
        t = word_only("prtsc");
    } else {
        t = word_only("snip");
    }
    assert(t@ =~= screenshot_toks(k as int));
    t
}

/// Whether the already lowercased name `lowered` follows a WhatsApp naming
/// convention.
pub fn matches_whatsapp_lowered(lowered: &str) -> (r: bool)
    ensures
        r == is_whatsapp_lowered(lowered@),
{
    let s = chars_of(lowered);
    let mut k: usize = 0;
    while k < WHATSAPP_COUNT
        invariant
            k <= WHATSAPP_COUNT,
            s@ == lowered@,
            forall|i: int| 0 <= i < k ==> (#[trigger] match_at(whatsapp_toks(i), s@, 0)) is None,
        decreases WHATSAPP_COUNT - k,
    {
        let t = whatsapp_pattern(k);
        if match_here(&t, &s, 0).is_some() {
            assert(match_at(whatsapp_toks(k as int), s@, 0) is Some);
            return true;
        }
        k = k + 1;
    }
    false
}

/// Whether the already lowercased name `lowered` follows a screenshot naming
/// convention.
pub fn matches_screenshot_lowered(lowered: &str) -> (r: bool)
    ensures
        r == is_screenshot_lowered(lowered@),
{
    let s = chars_of(lowered);
    let mut k: usize = 0;
    while k < SCREENSHOT_COUNT
        invariant
            k <= SCREENSHOT_COUNT,
            s@ == lowered@,
            forall|i: int| 0 <= i < k ==> (#[trigger] match_at(screenshot_toks(i), s@, 0)) is None,
        decreases SCREENSHOT_COUNT - k,
    {
        let t = screenshot_pattern(k);
        if match_here(&t, &s, 0).is_some() {
            assert(match_at(screenshot_toks(k as int), s@, 0) is Some);
            return true;
        }
        k = k + 1;
    }
    false
}

/// Whether the file name follows a WhatsApp naming convention, in any letter
/// case.
pub fn is_whatsapp(name: &str) -> (r: bool)
    ensures
        r == is_whatsapp_name(name@),
{
    let lowered = lowercase(name);
    matches_whatsapp_lowered(lowered.as_str())
}

/// Whether the file name follows a screenshot naming convention, in any
/// letter case.
pub fn is_screenshot(name: &str) -> (r: bool)
    ensures
        r == is_screenshot_name(name@),
{
    let lowered = lowercase(name);
    matches_screenshot_lowered(lowered.as_str())
}

} // verus!
