//! The filename date cascade: an ordered table of filename patterns, each
//! recognising one naming convention, tried in order until one matches.

use vstd::prelude::*;
use crate::text::{all_digits, chars_of, is_digit, string_of, two_digits};

verus! {

/// One element of a filename pattern.
#[derive(Clone, Copy, PartialEq, Eq, Structural, Debug)]
pub enum Tok {
    /// Exactly this character.
    Lit(char),
    /// One digit, kept for the timestamp.
    Digit,
    /// One digit, not kept.
    Skip,
    /// One or more digits, as many as stand, not kept.
    Run,
    /// One of the three characters.
    OneOf(char, char, char),
    /// At most one of the three characters, taken when it stands.
    MaybeOf(char, char, char),
    /// A day of one or two digits, as many as stand, kept as two digits.
    Day,
    /// An English three-letter month abbreviation, kept as its two-digit number.
    Month,
}

/// The number (1 to 12) of the month abbreviated `abc`, or 0.
pub open spec fn month_of(a: char, b: char, c: char) -> int {
    if a == 'J' && b == 'a' && c == 'n' {
        1
    } else if a == 'F' && b == 'e' && c == 'b' {
        2
    } else if a == 'M' && b == 'a' && c == 'r' {
        3
    } else if a == 'A' && b == 'p' && c == 'r' {
        4
    } else if a == 'M' && b == 'a' && c == 'y' {
        5
    } else if a == 'J' && b == 'u' && c == 'n' {
        6
    } else if a == 'J' && b == 'u' && c == 'l' {
        7
    } else if a == 'A' && b == 'u' && c == 'g' {
        8
    } else if a == 'S' && b == 'e' && c == 'p' {
        9
    } else if a == 'O' && b == 'c' && c == 't' {
        10
    } else if a == 'N' && b == 'o' && c == 'v' {
        11
    } else if a == 'D' && b == 'e' && c == 'c' {
        12
    } else {
        0
    }
}

/// The first position at or after `i` that holds no digit.
pub open spec fn run_end(s: Seq<char>, i: int) -> int
    decreases s.len() - i,
{
    if 0 <= i < s.len() && is_digit(s[i]) {
        run_end(s, i + 1)
    } else {
        i
    }
}

pub open spec fn one_of(c: char, a: char, b: char, d: char) -> bool {
    c == a || c == b || c == d
}

/// Token `t` tried at position `i` of `s`: where it ends and what it keeps.
pub open spec fn step(t: Tok, s: Seq<char>, i: int) -> Option<(int, Seq<char>)> {
    let has = 0 <= i < s.len();
    match t {
        Tok::Lit(c) => if has && s[i] == c {
            Some((i + 1, Seq::empty()))
        } else {
            None
        },
        Tok::Digit => if has && is_digit(s[i]) {
            Some((i + 1, seq![s[i]]))
        } else {
            None
        },
        Tok::Skip => if has && is_digit(s[i]) {
            Some((i + 1, Seq::empty()))
        } else {
            None
        },
        Tok::Run => if has && is_digit(s[i]) {
            Some((run_end(s, i), Seq::empty()))
        } else {
            None
        },
        Tok::OneOf(a, b, c) => if has && one_of(s[i], a, b, c) {
            Some((i + 1, Seq::empty()))
        } else {
            None
        },
        Tok::MaybeOf(a, b, c) => if has && one_of(s[i], a, b, c) {
            Some((i + 1, Seq::empty()))
        } else {
            Some((i, Seq::empty()))
        },
        Tok::Day => if has && is_digit(s[i]) {
            if i + 1 < s.len() && is_digit(s[i + 1]) {
                Some((i + 2, seq![s[i], s[i + 1]]))
            } else {
                Some((i + 1, seq!['0', s[i]]))
            }
        } else {
            None
        },
        Tok::Month => if 0 <= i && i + 3 <= s.len() && month_of(s[i], s[i + 1], s[i + 2]) != 0 {
            Some((i + 3, two_digits(month_of(s[i], s[i + 1], s[i + 2]))))
        } else {
            None
        },
    }
}

/// The pattern `t` matched at position `i` of `s`: the digits it keeps, or
/// `None` when it does not match there.
pub open spec fn match_at(t: Seq<Tok>, s: Seq<char>, i: int) -> Option<Seq<char>>
    decreases t.len(),
{
    if t.len() == 0 {
        Some(Seq::empty())
    } else {
        match step(t[0], s, i) {
            None => None,
            Some((j, kept)) => prefixed(kept, match_at(t.drop_first(), s, j)),
        }
    }
}

pub open spec fn prefixed(a: Seq<char>, o: Option<Seq<char>>) -> Option<Seq<char>> {
    match o {
        None => None,
        Some(r) => Some(a + r),
    }
}

/// The leftmost match of `t` in `s` that starts at or after `i`.
pub open spec fn find_from(t: Seq<Tok>, s: Seq<char>, i: int) -> Option<Seq<char>>
    decreases s.len() + 1 - i,
{
    if i < 0 || i > s.len() {
        None
    } else if match_at(t, s, i) is Some {
        match_at(t, s, i)
    } else {
        find_from(t, s, i + 1)
    }
}

/// A rule of the cascade: a pattern, and whether it keeps day, month and year
/// in that order (otherwise year, month, day, hour, minute, second).
pub ghost struct RuleSpec {
    pub toks: Seq<Tok>,
    pub day_first: bool,
}

pub struct Rule {
    pub toks: Vec<Tok>,
    pub day_first: bool,
}

impl View for Rule {
    type V = RuleSpec;

    open spec fn view(&self) -> RuleSpec {
        RuleSpec { toks: self.toks@, day_first: self.day_first }
    }
}

/// Kept digits in year-first order.
pub open spec fn arrange(d: Seq<char>, day_first: bool) -> Seq<char> {
    if day_first && d.len() >= 8 {
        d.subrange(4, 8) + d.subrange(2, 4) + d.subrange(0, 2)
    } else {
        d
    }
}

/// The first fourteen digits, completed with zeros: absent time fields read as
/// midnight, absent seconds as zero.
pub open spec fn fill14(d: Seq<char>) -> Seq<char> {
    Seq::new(14, |i: int| if i < d.len() { d[i] } else { '0' })
}

/// `YYYY:MM:DD HH:MM:SS` from the fourteen digits `YYYYMMDDHHMMSS`.
pub open spec fn stamp_text(d: Seq<char>) -> Seq<char> {
    seq![
        d[0], d[1], d[2], d[3], ':', d[4], d[5], ':', d[6], d[7], ' ',
        d[8], d[9], ':', d[10], d[11], ':', d[12], d[13],
    ]
}

/// A text in the form `YYYY:MM:DD HH:MM:SS`, every field zero-padded digits.
pub open spec fn is_stamp(t: Seq<char>) -> bool {
    &&& t.len() == 19
    &&& t[4] == ':' && t[7] == ':' && t[10] == ' ' && t[13] == ':' && t[16] == ':'
    &&& forall|i: int|
        0 <= i < 19 && i != 4 && i != 7 && i != 10 && i != 13 && i != 16 ==> is_digit(
            #[trigger] t[i],
        )
}

/// What rule `r` makes of the filename `s`.
pub open spec fn rule_result(r: RuleSpec, s: Seq<char>) -> Option<Seq<char>> {
    match find_from(r.toks, s, 0) {
        None => None,
        Some(d) => Some(stamp_text(fill14(arrange(d, r.day_first)))),
    }
}

/// The first rule from the `k`-th on that matches `s`, applied.
pub open spec fn cascade_from(rules: Seq<RuleSpec>, s: Seq<char>, k: int) -> Option<Seq<char>>
    decreases rules.len() - k,
{
    if k < 0 || k >= rules.len() {
        None
    } else if rule_result(rules[k], s) is Some {
        rule_result(rules[k], s)
    } else {
        cascade_from(rules, s, k + 1)
    }
}

pub open spec fn lit_tok(c: char) -> Tok {
    Tok::Lit(c)
}

pub open spec fn lits(w: Seq<char>) -> Seq<Tok> {
    Seq::new(w.len(), |i: int| lit_tok(w[i]))
}

pub open spec fn digits(n: nat) -> Seq<Tok> {
    Seq::new(n, |i: int| Tok::Digit)
}

/// `<prefix>YYYYMMDD<sep>hhmmss`
pub open spec fn compact(prefix: Seq<char>, sep: char) -> Seq<Tok> {
    lits(prefix) + digits(8) + seq![Tok::Lit(sep)] + digits(6)
}

/// `<prefix>YYYY<d>MM<d>DD<mid>hh<t>mm<t>ss`
pub open spec fn spaced(prefix: Seq<char>, d: char, mid: Seq<char>, t: char) -> Seq<Tok> {
    lits(prefix) + digits(4) + seq![Tok::Lit(d)] + digits(2) + seq![Tok::Lit(d)] + digits(2)
        + lits(mid) + digits(2) + seq![Tok::Lit(t)] + digits(2) + seq![Tok::Lit(t)] + digits(2)
}

pub const RULE_COUNT: usize = 24;

/// The pattern of the `k`-th rule of the cascade, by priority.
pub open spec fn rule_toks(k: int) -> Seq<Tok> {
    if k == 0 {
        lits("IMG-"@) + digits(8) + lits("-WA"@) + seq![Tok::Skip]
    } else if k == 1 {
        spaced("WhatsApp Image "@, '-', " at "@, '.')
    } else if k == 2 {
        spaced("Screenshot_"@, '-', "-"@, '-')
    } else if k == 3 {
        spaced("Screen Shot "@, '-', " at "@, '.')
    } else if k == 4 {
        compact("Screenshot_"@, '-')
    } else if k == 5 {
        spaced("photo_"@, '-', " "@, '.')
    } else if k == 6 {
        compact("IMG_"@, '_')
    } else if k == 7 {
        digits(4) + seq![Tok::Lit('-')] + digits(2) + seq![Tok::Lit('-')] + digits(2) + seq![
            Tok::Lit('-'),
        ] + digits(6)
    } else if k == 8 {
        seq![Tok::OneOf('.', '_', '-')] + digits(8) + seq![Tok::Lit('-')] + digits(4)
    } else if k == 9 {
        compact(""@, '_')
    } else if k == 10 {
        spaced(""@, '-', " "@, '.')
    } else if k == 11 {
        compact(""@, '-')
    } else if k == 12 {
        spaced(""@, '-', "_"@, '-')
    } else if k == 13 {
        spaced(""@, '.', "_"@, '.')
    } else if k == 14 {
        spaced(""@, '_', "_"@, '_')
    } else if k == 15 {
        compact("PXL_"@, '_')
    } else if k == 16 {
        spaced(""@, '-', "_"@, '-') + seq![Tok::Lit('-'), Tok::Skip]
    } else if k == 17 {
        spaced("Screenshot_"@, '-', "-"@, '-') + seq![Tok::Lit('-'), Tok::Skip]
    } else if k == 18 {
        compact("VID_"@, '_')
    } else if k == 19 {
        lits("DSC"@) + seq![Tok::Run, Tok::Lit('_')] + digits(8) + seq![Tok::Lit('_')] + digits(6)
    } else if k == 20 {
        compact("DSC_"@, '_')
    } else if k == 21 {
        compact("RMLmc"@, '_')
    } else if k == 22 {
        compact("IMG_"@, '_') + lits("Jan "@) + seq![Tok::Skip, Tok::Skip, Tok::Lit(' ')] + seq![
            Tok::Skip,
            Tok::Skip,
            Tok::Skip,
            Tok::Skip,
        ]
    } else {
        seq![Tok::Day, Tok::Lit(' '), Tok::Month, Tok::Lit(' ')] + digits(4)
    }
}

/// The cascade, highest priority first: chat apps, screenshot tools, then
/// generic numeric date-times, camera makers, and last a day, month
/// abbreviation and year. Some camera conventions stand behind a generic
/// rule that already reads the same digits from such names.
pub open spec fn date_rules() -> Seq<RuleSpec> {
    Seq::new(RULE_COUNT as nat, |k: int| RuleSpec { toks: rule_toks(k), day_first: k == 23 })
}

/// The timestamp that the cascade reads from the filename `s`.
pub open spec fn date_from_name(s: Seq<char>) -> Option<Seq<char>> {
    cascade_from(date_rules(), s, 0)
}


pub fn is_ascii_digit(c: char) -> (b: bool)
    ensures
        b == is_digit(c),
{
    '0' <= c && c <= '9'
}

fn month_number(a: char, b: char, c: char) -> (m: u64)
    ensures
        m == month_of(a, b, c),
{
    if a == 'J' && b == 'a' && c == 'n' {
        1
    } else if a == 'F' && b == 'e' && c == 'b' {
        2
    } else if a == 'M' && b == 'a' && c == 'r' {
        3
    } else if a == 'A' && b == 'p' && c == 'r' {
        4
    } else if a == 'M' && b == 'a' && c == 'y' {
        5
    } else if a == 'J' && b == 'u' && c == 'n' {
        6
    } else if a == 'J' && b == 'u' && c == 'l' {
        7
    } else if a == 'A' && b == 'u' && c == 'g' {
        8
    } else if a == 'S' && b == 'e' && c == 'p' {
        9
    } else if a == 'O' && b == 'c' && c == 't' {
        10
    } else if a == 'N' && b == 'o' && c == 'v' {
        11
    } else if a == 'D' && b == 'e' && c == 'c' {
        12
    } else {
        0
    }
}

fn run_end_of(s: &Vec<char>, i: usize) -> (r: usize)
    requires
        i <= s@.len(),
    ensures
        r == run_end(s@, i as int),
        i <= r <= s@.len(),
{
    let mut j = i;
    while j < s.len() && is_ascii_digit(s[j])
        invariant
            i <= j <= s@.len(),
            run_end(s@, i as int) == run_end(s@, j as int),
        decreases s@.len() - j,
    {
        j = j + 1;
    }
    j
}

/// Token `t` tried at position `i`: on a match, its kept digits are appended
/// to `kept` and the position after it is returned.
fn step_at(t: Tok, s: &Vec<char>, i: usize, kept: &mut Vec<char>) -> (r: Option<usize>)
    requires
        i <= s@.len(),
    ensures
        match step(t, s@, i as int) {
            None => r is None,
            Some((j, k)) => r matches Some(x) && x == j && j <= s@.len() && final(kept)@ == old(
                kept,
            )@ + k,
        },
{
    let has = i < s.len();
    match t {
        Tok::Lit(c) => {
            if has && s[i] == c {
                assert(kept@ =~= kept@ + Seq::<char>::empty());
                Some(i + 1)
            } else {
                None
            }
        },
        Tok::Digit => {
            if has && is_ascii_digit(s[i]) {
                kept.push(s[i]);
                Some(i + 1)
            } else {
                None
            }
        },
        Tok::Skip => {
            if has && is_ascii_digit(s[i]) {
                assert(kept@ =~= kept@ + Seq::<char>::empty());
                Some(i + 1)
            } else {
                None
            }
        },
        Tok::Run => {
            if has && is_ascii_digit(s[i]) {
                assert(kept@ =~= kept@ + Seq::<char>::empty());
                Some(run_end_of(s, i))
            } else {
                None
            }
        },
        Tok::OneOf(a, b, c) => {
            if has && (s[i] == a || s[i] == b || s[i] == c) {
                assert(kept@ =~= kept@ + Seq::<char>::empty());
                Some(i + 1)
            } else {
                None
            }
        },
        Tok::MaybeOf(a, b, c) => {
            assert(kept@ =~= kept@ + Seq::<char>::empty());
            if has && (s[i] == a || s[i] == b || s[i] == c) {
                Some(i + 1)
            } else {
                Some(i)
            }
        },
        Tok::Day => {
            if has && is_ascii_digit(s[i]) {
                if i + 1 < s.len() && is_ascii_digit(s[i + 1]) {
                    kept.push(s[i]);
                    kept.push(s[i + 1]);
                    assert(final(kept)@ =~= old(kept)@ + seq![s@[i as int], s@[i + 1]]);
                    Some(i + 2)
                } else {
                    kept.push('0');
                    kept.push(s[i]);
                    assert(final(kept)@ =~= old(kept)@ + seq!['0', s@[i as int]]);
                    Some(i + 1)
                }
            } else {
                None
            }
        },
        Tok::Month => {
            if i < s.len() && s.len() - i >= 3 {
                let m = month_number(s[i], s[i + 1], s[i + 2]);
                if m != 0 {
                    kept.push(crate::text::digit(m / 10));
                    kept.push(crate::text::digit(m % 10));
                    assert(final(kept)@ =~= old(kept)@ + two_digits(m as int));
                    Some(i + 3)
                } else {
                    None
                }
            } else {
                None
            }
        },
    }
}

proof fn lemma_prefixed_assoc(a: Seq<char>, b: Seq<char>, o: Option<Seq<char>>)
    ensures
        prefixed(a, prefixed(b, o)) == prefixed(a + b, o),
{
    if let Some(r) = o {
        assert((a + b) + r =~= a + (b + r));
    }
}

/// The pattern `t` tried at position `i` of `s`.
pub fn match_here(t: &Vec<Tok>, s: &Vec<char>, i: usize) -> (r: Option<Vec<char>>)
    requires
        i <= s@.len(),
    ensures
        match match_at(t@, s@, i as int) {
            None => r is None,
            Some(d) => r matches Some(v) && v@ == d,
        },
{
    let mut kept: Vec<char> = Vec::new();
    let mut pos = i;
    let mut k: usize = 0;
    assert(t@.subrange(0, t@.len() as int) =~= t@);
    assert(kept@ + Seq::<char>::empty() =~= kept@);
    while k < t.len()
        invariant
            k <= t@.len(),
            pos <= s@.len(),
            match_at(t@, s@, i as int) == prefixed(
                kept@,
                match_at(t@.subrange(k as int, t@.len() as int), s@, pos as int),
            ),
        decreases t@.len() - k,
    {
        let ghost rest = t@.subrange(k as int, t@.len() as int);
        let ghost before = kept@;
        assert(rest.drop_first() =~= t@.subrange(k + 1, t@.len() as int));
        assert(rest[0] == t@[k as int]);
        match step_at(t[k], s, pos, &mut kept) {
            None => {
                return None;
            },
            Some(j) => {
                proof {
                    let (jj, kk) = step(rest[0], s@, pos as int).unwrap();
                    assert(jj == j);
                    assert(kept@ == before + kk);
                    assert(match_at(rest, s@, pos as int) == prefixed(
                        kk,
                        match_at(rest.drop_first(), s@, jj),
                    ));
                    lemma_prefixed_assoc(before, kk, match_at(rest.drop_first(), s@, jj));
                }
                pos = j;
            },
        }
        k = k + 1;
    }
    assert(t@.subrange(k as int, t@.len() as int) =~= Seq::<Tok>::empty());
    assert(kept@ + Seq::<char>::empty() =~= kept@);
    Some(kept)
}

/// The leftmost match of `t` in `s`.
pub fn find_first(t: &Vec<Tok>, s: &Vec<char>) -> (r: Option<Vec<char>>)
    ensures
        match find_from(t@, s@, 0) {
            None => r is None,
            Some(d) => r matches Some(v) && v@ == d,
        },
{
    let mut i: usize = 0;
    loop
        invariant
            i <= s@.len(),
            find_from(t@, s@, 0) == find_from(t@, s@, i as int),
        decreases s@.len() - i,
    {
        match match_here(t, s, i) {
            Some(d) => {
                return Some(d);
            },
            None => {},
        }
        if i == s.len() {
            assert(find_from(t@, s@, i + 1) is None);
            return None;
        }
        i = i + 1;
    }
}

pub(crate) fn push_word(t: &mut Vec<Tok>, w: &str)
    ensures
        final(t)@ == old(t)@ + lits(w@),
{
    let cs = chars_of(w);
    let mut i: usize = 0;
    assert(old(t)@ + lits(cs@.subrange(0, 0)) =~= old(t)@);
    while i < cs.len()
        invariant
            i <= cs@.len(),
            cs@ == w@,
            t@ == old(t)@ + lits(cs@.subrange(0, i as int)),
        decreases cs@.len() - i,
    {
        t.push(Tok::Lit(cs[i]));
        i = i + 1;
        assert(lit_tok(cs@[i - 1]) == Tok::Lit(cs@[i - 1]));
        assert(lits(cs@.subrange(0, i as int)) =~= lits(cs@.subrange(0, i - 1)).push(
            lit_tok(cs@[i - 1]),
        ));
        assert(t@ =~= old(t)@ + lits(cs@.subrange(0, i as int)));
    }
    assert(cs@.subrange(0, i as int) =~= w@);
}

pub(crate) fn push_digits(t: &mut Vec<Tok>, n: usize)
    ensures
        final(t)@ == old(t)@ + digits(n as nat),
{
    let mut i: usize = 0;
    while i < n
        invariant
            i <= n,
            t@ == old(t)@ + digits(i as nat),
        decreases n - i,
    {
        t.push(Tok::Digit);
        i = i + 1;
        assert(t@ =~= old(t)@ + digits(i as nat));
    }
}

fn compact_toks(prefix: &str, sep: char) -> (t: Vec<Tok>)
    ensures
        t@ == compact(prefix@, sep),
{
    let mut t: Vec<Tok> = Vec::new();
    push_word(&mut t, prefix);
    push_digits(&mut t, 8);
    t.push(Tok::Lit(sep));
    push_digits(&mut t, 6);
    assert(t@ =~= compact(prefix@, sep));
    t
}

pub(crate) fn spaced_toks(prefix: &str, d: char, mid: &str, tsep: char) -> (t: Vec<Tok>)
    ensures
        t@ == spaced(prefix@, d, mid@, tsep),
{
    let mut t: Vec<Tok> = Vec::new();
    push_word(&mut t, prefix);
    push_digits(&mut t, 4);
    t.push(Tok::Lit(d));
    push_digits(&mut t, 2);
    t.push(Tok::Lit(d));
    push_digits(&mut t, 2);
    push_word(&mut t, mid);
    push_digits(&mut t, 2);
    t.push(Tok::Lit(tsep));
    push_digits(&mut t, 2);
    t.push(Tok::Lit(tsep));
    push_digits(&mut t, 2);
    assert(t@ =~= spaced(prefix@, d, mid@, tsep));
    t
}

/// The `k`-th rule of the cascade.
pub fn date_rule(k: usize) -> (r: Rule)
    requires
        k < RULE_COUNT,
    ensures
        r@ == date_rules()[k as int],
{
    let mut t: Vec<Tok>;
    if k == 0 {
        t = Vec::new();
        push_word(&mut t, "IMG-");
        push_digits(&mut t, 8);
        push_word(&mut t, "-WA");
        t.push(Tok::Skip);
    } else if k == 1 {
        t = spaced_toks("WhatsApp Image ", '-', " at ", '.');
    } else if k == 2 {
        t = spaced_toks("Screenshot_", '-', "-", '-');
    } else if k == 3 {
        t = spaced_toks("Screen Shot ", '-', " at ", '.');
    } else if k == 4 {
        t = compact_toks("Screenshot_", '-');
    } else if k == 5 {
        t = spaced_toks("photo_", '-', " ", '.');
    } else if k == 6 {
        t = compact_toks("IMG_", '_');
    } else if k == 7 {
        t = Vec::new();
        push_digits(&mut t, 4);
        t.push(Tok::Lit('-'));
        push_digits(&mut t, 2);
        t.push(Tok::Lit('-'));
        push_digits(&mut t, 2);
        t.push(Tok::Lit('-'));
        push_digits(&mut t, 6);
    } else if k == 8 {
        t = Vec::new();
        t.push(Tok::OneOf('.', '_', '-'));
        push_digits(&mut t, 8);
        t.push(Tok::Lit('-'));
        push_digits(&mut t, 4);
    } else if k == 9 {
        t = compact_toks("", '_');
    } else if k == 10 {
        t = spaced_toks("", '-', " ", '.');
    } else if k == 11 {
        t = compact_toks("", '-');
    } else if k == 12 {
        t = spaced_toks("", '-', "_", '-');
    } else if k == 13 {
        t = spaced_toks("", '.', "_", '.');
    } else if k == 14 {
        t = spaced_toks("", '_', "_", '_');
    } else if k == 15 {
        t = compact_toks("PXL_", '_');
    } else if k == 16 {
        t = spaced_toks("", '-', "_", '-');
        t.push(Tok::Lit('-'));
        t.push(Tok::Skip);
    } else if k == 17 {
        t = spaced_toks("Screenshot_", '-', "-", '-');
        t.push(Tok::Lit('-'));
        t.push(Tok::Skip);
    } else if k == 18 {
        t = compact_toks("VID_", '_');
    } else if k == 19 {
        t = Vec::new();
        push_word(&mut t, "DSC");
        t.push(Tok::Run);
        t.push(Tok::Lit('_'));
        push_digits(&mut t, 8);
        t.push(Tok::Lit('_'));
        push_digits(&mut t, 6);
    } else if k == 20 {
        t = compact_toks("DSC_", '_');
    } else if k == 21 {
        t = compact_toks("RMLmc", '_');
    } else if k == 22 {
        t = compact_toks("IMG_", '_');
        push_word(&mut t, "Jan ");
        t.push(Tok::Skip);
        t.push(Tok::Skip);
        t.push(Tok::Lit(' '));
        t.push(Tok::Skip);
        t.push(Tok::Skip);
        t.push(Tok::Skip);
        t.push(Tok::Skip);
    } else {
        t = Vec::new();
        t.push(Tok::Day);
        t.push(Tok::Lit(' '));
        t.push(Tok::Month);
        t.push(Tok::Lit(' '));
        push_digits(&mut t, 4);
    }
    assert(t@ =~= rule_toks(k as int));
    Rule { toks: t, day_first: k == 23 }
}

fn push_range(out: &mut Vec<char>, d: &Vec<char>, from: usize, to: usize)
    requires
        from <= to <= d@.len(),
    ensures
        final(out)@ == old(out)@ + d@.subrange(from as int, to as int),
{
    let mut i = from;
    while i < to
        invariant
            from <= i <= to,
            to <= d@.len(),
            out@ == old(out)@ + d@.subrange(from as int, i as int),
        decreases to - i,
    {
        out.push(d[i]);
        i = i + 1;
        assert(out@ =~= old(out)@ + d@.subrange(from as int, i as int));
    }
}

/// The timestamp text for the kept digits `d` of a rule.
fn stamp_of(d: &Vec<char>, day_first: bool) -> (r: Vec<char>)
    ensures
        r@ == stamp_text(fill14(arrange(d@, day_first))),
{
    let mut e: Vec<char> = Vec::new();
    if day_first && d.len() >= 8 {
        push_range(&mut e, d, 4, 8);
        push_range(&mut e, d, 2, 4);
        push_range(&mut e, d, 0, 2);
    } else {
        push_range(&mut e, d, 0, d.len());
    }
    assert(e@ =~= arrange(d@, day_first));
    let mut f: Vec<char> = Vec::new();
    let mut i: usize = 0;
    while i < 14
        invariant
            i <= 14,
            f@ =~= fill14(e@).subrange(0, i as int),
        decreases 14 - i,
    {
        if i < e.len() {
            f.push(e[i]);
        } else {
            f.push('0');
        }
        i = i + 1;
    }
    assert(f@ =~= fill14(e@));
    let mut r: Vec<char> = Vec::new();
    r.push(f[0]);
    r.push(f[1]);
    r.push(f[2]);
    r.push(f[3]);
    r.push(':');
    r.push(f[4]);
    r.push(f[5]);
    r.push(':');
    r.push(f[6]);
    r.push(f[7]);
    r.push(' ');
    r.push(f[8]);
    r.push(f[9]);
    r.push(':');
    r.push(f[10]);
    r.push(f[11]);
    r.push(':');
    r.push(f[12]);
    r.push(f[13]);
    assert(r@ =~= stamp_text(f@));
    r
}

/// The capture timestamp that a filename encodes, as `YYYY:MM:DD HH:MM:SS`:
/// the rules of the cascade are tried in priority order and the first that
/// matches anywhere in the name decides; `None` when no rule matches.
pub fn extract_date_from_filename(filename: &str) -> (r: Option<String>)
    ensures
        match date_from_name(filename@) {
            None => r is None,
            Some(t) => r matches Some(x) && x@ == t,
        },
{
    let s = chars_of(filename);
    let mut k: usize = 0;
    while k < RULE_COUNT
        invariant
            k <= RULE_COUNT,
            s@ == filename@,
            date_from_name(s@) == cascade_from(date_rules(), s@, k as int),
        decreases RULE_COUNT - k,
    {
        let rule = date_rule(k);
        match find_first(&rule.toks, &s) {
            Some(d) => {
                let st = stamp_of(&d, rule.day_first);
                return Some(string_of(&st));
            },
            None => {},
        }
        k = k + 1;
    }
    None
}


proof fn lemma_step_keeps_digits(t: Tok, s: Seq<char>, i: int)
    ensures
        step(t, s, i) matches Some((j, kept)) ==> all_digits(kept),
{
    if let Tok::Month = t {
        if 0 <= i && i + 3 <= s.len() && month_of(s[i], s[i + 1], s[i + 2]) != 0 {
            let m = month_of(s[i], s[i + 1], s[i + 2]);
            crate::text::lemma_digit_char_is_digit(m / 10);
            crate::text::lemma_digit_char_is_digit(m % 10);
        }
    }
}

proof fn lemma_match_keeps_digits(t: Seq<Tok>, s: Seq<char>, i: int)
    ensures
        match_at(t, s, i) matches Some(d) ==> all_digits(d),
    decreases t.len(),
{
    if t.len() > 0 {
        lemma_step_keeps_digits(t[0], s, i);
        if let Some((j, kept)) = step(t[0], s, i) {
            lemma_match_keeps_digits(t.drop_first(), s, j);
            if let Some(rest) = match_at(t.drop_first(), s, j) {
                assert(forall|k: int| 0 <= k < (kept + rest).len() ==> #[trigger] (kept + rest)[k] == if k < kept.len() {
                    kept[k]
                } else {
                    rest[k - kept.len()]
                });
            }
        }
    }
}

proof fn lemma_find_keeps_digits(t: Seq<Tok>, s: Seq<char>, i: int)
    ensures
        find_from(t, s, i) matches Some(d) ==> all_digits(d),
    decreases s.len() + 1 - i,
{
    if 0 <= i <= s.len() {
        lemma_match_keeps_digits(t, s, i);
        lemma_find_keeps_digits(t, s, i + 1);
    }
}

proof fn lemma_stamp_of_digits(d: Seq<char>, day_first: bool)
    requires
        all_digits(d),
    ensures
        is_stamp(stamp_text(fill14(arrange(d, day_first)))),
{
    let e = arrange(d, day_first);
    assert(all_digits(e));
    let f = fill14(e);
    assert(all_digits(f));
    let t = stamp_text(f);
    assert forall|i: int|
        0 <= i < 19 && i != 4 && i != 7 && i != 10 && i != 13 && i != 16 implies is_digit(
            #[trigger] t[i],
        ) by {
        assert(t[i] == f[if i < 4 {
            i
        } else if i < 7 {
            i - 1
        } else if i < 10 {
            i - 2
        } else if i < 13 {
            i - 3
        } else if i < 16 {
            i - 4
        } else {
            i - 5
        }]);
    }
}

proof fn lemma_cascade_from_shape(rules: Seq<RuleSpec>, s: Seq<char>, k: int)
    requires
        0 <= k <= rules.len(),
    ensures
        cascade_from(rules, s, k) matches Some(t) ==> is_stamp(t),
        cascade_from(rules, s, k) is None <==> (forall|i: int|
            k <= i < rules.len() ==> #[trigger] find_from(rules[i].toks, s, 0) is None),
    decreases rules.len() - k,
{
    if k < rules.len() {
        lemma_cascade_from_shape(rules, s, k + 1);
        lemma_find_keeps_digits(rules[k].toks, s, 0);
        if let Some(d) = find_from(rules[k].toks, s, 0) {
            lemma_stamp_of_digits(d, rules[k].day_first);
        }
    }
}

/// For every filename the cascade either reads a timestamp of the fixed form
/// `YYYY:MM:DD HH:MM:SS`, every field zero-padded digits, or reads none, and it
/// reads none exactly when no rule matches anywhere in the name.
pub proof fn lemma_cascade_result_is_stamp(s: Seq<char>)
    ensures
        date_from_name(s) matches Some(t) ==> is_stamp(t),
        date_from_name(s) is None <==> (forall|k: int|
            0 <= k < RULE_COUNT ==> #[trigger] find_from(date_rules()[k].toks, s, 0) is None),
{
    lemma_cascade_from_shape(date_rules(), s, 0);
}

proof fn lemma_cascade_from_first(rules: Seq<RuleSpec>, s: Seq<char>, k: int, j: int)
    requires
        0 <= k <= j < rules.len(),
        rule_result(rules[j], s) is Some,
        forall|i: int| k <= i < j ==> #[trigger] rule_result(rules[i], s) is None,
    ensures
        cascade_from(rules, s, k) == rule_result(rules[j], s),
    decreases j - k,
{
    if k < j {
        lemma_cascade_from_first(rules, s, k + 1, j);
    }
}

/// When rule `j` matches the filename and no rule of higher priority does, the
/// cascade returns what rule `j` reads, whatever rules of lower priority would
/// read.
pub proof fn lemma_cascade_first_match_wins(s: Seq<char>, j: int)
    requires
        0 <= j < RULE_COUNT,
        rule_result(date_rules()[j], s) is Some,
        forall|i: int| 0 <= i < j ==> #[trigger] rule_result(date_rules()[i], s) is None,
    ensures
        date_from_name(s) == rule_result(date_rules()[j], s),
{
    lemma_cascade_from_first(date_rules(), s, 0, j);
}

} // verus!
