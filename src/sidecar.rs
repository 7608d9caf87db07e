//! Reading a sidecar document: the capture time, the location and the camera
//! make and model. A document that is not JSON yields no record at all.

use vstd::prelude::*;
use crate::cascade::is_stamp;
use crate::text::{all_digits, chars_of, is_digit};
use chrono::TimeZone;

verus! {

/// Whether `doc` is a JSON document, as `serde_json` reads one.
pub uninterp spec fn json_parses(doc: Seq<char>) -> bool;

/// The string at `doc[outer][inner]`, when `doc` is JSON and a string stands
/// there.
pub uninterp spec fn json_nested_text(doc: Seq<char>, outer: Seq<char>, inner: Seq<char>) -> Option<
    Seq<char>,
>;

/// The string at `doc[key]`, when `doc` is JSON and a string stands there.
pub uninterp spec fn json_member_text(doc: Seq<char>, key: Seq<char>) -> Option<Seq<char>>;

/// The number at `doc[outer][inner]`, written as `serde_json` writes numbers,
/// when `doc` is JSON and a number stands there.
pub uninterp spec fn json_nested_number(doc: Seq<char>, outer: Seq<char>, inner: Seq<char>) -> Option<
    Seq<char>,
>;

/// The UTC time `secs` seconds after the Unix epoch, as chrono writes it
/// with `%Y:%m:%d %H:%M:%S`, or `None` outside chrono's range of dates.
pub uninterp spec fn utc_stamp_of(secs: int) -> Option<Seq<char>>;

/// Relies on `serde_json::from_str::<Value>`: whether the text parses.
#[verifier::external_body]
fn is_json(doc: &str) -> (r: bool)
    ensures
        r == json_parses(doc@),
{
    serde_json::from_str::<serde_json::Value>(doc).is_ok()
}

/// Relies on `serde_json::from_str::<Value>`, `Value`'s indexing by key and
/// `Value::as_str`: the string two levels down, if any.
#[verifier::external_body]
fn nested_text(doc: &str, outer: &str, inner: &str) -> (r: Option<String>)
    ensures
        opt_view(&r) == json_nested_text(doc@, outer@, inner@),
{
    match serde_json::from_str::<serde_json::Value>(doc) {
        Ok(v) => match v[outer][inner].as_str() {
            Some(t) => Some(t.to_string()),
            None => None,
        },
        Err(_) => None,
    }
}

/// Relies on `serde_json::from_str::<Value>`, `Value`'s indexing by key and
/// `Value::as_str`: the string one level down, if any.
#[verifier::external_body]
fn member_text(doc: &str, key: &str) -> (r: Option<String>)
    ensures
        opt_view(&r) == json_member_text(doc@, key@),
{
    match serde_json::from_str::<serde_json::Value>(doc) {
        Ok(v) => match v[key].as_str() {
            Some(t) => Some(t.to_string()),
            None => None,
        },
        Err(_) => None,
    }
}

/// Relies on `serde_json::from_str::<Value>`, `Value`'s indexing by key,
/// `Value::as_number` and `Number`'s `Display`: the number two levels down,
/// written out, if any.
#[verifier::external_body]
fn nested_number(doc: &str, outer: &str, inner: &str) -> (r: Option<String>)
    ensures
        opt_view(&r) == json_nested_number(doc@, outer@, inner@),
{
    match serde_json::from_str::<serde_json::Value>(doc) {
        Ok(v) => match v[outer][inner].as_number() {
            Some(n) => Some(n.to_string()),
            None => None,
        },
        Err(_) => None,
    }
}

/// Relies on chrono's `Utc.timestamp_opt` and `DateTime::format`: the epoch
/// time written as `%Y:%m:%d %H:%M:%S`, or `None` out of range. From 1970 up
/// to the end of year 9999 every field is zero-padded to its fixed width.
#[verifier::external_body]
fn utc_stamp(secs: i64) -> (r: Option<String>)
    ensures
        opt_view(&r) == utc_stamp_of(secs as int),
        0 <= secs < 253402300800 ==> r is Some && is_stamp(r.unwrap()@),
{
    match chrono::Utc.timestamp_opt(secs, 0).single() {
        Some(dt) => Some(dt.format("%Y:%m:%d %H:%M:%S").to_string()),
        None => None,
    }
}

pub open spec fn opt_view(o: &Option<String>) -> Option<Seq<char>> {
    match o {
        Some(s) => Some(s@),
        None => None,
    }
}

/// The value of the decimal digits `s`.
pub open spec fn digits_value(s: Seq<char>) -> int
    decreases s.len(),
{
    if s.len() == 0 {
        0
    } else {
        digits_value(s.drop_last()) * 10 + ((s.last() as u32) as int - 48)
    }
}

/// The integer that `s` writes: an optional `+` or `-`, then one or more
/// decimal digits, the value within `i64`'s range.
pub open spec fn i64_text_value(s: Seq<char>) -> Option<int> {
    let signed = s.len() > 0 && (s[0] == '-' || s[0] == '+');
    let body = if signed {
        s.drop_first()
    } else {
        s
    };
    let v = if s.len() > 0 && s[0] == '-' {
        -digits_value(body)
    } else {
        digits_value(body)
    };
    if body.len() == 0 || !all_digits(body) || v < i64::MIN || v > i64::MAX {
        None
    } else {
        Some(v)
    }
}

proof fn lemma_digits_value_nonneg(s: Seq<char>)
    requires
        all_digits(s),
    ensures
        digits_value(s) >= 0,
    decreases s.len(),
{
    if s.len() > 0 {
        assert(all_digits(s.drop_last()));
        lemma_digits_value_nonneg(s.drop_last());
        assert(is_digit(s[s.len() - 1]));
    }
}

const BIG: u128 = 9223372036854775808;

/// The integer that `s` writes, read as `str::parse::<i64>` reads it.
pub fn parse_i64(s: &str) -> (r: Option<i64>)
    ensures
        match i64_text_value(s@) {
            Some(v) => r == Some(v as i64),
            None => r is None,
        },
{
    let cs = chars_of(s);
    let n = cs.len();
    if n == 0 {
        return None;
    }
    let neg = cs[0] == '-';
    let start: usize = if cs[0] == '-' || cs[0] == '+' {
        1
    } else {
        0
    };
    let ghost body = cs@.subrange(start as int, n as int);
    assert(body =~= if start == 1 {
        s@.drop_first()
    } else {
        s@
    });
    if start == n {
        return None;
    }
    let mut acc: u128 = 0;
    let mut i = start;
    while i < n
        invariant
            cs@ == s@,
            n == cs@.len(),
            start <= i <= n,
            body == cs@.subrange(start as int, n as int),
            body == if start == 1 {
                s@.drop_first()
            } else {
                s@
            },
            (start == 1) == (s@.len() > 0 && (s@[0] == '-' || s@[0] == '+')),
            neg == (s@.len() > 0 && s@[0] == '-'),
            all_digits(cs@.subrange(start as int, i as int)),
            digits_value(cs@.subrange(start as int, i as int)) <= BIG ==> acc == digits_value(
                cs@.subrange(start as int, i as int),
            ),
            digits_value(cs@.subrange(start as int, i as int)) > BIG ==> acc > BIG,
            acc <= BIG * 10 + 9,
        decreases n - i,
    {
        let c = cs[i];
        if !('0' <= c && c <= '9') {
            assert(body[i - start] == c);
            assert(!is_digit(body[i - start]));
            return None;
        }
        let ghost prev = cs@.subrange(start as int, i as int);
        let ghost next = cs@.subrange(start as int, i + 1);
        assert(next.drop_last() =~= prev);
        proof {
            lemma_digits_value_nonneg(prev);
        }
        let d = (c as u32 - 48) as u128;
        if acc <= BIG {
            acc = acc * 10 + d;
        }
        i = i + 1;
        assert(all_digits(next));
    }
    assert(cs@.subrange(start as int, n as int) == body);
    if neg {
        if acc <= BIG {
            let v: i128 = -(acc as i128);
            Some(v as i64)
        } else {
            None
        }
    } else {
        if acc < BIG {
            Some(acc as i64)
        } else {
            None
        }
    }
}

/// What a sidecar records of its media file. Each location field is the
/// number's text, read on its own from `geoData` or, failing that, from
/// `geoDataExif`.
#[derive(Clone, Debug, PartialEq, Eq)]
pub struct SidecarRecord {
    /// The capture time, `YYYY:MM:DD HH:MM:SS` in UTC.
    pub taken: Option<String>,
    pub latitude: Option<String>,
    pub longitude: Option<String>,
    pub altitude: Option<String>,
    pub camera_make: Option<String>,
    pub camera_model: Option<String>,
}

/// A location field of the document `doc`: from `geoData`, or else from
/// `geoDataExif`.
pub open spec fn location_field(doc: Seq<char>, field: Seq<char>) -> Option<Seq<char>> {
    match json_nested_number(doc, "geoData"@, field) {
        Some(v) => Some(v),
        None => json_nested_number(doc, "geoDataExif"@, field),
    }
}

/// The location field `field` of the sidecar document `doc`.
pub fn location(doc: &str, field: &str) -> (r: Option<String>)
    ensures
        opt_view(&r) == location_field(doc@, field@),
{
    match nested_number(doc, "geoData", field) {
        Some(v) => Some(v),
        None => nested_number(doc, "geoDataExif", field),
    }
}

/// The capture time that a sidecar's epoch-seconds text gives: absent when
/// the text is absent, is no integer, or lies outside the calendar's range.
pub open spec fn taken_from(epoch_text: Option<Seq<char>>) -> Option<Seq<char>> {
    match epoch_text {
        Some(t) => match i64_text_value(t) {
            Some(v) => utc_stamp_of(v),
            None => None,
        },
        None => None,
    }
}

/// The capture time for the epoch-seconds text of a sidecar.
pub fn taken_time(epoch_text: &Option<String>) -> (r: Option<String>)
    ensures
        opt_view(&r) == taken_from(opt_view(epoch_text)),
{
    match epoch_text {
        Some(t) => match parse_i64(t.as_str()) {
            Some(v) => utc_stamp(v),
            None => None,
        },
        None => None,
    }
}

/// The record read from the sidecar document `doc`, or `None` when `doc` is
/// not JSON. The capture time is read from `photoTakenTime.timestamp`, the
/// location from `geoData` with `geoDataExif` as fallback, field by field, and
/// the camera from `cameraMake` and `cameraModel`.
pub fn extract_sidecar(doc: &str) -> (r: Option<SidecarRecord>)
    ensures
        r is Some <==> json_parses(doc@),
        r matches Some(rec) ==> {
            &&& opt_view(&rec.taken) == taken_from(
                json_nested_text(doc@, "photoTakenTime"@, "timestamp"@),
            )
            &&& opt_view(&rec.latitude) == location_field(doc@, "latitude"@)
            &&& opt_view(&rec.longitude) == location_field(doc@, "longitude"@)
            &&& opt_view(&rec.altitude) == location_field(doc@, "altitude"@)
            &&& opt_view(&rec.camera_make) == json_member_text(doc@, "cameraMake"@)
            &&& opt_view(&rec.camera_model) == json_member_text(doc@, "cameraModel"@)
        },
{
    if !is_json(doc) {
        return None;
    }
    let epoch = nested_text(doc, "photoTakenTime", "timestamp");
    let taken = taken_time(&epoch);
    let latitude = location(doc, "latitude");
    let longitude = location(doc, "longitude");
    let altitude = location(doc, "altitude");
    let camera_make = member_text(doc, "cameraMake");
    let camera_model = member_text(doc, "cameraModel");
    Some(SidecarRecord { taken, latitude, longitude, altitude, camera_make, camera_model })
}

} // verus!
