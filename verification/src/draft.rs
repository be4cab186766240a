//! Jianying 5.9-compatible plaintext draft documents.
//!
//! Object entries are built with the ones that depend on the input first;
//! JSON objects are unordered, so the order does not show in the files.
use vstd::prelude::*;

use crate::date::{duration_micros, elapsed_since_epoch};
use crate::id::{hex_id, upper_guid};
use crate::json::{
    empty_array, entry, entry_value, lemma_entry_at, frac, signed, string, uint, JsonNumber, JsonValue,
};
use crate::media::{MediaFile, MediaKind};
use crate::text::{chars_of, decimal, push_decimal, push_str, string_of};
use crate::timeline::{PlannedCaption, PlannedClip, Ratio, TimelinePlan};

verus! {

pub struct DraftRequest<'a> {
    pub name: &'a str,
    pub plan: &'a TimelinePlan,
    pub visuals: &'a [MediaFile],
    pub output_dir: &'a str,
    pub rewrite_from: Option<&'a str>,
    pub rewrite_to: Option<&'a str>,
}

// ---------------------------------------------------------------------------
// Paths and times
// ---------------------------------------------------------------------------
/// `s` with every occurrence of the non-empty `pat` replaced by `rep`,
/// matched from the left without overlaps (`str::replace`).
pub open spec fn replace_all(s: Seq<char>, pat: Seq<char>, rep: Seq<char>) -> Seq<char>
    recommends
        pat.len() > 0,
    decreases s.len(),
{
    if s.len() == 0 || pat.len() == 0 {
        s
    } else if pat.len() <= s.len() && s.take(pat.len() as int) == pat {
        rep + replace_all(s.skip(pat.len() as int), pat, rep)
    } else {
        seq![s[0]] + replace_all(s.drop_first(), pat, rep)
    }
}

/// A material path as the draft records it: with `from` replaced by `to`
/// when both are given and `from` is not empty.
pub open spec fn spec_rewrite_path(path: Seq<char>, from: Option<Seq<char>>, to: Option<Seq<char>>) -> Seq<
    char,
> {
    match (from, to) {
        (Some(f), Some(t)) => if f.len() > 0 {
            replace_all(path, f, t)
        } else {
            path
        },
        _ => path,
    }
}

pub open spec fn opt_view(o: Option<&str>) -> Option<Seq<char>> {
    match o {
        Some(s) => Some(s@),
        None => None,
    }
}

fn starts_at(s: &[char], i: usize, pat: &[char]) -> (r: bool)
    requires
        i <= s.len(),
    ensures
        r == (pat@.len() <= s@.skip(i as int).len() && s@.skip(i as int).take(pat@.len() as int)
            == pat@),
{
    if pat.len() > s.len() - i {
        return false;
    }
    let mut k: usize = 0;
    while k < pat.len()
        invariant
            0 <= k <= pat.len(),
            i + pat.len() <= s.len(),
            forall|j: int| 0 <= j < k ==> s@[i + j] == pat@[j],
        decreases pat.len() - k,
    {
        if s[i + k] != pat[k] {
            assert(s@.skip(i as int).take(pat@.len() as int)[k as int] != pat@[k as int]);
            return false;
        }
        k = k + 1;
    }
    assert(s@.skip(i as int).take(pat@.len() as int) =~= pat@);
    true
}

/// A material path with `from` replaced by `to` (when both are given and
/// `from` is not empty).
pub fn rewrite_path(path: &str, from: Option<&str>, to: Option<&str>) -> (r: String)
    ensures
        r@ == spec_rewrite_path(path@, opt_view(from), opt_view(to)),
{
    let (f, t) = match (from, to) {
        (Some(f), Some(t)) => (f, t),
        _ => {
            return String::from_str(path);
        },
    };
    let pat = chars_of(f);
    if pat.len() == 0 {
        return String::from_str(path);
    }
    let rep = chars_of(t);
    let s = chars_of(path);
    let mut out: Vec<char> = Vec::new();
    let mut i: usize = 0;
    assert(s@.skip(0) == s@);
    while i < s.len()
        invariant
            0 <= i <= s.len(),
            pat@.len() > 0,
            out@ + replace_all(s@.skip(i as int), pat@, rep@) == replace_all(s@, pat@, rep@),
        decreases s.len() - i,
    {
        if starts_at(&s, i, &pat) {
            let mut k: usize = 0;
            let ghost before = out@;
            while k < rep.len()
                invariant
                    0 <= k <= rep.len(),
                    out@ == before + rep@.take(k as int),
                decreases rep.len() - k,
            {
                out.push(rep[k]);
                assert(rep@.take(k + 1) == rep@.take(k as int).push(rep@[k as int]));
                k = k + 1;
            }
            assert(rep@.take(rep.len() as int) == rep@);
            assert(s@.skip(i as int).skip(pat@.len() as int) == s@.skip(i + pat.len()));
            assert(before + (rep@ + replace_all(s@.skip(i + pat.len()), pat@, rep@)) == out@
                + replace_all(s@.skip(i + pat.len()), pat@, rep@));
            i = i + pat.len();
        } else {
            let ghost before = out@;
            out.push(s[i]);
            assert(s@.skip(i as int).drop_first() == s@.skip(i + 1));
            assert(before + (seq![s@[i as int]] + replace_all(s@.skip(i + 1), pat@, rep@)) == out@
                + replace_all(s@.skip(i + 1), pat@, rep@));
            i = i + 1;
        }
    }
    assert(out@ + Seq::<char>::empty() == out@);
    string_of(&out)
}

/// A microsecond count as `u64`: 0 when there is none (the clock stands
/// before the epoch), `u64::MAX` when it is larger than that.
pub fn micros_to_us(m: Option<u128>) -> (r: u64)
    ensures
        r == match m {
            None => 0,
            Some(x) => if x > u64::MAX {
                u64::MAX
            } else {
                x as u64
            },
        },
{
    match m {
        Some(x) => {
            if x > u64::MAX as u128 {
                u64::MAX
            } else {
                x as u64
            }
        },
        None => 0,
    }
}

/// Microseconds since the Unix epoch by the system clock (0 before the
/// epoch, saturating at `u64::MAX`); the clock reading is capped by
/// `micros_to_us`.
pub fn now_us() -> u64 {
    let micros = match elapsed_since_epoch() {
        Some(d) => Some(duration_micros(&d)),
        None => None,
    };
    micros_to_us(micros)
}

// ---------------------------------------------------------------------------
// Small documents
// ---------------------------------------------------------------------------
/// A JSON float for a fraction.
fn ratio_value(r: Ratio) -> (v: JsonValue)
    ensures
        v == JsonValue::Number(JsonNumber::Frac(r.num as i128, r.den)),
{
    frac(r.num as i128, r.den)
}

/// `{ "start": .., "duration": .. }`.
fn timerange(start: u64, duration: u64) -> (r: JsonValue)
    ensures
        r.field("start"@) == Some(JsonValue::Number(JsonNumber::Int(start as i128))),
        r.field("duration"@) == Some(JsonValue::Number(JsonNumber::Int(duration as i128))),
{
    let mut o: Vec<(String, JsonValue)> = Vec::new();
    o.push(entry("start", uint(start)));
    o.push(entry("duration", uint(duration)));
    proof {
        reveal_strlit("start");
        reveal_strlit("duration");
        assert("start"@.len() == 5);
        assert("duration"@.len() == 8);
        lemma_entry_at(o@, 0, "start"@);
        lemma_entry_at(o@, 1, "duration"@);
    }
    JsonValue::Object(o)
}

// ---------------------------------------------------------------------------
// Subtitle text as compact JSON
// ---------------------------------------------------------------------------
pub open spec fn hex_digit(n: nat) -> char {
    if n < 10 {
        (n + '0' as nat) as char
    } else {
        (n - 10 + 'a' as nat) as char
    }
}

/// A character as it stands inside a JSON string (serde_json's escapes).
pub open spec fn json_escape_char(c: char) -> Seq<char> {
    if c == '"' {
        seq!['\\', '"']
    } else if c == '\\' {
        seq!['\\', '\\']
    } else if c == '\u{8}' {
        seq!['\\', 'b']
    } else if c == '\u{c}' {
        seq!['\\', 'f']
    } else if c == '\n' {
        seq!['\\', 'n']
    } else if c == '\r' {
        seq!['\\', 'r']
    } else if c == '\t' {
        seq!['\\', 't']
    } else if (c as u32) < 0x20 {
        seq!['\\', 'u', '0', '0', hex_digit((c as u32 / 16) as nat), hex_digit((c as u32 % 16) as nat)]
    } else {
        seq![c]
    }
}

pub open spec fn json_escape(s: Seq<char>) -> Seq<char>
    decreases s.len(),
{
    if s.len() == 0 {
        Seq::empty()
    } else {
        json_escape(s.drop_last()) + json_escape_char(s.last())
    }
}

/// A text as a JSON string literal: in quotes, with serde_json's escapes.
pub open spec fn json_quoted(s: Seq<char>) -> Seq<char> {
    seq!['"'] + json_escape(s) + seq!['"']
}

/// `serde_json::to_string` of a text: the text as a JSON string literal, in
/// quotes, with the escapes of serde_json's table (`json_escape`: quote,
/// backslash, the named control escapes, `\u00xx` in lower-case hex for the
/// other control characters, everything else as it is). Serializing a `str`
/// into memory has no error case, so the empty default is never taken.
#[verifier::external_body]
fn json_string_literal(s: &str) -> (r: String)
    ensures
        r@ == json_quoted(s@),
{
    serde_json::to_string(s).unwrap_or_default()
}

/// The style and text of a subtitle as the compact JSON that Jianying keeps
/// in a text material's `content` (keys in sorted order, as serde_json
/// writes a map).
pub open spec fn spec_text_content(text: Seq<char>) -> Seq<char> {
    "{\"styles\":[{\"bold\":false,\"fill\":{\"alpha\":1.0,\"content\":{\"render_type\":\"solid\",\"solid\":{\"alpha\":1.0,\"color\":[1.0,1.0,1.0]}}},\"italic\":false,\"range\":[0,"@
        + decimal(text.len()) + "],\"size\":8.0,\"strokes\":[{\"content\":{\"solid\":{\"alpha\":1.0,\"color\":[0.0,0.0,0.0]}},\"width\":0.08}],\"underline\":false}],\"text\":"@
        + json_quoted(text) + "}"@
}

fn text_content(text: &str) -> (r: String)
    ensures
        r@ == spec_text_content(text@),
{
    let v = chars_of(text);
    let mut out = String::new();
    push_str(&mut out, "{\"styles\":[{\"bold\":false,\"fill\":{\"alpha\":1.0,\"content\":{\"render_type\":\"solid\",\"solid\":{\"alpha\":1.0,\"color\":[1.0,1.0,1.0]}}},\"italic\":false,\"range\":[0,");
    push_decimal(&mut out, v.len() as u64);
    push_str(&mut out, "],\"size\":8.0,\"strokes\":[{\"content\":{\"solid\":{\"alpha\":1.0,\"color\":[0.0,0.0,0.0]}},\"width\":0.08}],\"underline\":false}],\"text\":");
    let quoted = json_string_literal(text);
    push_str(&mut out, quoted.as_str());
    push_str(&mut out, "}");
    out
}

/// Crop corners that keep the whole frame.
pub open spec fn is_full_crop(v: JsonValue) -> bool {
    &&& v.entry_count() == 8
    &&& v.field("upper_left_x"@) == Some(JsonValue::Number(JsonNumber::Frac(0, 1)))
    &&& v.field("upper_left_y"@) == Some(JsonValue::Number(JsonNumber::Frac(0, 1)))
    &&& v.field("upper_right_x"@) == Some(JsonValue::Number(JsonNumber::Frac(1, 1)))
    &&& v.field("upper_right_y"@) == Some(JsonValue::Number(JsonNumber::Frac(0, 1)))
    &&& v.field("lower_left_x"@) == Some(JsonValue::Number(JsonNumber::Frac(0, 1)))
    &&& v.field("lower_left_y"@) == Some(JsonValue::Number(JsonNumber::Frac(1, 1)))
    &&& v.field("lower_right_x"@) == Some(JsonValue::Number(JsonNumber::Frac(1, 1)))
    &&& v.field("lower_right_y"@) == Some(JsonValue::Number(JsonNumber::Frac(1, 1)))
}

/// The crop corners of a whole frame.
fn crop_full() -> (r: JsonValue)
    ensures
        is_full_crop(r),
{
    let mut o: Vec<(String, JsonValue)> = Vec::new();
    o.push(entry("upper_left_x", frac(0, 1)));
    o.push(entry("upper_left_y", frac(0, 1)));
    o.push(entry("upper_right_x", frac(1, 1)));
    o.push(entry("upper_right_y", frac(0, 1)));
    o.push(entry("lower_left_x", frac(0, 1)));
    o.push(entry("lower_left_y", frac(1, 1)));
    o.push(entry("lower_right_x", frac(1, 1)));
    o.push(entry("lower_right_y", frac(1, 1)));
    proof {
        reveal_strlit("upper_left_x");
        assert("upper_left_x"@.len() == 12);
        reveal_strlit("upper_left_y");
        assert("upper_left_y"@.len() == 12);
        reveal_strlit("upper_right_x");
        assert("upper_right_x"@.len() == 13);
        reveal_strlit("upper_right_y");
        assert("upper_right_y"@.len() == 13);
        reveal_strlit("lower_left_x");
        assert("lower_left_x"@.len() == 12);
        reveal_strlit("lower_left_y");
        assert("lower_left_y"@.len() == 12);
        reveal_strlit("lower_right_x");
        assert("lower_right_x"@.len() == 13);
        reveal_strlit("lower_right_y");
        assert("lower_right_y"@.len() == 13);
        lemma_entry_at(o@, 0, "upper_left_x"@);
        assert("upper_left_x"@[11] != "upper_left_y"@[11]);
        lemma_entry_at(o@, 1, "upper_left_y"@);
        lemma_entry_at(o@, 2, "upper_right_x"@);
        assert("upper_right_x"@[12] != "upper_right_y"@[12]);
        lemma_entry_at(o@, 3, "upper_right_y"@);
        assert("upper_left_x"@[0] != "lower_left_x"@[0]);
        assert("upper_left_y"@[0] != "lower_left_x"@[0]);
        lemma_entry_at(o@, 4, "lower_left_x"@);
        assert("upper_left_x"@[0] != "lower_left_y"@[0]);
        assert("upper_left_y"@[0] != "lower_left_y"@[0]);
        assert("lower_left_x"@[11] != "lower_left_y"@[11]);
        lemma_entry_at(o@, 5, "lower_left_y"@);
        assert("upper_right_x"@[0] != "lower_right_x"@[0]);
        assert("upper_right_y"@[0] != "lower_right_x"@[0]);
        lemma_entry_at(o@, 6, "lower_right_x"@);
        assert("upper_right_x"@[0] != "lower_right_y"@[0]);
        assert("upper_right_y"@[0] != "lower_right_y"@[0]);
        assert("lower_right_x"@[12] != "lower_right_y"@[12]);
        lemma_entry_at(o@, 7, "lower_right_y"@);
    }
    JsonValue::Object(o)
}

/// `{ "x": x, "y": y }` for fractions.
fn xy(x_num: i128, x_den: u64, y_num: i128, y_den: u64) -> (r: JsonValue)
    ensures
        r.field("x"@) == Some(JsonValue::Number(JsonNumber::Frac(x_num, x_den))),
        r.field("y"@) == Some(JsonValue::Number(JsonNumber::Frac(y_num, y_den))),
{
    let mut o: Vec<(String, JsonValue)> = Vec::new();
    o.push(entry("x", frac(x_num, x_den)));
    o.push(entry("y", frac(y_num, y_den)));
    proof {
        reveal_strlit("x");
        reveal_strlit("y");
        assert("x"@[0] != "y"@[0]);
        lemma_entry_at(o@, 0, "x"@);
        lemma_entry_at(o@, 1, "y"@);
    }
    JsonValue::Object(o)
}

/// No flip.
fn flip_none() -> (r: JsonValue)
    ensures
        r.entry_count() == 2,
        r.field("horizontal"@) == Some(JsonValue::Bool(false)),
        r.field("vertical"@) == Some(JsonValue::Bool(false)),
{
    let mut o: Vec<(String, JsonValue)> = Vec::new();
    o.push(entry("horizontal", JsonValue::Bool(false)));
    o.push(entry("vertical", JsonValue::Bool(false)));
    proof {
        reveal_strlit("horizontal");
        assert("horizontal"@.len() == 10);
        reveal_strlit("vertical");
        assert("vertical"@.len() == 8);
        lemma_entry_at(o@, 0, "horizontal"@);
        lemma_entry_at(o@, 1, "vertical"@);
    }
    JsonValue::Object(o)
}

/// Uniform scale switched on at 1.
fn uniform_scale() -> (r: JsonValue)
    ensures
        r.entry_count() == 2,
        r.field("on"@) == Some(JsonValue::Bool(true)),
        r.field("value"@) == Some(JsonValue::Number(JsonNumber::Frac(1, 1))),
{
    let mut o: Vec<(String, JsonValue)> = Vec::new();
    o.push(entry("on", JsonValue::Bool(true)));
    o.push(entry("value", frac(1, 1)));
    proof {
        reveal_strlit("on");
        assert("on"@.len() == 2);
        reveal_strlit("value");
        assert("value"@.len() == 5);
        lemma_entry_at(o@, 0, "on"@);
        lemma_entry_at(o@, 1, "value"@);
    }
    JsonValue::Object(o)
}

/// Default HDR settings.
fn hdr_settings() -> (r: JsonValue)
    ensures
        r.entry_count() == 3,
        r.field("intensity"@) == Some(JsonValue::Number(JsonNumber::Frac(1, 1))),
        r.field("mode"@) == Some(JsonValue::Number(JsonNumber::Int(1))),
        r.field("nits"@) == Some(JsonValue::Number(JsonNumber::Int(1000))),
{
    let mut o: Vec<(String, JsonValue)> = Vec::new();
    o.push(entry("intensity", frac(1, 1)));
    o.push(entry("mode", uint(1)));
    o.push(entry("nits", uint(1000)));
    proof {
        reveal_strlit("intensity");
        assert("intensity"@.len() == 9);
        reveal_strlit("mode");
        assert("mode"@.len() == 4);
        reveal_strlit("nits");
        assert("nits"@.len() == 4);
        lemma_entry_at(o@, 0, "intensity"@);
        lemma_entry_at(o@, 1, "mode"@);
        assert("mode"@[0] != "nits"@[0]);
        lemma_entry_at(o@, 2, "nits"@);
    }
    JsonValue::Object(o)
}

/// A segment's transform: opacity 1, no flip or rotation, the given scale,
/// centred horizontally and moved vertically by the given fraction of the
/// canvas.
fn clip_transform(scale: Ratio, offset_y_num: i128, offset_y_den: u64) -> (r: JsonValue)
    ensures
        r.entry_count() == 5,
        r.at("scale"@).field("x"@) == Some(JsonValue::Number(JsonNumber::Frac(scale.num as i128, scale.den))),
        r.at("scale"@).field("y"@) == Some(JsonValue::Number(JsonNumber::Frac(scale.num as i128, scale.den))),
        r.field("alpha"@) == Some(JsonValue::Number(JsonNumber::Frac(1, 1))),
        r.at("flip"@).entry_count() == 2,
        r.at("flip"@).field("horizontal"@) == Some(JsonValue::Bool(false)),
        r.at("flip"@).field("vertical"@) == Some(JsonValue::Bool(false)),
        r.field("rotation"@) == Some(JsonValue::Number(JsonNumber::Frac(0, 1))),
        r.at("transform"@).field("x"@) == Some(JsonValue::Number(JsonNumber::Frac(0, 1))),
        r.at("transform"@).field("y"@) == Some(JsonValue::Number(JsonNumber::Frac(offset_y_num, offset_y_den))),
{
    let mut o: Vec<(String, JsonValue)> = Vec::new();
    o.push(entry("scale", xy(scale.num as i128, scale.den, scale.num as i128, scale.den)));
    o.push(entry("alpha", frac(1, 1)));
    o.push(entry("flip", flip_none()));
    o.push(entry("rotation", frac(0, 1)));
    o.push(entry("transform", xy(0, 1, offset_y_num, offset_y_den)));
    proof {
        reveal_strlit("scale");
        assert("scale"@.len() == 5);
        reveal_strlit("alpha");
        assert("alpha"@.len() == 5);
        reveal_strlit("flip");
        assert("flip"@.len() == 4);
        reveal_strlit("rotation");
        assert("rotation"@.len() == 8);
        reveal_strlit("transform");
        assert("transform"@.len() == 9);
        lemma_entry_at(o@, 0, "scale"@);
        assert("scale"@[0] != "alpha"@[0]);
        lemma_entry_at(o@, 1, "alpha"@);
        lemma_entry_at(o@, 2, "flip"@);
        lemma_entry_at(o@, 3, "rotation"@);
        lemma_entry_at(o@, 4, "transform"@);
    }
    JsonValue::Object(o)
}

/// The app that a draft claims to come from: Jianying 5.9.0 on Windows.
pub open spec fn is_platform(v: JsonValue) -> bool {
    &&& v.entry_count() == 4
    &&& v.field("app_id"@) == Some(JsonValue::Number(JsonNumber::Int(3704)))
    &&& v.text_at("app_source"@) == Some("lv"@)
    &&& v.text_at("app_version"@) == Some("5.9.0"@)
    &&& v.text_at("os"@) == Some("windows"@)
}

/// The app that the draft claims to come from.
fn platform() -> (r: JsonValue)
    ensures
        is_platform(r),
{
    let mut o: Vec<(String, JsonValue)> = Vec::new();
    o.push(entry("app_id", uint(3704)));
    o.push(entry("app_source", string("lv")));
    o.push(entry("app_version", string("5.9.0")));
    o.push(entry("os", string("windows")));
    proof {
        reveal_strlit("app_id");
        assert("app_id"@.len() == 6);
        reveal_strlit("app_source");
        assert("app_source"@.len() == 10);
        reveal_strlit("app_version");
        assert("app_version"@.len() == 11);
        reveal_strlit("os");
        assert("os"@.len() == 2);
        lemma_entry_at(o@, 0, "app_id"@);
        lemma_entry_at(o@, 1, "app_source"@);
        lemma_entry_at(o@, 2, "app_version"@);
        lemma_entry_at(o@, 3, "os"@);
    }
    JsonValue::Object(o)
}

/// The material entry of a visual at `path`: a photo or a video with the
/// visual's name, length and size, uncropped, whose material id is its id.
pub open spec fn is_video_material(m: JsonValue, file: MediaFile, path: Seq<char>) -> bool {
    &&& m.entry_count() == 17
    &&& m.text_at("path"@) == Some(path)
    &&& m.field("duration"@) == Some(JsonValue::Number(JsonNumber::Int(file.duration_us as i128)))
    &&& m.text_at("type"@) == Some(if file.kind == MediaKind::Image { "photo"@ } else { "video"@ })
    &&& m.text_at("material_id"@) == m.text_at("id"@)
    &&& m.text_at("material_name"@) == Some(file.name@)
    &&& m.field("width"@) == Some(JsonValue::Number(JsonNumber::Int(file.width as i128)))
    &&& m.field("height"@) == Some(JsonValue::Number(JsonNumber::Int(file.height as i128)))
    &&& m.field("audio_fade"@) == Some(JsonValue::Null)
    &&& m.text_at("category_id"@) == Some(""@)
    &&& m.text_at("category_name"@) == Some("local"@)
    &&& m.field("check_flag"@) == Some(JsonValue::Number(JsonNumber::Int(63487i128)))
    &&& is_full_crop(m.at("crop"@))
    &&& m.text_at("crop_ratio"@) == Some("free"@)
    &&& m.field("crop_scale"@) == Some(JsonValue::Number(JsonNumber::Frac(1i128, 1)))
    &&& m.text_at("local_material_id"@) == Some(""@)
    &&& m.text_at("media_path"@) == Some(""@)
}

/// The material entry of a visual: a photo or a video at `path`.
fn video_material(file: &MediaFile, material_id: &str, path: &str) -> (r: JsonValue)
    ensures
        is_video_material(r, *file, path@),
        r.text_at("id"@) == Some(material_id@),
{
    let kind = if file.kind == MediaKind::Image {
        "photo"
    } else {
        "video"
    };
    let mut o: Vec<(String, JsonValue)> = Vec::new();
    o.push(entry("id", string(material_id)));
    o.push(entry("path", string(path)));
    o.push(entry("duration", uint(file.duration_us)));
    o.push(entry("type", string(kind)));
    o.push(entry("material_id", string(material_id)));
    o.push(entry("material_name", string(file.name.as_str())));
    o.push(entry("width", uint(file.width as u64)));
    o.push(entry("height", uint(file.height as u64)));
    o.push(entry("audio_fade", JsonValue::Null));
    o.push(entry("category_id", string("")));
    o.push(entry("category_name", string("local")));
    o.push(entry("check_flag", uint(63487)));
    o.push(entry("crop", crop_full()));
    o.push(entry("crop_ratio", string("free")));
    o.push(entry("crop_scale", frac(1, 1)));
    o.push(entry("local_material_id", string("")));
    o.push(entry("media_path", string("")));
    proof {
        reveal_strlit("id");
        assert("id"@.len() == 2);
        reveal_strlit("path");
        assert("path"@.len() == 4);
        reveal_strlit("duration");
        assert("duration"@.len() == 8);
        reveal_strlit("type");
        assert("type"@.len() == 4);
        reveal_strlit("material_id");
        assert("material_id"@.len() == 11);
        reveal_strlit("material_name");
        assert("material_name"@.len() == 13);
        reveal_strlit("width");
        assert("width"@.len() == 5);
        reveal_strlit("height");
        assert("height"@.len() == 6);
        reveal_strlit("audio_fade");
        assert("audio_fade"@.len() == 10);
        reveal_strlit("category_id");
        assert("category_id"@.len() == 11);
        reveal_strlit("category_name");
        assert("category_name"@.len() == 13);
        reveal_strlit("check_flag");
        assert("check_flag"@.len() == 10);
        reveal_strlit("crop");
        assert("crop"@.len() == 4);
        reveal_strlit("crop_ratio");
        assert("crop_ratio"@.len() == 10);
        reveal_strlit("crop_scale");
        assert("crop_scale"@.len() == 10);
        reveal_strlit("local_material_id");
        assert("local_material_id"@.len() == 17);
        reveal_strlit("media_path");
        assert("media_path"@.len() == 10);
        lemma_entry_at(o@, 0, "id"@);
        lemma_entry_at(o@, 1, "path"@);
        lemma_entry_at(o@, 2, "duration"@);
        assert("path"@[0] != "type"@[0]);
        lemma_entry_at(o@, 3, "type"@);
        lemma_entry_at(o@, 4, "material_id"@);
        lemma_entry_at(o@, 5, "material_name"@);
        lemma_entry_at(o@, 6, "width"@);
        lemma_entry_at(o@, 7, "height"@);
        lemma_entry_at(o@, 8, "audio_fade"@);
        assert("material_id"@[0] != "category_id"@[0]);
        lemma_entry_at(o@, 9, "category_id"@);
        assert("material_name"@[0] != "category_name"@[0]);
        lemma_entry_at(o@, 10, "category_name"@);
        assert("audio_fade"@[0] != "check_flag"@[0]);
        lemma_entry_at(o@, 11, "check_flag"@);
        assert("path"@[0] != "crop"@[0]);
        assert("type"@[0] != "crop"@[0]);
        lemma_entry_at(o@, 12, "crop"@);
        assert("audio_fade"@[0] != "crop_ratio"@[0]);
        assert("check_flag"@[1] != "crop_ratio"@[1]);
        lemma_entry_at(o@, 13, "crop_ratio"@);
        assert("audio_fade"@[0] != "crop_scale"@[0]);
        assert("check_flag"@[1] != "crop_scale"@[1]);
        assert("crop_ratio"@[5] != "crop_scale"@[5]);
        lemma_entry_at(o@, 14, "crop_scale"@);
        lemma_entry_at(o@, 15, "local_material_id"@);
        assert("audio_fade"@[0] != "media_path"@[0]);
        assert("check_flag"@[0] != "media_path"@[0]);
        assert("crop_ratio"@[0] != "media_path"@[0]);
        assert("crop_scale"@[0] != "media_path"@[0]);
        lemma_entry_at(o@, 16, "media_path"@);
    }
    JsonValue::Object(o)
}

/// A plain speed material (no speed curve).
pub open spec fn is_speed_material(v: JsonValue) -> bool {
    &&& v.entry_count() == 5
    &&& v.field("curve_speed"@) == Some(JsonValue::Null)
    &&& v.field("mode"@) == Some(JsonValue::Number(JsonNumber::Int(0i128)))
    &&& v.text_at("type"@) == Some("speed"@)
}

/// A speed material: the clip plays at `speed`.
fn speed_material(id: &str, speed: Ratio) -> (r: JsonValue)
    ensures
        r.field("id"@) matches Some(v) && v.text() == Some(id@),
        r.field("speed"@) == Some(JsonValue::Number(JsonNumber::Frac(speed.num as i128, speed.den))),
        is_speed_material(r),
{
    let mut o: Vec<(String, JsonValue)> = Vec::new();
    o.push(entry("id", string(id)));
    o.push(entry("speed", ratio_value(speed)));
    o.push(entry("curve_speed", JsonValue::Null));
    o.push(entry("mode", uint(0)));
    o.push(entry("type", string("speed")));
    proof {
        reveal_strlit("id");
        assert("id"@.len() == 2);
        reveal_strlit("speed");
        assert("speed"@.len() == 5);
        reveal_strlit("curve_speed");
        assert("curve_speed"@.len() == 11);
        reveal_strlit("mode");
        assert("mode"@.len() == 4);
        reveal_strlit("type");
        assert("type"@.len() == 4);
        lemma_entry_at(o@, 0, "id"@);
        lemma_entry_at(o@, 1, "speed"@);
        lemma_entry_at(o@, 2, "curve_speed"@);
        lemma_entry_at(o@, 3, "mode"@);
        assert("mode"@[0] != "type"@[0]);
        lemma_entry_at(o@, 4, "type"@);
    }
    JsonValue::Object(o)
}

/// A plain colour canvas material.
pub open spec fn is_canvas_material(v: JsonValue) -> bool {
    &&& v.entry_count() == 10
    &&& v.text_at("album_image"@) == Some(""@)
    &&& v.field("blur"@) == Some(JsonValue::Number(JsonNumber::Frac(0i128, 1)))
    &&& v.text_at("color"@) == Some(""@)
    &&& v.text_at("image"@) == Some(""@)
    &&& v.text_at("image_id"@) == Some(""@)
    &&& v.text_at("image_name"@) == Some(""@)
    &&& v.field("source_platform"@) == Some(JsonValue::Number(JsonNumber::Int(0i128)))
    &&& v.text_at("team_id"@) == Some(""@)
    &&& v.text_at("type"@) == Some("canvas_color"@)
}

/// A plain canvas-color material.
fn canvas_material(id: &str) -> (r: JsonValue)
    ensures
        r.field("id"@) matches Some(v) && v.text() == Some(id@),
        is_canvas_material(r),
{
    let mut o: Vec<(String, JsonValue)> = Vec::new();
    o.push(entry("id", string(id)));
    o.push(entry("album_image", string("")));
    o.push(entry("blur", frac(0, 1)));
    o.push(entry("color", string("")));
    o.push(entry("image", string("")));
    o.push(entry("image_id", string("")));
    o.push(entry("image_name", string("")));
    o.push(entry("source_platform", uint(0)));
    o.push(entry("team_id", string("")));
    o.push(entry("type", string("canvas_color")));
    proof {
        reveal_strlit("id");
        assert("id"@.len() == 2);
        reveal_strlit("album_image");
        assert("album_image"@.len() == 11);
        reveal_strlit("blur");
        assert("blur"@.len() == 4);
        reveal_strlit("color");
        assert("color"@.len() == 5);
        reveal_strlit("image");
        assert("image"@.len() == 5);
        reveal_strlit("image_id");
        assert("image_id"@.len() == 8);
        reveal_strlit("image_name");
        assert("image_name"@.len() == 10);
        reveal_strlit("source_platform");
        assert("source_platform"@.len() == 15);
        reveal_strlit("team_id");
        assert("team_id"@.len() == 7);
        reveal_strlit("type");
        assert("type"@.len() == 4);
        lemma_entry_at(o@, 0, "id"@);
        lemma_entry_at(o@, 1, "album_image"@);
        lemma_entry_at(o@, 2, "blur"@);
        lemma_entry_at(o@, 3, "color"@);
        assert("color"@[0] != "image"@[0]);
        lemma_entry_at(o@, 4, "image"@);
        lemma_entry_at(o@, 5, "image_id"@);
        lemma_entry_at(o@, 6, "image_name"@);
        lemma_entry_at(o@, 7, "source_platform"@);
        lemma_entry_at(o@, 8, "team_id"@);
        assert("blur"@[0] != "type"@[0]);
        lemma_entry_at(o@, 9, "type"@);
    }
    JsonValue::Object(o)
}

/// A sound channel mapping that leaves the channels as they are.
pub open spec fn is_sound_channel_mapping(v: JsonValue) -> bool {
    &&& v.entry_count() == 4
    &&& v.field("audio_channel_mapping"@) == Some(JsonValue::Number(JsonNumber::Int(0i128)))
    &&& v.field("is_config_open"@) == Some(JsonValue::Bool(false))
    &&& v.text_at("type"@) == Some("none"@)
}

/// A sound-channel mapping that keeps the channels.
fn sound_channel_mapping(id: &str) -> (r: JsonValue)
    ensures
        r.field("id"@) matches Some(v) && v.text() == Some(id@),
        is_sound_channel_mapping(r),
{
    let mut o: Vec<(String, JsonValue)> = Vec::new();
    o.push(entry("id", string(id)));
    o.push(entry("audio_channel_mapping", uint(0)));
    o.push(entry("is_config_open", JsonValue::Bool(false)));
    o.push(entry("type", string("none")));
    proof {
        reveal_strlit("id");
        assert("id"@.len() == 2);
        reveal_strlit("audio_channel_mapping");
        assert("audio_channel_mapping"@.len() == 21);
        reveal_strlit("is_config_open");
        assert("is_config_open"@.len() == 14);
        reveal_strlit("type");
        assert("type"@.len() == 4);
        lemma_entry_at(o@, 0, "id"@);
        lemma_entry_at(o@, 1, "audio_channel_mapping"@);
        lemma_entry_at(o@, 2, "is_config_open"@);
        lemma_entry_at(o@, 3, "type"@);
    }
    JsonValue::Object(o)
}

/// A vocal separation that is switched off.
pub open spec fn is_vocal_separation(v: JsonValue) -> bool {
    &&& v.entry_count() == 5
    &&& v.field("choice"@) == Some(JsonValue::Number(JsonNumber::Int(0i128)))
    &&& v.text_at("production_path"@) == Some(""@)
    &&& v.field("time_range"@) == Some(JsonValue::Null)
    &&& v.text_at("type"@) == Some("vocal_separation"@)
}

/// A vocal-separation material that is switched off.
fn vocal_separation(id: &str) -> (r: JsonValue)
    ensures
        r.field("id"@) matches Some(v) && v.text() == Some(id@),
        is_vocal_separation(r),
{
    let mut o: Vec<(String, JsonValue)> = Vec::new();
    o.push(entry("id", string(id)));
    o.push(entry("choice", uint(0)));
    o.push(entry("production_path", string("")));
    o.push(entry("time_range", JsonValue::Null));
    o.push(entry("type", string("vocal_separation")));
    proof {
        reveal_strlit("id");
        assert("id"@.len() == 2);
        reveal_strlit("choice");
        assert("choice"@.len() == 6);
        reveal_strlit("production_path");
        assert("production_path"@.len() == 15);
        reveal_strlit("time_range");
        assert("time_range"@.len() == 10);
        reveal_strlit("type");
        assert("type"@.len() == 4);
        lemma_entry_at(o@, 0, "id"@);
        lemma_entry_at(o@, 1, "choice"@);
        lemma_entry_at(o@, 2, "production_path"@);
        lemma_entry_at(o@, 3, "time_range"@);
        lemma_entry_at(o@, 4, "type"@);
    }
    JsonValue::Object(o)
}

/// A video segment at the given render index with the editor's defaults: centred,
/// opaque, unflipped and unrotated, uniformly scaled, standard HDR, no
/// keyframes, visible.
pub open spec fn is_plain_video_segment(v: JsonValue, render_index: u32) -> bool {
    &&& v.entry_count() == 32
    &&& v.field("cartoon"@) == Some(JsonValue::Bool(false))
    &&& v.at("common_keyframes"@).items() == Some(Seq::<JsonValue>::empty())
    &&& v.field("enable_adjust"@) == Some(JsonValue::Bool(true))
    &&& v.field("enable_color_correct_adjust"@) == Some(JsonValue::Bool(false))
    &&& v.field("enable_color_curves"@) == Some(JsonValue::Bool(true))
    &&& v.field("enable_color_match_adjust"@) == Some(JsonValue::Bool(false))
    &&& v.field("enable_color_wheels"@) == Some(JsonValue::Bool(true))
    &&& v.field("enable_lut"@) == Some(JsonValue::Bool(true))
    &&& v.field("enable_smart_color_adjust"@) == Some(JsonValue::Bool(false))
    &&& v.field("intensifies_audio"@) == Some(JsonValue::Bool(false))
    &&& v.field("is_placeholder"@) == Some(JsonValue::Bool(false))
    &&& v.field("is_tone_modify"@) == Some(JsonValue::Bool(false))
    &&& v.at("keyframe_refs"@).items() == Some(Seq::<JsonValue>::empty())
    &&& v.field("last_nonzero_volume"@) == Some(JsonValue::Number(JsonNumber::Frac(1i128, 1)))
    &&& v.field("reverse"@) == Some(JsonValue::Bool(false))
    &&& v.text_at("template_id"@) == Some(""@)
    &&& v.text_at("template_scene"@) == Some("default"@)
    &&& v.field("track_attribute"@) == Some(JsonValue::Number(JsonNumber::Int(0i128)))
    &&& v.field("track_render_index"@) == Some(JsonValue::Number(JsonNumber::Int(0i128)))
    &&& v.field("visible"@) == Some(JsonValue::Bool(true))
    &&& v.field("render_index"@) == Some(JsonValue::Number(JsonNumber::Int(render_index as i128)))
    &&& v.at("clip"@).at("transform"@).field("x"@) == Some(JsonValue::Number(JsonNumber::Frac(0i128, 1)))
    &&& v.at("clip"@).at("transform"@).field("y"@) == Some(JsonValue::Number(JsonNumber::Frac(0i128, 1)))
    &&& v.at("clip"@).field("alpha"@) == Some(JsonValue::Number(JsonNumber::Frac(1i128, 1)))
    &&& v.at("clip"@).field("rotation"@) == Some(JsonValue::Number(JsonNumber::Frac(0i128, 1)))
    &&& v.at("clip"@).at("flip"@).field("horizontal"@) == Some(JsonValue::Bool(false))
    &&& v.at("clip"@).at("flip"@).field("vertical"@) == Some(JsonValue::Bool(false))
    &&& v.at("uniform_scale"@).field("on"@) == Some(JsonValue::Bool(true))
    &&& v.at("uniform_scale"@).field("value"@) == Some(JsonValue::Number(JsonNumber::Frac(1i128, 1)))
    &&& v.at("hdr_settings"@).field("intensity"@) == Some(JsonValue::Number(JsonNumber::Frac(1i128, 1)))
    &&& v.at("hdr_settings"@).field("mode"@) == Some(JsonValue::Number(JsonNumber::Int(1i128)))
    &&& v.at("hdr_settings"@).field("nits"@) == Some(JsonValue::Number(JsonNumber::Int(1000i128)))
}

/// The segment that places a clip on the video track.
#[verifier::rlimit(100)]
#[verifier::spinoff_prover]
fn video_segment(material_id: &str, extra_refs: &Vec<String>, clip: &PlannedClip, render_index: u32) -> (r: JsonValue)
    ensures
        r.field("material_id"@) matches Some(v) && v.text() == Some(material_id@),
        r.field("render_timerange"@) matches Some(t) && t.field("start"@) == Some(JsonValue::Number(JsonNumber::Int(clip.timeline_start_us as i128)))
            && t.field("duration"@) == Some(JsonValue::Number(JsonNumber::Int(clip.duration_us as i128))),
        r.field("source_timerange"@) matches Some(t) && t.field("start"@) == Some(JsonValue::Number(JsonNumber::Int(clip.source_start_us as i128)))
            && t.field("duration"@) == Some(JsonValue::Number(JsonNumber::Int(clip.source_duration_us as i128))),
        r.field("target_timerange"@) matches Some(t) && t.field("start"@) == Some(JsonValue::Number(JsonNumber::Int(clip.timeline_start_us as i128)))
            && t.field("duration"@) == Some(JsonValue::Number(JsonNumber::Int(clip.duration_us as i128))),
        r.field("speed"@) == Some(JsonValue::Number(JsonNumber::Frac(clip.speed.num as i128, clip.speed.den))),
        r.field("volume"@) == Some(JsonValue::Number(JsonNumber::Frac(clip.volume.num as i128, clip.volume.den))),
        r.at("clip"@).at("scale"@).field("x"@) == Some(JsonValue::Number(JsonNumber::Frac(clip.scale.num as i128, clip.scale.den))),
        r.at("clip"@).at("scale"@).field("y"@) == Some(JsonValue::Number(JsonNumber::Frac(clip.scale.num as i128, clip.scale.den))),
        r.len_at("extra_material_refs"@) == extra_refs@.len(),
        forall|k: int| 0 <= k < extra_refs@.len() ==> (#[trigger] r.item("extra_material_refs"@, k)).text() == Some(extra_refs@[k]@),
        is_plain_video_segment(r, render_index),
{
    let segment_id = hex_id();
    let mut refs_v: Vec<JsonValue> = Vec::new();
    let mut i: usize = 0;
    while i < extra_refs.len()
        invariant
            0 <= i <= extra_refs.len(),
            refs_v@.len() == i,
            forall|k: int| 0 <= k < i ==> (#[trigger] refs_v@[k]).text() == Some(extra_refs@[k]@),
        decreases extra_refs.len() - i,
    {
        refs_v.push(string(extra_refs[i].as_str()));
        i = i + 1;
    }
    let ghost rv = refs_v@;
    let refs = JsonValue::Array(refs_v);
    let mut o: Vec<(String, JsonValue)> = Vec::new();
    o.push(entry("material_id", string(material_id)));
    o.push(entry("render_timerange", timerange(clip.timeline_start_us, clip.duration_us)));
    o.push(entry("source_timerange", timerange(clip.source_start_us, clip.source_duration_us)));
    o.push(entry("target_timerange", timerange(clip.timeline_start_us, clip.duration_us)));
    o.push(entry("speed", ratio_value(clip.speed)));
    o.push(entry("volume", ratio_value(clip.volume)));
    o.push(entry("clip", clip_transform(clip.scale, 0, 1)));
    o.push(entry("extra_material_refs", refs));
    o.push(entry("cartoon", JsonValue::Bool(false)));
    o.push(entry("common_keyframes", empty_array()));
    o.push(entry("enable_adjust", JsonValue::Bool(true)));
    o.push(entry("enable_color_correct_adjust", JsonValue::Bool(false)));
    o.push(entry("enable_color_curves", JsonValue::Bool(true)));
    o.push(entry("enable_color_match_adjust", JsonValue::Bool(false)));
    o.push(entry("enable_color_wheels", JsonValue::Bool(true)));
    o.push(entry("enable_lut", JsonValue::Bool(true)));
    o.push(entry("enable_smart_color_adjust", JsonValue::Bool(false)));
    o.push(entry("hdr_settings", hdr_settings()));
    o.push(entry("id", string(segment_id.as_str())));
    o.push(entry("intensifies_audio", JsonValue::Bool(false)));
    o.push(entry("is_placeholder", JsonValue::Bool(false)));
    o.push(entry("is_tone_modify", JsonValue::Bool(false)));
    o.push(entry("keyframe_refs", empty_array()));
    o.push(entry("last_nonzero_volume", frac(1, 1)));
    o.push(entry("render_index", uint(render_index as u64)));
    o.push(entry("reverse", JsonValue::Bool(false)));
    o.push(entry("template_id", string("")));
    o.push(entry("template_scene", string("default")));
    o.push(entry("track_attribute", uint(0)));
    o.push(entry("track_render_index", uint(0)));
    o.push(entry("uniform_scale", uniform_scale()));
    o.push(entry("visible", JsonValue::Bool(true)));
    proof {
        reveal_strlit("material_id");
        assert("material_id"@.len() == 11);
        reveal_strlit("render_timerange");
        assert("render_timerange"@.len() == 16);
        reveal_strlit("source_timerange");
        assert("source_timerange"@.len() == 16);
        reveal_strlit("target_timerange");
        assert("target_timerange"@.len() == 16);
        reveal_strlit("speed");
        assert("speed"@.len() == 5);
        reveal_strlit("volume");
        assert("volume"@.len() == 6);
        reveal_strlit("clip");
        assert("clip"@.len() == 4);
        reveal_strlit("extra_material_refs");
        assert("extra_material_refs"@.len() == 19);
        reveal_strlit("cartoon");
        assert("cartoon"@.len() == 7);
        reveal_strlit("common_keyframes");
        assert("common_keyframes"@.len() == 16);
        reveal_strlit("enable_adjust");
        assert("enable_adjust"@.len() == 13);
        reveal_strlit("enable_color_correct_adjust");
        assert("enable_color_correct_adjust"@.len() == 27);
        reveal_strlit("enable_color_curves");
        assert("enable_color_curves"@.len() == 19);
        reveal_strlit("enable_color_match_adjust");
        assert("enable_color_match_adjust"@.len() == 25);
        reveal_strlit("enable_color_wheels");
        assert("enable_color_wheels"@.len() == 19);
        reveal_strlit("enable_lut");
        assert("enable_lut"@.len() == 10);
        reveal_strlit("enable_smart_color_adjust");
        assert("enable_smart_color_adjust"@.len() == 25);
        reveal_strlit("hdr_settings");
        assert("hdr_settings"@.len() == 12);
        reveal_strlit("id");
        assert("id"@.len() == 2);
        reveal_strlit("intensifies_audio");
        assert("intensifies_audio"@.len() == 17);
        reveal_strlit("is_placeholder");
        assert("is_placeholder"@.len() == 14);
        reveal_strlit("is_tone_modify");
        assert("is_tone_modify"@.len() == 14);
        reveal_strlit("keyframe_refs");
        assert("keyframe_refs"@.len() == 13);
        reveal_strlit("last_nonzero_volume");
        assert("last_nonzero_volume"@.len() == 19);
        reveal_strlit("render_index");
        assert("render_index"@.len() == 12);
        reveal_strlit("reverse");
        assert("reverse"@.len() == 7);
        reveal_strlit("template_id");
        assert("template_id"@.len() == 11);
        reveal_strlit("template_scene");
        assert("template_scene"@.len() == 14);
        reveal_strlit("track_attribute");
        assert("track_attribute"@.len() == 15);
        reveal_strlit("track_render_index");
        assert("track_render_index"@.len() == 18);
        reveal_strlit("uniform_scale");
        assert("uniform_scale"@.len() == 13);
        reveal_strlit("visible");
        assert("visible"@.len() == 7);
        lemma_entry_at(o@, 0, "material_id"@);
        lemma_entry_at(o@, 1, "render_timerange"@);
        assert("render_timerange"@[0] != "source_timerange"@[0]);
        lemma_entry_at(o@, 2, "source_timerange"@);
        assert("render_timerange"@[0] != "target_timerange"@[0]);
        assert("source_timerange"@[0] != "target_timerange"@[0]);
        lemma_entry_at(o@, 3, "target_timerange"@);
        lemma_entry_at(o@, 4, "speed"@);
        lemma_entry_at(o@, 5, "volume"@);
        lemma_entry_at(o@, 6, "clip"@);
        lemma_entry_at(o@, 7, "extra_material_refs"@);
        lemma_entry_at(o@, 8, "cartoon"@);
        assert("render_timerange"@[0] != "common_keyframes"@[0]);
        assert("source_timerange"@[0] != "common_keyframes"@[0]);
        assert("target_timerange"@[0] != "common_keyframes"@[0]);
        lemma_entry_at(o@, 9, "common_keyframes"@);
        lemma_entry_at(o@, 10, "enable_adjust"@);
        lemma_entry_at(o@, 11, "enable_color_correct_adjust"@);
        assert("extra_material_refs"@[1] != "enable_color_curves"@[1]);
        lemma_entry_at(o@, 12, "enable_color_curves"@);
        lemma_entry_at(o@, 13, "enable_color_match_adjust"@);
        assert("extra_material_refs"@[1] != "enable_color_wheels"@[1]);
        assert("enable_color_curves"@[13] != "enable_color_wheels"@[13]);
        lemma_entry_at(o@, 14, "enable_color_wheels"@);
        lemma_entry_at(o@, 15, "enable_lut"@);
        assert("enable_color_match_adjust"@[7] != "enable_smart_color_adjust"@[7]);
        lemma_entry_at(o@, 16, "enable_smart_color_adjust"@);
        lemma_entry_at(o@, 17, "hdr_settings"@);
        lemma_entry_at(o@, 18, "id"@);
        lemma_entry_at(o@, 19, "intensifies_audio"@);
        lemma_entry_at(o@, 20, "is_placeholder"@);
        assert("is_placeholder"@[3] != "is_tone_modify"@[3]);
        lemma_entry_at(o@, 21, "is_tone_modify"@);
        assert("enable_adjust"@[0] != "keyframe_refs"@[0]);
        lemma_entry_at(o@, 22, "keyframe_refs"@);
        assert("extra_material_refs"@[0] != "last_nonzero_volume"@[0]);
        assert("enable_color_curves"@[0] != "last_nonzero_volume"@[0]);
        assert("enable_color_wheels"@[0] != "last_nonzero_volume"@[0]);
        lemma_entry_at(o@, 23, "last_nonzero_volume"@);
        assert("hdr_settings"@[0] != "render_index"@[0]);
        lemma_entry_at(o@, 24, "render_index"@);
        assert("cartoon"@[0] != "reverse"@[0]);
        lemma_entry_at(o@, 25, "reverse"@);
        assert("material_id"@[0] != "template_id"@[0]);
        lemma_entry_at(o@, 26, "template_id"@);
        assert("is_placeholder"@[0] != "template_scene"@[0]);
        assert("is_tone_modify"@[0] != "template_scene"@[0]);
        lemma_entry_at(o@, 27, "template_scene"@);
        lemma_entry_at(o@, 28, "track_attribute"@);
        lemma_entry_at(o@, 29, "track_render_index"@);
        assert("enable_adjust"@[0] != "uniform_scale"@[0]);
        assert("keyframe_refs"@[0] != "uniform_scale"@[0]);
        lemma_entry_at(o@, 30, "uniform_scale"@);
        assert("cartoon"@[0] != "visible"@[0]);
        assert("reverse"@[0] != "visible"@[0]);
        lemma_entry_at(o@, 31, "visible"@);
    }
    JsonValue::Object(o)
}

/// The settings of a subtitle text material: white 8-point text with a black outline.
pub open spec fn is_subtitle_text_material(v: JsonValue) -> bool {
    &&& v.entry_count() == 57
    &&& v.field("alignment"@) == Some(JsonValue::Number(JsonNumber::Int(1i128)))
    &&& v.text_at("border_color"@) == Some(""@)
    &&& v.field("border_width"@) == Some(JsonValue::Number(JsonNumber::Frac(0, 1)))
    &&& v.field("check_flag"@) == Some(JsonValue::Number(JsonNumber::Int(15i128)))
    &&& v.text_at("font_category_id"@) == Some(""@)
    &&& v.text_at("font_category_name"@) == Some(""@)
    &&& v.text_at("font_id"@) == Some(""@)
    &&& v.text_at("font_name"@) == Some(""@)
    &&& v.text_at("font_path"@) == Some(""@)
    &&& v.text_at("font_resource_id"@) == Some(""@)
    &&& v.field("font_size"@) == Some(JsonValue::Number(JsonNumber::Frac(8, 1)))
    &&& v.field("font_source_platform"@) == Some(JsonValue::Number(JsonNumber::Int(0i128)))
    &&& v.field("force_apply_line_max_width"@) == Some(JsonValue::Bool(false))
    &&& v.field("global_alpha"@) == Some(JsonValue::Number(JsonNumber::Frac(1, 1)))
    &&& v.text_at("group_id"@) == Some(""@)
    &&& v.field("has_shadow"@) == Some(JsonValue::Bool(false))
    &&& v.field("initial_scale"@) == Some(JsonValue::Number(JsonNumber::Frac(1, 1)))
    &&& v.field("is_rich_text"@) == Some(JsonValue::Bool(false))
    &&& v.field("italic_degree"@) == Some(JsonValue::Number(JsonNumber::Int(0i128)))
    &&& v.text_at("ktv_color"@) == Some(""@)
    &&& v.field("layer_weight"@) == Some(JsonValue::Number(JsonNumber::Int(1i128)))
    &&& v.field("letter_spacing"@) == Some(JsonValue::Number(JsonNumber::Frac(0, 1)))
    &&& v.field("line_feed"@) == Some(JsonValue::Number(JsonNumber::Int(1i128)))
    &&& v.field("line_max_width"@) == Some(JsonValue::Number(JsonNumber::Frac(82, 100)))
    &&& v.field("line_spacing"@) == Some(JsonValue::Number(JsonNumber::Frac(2, 100)))
    &&& v.text_at("name"@) == Some(""@)
    &&& v.at("original_size"@).items() == Some(Seq::<JsonValue>::empty())
    &&& v.text_at("preset_id"@) == Some(""@)
    &&& v.text_at("recognize_task_id"@) == Some(""@)
    &&& v.field("recognize_type"@) == Some(JsonValue::Number(JsonNumber::Int(0i128)))
    &&& v.at("relevance_segment"@).items() == Some(Seq::<JsonValue>::empty())
    &&& v.field("shadow_alpha"@) == Some(JsonValue::Number(JsonNumber::Frac(9, 10)))
    &&& v.field("shadow_angle"@) == Some(JsonValue::Number(JsonNumber::Frac(-45i128, 1)))
    &&& v.text_at("shadow_color"@) == Some(""@)
    &&& v.field("shadow_distance"@) == Some(JsonValue::Number(JsonNumber::Frac(5, 1)))
    &&& v.at("shadow_point"@).field("x"@) == Some(JsonValue::Number(JsonNumber::Frac(6363961030678927, 10000000000000000)))
    &&& v.at("shadow_point"@).field("y"@) == Some(JsonValue::Number(JsonNumber::Frac(-6363961030678927i128, 10000000000000000)))
    &&& v.field("shadow_smoothing"@) == Some(JsonValue::Number(JsonNumber::Frac(45, 100)))
    &&& v.field("shape_clip_x"@) == Some(JsonValue::Bool(false))
    &&& v.field("shape_clip_y"@) == Some(JsonValue::Bool(false))
    &&& v.text_at("style_name"@) == Some(""@)
    &&& v.field("sub_type"@) == Some(JsonValue::Number(JsonNumber::Int(0i128)))
    &&& v.field("subtitle_keywords"@) == Some(JsonValue::Null)
    &&& v.field("text_alpha"@) == Some(JsonValue::Number(JsonNumber::Frac(1, 1)))
    &&& v.text_at("text_color"@) == Some("#FFFFFF"@)
    &&& v.text_at("text_preset_resource_id"@) == Some(""@)
    &&& v.field("text_size"@) == Some(JsonValue::Number(JsonNumber::Int(30i128)))
    &&& v.at("text_to_audio_ids"@).items() == Some(Seq::<JsonValue>::empty())
    &&& v.field("tts_auto_update"@) == Some(JsonValue::Bool(false))
    &&& v.text_at("type"@) == Some("subtitle"@)
    &&& v.field("typesetting"@) == Some(JsonValue::Number(JsonNumber::Int(0i128)))
    &&& v.field("underline"@) == Some(JsonValue::Bool(false))
    &&& v.field("underline_offset"@) == Some(JsonValue::Number(JsonNumber::Frac(22, 100)))
    &&& v.field("underline_width"@) == Some(JsonValue::Number(JsonNumber::Frac(5, 100)))
    &&& v.field("use_effect_default_color"@) == Some(JsonValue::Bool(true))
    &&& v.at("words"@).items() == Some(Seq::<JsonValue>::empty())
}

/// The material of a subtitle: white 8-point text with a black outline.
#[verifier::rlimit(100)]
#[verifier::spinoff_prover]
fn text_material(id: &str, text: &str) -> (r: JsonValue)
    ensures
        r.field("id"@) matches Some(v) && v.text() == Some(id@),
        r.field("content"@) matches Some(v) && v.text() == Some(spec_text_content(text@)),
        is_subtitle_text_material(r),
{
    let content = text_content(text);
    let mut o: Vec<(String, JsonValue)> = Vec::new();
    o.push(entry("id", string(id)));
    o.push(entry("content", JsonValue::Str(content)));
    o.push(entry("alignment", uint(1)));
    o.push(entry("border_color", string("")));
    o.push(entry("border_width", frac(0, 1)));
    o.push(entry("check_flag", uint(15)));
    o.push(entry("font_category_id", string("")));
    o.push(entry("font_category_name", string("")));
    o.push(entry("font_id", string("")));
    o.push(entry("font_name", string("")));
    o.push(entry("font_path", string("")));
    o.push(entry("font_resource_id", string("")));
    o.push(entry("font_size", frac(8, 1)));
    o.push(entry("font_source_platform", uint(0)));
    o.push(entry("force_apply_line_max_width", JsonValue::Bool(false)));
    o.push(entry("global_alpha", frac(1, 1)));
    o.push(entry("group_id", string("")));
    o.push(entry("has_shadow", JsonValue::Bool(false)));
    o.push(entry("initial_scale", frac(1, 1)));
    o.push(entry("is_rich_text", JsonValue::Bool(false)));
    o.push(entry("italic_degree", uint(0)));
    o.push(entry("ktv_color", string("")));
    o.push(entry("layer_weight", uint(1)));
    o.push(entry("letter_spacing", frac(0, 1)));
    o.push(entry("line_feed", uint(1)));
    o.push(entry("line_max_width", frac(82, 100)));
    o.push(entry("line_spacing", frac(2, 100)));
    o.push(entry("name", string("")));
    o.push(entry("original_size", empty_array()));
    o.push(entry("preset_id", string("")));
    o.push(entry("recognize_task_id", string("")));
    o.push(entry("recognize_type", uint(0)));
    o.push(entry("relevance_segment", empty_array()));
    o.push(entry("shadow_alpha", frac(9, 10)));
    o.push(entry("shadow_angle", frac(-45, 1)));
    o.push(entry("shadow_color", string("")));
    o.push(entry("shadow_distance", frac(5, 1)));
    o.push(entry("shadow_point", xy(6363961030678927, 10000000000000000, -6363961030678927, 10000000000000000)));
    o.push(entry("shadow_smoothing", frac(45, 100)));
    o.push(entry("shape_clip_x", JsonValue::Bool(false)));
    o.push(entry("shape_clip_y", JsonValue::Bool(false)));
    o.push(entry("style_name", string("")));
    o.push(entry("sub_type", uint(0)));
    o.push(entry("subtitle_keywords", JsonValue::Null));
    o.push(entry("text_alpha", frac(1, 1)));
    o.push(entry("text_color", string("#FFFFFF")));
    o.push(entry("text_preset_resource_id", string("")));
    o.push(entry("text_size", uint(30)));
    o.push(entry("text_to_audio_ids", empty_array()));
    o.push(entry("tts_auto_update", JsonValue::Bool(false)));
    o.push(entry("type", string("subtitle")));
    o.push(entry("typesetting", uint(0)));
    o.push(entry("underline", JsonValue::Bool(false)));
    o.push(entry("underline_offset", frac(22, 100)));
    o.push(entry("underline_width", frac(5, 100)));
    o.push(entry("use_effect_default_color", JsonValue::Bool(true)));
    o.push(entry("words", empty_array()));
    proof {
        reveal_strlit("id");
        assert("id"@.len() == 2);
        reveal_strlit("content");
        assert("content"@.len() == 7);
        reveal_strlit("alignment");
        assert("alignment"@.len() == 9);
        reveal_strlit("border_color");
        assert("border_color"@.len() == 12);
        reveal_strlit("border_width");
        assert("border_width"@.len() == 12);
        reveal_strlit("check_flag");
        assert("check_flag"@.len() == 10);
        reveal_strlit("font_category_id");
        assert("font_category_id"@.len() == 16);
        reveal_strlit("font_category_name");
        assert("font_category_name"@.len() == 18);
        reveal_strlit("font_id");
        assert("font_id"@.len() == 7);
        reveal_strlit("font_name");
        assert("font_name"@.len() == 9);
        reveal_strlit("font_path");
        assert("font_path"@.len() == 9);
        reveal_strlit("font_resource_id");
        assert("font_resource_id"@.len() == 16);
        reveal_strlit("font_size");
        assert("font_size"@.len() == 9);
        reveal_strlit("font_source_platform");
        assert("font_source_platform"@.len() == 20);
        reveal_strlit("force_apply_line_max_width");
        assert("force_apply_line_max_width"@.len() == 26);
        reveal_strlit("global_alpha");
        assert("global_alpha"@.len() == 12);
        reveal_strlit("group_id");
        assert("group_id"@.len() == 8);
        reveal_strlit("has_shadow");
        assert("has_shadow"@.len() == 10);
        reveal_strlit("initial_scale");
        assert("initial_scale"@.len() == 13);
        reveal_strlit("is_rich_text");
        assert("is_rich_text"@.len() == 12);
        reveal_strlit("italic_degree");
        assert("italic_degree"@.len() == 13);
        reveal_strlit("ktv_color");
        assert("ktv_color"@.len() == 9);
        reveal_strlit("layer_weight");
        assert("layer_weight"@.len() == 12);
        reveal_strlit("letter_spacing");
        assert("letter_spacing"@.len() == 14);
        reveal_strlit("line_feed");
        assert("line_feed"@.len() == 9);
        reveal_strlit("line_max_width");
        assert("line_max_width"@.len() == 14);
        reveal_strlit("line_spacing");
        assert("line_spacing"@.len() == 12);
        reveal_strlit("name");
        assert("name"@.len() == 4);
        reveal_strlit("original_size");
        assert("original_size"@.len() == 13);
        reveal_strlit("preset_id");
        assert("preset_id"@.len() == 9);
        reveal_strlit("recognize_task_id");
        assert("recognize_task_id"@.len() == 17);
        reveal_strlit("recognize_type");
        assert("recognize_type"@.len() == 14);
        reveal_strlit("relevance_segment");
        assert("relevance_segment"@.len() == 17);
        reveal_strlit("shadow_alpha");
        assert("shadow_alpha"@.len() == 12);
        reveal_strlit("shadow_angle");
        assert("shadow_angle"@.len() == 12);
        reveal_strlit("shadow_color");
        assert("shadow_color"@.len() == 12);
        reveal_strlit("shadow_distance");
        assert("shadow_distance"@.len() == 15);
        reveal_strlit("shadow_point");
        assert("shadow_point"@.len() == 12);
        reveal_strlit("shadow_smoothing");
        assert("shadow_smoothing"@.len() == 16);
        reveal_strlit("shape_clip_x");
        assert("shape_clip_x"@.len() == 12);
        reveal_strlit("shape_clip_y");
        assert("shape_clip_y"@.len() == 12);
        reveal_strlit("style_name");
        assert("style_name"@.len() == 10);
        reveal_strlit("sub_type");
        assert("sub_type"@.len() == 8);
        reveal_strlit("subtitle_keywords");
        assert("subtitle_keywords"@.len() == 17);
        reveal_strlit("text_alpha");
        assert("text_alpha"@.len() == 10);
        reveal_strlit("text_color");
        assert("text_color"@.len() == 10);
        reveal_strlit("text_preset_resource_id");
        assert("text_preset_resource_id"@.len() == 23);
        reveal_strlit("text_size");
        assert("text_size"@.len() == 9);
        reveal_strlit("text_to_audio_ids");
        assert("text_to_audio_ids"@.len() == 17);
        reveal_strlit("tts_auto_update");
        assert("tts_auto_update"@.len() == 15);
        reveal_strlit("type");
        assert("type"@.len() == 4);
        reveal_strlit("typesetting");
        assert("typesetting"@.len() == 11);
        reveal_strlit("underline");
        assert("underline"@.len() == 9);
        reveal_strlit("underline_offset");
        assert("underline_offset"@.len() == 16);
        reveal_strlit("underline_width");
        assert("underline_width"@.len() == 15);
        reveal_strlit("use_effect_default_color");
        assert("use_effect_default_color"@.len() == 24);
        reveal_strlit("words");
        assert("words"@.len() == 5);
        lemma_entry_at(o@, 0, "id"@);
        lemma_entry_at(o@, 1, "content"@);
        lemma_entry_at(o@, 2, "alignment"@);
        lemma_entry_at(o@, 3, "border_color"@);
        assert("border_color"@[7] != "border_width"@[7]);
        lemma_entry_at(o@, 4, "border_width"@);
        lemma_entry_at(o@, 5, "check_flag"@);
        lemma_entry_at(o@, 6, "font_category_id"@);
        lemma_entry_at(o@, 7, "font_category_name"@);
        assert("content"@[0] != "font_id"@[0]);
        lemma_entry_at(o@, 8, "font_id"@);
        assert("alignment"@[0] != "font_name"@[0]);
        lemma_entry_at(o@, 9, "font_name"@);
        assert("alignment"@[0] != "font_path"@[0]);
        assert("font_name"@[5] != "font_path"@[5]);
        lemma_entry_at(o@, 10, "font_path"@);
        assert("font_category_id"@[5] != "font_resource_id"@[5]);
        lemma_entry_at(o@, 11, "font_resource_id"@);
        assert("alignment"@[0] != "font_size"@[0]);
        assert("font_name"@[5] != "font_size"@[5]);
        assert("font_path"@[5] != "font_size"@[5]);
        lemma_entry_at(o@, 12, "font_size"@);
        lemma_entry_at(o@, 13, "font_source_platform"@);
        lemma_entry_at(o@, 14, "force_apply_line_max_width"@);
        assert("border_color"@[0] != "global_alpha"@[0]);
        assert("border_width"@[0] != "global_alpha"@[0]);
        lemma_entry_at(o@, 15, "global_alpha"@);
        lemma_entry_at(o@, 16, "group_id"@);
        assert("check_flag"@[0] != "has_shadow"@[0]);
        lemma_entry_at(o@, 17, "has_shadow"@);
        lemma_entry_at(o@, 18, "initial_scale"@);
        assert("border_color"@[0] != "is_rich_text"@[0]);
        assert("border_width"@[0] != "is_rich_text"@[0]);
        assert("global_alpha"@[0] != "is_rich_text"@[0]);
        lemma_entry_at(o@, 19, "is_rich_text"@);
        assert("initial_scale"@[1] != "italic_degree"@[1]);
        lemma_entry_at(o@, 20, "italic_degree"@);
        assert("alignment"@[0] != "ktv_color"@[0]);
        assert("font_name"@[0] != "ktv_color"@[0]);
        assert("font_path"@[0] != "ktv_color"@[0]);
        assert("font_size"@[0] != "ktv_color"@[0]);
        lemma_entry_at(o@, 21, "ktv_color"@);
        assert("border_color"@[0] != "layer_weight"@[0]);
        assert("border_width"@[0] != "layer_weight"@[0]);
        assert("global_alpha"@[0] != "layer_weight"@[0]);
        assert("is_rich_text"@[0] != "layer_weight"@[0]);
        lemma_entry_at(o@, 22, "layer_weight"@);
        lemma_entry_at(o@, 23, "letter_spacing"@);
        assert("alignment"@[0] != "line_feed"@[0]);
        assert("font_name"@[0] != "line_feed"@[0]);
        assert("font_path"@[0] != "line_feed"@[0]);
        assert("font_size"@[0] != "line_feed"@[0]);
        assert("ktv_color"@[0] != "line_feed"@[0]);
        lemma_entry_at(o@, 24, "line_feed"@);
        assert("letter_spacing"@[1] != "line_max_width"@[1]);
        lemma_entry_at(o@, 25, "line_max_width"@);
        assert("border_color"@[0] != "line_spacing"@[0]);
        assert("border_width"@[0] != "line_spacing"@[0]);
        assert("global_alpha"@[0] != "line_spacing"@[0]);
        assert("is_rich_text"@[0] != "line_spacing"@[0]);
        assert("layer_weight"@[1] != "line_spacing"@[1]);
        lemma_entry_at(o@, 26, "line_spacing"@);
        lemma_entry_at(o@, 27, "name"@);
        assert("initial_scale"@[0] != "original_size"@[0]);
        assert("italic_degree"@[0] != "original_size"@[0]);
        lemma_entry_at(o@, 28, "original_size"@);
        assert("alignment"@[0] != "preset_id"@[0]);
        assert("font_name"@[0] != "preset_id"@[0]);
        assert("font_path"@[0] != "preset_id"@[0]);
        assert("font_size"@[0] != "preset_id"@[0]);
        assert("ktv_color"@[0] != "preset_id"@[0]);
        assert("line_feed"@[0] != "preset_id"@[0]);
        lemma_entry_at(o@, 29, "preset_id"@);
        lemma_entry_at(o@, 30, "recognize_task_id"@);
        assert("letter_spacing"@[0] != "recognize_type"@[0]);
        assert("line_max_width"@[0] != "recognize_type"@[0]);
        lemma_entry_at(o@, 31, "recognize_type"@);
        assert("recognize_task_id"@[2] != "relevance_segment"@[2]);
        lemma_entry_at(o@, 32, "relevance_segment"@);
        assert("border_color"@[0] != "shadow_alpha"@[0]);
        assert("border_width"@[0] != "shadow_alpha"@[0]);
        assert("global_alpha"@[0] != "shadow_alpha"@[0]);
        assert("is_rich_text"@[0] != "shadow_alpha"@[0]);
        assert("layer_weight"@[0] != "shadow_alpha"@[0]);
        assert("line_spacing"@[0] != "shadow_alpha"@[0]);
        lemma_entry_at(o@, 33, "shadow_alpha"@);
        assert("border_color"@[0] != "shadow_angle"@[0]);
        assert("border_width"@[0] != "shadow_angle"@[0]);
        assert("global_alpha"@[0] != "shadow_angle"@[0]);
        assert("is_rich_text"@[0] != "shadow_angle"@[0]);
        assert("layer_weight"@[0] != "shadow_angle"@[0]);
        assert("line_spacing"@[0] != "shadow_angle"@[0]);
        assert("shadow_alpha"@[8] != "shadow_angle"@[8]);
        lemma_entry_at(o@, 34, "shadow_angle"@);
        assert("border_color"@[0] != "shadow_color"@[0]);
        assert("border_width"@[0] != "shadow_color"@[0]);
        assert("global_alpha"@[0] != "shadow_color"@[0]);
        assert("is_rich_text"@[0] != "shadow_color"@[0]);
        assert("layer_weight"@[0] != "shadow_color"@[0]);
        assert("line_spacing"@[0] != "shadow_color"@[0]);
        assert("shadow_alpha"@[7] != "shadow_color"@[7]);
        assert("shadow_angle"@[7] != "shadow_color"@[7]);
        lemma_entry_at(o@, 35, "shadow_color"@);
        lemma_entry_at(o@, 36, "shadow_distance"@);
        assert("border_color"@[0] != "shadow_point"@[0]);
        assert("border_width"@[0] != "shadow_point"@[0]);
        assert("global_alpha"@[0] != "shadow_point"@[0]);
        assert("is_rich_text"@[0] != "shadow_point"@[0]);
        assert("layer_weight"@[0] != "shadow_point"@[0]);
        assert("line_spacing"@[0] != "shadow_point"@[0]);
        assert("shadow_alpha"@[7] != "shadow_point"@[7]);
        assert("shadow_angle"@[7] != "shadow_point"@[7]);
        assert("shadow_color"@[7] != "shadow_point"@[7]);
        lemma_entry_at(o@, 37, "shadow_point"@);
        assert("font_category_id"@[0] != "shadow_smoothing"@[0]);
        assert("font_resource_id"@[0] != "shadow_smoothing"@[0]);
        lemma_entry_at(o@, 38, "shadow_smoothing"@);
        assert("border_color"@[0] != "shape_clip_x"@[0]);
        assert("border_width"@[0] != "shape_clip_x"@[0]);
        assert("global_alpha"@[0] != "shape_clip_x"@[0]);
        assert("is_rich_text"@[0] != "shape_clip_x"@[0]);
        assert("layer_weight"@[0] != "shape_clip_x"@[0]);
        assert("line_spacing"@[0] != "shape_clip_x"@[0]);
        assert("shadow_alpha"@[3] != "shape_clip_x"@[3]);
        assert("shadow_angle"@[3] != "shape_clip_x"@[3]);
        assert("shadow_color"@[3] != "shape_clip_x"@[3]);
        assert("shadow_point"@[3] != "shape_clip_x"@[3]);
        lemma_entry_at(o@, 39, "shape_clip_x"@);
        assert("border_color"@[0] != "shape_clip_y"@[0]);
        assert("border_width"@[0] != "shape_clip_y"@[0]);
        assert("global_alpha"@[0] != "shape_clip_y"@[0]);
        assert("is_rich_text"@[0] != "shape_clip_y"@[0]);
        assert("layer_weight"@[0] != "shape_clip_y"@[0]);
        assert("line_spacing"@[0] != "shape_clip_y"@[0]);
        assert("shadow_alpha"@[3] != "shape_clip_y"@[3]);
        assert("shadow_angle"@[3] != "shape_clip_y"@[3]);
        assert("shadow_color"@[3] != "shape_clip_y"@[3]);
        assert("shadow_point"@[3] != "shape_clip_y"@[3]);
        assert("shape_clip_x"@[11] != "shape_clip_y"@[11]);
        lemma_entry_at(o@, 40, "shape_clip_y"@);
        assert("check_flag"@[0] != "style_name"@[0]);
        assert("has_shadow"@[0] != "style_name"@[0]);
        lemma_entry_at(o@, 41, "style_name"@);
        assert("group_id"@[0] != "sub_type"@[0]);
        lemma_entry_at(o@, 42, "sub_type"@);
        assert("recognize_task_id"@[0] != "subtitle_keywords"@[0]);
        assert("relevance_segment"@[0] != "subtitle_keywords"@[0]);
        lemma_entry_at(o@, 43, "subtitle_keywords"@);
        assert("check_flag"@[0] != "text_alpha"@[0]);
        assert("has_shadow"@[0] != "text_alpha"@[0]);
        assert("style_name"@[0] != "text_alpha"@[0]);
        lemma_entry_at(o@, 44, "text_alpha"@);
        assert("check_flag"@[0] != "text_color"@[0]);
        assert("has_shadow"@[0] != "text_color"@[0]);
        assert("style_name"@[0] != "text_color"@[0]);
        assert("text_alpha"@[5] != "text_color"@[5]);
        lemma_entry_at(o@, 45, "text_color"@);
        lemma_entry_at(o@, 46, "text_preset_resource_id"@);
        assert("alignment"@[0] != "text_size"@[0]);
        assert("font_name"@[0] != "text_size"@[0]);
        assert("font_path"@[0] != "text_size"@[0]);
        assert("font_size"@[0] != "text_size"@[0]);
        assert("ktv_color"@[0] != "text_size"@[0]);
        assert("line_feed"@[0] != "text_size"@[0]);
        assert("preset_id"@[0] != "text_size"@[0]);
        lemma_entry_at(o@, 47, "text_size"@);
        assert("recognize_task_id"@[0] != "text_to_audio_ids"@[0]);
        assert("relevance_segment"@[0] != "text_to_audio_ids"@[0]);
        assert("subtitle_keywords"@[0] != "text_to_audio_ids"@[0]);
        lemma_entry_at(o@, 48, "text_to_audio_ids"@);
        assert("shadow_distance"@[0] != "tts_auto_update"@[0]);
        lemma_entry_at(o@, 49, "tts_auto_update"@);
        assert("name"@[0] != "type"@[0]);
        lemma_entry_at(o@, 50, "type"@);
        lemma_entry_at(o@, 51, "typesetting"@);
        assert("alignment"@[0] != "underline"@[0]);
        assert("font_name"@[0] != "underline"@[0]);
        assert("font_path"@[0] != "underline"@[0]);
        assert("font_size"@[0] != "underline"@[0]);
        assert("ktv_color"@[0] != "underline"@[0]);
        assert("line_feed"@[0] != "underline"@[0]);
        assert("preset_id"@[0] != "underline"@[0]);
        assert("text_size"@[0] != "underline"@[0]);
        lemma_entry_at(o@, 52, "underline"@);
        assert("font_category_id"@[0] != "underline_offset"@[0]);
        assert("font_resource_id"@[0] != "underline_offset"@[0]);
        assert("shadow_smoothing"@[0] != "underline_offset"@[0]);
        lemma_entry_at(o@, 53, "underline_offset"@);
        assert("shadow_distance"@[0] != "underline_width"@[0]);
        assert("tts_auto_update"@[0] != "underline_width"@[0]);
        lemma_entry_at(o@, 54, "underline_width"@);
        lemma_entry_at(o@, 55, "use_effect_default_color"@);
        lemma_entry_at(o@, 56, "words"@);
    }
    JsonValue::Object(o)
}

/// A text segment at the given render index with the editor's defaults:
/// full size, centred across the frame and moved down to 80% of the way
/// from the centre to the bottom edge, opaque, unrotated, normal speed and
/// volume, no keyframes, visible.
pub open spec fn is_plain_text_segment(v: JsonValue, render_index: u32) -> bool {
    &&& v.entry_count() == 27
    &&& v.at("common_keyframes"@).items() == Some(Seq::<JsonValue>::empty())
    &&& v.field("enable_adjust"@) == Some(JsonValue::Bool(true))
    &&& v.field("enable_color_correct_adjust"@) == Some(JsonValue::Bool(false))
    &&& v.field("enable_color_curves"@) == Some(JsonValue::Bool(true))
    &&& v.field("enable_color_match_adjust"@) == Some(JsonValue::Bool(false))
    &&& v.field("enable_color_wheels"@) == Some(JsonValue::Bool(true))
    &&& v.field("enable_lut"@) == Some(JsonValue::Bool(true))
    &&& v.field("enable_smart_color_adjust"@) == Some(JsonValue::Bool(false))
    &&& v.at("extra_material_refs"@).items() == Some(Seq::<JsonValue>::empty())
    &&& v.field("is_placeholder"@) == Some(JsonValue::Bool(false))
    &&& v.field("is_tone_modify"@) == Some(JsonValue::Bool(false))
    &&& v.at("keyframe_refs"@).items() == Some(Seq::<JsonValue>::empty())
    &&& v.field("last_nonzero_volume"@) == Some(JsonValue::Number(JsonNumber::Frac(1i128, 1)))
    &&& v.field("reverse"@) == Some(JsonValue::Bool(false))
    &&& v.field("source_timerange"@) == Some(JsonValue::Null)
    &&& v.field("speed"@) == Some(JsonValue::Number(JsonNumber::Frac(1i128, 1)))
    &&& v.field("track_attribute"@) == Some(JsonValue::Number(JsonNumber::Int(0i128)))
    &&& v.field("track_render_index"@) == Some(JsonValue::Number(JsonNumber::Int(0i128)))
    &&& v.field("visible"@) == Some(JsonValue::Bool(true))
    &&& v.field("volume"@) == Some(JsonValue::Number(JsonNumber::Frac(1i128, 1)))
    &&& v.field("render_index"@) == Some(JsonValue::Number(JsonNumber::Int(render_index as i128)))
    &&& v.at("clip"@).at("transform"@).field("x"@) == Some(JsonValue::Number(JsonNumber::Frac(0, 1)))
    &&& v.at("clip"@).at("transform"@).field("y"@) == Some(JsonValue::Number(JsonNumber::Frac(-8i128, 10)))
    &&& v.at("clip"@).at("scale"@).field("x"@) == Some(JsonValue::Number(JsonNumber::Frac(1, 1)))
    &&& v.at("clip"@).at("scale"@).field("y"@) == Some(JsonValue::Number(JsonNumber::Frac(1, 1)))
    &&& v.at("clip"@).field("alpha"@) == Some(JsonValue::Number(JsonNumber::Frac(1, 1)))
    &&& v.at("clip"@).field("rotation"@) == Some(JsonValue::Number(JsonNumber::Frac(0, 1)))
    &&& v.at("uniform_scale"@).field("on"@) == Some(JsonValue::Bool(true))
    &&& v.at("uniform_scale"@).field("value"@) == Some(JsonValue::Number(JsonNumber::Frac(1, 1)))
}

/// The segment that shows a subtitle near the bottom of the frame.
#[verifier::rlimit(100)]
#[verifier::spinoff_prover]
fn text_segment(material_id: &str, start: u64, duration: u64, render_index: u32) -> (r: JsonValue)
    ensures
        r.field("material_id"@) matches Some(v) && v.text() == Some(material_id@),
        r.field("target_timerange"@) matches Some(t) && t.field("start"@) == Some(JsonValue::Number(JsonNumber::Int(start as i128)))
            && t.field("duration"@) == Some(JsonValue::Number(JsonNumber::Int(duration as i128))),
        is_plain_text_segment(r, render_index),
        r.at("render_timerange"@).field("start"@) == Some(JsonValue::Number(JsonNumber::Int(start as i128))),
        r.at("render_timerange"@).field("duration"@) == Some(JsonValue::Number(JsonNumber::Int(duration as i128))),
{
    let segment_id = hex_id();
    let mut o: Vec<(String, JsonValue)> = Vec::new();
    o.push(entry("material_id", string(material_id)));
    o.push(entry("target_timerange", timerange(start, duration)));
    o.push(entry("render_timerange", timerange(start, duration)));
    o.push(entry("clip", clip_transform(Ratio { num: 1, den: 1 }, -8, 10)));
    o.push(entry("common_keyframes", empty_array()));
    o.push(entry("enable_adjust", JsonValue::Bool(true)));
    o.push(entry("enable_color_correct_adjust", JsonValue::Bool(false)));
    o.push(entry("enable_color_curves", JsonValue::Bool(true)));
    o.push(entry("enable_color_match_adjust", JsonValue::Bool(false)));
    o.push(entry("enable_color_wheels", JsonValue::Bool(true)));
    o.push(entry("enable_lut", JsonValue::Bool(true)));
    o.push(entry("enable_smart_color_adjust", JsonValue::Bool(false)));
    o.push(entry("extra_material_refs", empty_array()));
    o.push(entry("id", string(segment_id.as_str())));
    o.push(entry("is_placeholder", JsonValue::Bool(false)));
    o.push(entry("is_tone_modify", JsonValue::Bool(false)));
    o.push(entry("keyframe_refs", empty_array()));
    o.push(entry("last_nonzero_volume", frac(1, 1)));
    o.push(entry("render_index", uint(render_index as u64)));
    o.push(entry("reverse", JsonValue::Bool(false)));
    o.push(entry("source_timerange", JsonValue::Null));
    o.push(entry("speed", frac(1, 1)));
    o.push(entry("track_attribute", uint(0)));
    o.push(entry("track_render_index", uint(0)));
    o.push(entry("uniform_scale", uniform_scale()));
    o.push(entry("visible", JsonValue::Bool(true)));
    o.push(entry("volume", frac(1, 1)));
    proof {
        reveal_strlit("material_id");
        assert("material_id"@.len() == 11);
        reveal_strlit("target_timerange");
        assert("target_timerange"@.len() == 16);
        reveal_strlit("render_timerange");
        assert("render_timerange"@.len() == 16);
        reveal_strlit("clip");
        assert("clip"@.len() == 4);
        reveal_strlit("common_keyframes");
        assert("common_keyframes"@.len() == 16);
        reveal_strlit("enable_adjust");
        assert("enable_adjust"@.len() == 13);
        reveal_strlit("enable_color_correct_adjust");
        assert("enable_color_correct_adjust"@.len() == 27);
        reveal_strlit("enable_color_curves");
        assert("enable_color_curves"@.len() == 19);
        reveal_strlit("enable_color_match_adjust");
        assert("enable_color_match_adjust"@.len() == 25);
        reveal_strlit("enable_color_wheels");
        assert("enable_color_wheels"@.len() == 19);
        reveal_strlit("enable_lut");
        assert("enable_lut"@.len() == 10);
        reveal_strlit("enable_smart_color_adjust");
        assert("enable_smart_color_adjust"@.len() == 25);
        reveal_strlit("extra_material_refs");
        assert("extra_material_refs"@.len() == 19);
        reveal_strlit("id");
        assert("id"@.len() == 2);
        reveal_strlit("is_placeholder");
        assert("is_placeholder"@.len() == 14);
        reveal_strlit("is_tone_modify");
        assert("is_tone_modify"@.len() == 14);
        reveal_strlit("keyframe_refs");
        assert("keyframe_refs"@.len() == 13);
        reveal_strlit("last_nonzero_volume");
        assert("last_nonzero_volume"@.len() == 19);
        reveal_strlit("render_index");
        assert("render_index"@.len() == 12);
        reveal_strlit("reverse");
        assert("reverse"@.len() == 7);
        reveal_strlit("source_timerange");
        assert("source_timerange"@.len() == 16);
        reveal_strlit("speed");
        assert("speed"@.len() == 5);
        reveal_strlit("track_attribute");
        assert("track_attribute"@.len() == 15);
        reveal_strlit("track_render_index");
        assert("track_render_index"@.len() == 18);
        reveal_strlit("uniform_scale");
        assert("uniform_scale"@.len() == 13);
        reveal_strlit("visible");
        assert("visible"@.len() == 7);
        reveal_strlit("volume");
        assert("volume"@.len() == 6);
        lemma_entry_at(o@, 0, "material_id"@);
        lemma_entry_at(o@, 1, "target_timerange"@);
        assert("target_timerange"@[0] != "render_timerange"@[0]);
        lemma_entry_at(o@, 2, "render_timerange"@);
        lemma_entry_at(o@, 3, "clip"@);
        assert("target_timerange"@[0] != "common_keyframes"@[0]);
        assert("render_timerange"@[0] != "common_keyframes"@[0]);
        lemma_entry_at(o@, 4, "common_keyframes"@);
        lemma_entry_at(o@, 5, "enable_adjust"@);
        lemma_entry_at(o@, 6, "enable_color_correct_adjust"@);
        lemma_entry_at(o@, 7, "enable_color_curves"@);
        lemma_entry_at(o@, 8, "enable_color_match_adjust"@);
        assert("enable_color_curves"@[13] != "enable_color_wheels"@[13]);
        lemma_entry_at(o@, 9, "enable_color_wheels"@);
        lemma_entry_at(o@, 10, "enable_lut"@);
        assert("enable_color_match_adjust"@[7] != "enable_smart_color_adjust"@[7]);
        lemma_entry_at(o@, 11, "enable_smart_color_adjust"@);
        assert("enable_color_curves"@[1] != "extra_material_refs"@[1]);
        assert("enable_color_wheels"@[1] != "extra_material_refs"@[1]);
        lemma_entry_at(o@, 12, "extra_material_refs"@);
        lemma_entry_at(o@, 13, "id"@);
        lemma_entry_at(o@, 14, "is_placeholder"@);
        assert("is_placeholder"@[3] != "is_tone_modify"@[3]);
        lemma_entry_at(o@, 15, "is_tone_modify"@);
        assert("enable_adjust"@[0] != "keyframe_refs"@[0]);
        lemma_entry_at(o@, 16, "keyframe_refs"@);
        assert("enable_color_curves"@[0] != "last_nonzero_volume"@[0]);
        assert("enable_color_wheels"@[0] != "last_nonzero_volume"@[0]);
        assert("extra_material_refs"@[0] != "last_nonzero_volume"@[0]);
        lemma_entry_at(o@, 17, "last_nonzero_volume"@);
        lemma_entry_at(o@, 18, "render_index"@);
        lemma_entry_at(o@, 19, "reverse"@);
        assert("target_timerange"@[0] != "source_timerange"@[0]);
        assert("render_timerange"@[0] != "source_timerange"@[0]);
        assert("common_keyframes"@[0] != "source_timerange"@[0]);
        lemma_entry_at(o@, 20, "source_timerange"@);
        lemma_entry_at(o@, 21, "speed"@);
        lemma_entry_at(o@, 22, "track_attribute"@);
        lemma_entry_at(o@, 23, "track_render_index"@);
        assert("enable_adjust"@[0] != "uniform_scale"@[0]);
        assert("keyframe_refs"@[0] != "uniform_scale"@[0]);
        lemma_entry_at(o@, 24, "uniform_scale"@);
        assert("reverse"@[0] != "visible"@[0]);
        lemma_entry_at(o@, 25, "visible"@);
        lemma_entry_at(o@, 26, "volume"@);
    }
    JsonValue::Object(o)
}

/// A track of the given type, name and render index, with its default
/// attributes.
pub open spec fn is_track(t: JsonValue, track_type: Seq<char>, name: Seq<char>, render_index: u32) -> bool {
    &&& t.entry_count() == 8
    &&& t.text_at("type"@) == Some(track_type)
    &&& t.field("attribute"@) == Some(JsonValue::Number(JsonNumber::Int(0i128)))
    &&& t.field("flag"@) == Some(JsonValue::Number(JsonNumber::Int(0i128)))
    &&& t.field("is_default_name"@) == Some(JsonValue::Bool(true))
    &&& t.text_at("name"@) == Some(name)
    &&& t.field("render_index"@) == Some(JsonValue::Number(JsonNumber::Int(render_index as i128)))
}

/// A track of the given type holding the segments in order.
fn track(track_type: &str, name: &str, render_index: u32, segments: Vec<JsonValue>) -> (r: JsonValue)
    ensures
        is_track(r, track_type@, name@, render_index),
        r.field("segments"@) matches Some(v) && v.items() == Some(segments@),
{
    let track_id = hex_id();
    let ghost segs = segments@;
    let mut o: Vec<(String, JsonValue)> = Vec::new();
    o.push(entry("type", string(track_type)));
    o.push(entry("segments", JsonValue::Array(segments)));
    o.push(entry("attribute", uint(0)));
    o.push(entry("flag", uint(0)));
    o.push(entry("id", string(track_id.as_str())));
    o.push(entry("is_default_name", JsonValue::Bool(true)));
    o.push(entry("name", string(name)));
    o.push(entry("render_index", uint(render_index as u64)));
    proof {
        reveal_strlit("type");
        assert("type"@.len() == 4);
        reveal_strlit("segments");
        assert("segments"@.len() == 8);
        reveal_strlit("attribute");
        assert("attribute"@.len() == 9);
        reveal_strlit("flag");
        assert("flag"@.len() == 4);
        reveal_strlit("id");
        assert("id"@.len() == 2);
        reveal_strlit("is_default_name");
        assert("is_default_name"@.len() == 15);
        reveal_strlit("name");
        assert("name"@.len() == 4);
        reveal_strlit("render_index");
        assert("render_index"@.len() == 12);
        lemma_entry_at(o@, 0, "type"@);
        lemma_entry_at(o@, 1, "segments"@);
        lemma_entry_at(o@, 2, "attribute"@);
        assert("type"@[0] != "flag"@[0]);
        lemma_entry_at(o@, 3, "flag"@);
        lemma_entry_at(o@, 4, "id"@);
        lemma_entry_at(o@, 5, "is_default_name"@);
        assert("type"@[0] != "name"@[0]);
        assert("flag"@[0] != "name"@[0]);
        lemma_entry_at(o@, 6, "name"@);
        lemma_entry_at(o@, 7, "render_index"@);
    }
    JsonValue::Object(o)
}


/// The editor settings of a new draft.
pub open spec fn is_default_draft_config(v: JsonValue) -> bool {
    &&& v.entry_count() == 24
    &&& v.field("adjust_max_index"@) == Some(JsonValue::Number(JsonNumber::Int(1)))
    &&& v.at("attachment_info"@).items() == Some(Seq::<JsonValue>::empty())
    &&& v.field("combination_max_index"@) == Some(JsonValue::Number(JsonNumber::Int(1)))
    &&& v.field("export_range"@) == Some(JsonValue::Null)
    &&& v.field("extract_audio_last_index"@) == Some(JsonValue::Number(JsonNumber::Int(1)))
    &&& v.text_at("lyrics_recognition_id"@) == Some(""@)
    &&& v.field("lyrics_sync"@) == Some(JsonValue::Bool(true))
    &&& v.at("lyrics_taskinfo"@).items() == Some(Seq::<JsonValue>::empty())
    &&& v.field("maintrack_adsorb"@) == Some(JsonValue::Bool(true))
    &&& v.field("material_save_mode"@) == Some(JsonValue::Number(JsonNumber::Int(0)))
    &&& v.text_at("multi_language_current"@) == Some("none"@)
    &&& v.at("multi_language_list"@).items() == Some(Seq::<JsonValue>::empty())
    &&& v.text_at("multi_language_main"@) == Some("none"@)
    &&& v.text_at("multi_language_mode"@) == Some("none"@)
    &&& v.field("original_sound_last_index"@) == Some(JsonValue::Number(JsonNumber::Int(1)))
    &&& v.field("record_audio_last_index"@) == Some(JsonValue::Number(JsonNumber::Int(1)))
    &&& v.field("sticker_max_index"@) == Some(JsonValue::Number(JsonNumber::Int(1)))
    &&& v.field("subtitle_keywords_config"@) == Some(JsonValue::Null)
    &&& v.text_at("subtitle_recognition_id"@) == Some(""@)
    &&& v.field("subtitle_sync"@) == Some(JsonValue::Bool(true))
    &&& v.at("subtitle_taskinfo"@).items() == Some(Seq::<JsonValue>::empty())
    &&& v.at("system_font_list"@).items() == Some(Seq::<JsonValue>::empty())
    &&& v.field("video_mute"@) == Some(JsonValue::Bool(false))
    &&& v.field("zoom_info_params"@) == Some(JsonValue::Null)
}

/// The draft's editor settings.
fn draft_config() -> (r: JsonValue)
    ensures
        is_default_draft_config(r),
{
    let mut o: Vec<(String, JsonValue)> = Vec::new();
    o.push(entry("adjust_max_index", uint(1)));
    o.push(entry("attachment_info", empty_array()));
    o.push(entry("combination_max_index", uint(1)));
    o.push(entry("export_range", JsonValue::Null));
    o.push(entry("extract_audio_last_index", uint(1)));
    o.push(entry("lyrics_recognition_id", string("")));
    o.push(entry("lyrics_sync", JsonValue::Bool(true)));
    o.push(entry("lyrics_taskinfo", empty_array()));
    o.push(entry("maintrack_adsorb", JsonValue::Bool(true)));
    o.push(entry("material_save_mode", uint(0)));
    o.push(entry("multi_language_current", string("none")));
    o.push(entry("multi_language_list", empty_array()));
    o.push(entry("multi_language_main", string("none")));
    o.push(entry("multi_language_mode", string("none")));
    o.push(entry("original_sound_last_index", uint(1)));
    o.push(entry("record_audio_last_index", uint(1)));
    o.push(entry("sticker_max_index", uint(1)));
    o.push(entry("subtitle_keywords_config", JsonValue::Null));
    o.push(entry("subtitle_recognition_id", string("")));
    o.push(entry("subtitle_sync", JsonValue::Bool(true)));
    o.push(entry("subtitle_taskinfo", empty_array()));
    o.push(entry("system_font_list", empty_array()));
    o.push(entry("video_mute", JsonValue::Bool(false)));
    o.push(entry("zoom_info_params", JsonValue::Null));
    proof {
        reveal_strlit("adjust_max_index");
        assert("adjust_max_index"@.len() == 16);
        reveal_strlit("attachment_info");
        assert("attachment_info"@.len() == 15);
        reveal_strlit("combination_max_index");
        assert("combination_max_index"@.len() == 21);
        reveal_strlit("export_range");
        assert("export_range"@.len() == 12);
        reveal_strlit("extract_audio_last_index");
        assert("extract_audio_last_index"@.len() == 24);
        reveal_strlit("lyrics_recognition_id");
        assert("lyrics_recognition_id"@.len() == 21);
        reveal_strlit("lyrics_sync");
        assert("lyrics_sync"@.len() == 11);
        reveal_strlit("lyrics_taskinfo");
        assert("lyrics_taskinfo"@.len() == 15);
        reveal_strlit("maintrack_adsorb");
        assert("maintrack_adsorb"@.len() == 16);
        reveal_strlit("material_save_mode");
        assert("material_save_mode"@.len() == 18);
        reveal_strlit("multi_language_current");
        assert("multi_language_current"@.len() == 22);
        reveal_strlit("multi_language_list");
        assert("multi_language_list"@.len() == 19);
        reveal_strlit("multi_language_main");
        assert("multi_language_main"@.len() == 19);
        reveal_strlit("multi_language_mode");
        assert("multi_language_mode"@.len() == 19);
        reveal_strlit("original_sound_last_index");
        assert("original_sound_last_index"@.len() == 25);
        reveal_strlit("record_audio_last_index");
        assert("record_audio_last_index"@.len() == 23);
        reveal_strlit("sticker_max_index");
        assert("sticker_max_index"@.len() == 17);
        reveal_strlit("subtitle_keywords_config");
        assert("subtitle_keywords_config"@.len() == 24);
        reveal_strlit("subtitle_recognition_id");
        assert("subtitle_recognition_id"@.len() == 23);
        reveal_strlit("subtitle_sync");
        assert("subtitle_sync"@.len() == 13);
        reveal_strlit("subtitle_taskinfo");
        assert("subtitle_taskinfo"@.len() == 17);
        reveal_strlit("system_font_list");
        assert("system_font_list"@.len() == 16);
        reveal_strlit("video_mute");
        assert("video_mute"@.len() == 10);
        reveal_strlit("zoom_info_params");
        assert("zoom_info_params"@.len() == 16);
        lemma_entry_at(o@, 0, "adjust_max_index"@);
        lemma_entry_at(o@, 1, "attachment_info"@);
        lemma_entry_at(o@, 2, "combination_max_index"@);
        lemma_entry_at(o@, 3, "export_range"@);
        lemma_entry_at(o@, 4, "extract_audio_last_index"@);
        assert("combination_max_index"@[0] != "lyrics_recognition_id"@[0]);
        lemma_entry_at(o@, 5, "lyrics_recognition_id"@);
        lemma_entry_at(o@, 6, "lyrics_sync"@);
        assert("attachment_info"@[0] != "lyrics_taskinfo"@[0]);
        lemma_entry_at(o@, 7, "lyrics_taskinfo"@);
        assert("adjust_max_index"@[0] != "maintrack_adsorb"@[0]);
        lemma_entry_at(o@, 8, "maintrack_adsorb"@);
        lemma_entry_at(o@, 9, "material_save_mode"@);
        lemma_entry_at(o@, 10, "multi_language_current"@);
        lemma_entry_at(o@, 11, "multi_language_list"@);
        assert("multi_language_list"@[15] != "multi_language_main"@[15]);
        lemma_entry_at(o@, 12, "multi_language_main"@);
        assert("multi_language_list"@[15] != "multi_language_mode"@[15]);
        assert("multi_language_main"@[16] != "multi_language_mode"@[16]);
        lemma_entry_at(o@, 13, "multi_language_mode"@);
        lemma_entry_at(o@, 14, "original_sound_last_index"@);
        lemma_entry_at(o@, 15, "record_audio_last_index"@);
        lemma_entry_at(o@, 16, "sticker_max_index"@);
        assert("extract_audio_last_index"@[0] != "subtitle_keywords_config"@[0]);
        lemma_entry_at(o@, 17, "subtitle_keywords_config"@);
        assert("record_audio_last_index"@[0] != "subtitle_recognition_id"@[0]);
        lemma_entry_at(o@, 18, "subtitle_recognition_id"@);
        lemma_entry_at(o@, 19, "subtitle_sync"@);
        assert("sticker_max_index"@[1] != "subtitle_taskinfo"@[1]);
        lemma_entry_at(o@, 20, "subtitle_taskinfo"@);
        assert("adjust_max_index"@[0] != "system_font_list"@[0]);
        assert("maintrack_adsorb"@[0] != "system_font_list"@[0]);
        lemma_entry_at(o@, 21, "system_font_list"@);
        lemma_entry_at(o@, 22, "video_mute"@);
        assert("adjust_max_index"@[0] != "zoom_info_params"@[0]);
        assert("maintrack_adsorb"@[0] != "zoom_info_params"@[0]);
        assert("system_font_list"@[0] != "zoom_info_params"@[0]);
        lemma_entry_at(o@, 23, "zoom_info_params"@);
    }
    JsonValue::Object(o)
}

/// Keyframe lists of every kind, all empty.
pub open spec fn is_empty_keyframes(v: JsonValue) -> bool {
    &&& v.entry_count() == 8
    &&& v.at("adjusts"@).items() == Some(Seq::<JsonValue>::empty())
    &&& v.at("audios"@).items() == Some(Seq::<JsonValue>::empty())
    &&& v.at("effects"@).items() == Some(Seq::<JsonValue>::empty())
    &&& v.at("filters"@).items() == Some(Seq::<JsonValue>::empty())
    &&& v.at("handwrites"@).items() == Some(Seq::<JsonValue>::empty())
    &&& v.at("stickers"@).items() == Some(Seq::<JsonValue>::empty())
    &&& v.at("texts"@).items() == Some(Seq::<JsonValue>::empty())
    &&& v.at("videos"@).items() == Some(Seq::<JsonValue>::empty())
}

/// No keyframes of any kind.
fn empty_keyframes() -> (r: JsonValue)
    ensures
        is_empty_keyframes(r),
{
    let mut o: Vec<(String, JsonValue)> = Vec::new();
    o.push(entry("adjusts", empty_array()));
    o.push(entry("audios", empty_array()));
    o.push(entry("effects", empty_array()));
    o.push(entry("filters", empty_array()));
    o.push(entry("handwrites", empty_array()));
    o.push(entry("stickers", empty_array()));
    o.push(entry("texts", empty_array()));
    o.push(entry("videos", empty_array()));
    proof {
        reveal_strlit("adjusts");
        assert("adjusts"@.len() == 7);
        reveal_strlit("audios");
        assert("audios"@.len() == 6);
        reveal_strlit("effects");
        assert("effects"@.len() == 7);
        reveal_strlit("filters");
        assert("filters"@.len() == 7);
        reveal_strlit("handwrites");
        assert("handwrites"@.len() == 10);
        reveal_strlit("stickers");
        assert("stickers"@.len() == 8);
        reveal_strlit("texts");
        assert("texts"@.len() == 5);
        reveal_strlit("videos");
        assert("videos"@.len() == 6);
        lemma_entry_at(o@, 0, "adjusts"@);
        lemma_entry_at(o@, 1, "audios"@);
        assert("adjusts"@[0] != "effects"@[0]);
        lemma_entry_at(o@, 2, "effects"@);
        assert("adjusts"@[0] != "filters"@[0]);
        assert("effects"@[0] != "filters"@[0]);
        lemma_entry_at(o@, 3, "filters"@);
        lemma_entry_at(o@, 4, "handwrites"@);
        lemma_entry_at(o@, 5, "stickers"@);
        lemma_entry_at(o@, 6, "texts"@);
        assert("audios"@[0] != "videos"@[0]);
        lemma_entry_at(o@, 7, "videos"@);
    }
    JsonValue::Object(o)
}

/// No enterprise account behind the draft.
pub open spec fn is_no_enterprise(v: JsonValue) -> bool {
    &&& v.entry_count() == 4
    &&& v.text_at("draft_enterprise_extra"@) == Some(""@)
    &&& v.text_at("draft_enterprise_id"@) == Some(""@)
    &&& v.text_at("draft_enterprise_name"@) == Some(""@)
    &&& v.at("enterprise_material"@).items() == Some(Seq::<JsonValue>::empty())
}

/// No enterprise information.
fn enterprise_info() -> (r: JsonValue)
    ensures
        is_no_enterprise(r),
{
    let mut o: Vec<(String, JsonValue)> = Vec::new();
    o.push(entry("draft_enterprise_extra", string("")));
    o.push(entry("draft_enterprise_id", string("")));
    o.push(entry("draft_enterprise_name", string("")));
    o.push(entry("enterprise_material", empty_array()));
    proof {
        reveal_strlit("draft_enterprise_extra");
        assert("draft_enterprise_extra"@.len() == 22);
        reveal_strlit("draft_enterprise_id");
        assert("draft_enterprise_id"@.len() == 19);
        reveal_strlit("draft_enterprise_name");
        assert("draft_enterprise_name"@.len() == 21);
        reveal_strlit("enterprise_material");
        assert("enterprise_material"@.len() == 19);
        lemma_entry_at(o@, 0, "draft_enterprise_extra"@);
        lemma_entry_at(o@, 1, "draft_enterprise_id"@);
        lemma_entry_at(o@, 2, "draft_enterprise_name"@);
        assert("draft_enterprise_id"@[0] != "enterprise_material"@[0]);
        lemma_entry_at(o@, 3, "enterprise_material"@);
    }
    JsonValue::Object(o)
}

/// A time range that is not set.
pub open spec fn is_unset_range(v: JsonValue) -> bool {
    &&& v.entry_count() == 2
    &&& v.field("duration"@) == Some(JsonValue::Number(JsonNumber::Int(-1i128)))
    &&& v.field("start"@) == Some(JsonValue::Number(JsonNumber::Int(-1i128)))
}

/// A time range that is not set.
fn unset_range() -> (r: JsonValue)
    ensures
        is_unset_range(r),
{
    let mut o: Vec<(String, JsonValue)> = Vec::new();
    o.push(entry("duration", signed(-1)));
    o.push(entry("start", signed(-1)));
    proof {
        reveal_strlit("duration");
        assert("duration"@.len() == 8);
        reveal_strlit("start");
        assert("start"@.len() == 5);
        lemma_entry_at(o@, 0, "duration"@);
        lemma_entry_at(o@, 1, "start"@);
    }
    JsonValue::Object(o)
}

/// A materials table with the 45 kinds of material that a draft lists, in
/// which every kind but videos, speeds, texts, canvases, sound channel
/// mappings and vocal separations is empty.
pub open spec fn other_material_kinds_empty(m: JsonValue) -> bool {
    &&& m.entry_count() == 45
    &&& m.at("ai_translates"@).items() == Some(Seq::<JsonValue>::empty())
    &&& m.at("audio_balances"@).items() == Some(Seq::<JsonValue>::empty())
    &&& m.at("audio_effects"@).items() == Some(Seq::<JsonValue>::empty())
    &&& m.at("audio_fades"@).items() == Some(Seq::<JsonValue>::empty())
    &&& m.at("audio_track_indexes"@).items() == Some(Seq::<JsonValue>::empty())
    &&& m.at("audios"@).items() == Some(Seq::<JsonValue>::empty())
    &&& m.at("beats"@).items() == Some(Seq::<JsonValue>::empty())
    &&& m.at("chromas"@).items() == Some(Seq::<JsonValue>::empty())
    &&& m.at("color_curves"@).items() == Some(Seq::<JsonValue>::empty())
    &&& m.at("digital_humans"@).items() == Some(Seq::<JsonValue>::empty())
    &&& m.at("drafts"@).items() == Some(Seq::<JsonValue>::empty())
    &&& m.at("effects"@).items() == Some(Seq::<JsonValue>::empty())
    &&& m.at("flowers"@).items() == Some(Seq::<JsonValue>::empty())
    &&& m.at("green_screens"@).items() == Some(Seq::<JsonValue>::empty())
    &&& m.at("handwrites"@).items() == Some(Seq::<JsonValue>::empty())
    &&& m.at("hsl"@).items() == Some(Seq::<JsonValue>::empty())
    &&& m.at("images"@).items() == Some(Seq::<JsonValue>::empty())
    &&& m.at("log_color_wheels"@).items() == Some(Seq::<JsonValue>::empty())
    &&& m.at("loudnesses"@).items() == Some(Seq::<JsonValue>::empty())
    &&& m.at("manual_deformations"@).items() == Some(Seq::<JsonValue>::empty())
    &&& m.at("masks"@).items() == Some(Seq::<JsonValue>::empty())
    &&& m.at("material_animations"@).items() == Some(Seq::<JsonValue>::empty())
    &&& m.at("material_colors"@).items() == Some(Seq::<JsonValue>::empty())
    &&& m.at("multi_language_refs"@).items() == Some(Seq::<JsonValue>::empty())
    &&& m.at("placeholders"@).items() == Some(Seq::<JsonValue>::empty())
    &&& m.at("plugin_effects"@).items() == Some(Seq::<JsonValue>::empty())
    &&& m.at("primary_color_wheels"@).items() == Some(Seq::<JsonValue>::empty())
    &&& m.at("realtime_denoises"@).items() == Some(Seq::<JsonValue>::empty())
    &&& m.at("shapes"@).items() == Some(Seq::<JsonValue>::empty())
    &&& m.at("smart_crops"@).items() == Some(Seq::<JsonValue>::empty())
    &&& m.at("smart_relights"@).items() == Some(Seq::<JsonValue>::empty())
    &&& m.at("stickers"@).items() == Some(Seq::<JsonValue>::empty())
    &&& m.at("tail_leaders"@).items() == Some(Seq::<JsonValue>::empty())
    &&& m.at("text_templates"@).items() == Some(Seq::<JsonValue>::empty())
    &&& m.at("time_marks"@).items() == Some(Seq::<JsonValue>::empty())
    &&& m.at("transitions"@).items() == Some(Seq::<JsonValue>::empty())
    &&& m.at("video_effects"@).items() == Some(Seq::<JsonValue>::empty())
    &&& m.at("video_trackings"@).items() == Some(Seq::<JsonValue>::empty())
    &&& m.at("vocal_beautifys"@).items() == Some(Seq::<JsonValue>::empty())
}

/// The materials table: the given videos, speeds, canvases, channel
/// mappings, vocal separations and texts, and every other kind empty.
#[verifier::rlimit(100)]
#[verifier::spinoff_prover]
fn materials(
    videos: Vec<JsonValue>,
    speeds: Vec<JsonValue>,
    texts: Vec<JsonValue>,
    canvases: Vec<JsonValue>,
    sound_maps: Vec<JsonValue>,
    vocals: Vec<JsonValue>,
) -> (r: JsonValue)
    ensures
        r.field("videos"@) matches Some(v) && v.items() == Some(videos@),
        r.field("speeds"@) matches Some(v) && v.items() == Some(speeds@),
        r.field("texts"@) matches Some(v) && v.items() == Some(texts@),
        r.field("canvases"@) matches Some(v) && v.items() == Some(canvases@),
        r.field("sound_channel_mappings"@) matches Some(v) && v.items() == Some(sound_maps@),
        r.field("vocal_separations"@) matches Some(v) && v.items() == Some(vocals@),
        other_material_kinds_empty(r),
{
    let ghost (vv, sv, tv) = (videos@, speeds@, texts@);
    let ghost (cv, mv, ov) = (canvases@, sound_maps@, vocals@);
    let mut o: Vec<(String, JsonValue)> = Vec::new();
    o.push(entry("videos", JsonValue::Array(videos)));
    o.push(entry("speeds", JsonValue::Array(speeds)));
    o.push(entry("texts", JsonValue::Array(texts)));
    o.push(entry("canvases", JsonValue::Array(canvases)));
    o.push(entry("sound_channel_mappings", JsonValue::Array(sound_maps)));
    o.push(entry("vocal_separations", JsonValue::Array(vocals)));
    o.push(entry("ai_translates", empty_array()));
    o.push(entry("audio_balances", empty_array()));
    o.push(entry("audio_effects", empty_array()));
    o.push(entry("audio_fades", empty_array()));
    o.push(entry("audio_track_indexes", empty_array()));
    o.push(entry("audios", empty_array()));
    o.push(entry("beats", empty_array()));
    o.push(entry("chromas", empty_array()));
    o.push(entry("color_curves", empty_array()));
    o.push(entry("digital_humans", empty_array()));
    o.push(entry("drafts", empty_array()));
    o.push(entry("effects", empty_array()));
    o.push(entry("flowers", empty_array()));
    o.push(entry("green_screens", empty_array()));
    o.push(entry("handwrites", empty_array()));
    o.push(entry("hsl", empty_array()));
    o.push(entry("images", empty_array()));
    o.push(entry("log_color_wheels", empty_array()));
    o.push(entry("loudnesses", empty_array()));
    o.push(entry("manual_deformations", empty_array()));
    o.push(entry("masks", empty_array()));
    o.push(entry("material_animations", empty_array()));
    o.push(entry("material_colors", empty_array()));
    o.push(entry("multi_language_refs", empty_array()));
    o.push(entry("placeholders", empty_array()));
    o.push(entry("plugin_effects", empty_array()));
    o.push(entry("primary_color_wheels", empty_array()));
    o.push(entry("realtime_denoises", empty_array()));
    o.push(entry("shapes", empty_array()));
    o.push(entry("smart_crops", empty_array()));
    o.push(entry("smart_relights", empty_array()));
    o.push(entry("stickers", empty_array()));
    o.push(entry("tail_leaders", empty_array()));
    o.push(entry("text_templates", empty_array()));
    o.push(entry("time_marks", empty_array()));
    o.push(entry("transitions", empty_array()));
    o.push(entry("video_effects", empty_array()));
    o.push(entry("video_trackings", empty_array()));
    o.push(entry("vocal_beautifys", empty_array()));
    proof {
        reveal_strlit("videos");
        assert("videos"@.len() == 6);
        reveal_strlit("speeds");
        assert("speeds"@.len() == 6);
        reveal_strlit("texts");
        assert("texts"@.len() == 5);
        reveal_strlit("canvases");
        assert("canvases"@.len() == 8);
        reveal_strlit("sound_channel_mappings");
        assert("sound_channel_mappings"@.len() == 22);
        reveal_strlit("vocal_separations");
        assert("vocal_separations"@.len() == 17);
        reveal_strlit("ai_translates");
        assert("ai_translates"@.len() == 13);
        reveal_strlit("audio_balances");
        assert("audio_balances"@.len() == 14);
        reveal_strlit("audio_effects");
        assert("audio_effects"@.len() == 13);
        reveal_strlit("audio_fades");
        assert("audio_fades"@.len() == 11);
        reveal_strlit("audio_track_indexes");
        assert("audio_track_indexes"@.len() == 19);
        reveal_strlit("audios");
        assert("audios"@.len() == 6);
        reveal_strlit("beats");
        assert("beats"@.len() == 5);
        reveal_strlit("chromas");
        assert("chromas"@.len() == 7);
        reveal_strlit("color_curves");
        assert("color_curves"@.len() == 12);
        reveal_strlit("digital_humans");
        assert("digital_humans"@.len() == 14);
        reveal_strlit("drafts");
        assert("drafts"@.len() == 6);
        reveal_strlit("effects");
        assert("effects"@.len() == 7);
        reveal_strlit("flowers");
        assert("flowers"@.len() == 7);
        reveal_strlit("green_screens");
        assert("green_screens"@.len() == 13);
        reveal_strlit("handwrites");
        assert("handwrites"@.len() == 10);
        reveal_strlit("hsl");
        assert("hsl"@.len() == 3);
        reveal_strlit("images");
        assert("images"@.len() == 6);
        reveal_strlit("log_color_wheels");
        assert("log_color_wheels"@.len() == 16);
        reveal_strlit("loudnesses");
        assert("loudnesses"@.len() == 10);
        reveal_strlit("manual_deformations");
        assert("manual_deformations"@.len() == 19);
        reveal_strlit("masks");
        assert("masks"@.len() == 5);
        reveal_strlit("material_animations");
        assert("material_animations"@.len() == 19);
        reveal_strlit("material_colors");
        assert("material_colors"@.len() == 15);
        reveal_strlit("multi_language_refs");
        assert("multi_language_refs"@.len() == 19);
        reveal_strlit("placeholders");
        assert("placeholders"@.len() == 12);
        reveal_strlit("plugin_effects");
        assert("plugin_effects"@.len() == 14);
        reveal_strlit("primary_color_wheels");
        assert("primary_color_wheels"@.len() == 20);
        reveal_strlit("realtime_denoises");
        assert("realtime_denoises"@.len() == 17);
        reveal_strlit("shapes");
        assert("shapes"@.len() == 6);
        reveal_strlit("smart_crops");
        assert("smart_crops"@.len() == 11);
        reveal_strlit("smart_relights");
        assert("smart_relights"@.len() == 14);
        reveal_strlit("stickers");
        assert("stickers"@.len() == 8);
        reveal_strlit("tail_leaders");
        assert("tail_leaders"@.len() == 12);
        reveal_strlit("text_templates");
        assert("text_templates"@.len() == 14);
        reveal_strlit("time_marks");
        assert("time_marks"@.len() == 10);
        reveal_strlit("transitions");
        assert("transitions"@.len() == 11);
        reveal_strlit("video_effects");
        assert("video_effects"@.len() == 13);
        reveal_strlit("video_trackings");
        assert("video_trackings"@.len() == 15);
        reveal_strlit("vocal_beautifys");
        assert("vocal_beautifys"@.len() == 15);
        lemma_entry_at(o@, 0, "videos"@);
        assert("videos"@[0] != "speeds"@[0]);
        lemma_entry_at(o@, 1, "speeds"@);
        lemma_entry_at(o@, 2, "texts"@);
        lemma_entry_at(o@, 3, "canvases"@);
        lemma_entry_at(o@, 4, "sound_channel_mappings"@);
        lemma_entry_at(o@, 5, "vocal_separations"@);
        lemma_entry_at(o@, 6, "ai_translates"@);
        lemma_entry_at(o@, 7, "audio_balances"@);
        assert("ai_translates"@[1] != "audio_effects"@[1]);
        lemma_entry_at(o@, 8, "audio_effects"@);
        lemma_entry_at(o@, 9, "audio_fades"@);
        lemma_entry_at(o@, 10, "audio_track_indexes"@);
        assert("videos"@[0] != "audios"@[0]);
        assert("speeds"@[0] != "audios"@[0]);
        lemma_entry_at(o@, 11, "audios"@);
        assert("texts"@[0] != "beats"@[0]);
        lemma_entry_at(o@, 12, "beats"@);
        lemma_entry_at(o@, 13, "chromas"@);
        lemma_entry_at(o@, 14, "color_curves"@);
        assert("audio_balances"@[0] != "digital_humans"@[0]);
        lemma_entry_at(o@, 15, "digital_humans"@);
        assert("videos"@[0] != "drafts"@[0]);
        assert("speeds"@[0] != "drafts"@[0]);
        assert("audios"@[0] != "drafts"@[0]);
        lemma_entry_at(o@, 16, "drafts"@);
        assert("chromas"@[0] != "effects"@[0]);
        lemma_entry_at(o@, 17, "effects"@);
        assert("chromas"@[0] != "flowers"@[0]);
        assert("effects"@[0] != "flowers"@[0]);
        lemma_entry_at(o@, 18, "flowers"@);
        assert("ai_translates"@[0] != "green_screens"@[0]);
        assert("audio_effects"@[0] != "green_screens"@[0]);
        lemma_entry_at(o@, 19, "green_screens"@);
        lemma_entry_at(o@, 20, "handwrites"@);
        lemma_entry_at(o@, 21, "hsl"@);
        assert("videos"@[0] != "images"@[0]);
        assert("speeds"@[0] != "images"@[0]);
        assert("audios"@[0] != "images"@[0]);
        assert("drafts"@[0] != "images"@[0]);
        lemma_entry_at(o@, 22, "images"@);
        lemma_entry_at(o@, 23, "log_color_wheels"@);
        assert("handwrites"@[0] != "loudnesses"@[0]);
        lemma_entry_at(o@, 24, "loudnesses"@);
        assert("audio_track_indexes"@[0] != "manual_deformations"@[0]);
        lemma_entry_at(o@, 25, "manual_deformations"@);
        assert("texts"@[0] != "masks"@[0]);
        assert("beats"@[0] != "masks"@[0]);
        lemma_entry_at(o@, 26, "masks"@);
        assert("audio_track_indexes"@[0] != "material_animations"@[0]);
        assert("manual_deformations"@[2] != "material_animations"@[2]);
        lemma_entry_at(o@, 27, "material_animations"@);
        lemma_entry_at(o@, 28, "material_colors"@);
        assert("audio_track_indexes"@[0] != "multi_language_refs"@[0]);
        assert("manual_deformations"@[1] != "multi_language_refs"@[1]);
        assert("material_animations"@[1] != "multi_language_refs"@[1]);
        lemma_entry_at(o@, 29, "multi_language_refs"@);
        assert("color_curves"@[0] != "placeholders"@[0]);
        lemma_entry_at(o@, 30, "placeholders"@);
        assert("audio_balances"@[0] != "plugin_effects"@[0]);
        assert("digital_humans"@[0] != "plugin_effects"@[0]);
        lemma_entry_at(o@, 31, "plugin_effects"@);
        lemma_entry_at(o@, 32, "primary_color_wheels"@);
        assert("vocal_separations"@[0] != "realtime_denoises"@[0]);
        lemma_entry_at(o@, 33, "realtime_denoises"@);
        assert("videos"@[0] != "shapes"@[0]);
        assert("speeds"@[1] != "shapes"@[1]);
        assert("audios"@[0] != "shapes"@[0]);
        assert("drafts"@[0] != "shapes"@[0]);
        assert("images"@[0] != "shapes"@[0]);
        lemma_entry_at(o@, 34, "shapes"@);
        assert("audio_fades"@[0] != "smart_crops"@[0]);
        lemma_entry_at(o@, 35, "smart_crops"@);
        assert("audio_balances"@[0] != "smart_relights"@[0]);
        assert("digital_humans"@[0] != "smart_relights"@[0]);
        assert("plugin_effects"@[0] != "smart_relights"@[0]);
        lemma_entry_at(o@, 36, "smart_relights"@);
        assert("canvases"@[0] != "stickers"@[0]);
        lemma_entry_at(o@, 37, "stickers"@);
        assert("color_curves"@[0] != "tail_leaders"@[0]);
        assert("placeholders"@[0] != "tail_leaders"@[0]);
        lemma_entry_at(o@, 38, "tail_leaders"@);
        assert("audio_balances"@[0] != "text_templates"@[0]);
        assert("digital_humans"@[0] != "text_templates"@[0]);
        assert("plugin_effects"@[0] != "text_templates"@[0]);
        assert("smart_relights"@[0] != "text_templates"@[0]);
        lemma_entry_at(o@, 39, "text_templates"@);
        assert("handwrites"@[0] != "time_marks"@[0]);
        assert("loudnesses"@[0] != "time_marks"@[0]);
        lemma_entry_at(o@, 40, "time_marks"@);
        assert("audio_fades"@[0] != "transitions"@[0]);
        assert("smart_crops"@[0] != "transitions"@[0]);
        lemma_entry_at(o@, 41, "transitions"@);
        assert("ai_translates"@[0] != "video_effects"@[0]);
        assert("audio_effects"@[0] != "video_effects"@[0]);
        assert("green_screens"@[0] != "video_effects"@[0]);
        lemma_entry_at(o@, 42, "video_effects"@);
        assert("material_colors"@[0] != "video_trackings"@[0]);
        lemma_entry_at(o@, 43, "video_trackings"@);
        assert("material_colors"@[0] != "vocal_beautifys"@[0]);
        assert("video_trackings"@[1] != "vocal_beautifys"@[1]);
        lemma_entry_at(o@, 44, "vocal_beautifys"@);
    }
    JsonValue::Object(o)
}

/// The canvas size.
fn canvas_config(width: u32, height: u32) -> (r: JsonValue)
    ensures
        r.entry_count() == 3,
        r.text_at("ratio"@) == Some("original"@),
        r.field("width"@) == Some(JsonValue::Number(JsonNumber::Int(width as i128))),
        r.field("height"@) == Some(JsonValue::Number(JsonNumber::Int(height as i128))),
{
    let mut o: Vec<(String, JsonValue)> = Vec::new();
    o.push(entry("width", uint(width as u64)));
    o.push(entry("height", uint(height as u64)));
    o.push(entry("ratio", string("original")));
    proof {
        reveal_strlit("width");
        assert("width"@.len() == 5);
        reveal_strlit("height");
        assert("height"@.len() == 6);
        reveal_strlit("ratio");
        assert("ratio"@.len() == 5);
        lemma_entry_at(o@, 0, "width"@);
        lemma_entry_at(o@, 1, "height"@);
        assert("width"@[0] != "ratio"@[0]);
        lemma_entry_at(o@, 2, "ratio"@);
    }
    JsonValue::Object(o)
}

/// The meta-info entry of a visual at `path`: its name, length, size and
/// kind, imported from a local file, with unset time ranges.
pub open spec fn is_meta_material(m: JsonValue, file: MediaFile, path: Seq<char>) -> bool {
    &&& m.entry_count() == 15
    &&& m.text_at("file_Path"@) == Some(path)
    &&& m.field("duration"@) == Some(JsonValue::Number(JsonNumber::Int(file.duration_us as i128)))
    &&& m.text_at("metetype"@) == Some(if file.kind == MediaKind::Image { "photo"@ } else { "video"@ })
    &&& m.text_at("extra_info"@) == Some(file.name@)
    &&& m.field("height"@) == Some(JsonValue::Number(JsonNumber::Int(file.height as i128)))
    &&& m.field("width"@) == Some(JsonValue::Number(JsonNumber::Int(file.width as i128)))
    &&& m.field("item_source"@) == Some(JsonValue::Number(JsonNumber::Int(1i128)))
    &&& m.text_at("md5"@) == Some(""@)
    &&& is_unset_range(m.at("roughcut_time_range"@))
    &&& is_unset_range(m.at("sub_time_range"@))
    &&& m.field("type"@) == Some(JsonValue::Number(JsonNumber::Int(0i128)))
}

/// The meta-info entry of a visual at `path`.
fn meta_material(file: &MediaFile, path: &String) -> (r: JsonValue)
    ensures
        is_meta_material(r, *file, path@),
{
    let kind = if file.kind == MediaKind::Image {
        "photo"
    } else {
        "video"
    };
    let material_id = hex_id();
    let mut o: Vec<(String, JsonValue)> = Vec::new();
    o.push(entry("file_Path", string(path.as_str())));
    o.push(entry("duration", uint(file.duration_us)));
    o.push(entry("metetype", string(kind)));
    o.push(entry("extra_info", string(file.name.as_str())));
    o.push(entry("create_time", uint(now_us())));
    o.push(entry("height", uint(file.height as u64)));
    o.push(entry("id", string(material_id.as_str())));
    o.push(entry("import_time", uint(now_us())));
    o.push(entry("import_time_ms", uint(now_us() / 1000)));
    o.push(entry("item_source", uint(1)));
    o.push(entry("md5", string("")));
    o.push(entry("roughcut_time_range", unset_range()));
    o.push(entry("sub_time_range", unset_range()));
    o.push(entry("type", uint(0)));
    o.push(entry("width", uint(file.width as u64)));
    proof {
        reveal_strlit("file_Path");
        assert("file_Path"@.len() == 9);
        reveal_strlit("duration");
        assert("duration"@.len() == 8);
        reveal_strlit("metetype");
        assert("metetype"@.len() == 8);
        reveal_strlit("extra_info");
        assert("extra_info"@.len() == 10);
        reveal_strlit("create_time");
        assert("create_time"@.len() == 11);
        reveal_strlit("height");
        assert("height"@.len() == 6);
        reveal_strlit("id");
        assert("id"@.len() == 2);
        reveal_strlit("import_time");
        assert("import_time"@.len() == 11);
        reveal_strlit("import_time_ms");
        assert("import_time_ms"@.len() == 14);
        reveal_strlit("item_source");
        assert("item_source"@.len() == 11);
        reveal_strlit("md5");
        assert("md5"@.len() == 3);
        reveal_strlit("roughcut_time_range");
        assert("roughcut_time_range"@.len() == 19);
        reveal_strlit("sub_time_range");
        assert("sub_time_range"@.len() == 14);
        reveal_strlit("type");
        assert("type"@.len() == 4);
        reveal_strlit("width");
        assert("width"@.len() == 5);
        lemma_entry_at(o@, 0, "file_Path"@);
        lemma_entry_at(o@, 1, "duration"@);
        assert("duration"@[0] != "metetype"@[0]);
        lemma_entry_at(o@, 2, "metetype"@);
        lemma_entry_at(o@, 3, "extra_info"@);
        lemma_entry_at(o@, 4, "create_time"@);
        lemma_entry_at(o@, 5, "height"@);
        lemma_entry_at(o@, 6, "id"@);
        assert("create_time"@[0] != "import_time"@[0]);
        lemma_entry_at(o@, 7, "import_time"@);
        lemma_entry_at(o@, 8, "import_time_ms"@);
        assert("create_time"@[0] != "item_source"@[0]);
        assert("import_time"@[1] != "item_source"@[1]);
        lemma_entry_at(o@, 9, "item_source"@);
        lemma_entry_at(o@, 10, "md5"@);
        lemma_entry_at(o@, 11, "roughcut_time_range"@);
        assert("import_time_ms"@[0] != "sub_time_range"@[0]);
        lemma_entry_at(o@, 12, "sub_time_range"@);
        lemma_entry_at(o@, 13, "type"@);
        lemma_entry_at(o@, 14, "width"@);
    }
    JsonValue::Object(o)
}

/// A group of draft materials of the given kind holding `count` materials.
pub open spec fn is_material_group(g: JsonValue, kind: int, count: int) -> bool {
    &&& g.entry_count() == 2
    &&& g.field("type"@) == Some(JsonValue::Number(JsonNumber::Int(kind as i128)))
    &&& g.len_at("value"@) == count
}

/// A group of draft materials of one kind.
fn material_group(kind: u64, values: Vec<JsonValue>) -> (r: JsonValue)
    ensures
        r.entry_count() == 2,
        r.field("type"@) == Some(JsonValue::Number(JsonNumber::Int(kind as i128))),
        r.field("value"@) matches Some(v) && v.items() == Some(values@),
{
    let ghost vs = values@;
    let mut o: Vec<(String, JsonValue)> = Vec::new();
    o.push(entry("type", uint(kind)));
    o.push(entry("value", JsonValue::Array(values)));
    proof {
        reveal_strlit("type");
        assert("type"@.len() == 4);
        reveal_strlit("value");
        assert("value"@.len() == 5);
        lemma_entry_at(o@, 0, "type"@);
        lemma_entry_at(o@, 1, "value"@);
    }
    JsonValue::Object(o)
}


/// A video segment plays its clip: at the clip's place on the timeline,
/// from the clip's part of the source, at its speed, volume and scale.
pub open spec fn plays_clip(seg: JsonValue, clip: PlannedClip) -> bool {
    &&& seg.at("target_timerange"@).field("start"@) == Some(
        JsonValue::Number(JsonNumber::Int(clip.timeline_start_us as i128)),
    )
    &&& seg.at("target_timerange"@).field("duration"@) == Some(
        JsonValue::Number(JsonNumber::Int(clip.duration_us as i128)),
    )
    &&& seg.at("source_timerange"@).field("start"@) == Some(
        JsonValue::Number(JsonNumber::Int(clip.source_start_us as i128)),
    )
    &&& seg.at("source_timerange"@).field("duration"@) == Some(
        JsonValue::Number(JsonNumber::Int(clip.source_duration_us as i128)),
    )
    &&& seg.field("speed"@) == Some(JsonValue::Number(JsonNumber::Frac(clip.speed.num as i128, clip.speed.den)))
    &&& seg.field("volume"@) == Some(JsonValue::Number(JsonNumber::Frac(clip.volume.num as i128, clip.volume.den)))
    &&& seg.at("clip"@).at("scale"@).field("x"@) == Some(
        JsonValue::Number(JsonNumber::Frac(clip.scale.num as i128, clip.scale.den)),
    )
    &&& seg.at("clip"@).at("scale"@).field("y"@) == Some(
        JsonValue::Number(JsonNumber::Frac(clip.scale.num as i128, clip.scale.den)),
    )
}

/// A video segment's extra material refs are, in order, the ids of item
/// `i` of the speed, canvas, sound channel mapping and vocal separation
/// lists.
pub open spec fn refers_to_materials(seg: JsonValue, materials: JsonValue, i: int) -> bool {
    &&& seg.len_at("extra_material_refs"@) == 4
    &&& seg.item("extra_material_refs"@, 0).text() == materials.item("speeds"@, i).text_at("id"@)
    &&& seg.item("extra_material_refs"@, 1).text() == materials.item("canvases"@, i).text_at("id"@)
    &&& seg.item("extra_material_refs"@, 2).text() == materials.item("sound_channel_mappings"@, i).text_at(
        "id"@,
    )
    &&& seg.item("extra_material_refs"@, 3).text() == materials.item("vocal_separations"@, i).text_at(
        "id"@,
    )
}

/// The same for the lists themselves, before they are put in the table.
pub open spec fn refers_to_items(
    seg: JsonValue,
    speeds: Seq<JsonValue>,
    canvases: Seq<JsonValue>,
    sounds: Seq<JsonValue>,
    vocals: Seq<JsonValue>,
    i: int,
) -> bool {
    &&& seg.len_at("extra_material_refs"@) == 4
    &&& seg.item("extra_material_refs"@, 0).text() == speeds[i].text_at("id"@)
    &&& seg.item("extra_material_refs"@, 1).text() == canvases[i].text_at("id"@)
    &&& seg.item("extra_material_refs"@, 2).text() == sounds[i].text_at("id"@)
    &&& seg.item("extra_material_refs"@, 3).text() == vocals[i].text_at("id"@)
}

/// A text segment shows its caption at the caption's place on the timeline,
/// at full size, centred across the frame and moved down to 80% of the way
/// from the centre to the bottom edge.
pub open spec fn shows_caption(seg: JsonValue, caption: PlannedCaption) -> bool {
    &&& seg.at("target_timerange"@).field("start"@) == Some(
        JsonValue::Number(JsonNumber::Int(caption.timeline_start_us as i128)),
    )
    &&& seg.at("target_timerange"@).field("duration"@) == Some(
        JsonValue::Number(JsonNumber::Int(caption.duration_us as i128)),
    )
    &&& seg.at("clip"@).at("transform"@).field("x"@) == Some(JsonValue::Number(JsonNumber::Frac(0, 1)))
    &&& seg.at("clip"@).at("transform"@).field("y"@) == Some(JsonValue::Number(JsonNumber::Frac(-8i128, 10)))
    &&& seg.at("clip"@).at("scale"@).field("x"@) == Some(JsonValue::Number(JsonNumber::Frac(1, 1)))
    &&& seg.at("clip"@).at("scale"@).field("y"@) == Some(JsonValue::Number(JsonNumber::Frac(1, 1)))
}

/// The rewritten path of each visual, as the draft records it.
pub open spec fn draft_path(request: DraftRequest, path: Seq<char>) -> Seq<char> {
    spec_rewrite_path(path, opt_view(request.rewrite_from), opt_view(request.rewrite_to))
}

/// `draft_content.json`: the canvas, one video material per visual (at its
/// rewritten path), a video track with one segment per clip, and a text
/// track with one segment per caption when there are captions.
#[verifier::rlimit(100)]
#[verifier::spinoff_prover]
pub fn build_draft_content(request: &DraftRequest) -> (r: JsonValue)
    ensures
        r.field("duration"@) == Some(JsonValue::Number(JsonNumber::Int(request.plan.duration_us as i128))),
        r.text_at("name"@) == Some(request.name@),
        r.at("canvas_config"@).field("width"@) == Some(JsonValue::Number(JsonNumber::Int(request.plan.canvas_width as i128))),
        r.at("canvas_config"@).field("height"@) == Some(JsonValue::Number(JsonNumber::Int(request.plan.canvas_height as i128))),
        r.len_at("tracks"@) == (if request.plan.captions@.len() > 0 { 2int } else { 1int }),
        r.item("tracks"@, 0).text_at("type"@) == Some("video"@),
        r.item("tracks"@, 0).len_at("segments"@) == request.plan.clips@.len(),
        request.plan.captions@.len() > 0 ==> r.item("tracks"@, 1).text_at("type"@) == Some("text"@),
        request.plan.captions@.len() > 0 ==> r.item("tracks"@, 1).len_at("segments"@) == request.plan.captions@.len(),
        r.at("materials"@).len_at("videos"@) == request.visuals@.len(),
        forall|i: int|
            0 <= i < request.visuals@.len() ==> is_video_material(
                #[trigger] r.at("materials"@).item("videos"@, i),
                request.visuals@[i],
                draft_path(*request, request.visuals@[i].path@),
            ),
        other_material_kinds_empty(r.at("materials"@)),
        r.at("materials"@).len_at("speeds"@) == request.plan.clips@.len(),
        r.at("materials"@).len_at("texts"@) == request.plan.captions@.len(),
        forall|i: int|
            0 <= i < request.plan.clips@.len() ==> plays_clip(
                #[trigger] r.item("tracks"@, 0).item("segments"@, i),
                request.plan.clips@[i],
            ),
        forall|i: int|
            0 <= i < request.plan.clips@.len() ==> is_plain_video_segment(
                #[trigger] r.item("tracks"@, 0).item("segments"@, i),
                0,
            ),
        forall|i: int|
            0 <= i < request.plan.clips@.len() ==> (#[trigger] r.at("materials"@).item("speeds"@, i)).field(
                "speed"@,
            ) == Some(
                JsonValue::Number(
                    JsonNumber::Frac(request.plan.clips@[i].speed.num as i128, request.plan.clips@[i].speed.den),
                ),
            ),
        forall|i: int|
            0 <= i < request.plan.clips@.len() && request.plan.clips@[i].media_index < request.visuals@.len()
                ==> (#[trigger] r.item("tracks"@, 0).item("segments"@, i)).text_at("material_id"@)
                == r.at("materials"@).item("videos"@, request.plan.clips@[i].media_index as int).text_at("id"@),
        r.at("materials"@).len_at("canvases"@) == request.plan.clips@.len(),
        r.at("materials"@).len_at("sound_channel_mappings"@) == request.plan.clips@.len(),
        r.at("materials"@).len_at("vocal_separations"@) == request.plan.clips@.len(),
        forall|i: int|
            0 <= i < request.plan.clips@.len() ==> refers_to_materials(
                #[trigger] r.item("tracks"@, 0).item("segments"@, i),
                r.at("materials"@),
                i,
            ),
        forall|i: int|
            0 <= i < request.plan.captions@.len() ==> shows_caption(
                #[trigger] r.item("tracks"@, 1).item("segments"@, i),
                request.plan.captions@[i],
            ),
        forall|i: int|
            0 <= i < request.plan.captions@.len() ==> is_plain_text_segment(
                #[trigger] r.item("tracks"@, 1).item("segments"@, i),
                1,
            ),
        forall|i: int|
            0 <= i < request.plan.captions@.len() ==> (#[trigger] r.at("materials"@).item("texts"@, i)).text_at(
                "content"@,
            ) == Some(spec_text_content(request.plan.captions@[i].text@)),
        forall|i: int|
            0 <= i < request.plan.captions@.len() ==> (#[trigger] r.item("tracks"@, 1).item("segments"@, i)).text_at(
                "material_id"@,
            ) == r.at("materials"@).item("texts"@, i).text_at("id"@),
        is_default_draft_config(r.at("config"@)),
        is_empty_keyframes(r.at("keyframes"@)),
        is_platform(r.at("platform"@)),
        is_platform(r.at("last_modified_platform"@)),
        r.field("fps"@) == Some(JsonValue::Number(JsonNumber::Frac(request.plan.fps as i128, 1))),
        r.at("canvas_config"@).text_at("ratio"@) == Some("original"@),
        is_track(r.item("tracks"@, 0), "video"@, "video"@, 0),
        request.plan.captions@.len() > 0 ==> is_track(r.item("tracks"@, 1), "text"@, "text"@, 1),
        forall|i: int|
            0 <= i < request.plan.clips@.len() ==> is_speed_material(
                #[trigger] r.at("materials"@).item("speeds"@, i),
            ) && is_canvas_material(r.at("materials"@).item("canvases"@, i)) && is_sound_channel_mapping(
                r.at("materials"@).item("sound_channel_mappings"@, i),
            ) && is_vocal_separation(r.at("materials"@).item("vocal_separations"@, i)),
        forall|i: int|
            0 <= i < request.plan.captions@.len() ==> is_subtitle_text_material(
                #[trigger] r.at("materials"@).item("texts"@, i),
            ),
        r.entry_count() == 28,
        r.field("color_space"@) == Some(JsonValue::Number(JsonNumber::Int(0i128))),
        r.field("cover"@) == Some(JsonValue::Null),
        r.field("extra_info"@) == Some(JsonValue::Null),
        r.field("free_render_index_mode_on"@) == Some(JsonValue::Bool(false)),
        r.field("group_container"@) == Some(JsonValue::Null),
        r.at("keyframe_graph_list"@).items() == Some(Seq::<JsonValue>::empty()),
        r.field("mutable_config"@) == Some(JsonValue::Null),
        r.text_at("new_version"@) == Some("110.0.0"@),
        r.at("relationships"@).items() == Some(Seq::<JsonValue>::empty()),
        r.field("render_index_track_mode_on"@) == Some(JsonValue::Bool(false)),
        r.field("retouch_cover"@) == Some(JsonValue::Null),
        r.text_at("source"@) == Some("default"@),
        r.text_at("static_cover_image_path"@) == Some(""@),
        r.field("time_marks"@) == Some(JsonValue::Null),
        r.field("version"@) == Some(JsonValue::Number(JsonNumber::Int(360000i128))),
{
    let mut videos: Vec<JsonValue> = Vec::new();
    let mut material_ids: Vec<String> = Vec::new();
    let mut i: usize = 0;
    while i < request.visuals.len()
        invariant
            0 <= i <= request.visuals.len(),
            videos@.len() == i,
            material_ids@.len() == i,
            forall|k: int|
                0 <= k < i ==> is_video_material(
                    #[trigger] videos@[k],
                    request.visuals@[k],
                    draft_path(*request, request.visuals@[k].path@),
                ),
            forall|k: int| 0 <= k < i ==> (#[trigger] videos@[k]).text_at("id"@) == Some(material_ids@[k]@),
        decreases request.visuals.len() - i,
    {
        let file = &request.visuals[i];
        let id = hex_id();
        let path = rewrite_path(file.path.as_str(), request.rewrite_from, request.rewrite_to);
        videos.push(video_material(file, id.as_str(), path.as_str()));
        material_ids.push(id);
        i = i + 1;
    }
    let mut speeds: Vec<JsonValue> = Vec::new();
    let mut canvases: Vec<JsonValue> = Vec::new();
    let mut sound_maps: Vec<JsonValue> = Vec::new();
    let mut vocals: Vec<JsonValue> = Vec::new();
    let mut video_segments: Vec<JsonValue> = Vec::new();
    let mut k: usize = 0;
    while k < request.plan.clips.len()
        invariant
            0 <= k <= request.plan.clips.len(),
            speeds@.len() == k,
            canvases@.len() == k,
            sound_maps@.len() == k,
            vocals@.len() == k,
            video_segments@.len() == k,
            material_ids@.len() == request.visuals@.len(),
            forall|j: int|
                0 <= j < k ==> refers_to_items(
                    #[trigger] video_segments@[j],
                    speeds@,
                    canvases@,
                    sound_maps@,
                    vocals@,
                    j,
                ),
            forall|j: int| 0 <= j < k ==> plays_clip(#[trigger] video_segments@[j], request.plan.clips@[j]),
            forall|j: int| 0 <= j < k ==> is_plain_video_segment(#[trigger] video_segments@[j], 0),
            forall|j: int|
                0 <= j < k ==> is_speed_material(#[trigger] speeds@[j]) && is_canvas_material(canvases@[j])
                    && is_sound_channel_mapping(sound_maps@[j]) && is_vocal_separation(vocals@[j]),
            forall|j: int|
                0 <= j < k ==> (#[trigger] speeds@[j]).field("speed"@) == Some(
                    JsonValue::Number(
                        JsonNumber::Frac(request.plan.clips@[j].speed.num as i128, request.plan.clips@[j].speed.den),
                    ),
                ),
            forall|j: int|
                0 <= j < k && request.plan.clips@[j].media_index < request.visuals@.len() ==> (
                #[trigger] video_segments@[j]).text_at("material_id"@) == Some(
                    material_ids@[request.plan.clips@[j].media_index as int]@,
                ),
        decreases request.plan.clips.len() - k,
    {
        let clip = &request.plan.clips[k];
        let material_id = if clip.media_index < material_ids.len() {
            material_ids[clip.media_index].clone()
        } else {
            hex_id()
        };
        let speed_id = hex_id();
        let canvas_id = hex_id();
        let sound_id = hex_id();
        let vocal_id = hex_id();
        speeds.push(speed_material(speed_id.as_str(), clip.speed));
        canvases.push(canvas_material(canvas_id.as_str()));
        sound_maps.push(sound_channel_mapping(sound_id.as_str()));
        vocals.push(vocal_separation(vocal_id.as_str()));
        let mut refs: Vec<String> = Vec::new();
        refs.push(speed_id);
        refs.push(canvas_id);
        refs.push(sound_id);
        refs.push(vocal_id);
        assert(refs@.len() == 4);
        video_segments.push(video_segment(material_id.as_str(), &refs, clip, 0));
        k = k + 1;
    }
    let mut texts: Vec<JsonValue> = Vec::new();
    let mut text_segments: Vec<JsonValue> = Vec::new();
    let mut c: usize = 0;
    while c < request.plan.captions.len()
        invariant
            0 <= c <= request.plan.captions.len(),
            texts@.len() == c,
            text_segments@.len() == c,
            forall|j: int|
                0 <= j < c ==> shows_caption(#[trigger] text_segments@[j], request.plan.captions@[j]),
            forall|j: int| 0 <= j < c ==> is_plain_text_segment(#[trigger] text_segments@[j], 1),
            forall|j: int| 0 <= j < c ==> is_subtitle_text_material(#[trigger] texts@[j]),
            forall|j: int|
                0 <= j < c ==> (#[trigger] texts@[j]).text_at("content"@) == Some(
                    spec_text_content(request.plan.captions@[j].text@),
                ),
            forall|j: int|
                0 <= j < c ==> (#[trigger] text_segments@[j]).text_at("material_id"@) == texts@[j].text_at(
                    "id"@,
                ),
        decreases request.plan.captions.len() - c,
    {
        let caption = &request.plan.captions[c];
        let id = hex_id();
        texts.push(text_material(id.as_str(), caption.text.as_str()));
        text_segments.push(text_segment(id.as_str(), caption.timeline_start_us, caption.duration_us, 1));
        c = c + 1;
    }
    let ghost (vv, sv, tv, segs_len, texts_len) = (videos@, speeds@, texts@, video_segments@.len(), text_segments@.len());
    let ghost (vsegs, tsegs) = (video_segments@, text_segments@);
    let ghost (cv, mv, ov) = (canvases@, sound_maps@, vocals@);
    let materials_value = materials(videos, speeds, texts, canvases, sound_maps, vocals);
    let mut tracks: Vec<JsonValue> = Vec::new();
    tracks.push(track("video", "video", 0, video_segments));
    if text_segments.len() > 0 {
        tracks.push(track("text", "text", 1, text_segments));
    }
    let ghost tracks_v = tracks@;
    let guid = upper_guid();
    let mut o: Vec<(String, JsonValue)> = Vec::new();
    o.push(entry("duration", uint(request.plan.duration_us)));
    o.push(entry("name", string(request.name)));
    o.push(entry("canvas_config", canvas_config(request.plan.canvas_width, request.plan.canvas_height)));
    o.push(entry("tracks", JsonValue::Array(tracks)));
    o.push(entry("materials", materials_value));
    o.push(entry("color_space", uint(0)));
    o.push(entry("config", draft_config()));
    o.push(entry("cover", JsonValue::Null));
    o.push(entry("create_time", uint(now_us())));
    o.push(entry("extra_info", JsonValue::Null));
    o.push(entry("fps", frac(request.plan.fps as i128, 1)));
    o.push(entry("free_render_index_mode_on", JsonValue::Bool(false)));
    o.push(entry("group_container", JsonValue::Null));
    o.push(entry("id", string(guid.as_str())));
    o.push(entry("keyframe_graph_list", empty_array()));
    o.push(entry("keyframes", empty_keyframes()));
    o.push(entry("last_modified_platform", platform()));
    o.push(entry("platform", platform()));
    o.push(entry("mutable_config", JsonValue::Null));
    o.push(entry("new_version", string("110.0.0")));
    o.push(entry("relationships", empty_array()));
    o.push(entry("render_index_track_mode_on", JsonValue::Bool(false)));
    o.push(entry("retouch_cover", JsonValue::Null));
    o.push(entry("source", string("default")));
    o.push(entry("static_cover_image_path", string("")));
    o.push(entry("time_marks", JsonValue::Null));
    o.push(entry("update_time", uint(now_us())));
    o.push(entry("version", uint(360000)));
    proof {
        reveal_strlit("duration");
        assert("duration"@.len() == 8);
        reveal_strlit("name");
        assert("name"@.len() == 4);
        reveal_strlit("canvas_config");
        assert("canvas_config"@.len() == 13);
        reveal_strlit("tracks");
        assert("tracks"@.len() == 6);
        reveal_strlit("materials");
        assert("materials"@.len() == 9);
        reveal_strlit("color_space");
        assert("color_space"@.len() == 11);
        reveal_strlit("config");
        assert("config"@.len() == 6);
        reveal_strlit("cover");
        assert("cover"@.len() == 5);
        reveal_strlit("create_time");
        assert("create_time"@.len() == 11);
        reveal_strlit("extra_info");
        assert("extra_info"@.len() == 10);
        reveal_strlit("fps");
        assert("fps"@.len() == 3);
        reveal_strlit("free_render_index_mode_on");
        assert("free_render_index_mode_on"@.len() == 25);
        reveal_strlit("group_container");
        assert("group_container"@.len() == 15);
        reveal_strlit("id");
        assert("id"@.len() == 2);
        reveal_strlit("keyframe_graph_list");
        assert("keyframe_graph_list"@.len() == 19);
        reveal_strlit("keyframes");
        assert("keyframes"@.len() == 9);
        reveal_strlit("last_modified_platform");
        assert("last_modified_platform"@.len() == 22);
        reveal_strlit("platform");
        assert("platform"@.len() == 8);
        reveal_strlit("mutable_config");
        assert("mutable_config"@.len() == 14);
        reveal_strlit("new_version");
        assert("new_version"@.len() == 11);
        reveal_strlit("relationships");
        assert("relationships"@.len() == 13);
        reveal_strlit("render_index_track_mode_on");
        assert("render_index_track_mode_on"@.len() == 26);
        reveal_strlit("retouch_cover");
        assert("retouch_cover"@.len() == 13);
        reveal_strlit("source");
        assert("source"@.len() == 6);
        reveal_strlit("static_cover_image_path");
        assert("static_cover_image_path"@.len() == 23);
        reveal_strlit("time_marks");
        assert("time_marks"@.len() == 10);
        reveal_strlit("update_time");
        assert("update_time"@.len() == 11);
        reveal_strlit("version");
        assert("version"@.len() == 7);
        lemma_entry_at(o@, 0, "duration"@);
        lemma_entry_at(o@, 1, "name"@);
        lemma_entry_at(o@, 2, "canvas_config"@);
        lemma_entry_at(o@, 3, "tracks"@);
        lemma_entry_at(o@, 4, "materials"@);
        lemma_entry_at(o@, 5, "color_space"@);
        assert("tracks"@[0] != "config"@[0]);
        lemma_entry_at(o@, 6, "config"@);
        lemma_entry_at(o@, 7, "cover"@);
        assert("color_space"@[1] != "create_time"@[1]);
        lemma_entry_at(o@, 8, "create_time"@);
        lemma_entry_at(o@, 9, "extra_info"@);
        lemma_entry_at(o@, 10, "fps"@);
        lemma_entry_at(o@, 11, "free_render_index_mode_on"@);
        lemma_entry_at(o@, 12, "group_container"@);
        lemma_entry_at(o@, 13, "id"@);
        lemma_entry_at(o@, 14, "keyframe_graph_list"@);
        assert("materials"@[0] != "keyframes"@[0]);
        lemma_entry_at(o@, 15, "keyframes"@);
        lemma_entry_at(o@, 16, "last_modified_platform"@);
        assert("duration"@[0] != "platform"@[0]);
        lemma_entry_at(o@, 17, "platform"@);
        lemma_entry_at(o@, 18, "mutable_config"@);
        assert("color_space"@[0] != "new_version"@[0]);
        assert("create_time"@[0] != "new_version"@[0]);
        lemma_entry_at(o@, 19, "new_version"@);
        assert("canvas_config"@[0] != "relationships"@[0]);
        lemma_entry_at(o@, 20, "relationships"@);
        lemma_entry_at(o@, 21, "render_index_track_mode_on"@);
        assert("canvas_config"@[0] != "retouch_cover"@[0]);
        assert("relationships"@[2] != "retouch_cover"@[2]);
        lemma_entry_at(o@, 22, "retouch_cover"@);
        assert("tracks"@[0] != "source"@[0]);
        assert("config"@[0] != "source"@[0]);
        lemma_entry_at(o@, 23, "source"@);
        lemma_entry_at(o@, 24, "static_cover_image_path"@);
        assert("extra_info"@[0] != "time_marks"@[0]);
        lemma_entry_at(o@, 25, "time_marks"@);
        assert("color_space"@[0] != "update_time"@[0]);
        assert("create_time"@[0] != "update_time"@[0]);
        assert("new_version"@[0] != "update_time"@[0]);
        lemma_entry_at(o@, 26, "update_time"@);
        lemma_entry_at(o@, 27, "version"@);
    }
    JsonValue::Object(o)
}

/// `draft_meta_info.json`: the draft's folder and name (the folder
/// rewritten like the material paths), its length, and one imported
/// material per visual.
#[verifier::rlimit(100)]
#[verifier::spinoff_prover]
pub fn build_meta_info(request: &DraftRequest, duration_us: u64) -> (r: JsonValue)
    ensures
        r.text_at("draft_fold_path"@) == Some(draft_path(*request, request.output_dir@)),
        r.text_at("draft_root_path"@) == Some(draft_path(*request, request.output_dir@)),
        r.text_at("draft_name"@) == Some(request.name@),
        r.field("tm_duration"@) == Some(JsonValue::Number(JsonNumber::Int(duration_us as i128))),
        r.len_at("draft_materials"@) == 7,
        is_material_group(r.item("draft_materials"@, 0), 0, request.visuals@.len() as int),
        is_material_group(r.item("draft_materials"@, 1), 1, 0),
        is_material_group(r.item("draft_materials"@, 2), 2, 0),
        is_material_group(r.item("draft_materials"@, 3), 3, 0),
        is_material_group(r.item("draft_materials"@, 4), 6, 0),
        is_material_group(r.item("draft_materials"@, 5), 7, 0),
        is_material_group(r.item("draft_materials"@, 6), 8, 0),
        is_no_enterprise(r.at("draft_enterprise_info"@)),
        r.item("draft_materials"@, 0).len_at("value"@) == request.visuals@.len(),
        forall|i: int|
            0 <= i < request.visuals@.len() ==> is_meta_material(
                #[trigger] r.item("draft_materials"@, 0).item("value"@, i),
                request.visuals@[i],
                draft_path(*request, request.visuals@[i].path@),
            ),
        forall|i: int| 0 <= i < request.visuals@.len() ==> (#[trigger] r.item("draft_materials"@, 0).item("value"@, i)).field("duration"@)
            == Some(JsonValue::Number(JsonNumber::Int(request.visuals@[i].duration_us as i128))),
        forall|i: int| 0 <= i < request.visuals@.len() ==> (#[trigger] r.item("draft_materials"@, 0).item("value"@, i)).text_at("metetype"@)
            == Some(if request.visuals@[i].kind == MediaKind::Image { "photo"@ } else { "video"@ }),
        r.entry_count() == 33,
        r.text_at("cloud_package_completed_time"@) == Some(""@),
        r.text_at("draft_cloud_capcut_purchase_info"@) == Some(""@),
        r.field("draft_cloud_last_action_download"@) == Some(JsonValue::Bool(false)),
        r.at("draft_cloud_materials"@).items() == Some(Seq::<JsonValue>::empty()),
        r.text_at("draft_cloud_purchase_info"@) == Some(""@),
        r.text_at("draft_cloud_template_id"@) == Some(""@),
        r.text_at("draft_cloud_tutorial_info"@) == Some(""@),
        r.text_at("draft_cloud_videocut_purchase_info"@) == Some(""@),
        r.text_at("draft_cover"@) == Some(""@),
        r.text_at("draft_deeplink_url"@) == Some(""@),
        r.field("draft_is_ai_packaging_used"@) == Some(JsonValue::Bool(false)),
        r.field("draft_is_ai_shorts"@) == Some(JsonValue::Bool(false)),
        r.field("draft_is_ai_translate"@) == Some(JsonValue::Bool(false)),
        r.field("draft_is_article_video_draft"@) == Some(JsonValue::Bool(false)),
        r.text_at("draft_is_from_deeplink"@) == Some("false"@),
        r.field("draft_is_invisible"@) == Some(JsonValue::Bool(false)),
        r.at("draft_materials_copied_info"@).items() == Some(Seq::<JsonValue>::empty()),
        r.text_at("draft_new_version"@) == Some(""@),
        r.text_at("draft_removable_storage_device"@) == Some(""@),
        r.at("draft_segment_extra_info"@).items() == Some(Seq::<JsonValue>::empty()),
        r.text_at("draft_type"@) == Some(""@),
        r.text_at("tm_draft_cloud_completed"@) == Some(""@),
        r.field("tm_draft_cloud_modified"@) == Some(JsonValue::Number(JsonNumber::Int(0i128))),
        r.field("tm_draft_removed"@) == Some(JsonValue::Number(JsonNumber::Int(0i128))),
{
    let fold = rewrite_path(request.output_dir, request.rewrite_from, request.rewrite_to);
    let mut values: Vec<JsonValue> = Vec::new();
    let mut i: usize = 0;
    while i < request.visuals.len()
        invariant
            0 <= i <= request.visuals.len(),
            values@.len() == i,
            forall|k: int|
                0 <= k < i ==> is_meta_material(
                    #[trigger] values@[k],
                    request.visuals@[k],
                    draft_path(*request, request.visuals@[k].path@),
                ),
            forall|k: int| 0 <= k < i ==> (#[trigger] values@[k]).field("duration"@) == Some(JsonValue::Number(JsonNumber::Int(request.visuals@[k].duration_us as i128))),
            forall|k: int| 0 <= k < i ==> (#[trigger] values@[k]).text_at("metetype"@) == Some(if request.visuals@[k].kind == MediaKind::Image { "photo"@ } else { "video"@ }),
        decreases request.visuals.len() - i,
    {
        let file = &request.visuals[i];
        let path = rewrite_path(file.path.as_str(), request.rewrite_from, request.rewrite_to);
        values.push(meta_material(file, &path));
        i = i + 1;
    }
    let ghost vs = values@;
    let mut groups: Vec<JsonValue> = Vec::new();
    groups.push(material_group(0, values));
    groups.push(material_group(1, Vec::new()));
    groups.push(material_group(2, Vec::new()));
    groups.push(material_group(3, Vec::new()));
    groups.push(material_group(6, Vec::new()));
    groups.push(material_group(7, Vec::new()));
    groups.push(material_group(8, Vec::new()));
    let ghost gs = groups@;
    let guid = upper_guid();
    let mut o: Vec<(String, JsonValue)> = Vec::new();
    o.push(entry("draft_fold_path", string(fold.as_str())));
    o.push(entry("draft_root_path", string(fold.as_str())));
    o.push(entry("draft_name", string(request.name)));
    o.push(entry("tm_duration", uint(duration_us)));
    o.push(entry("draft_materials", JsonValue::Array(groups)));
    o.push(entry("cloud_package_completed_time", string("")));
    o.push(entry("draft_cloud_capcut_purchase_info", string("")));
    o.push(entry("draft_cloud_last_action_download", JsonValue::Bool(false)));
    o.push(entry("draft_cloud_materials", empty_array()));
    o.push(entry("draft_cloud_purchase_info", string("")));
    o.push(entry("draft_cloud_template_id", string("")));
    o.push(entry("draft_cloud_tutorial_info", string("")));
    o.push(entry("draft_cloud_videocut_purchase_info", string("")));
    o.push(entry("draft_cover", string("")));
    o.push(entry("draft_deeplink_url", string("")));
    o.push(entry("draft_enterprise_info", enterprise_info()));
    o.push(entry("draft_id", string(guid.as_str())));
    o.push(entry("draft_is_ai_packaging_used", JsonValue::Bool(false)));
    o.push(entry("draft_is_ai_shorts", JsonValue::Bool(false)));
    o.push(entry("draft_is_ai_translate", JsonValue::Bool(false)));
    o.push(entry("draft_is_article_video_draft", JsonValue::Bool(false)));
    o.push(entry("draft_is_from_deeplink", string("false")));
    o.push(entry("draft_is_invisible", JsonValue::Bool(false)));
    o.push(entry("draft_materials_copied_info", empty_array()));
    o.push(entry("draft_new_version", string("")));
    o.push(entry("draft_removable_storage_device", string("")));
    o.push(entry("draft_segment_extra_info", empty_array()));
    o.push(entry("draft_type", string("")));
    o.push(entry("tm_draft_cloud_completed", string("")));
    o.push(entry("tm_draft_cloud_modified", uint(0)));
    o.push(entry("tm_draft_create", uint(now_us())));
    o.push(entry("tm_draft_modified", uint(now_us())));
    o.push(entry("tm_draft_removed", uint(0)));
    proof {
        reveal_strlit("draft_fold_path");
        assert("draft_fold_path"@.len() == 15);
        reveal_strlit("draft_root_path");
        assert("draft_root_path"@.len() == 15);
        reveal_strlit("draft_name");
        assert("draft_name"@.len() == 10);
        reveal_strlit("tm_duration");
        assert("tm_duration"@.len() == 11);
        reveal_strlit("draft_materials");
        assert("draft_materials"@.len() == 15);
        reveal_strlit("cloud_package_completed_time");
        assert("cloud_package_completed_time"@.len() == 28);
        reveal_strlit("draft_cloud_capcut_purchase_info");
        assert("draft_cloud_capcut_purchase_info"@.len() == 32);
        reveal_strlit("draft_cloud_last_action_download");
        assert("draft_cloud_last_action_download"@.len() == 32);
        reveal_strlit("draft_cloud_materials");
        assert("draft_cloud_materials"@.len() == 21);
        reveal_strlit("draft_cloud_purchase_info");
        assert("draft_cloud_purchase_info"@.len() == 25);
        reveal_strlit("draft_cloud_template_id");
        assert("draft_cloud_template_id"@.len() == 23);
        reveal_strlit("draft_cloud_tutorial_info");
        assert("draft_cloud_tutorial_info"@.len() == 25);
        reveal_strlit("draft_cloud_videocut_purchase_info");
        assert("draft_cloud_videocut_purchase_info"@.len() == 34);
        reveal_strlit("draft_cover");
        assert("draft_cover"@.len() == 11);
        reveal_strlit("draft_deeplink_url");
        assert("draft_deeplink_url"@.len() == 18);
        reveal_strlit("draft_enterprise_info");
        assert("draft_enterprise_info"@.len() == 21);
        reveal_strlit("draft_id");
        assert("draft_id"@.len() == 8);
        reveal_strlit("draft_is_ai_packaging_used");
        assert("draft_is_ai_packaging_used"@.len() == 26);
        reveal_strlit("draft_is_ai_shorts");
        assert("draft_is_ai_shorts"@.len() == 18);
        reveal_strlit("draft_is_ai_translate");
        assert("draft_is_ai_translate"@.len() == 21);
        reveal_strlit("draft_is_article_video_draft");
        assert("draft_is_article_video_draft"@.len() == 28);
        reveal_strlit("draft_is_from_deeplink");
        assert("draft_is_from_deeplink"@.len() == 22);
        reveal_strlit("draft_is_invisible");
        assert("draft_is_invisible"@.len() == 18);
        reveal_strlit("draft_materials_copied_info");
        assert("draft_materials_copied_info"@.len() == 27);
        reveal_strlit("draft_new_version");
        assert("draft_new_version"@.len() == 17);
        reveal_strlit("draft_removable_storage_device");
        assert("draft_removable_storage_device"@.len() == 30);
        reveal_strlit("draft_segment_extra_info");
        assert("draft_segment_extra_info"@.len() == 24);
        reveal_strlit("draft_type");
        assert("draft_type"@.len() == 10);
        reveal_strlit("tm_draft_cloud_completed");
        assert("tm_draft_cloud_completed"@.len() == 24);
        reveal_strlit("tm_draft_cloud_modified");
        assert("tm_draft_cloud_modified"@.len() == 23);
        reveal_strlit("tm_draft_create");
        assert("tm_draft_create"@.len() == 15);
        reveal_strlit("tm_draft_modified");
        assert("tm_draft_modified"@.len() == 17);
        reveal_strlit("tm_draft_removed");
        assert("tm_draft_removed"@.len() == 16);
        lemma_entry_at(o@, 0, "draft_fold_path"@);
        assert("draft_fold_path"@[6] != "draft_root_path"@[6]);
        lemma_entry_at(o@, 1, "draft_root_path"@);
        lemma_entry_at(o@, 2, "draft_name"@);
        lemma_entry_at(o@, 3, "tm_duration"@);
        assert("draft_fold_path"@[6] != "draft_materials"@[6]);
        assert("draft_root_path"@[6] != "draft_materials"@[6]);
        lemma_entry_at(o@, 4, "draft_materials"@);
        lemma_entry_at(o@, 5, "cloud_package_completed_time"@);
        lemma_entry_at(o@, 6, "draft_cloud_capcut_purchase_info"@);
        assert("draft_cloud_capcut_purchase_info"@[12] != "draft_cloud_last_action_download"@[12]);
        lemma_entry_at(o@, 7, "draft_cloud_last_action_download"@);
        lemma_entry_at(o@, 8, "draft_cloud_materials"@);
        lemma_entry_at(o@, 9, "draft_cloud_purchase_info"@);
        lemma_entry_at(o@, 10, "draft_cloud_template_id"@);
        assert("draft_cloud_purchase_info"@[12] != "draft_cloud_tutorial_info"@[12]);
        lemma_entry_at(o@, 11, "draft_cloud_tutorial_info"@);
        lemma_entry_at(o@, 12, "draft_cloud_videocut_purchase_info"@);
        assert("tm_duration"@[0] != "draft_cover"@[0]);
        lemma_entry_at(o@, 13, "draft_cover"@);
        lemma_entry_at(o@, 14, "draft_deeplink_url"@);
        assert("draft_cloud_materials"@[6] != "draft_enterprise_info"@[6]);
        lemma_entry_at(o@, 15, "draft_enterprise_info"@);
        lemma_entry_at(o@, 16, "draft_id"@);
        lemma_entry_at(o@, 17, "draft_is_ai_packaging_used"@);
        assert("draft_deeplink_url"@[6] != "draft_is_ai_shorts"@[6]);
        lemma_entry_at(o@, 18, "draft_is_ai_shorts"@);
        assert("draft_cloud_materials"@[6] != "draft_is_ai_translate"@[6]);
        assert("draft_enterprise_info"@[6] != "draft_is_ai_translate"@[6]);
        lemma_entry_at(o@, 19, "draft_is_ai_translate"@);
        assert("cloud_package_completed_time"@[0] != "draft_is_article_video_draft"@[0]);
        lemma_entry_at(o@, 20, "draft_is_article_video_draft"@);
        lemma_entry_at(o@, 21, "draft_is_from_deeplink"@);
        assert("draft_deeplink_url"@[6] != "draft_is_invisible"@[6]);
        assert("draft_is_ai_shorts"@[9] != "draft_is_invisible"@[9]);
        lemma_entry_at(o@, 22, "draft_is_invisible"@);
        lemma_entry_at(o@, 23, "draft_materials_copied_info"@);
        lemma_entry_at(o@, 24, "draft_new_version"@);
        lemma_entry_at(o@, 25, "draft_removable_storage_device"@);
        lemma_entry_at(o@, 26, "draft_segment_extra_info"@);
        assert("draft_name"@[6] != "draft_type"@[6]);
        lemma_entry_at(o@, 27, "draft_type"@);
        assert("draft_segment_extra_info"@[0] != "tm_draft_cloud_completed"@[0]);
        lemma_entry_at(o@, 28, "tm_draft_cloud_completed"@);
        assert("draft_cloud_template_id"@[0] != "tm_draft_cloud_modified"@[0]);
        lemma_entry_at(o@, 29, "tm_draft_cloud_modified"@);
        assert("draft_fold_path"@[0] != "tm_draft_create"@[0]);
        assert("draft_root_path"@[0] != "tm_draft_create"@[0]);
        assert("draft_materials"@[0] != "tm_draft_create"@[0]);
        lemma_entry_at(o@, 30, "tm_draft_create"@);
        assert("draft_new_version"@[0] != "tm_draft_modified"@[0]);
        lemma_entry_at(o@, 31, "tm_draft_modified"@);
        lemma_entry_at(o@, 32, "tm_draft_removed"@);
    }
    JsonValue::Object(o)
}

} // verus!
