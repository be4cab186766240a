//! Plan a timeline from clips + captions.
//!
//! Speeds, volumes and scales are exact fractions (`Ratio`); a reader that
//! needs a decimal divides the numerator by the denominator.
use vstd::prelude::*;

use crate::media::{file_name, spec_file_name, MediaFile, MediaKind};
use crate::script::{character_weight, spec_character_weight, Caption};
use crate::text::{
    chars_eq_str, chars_of, decimal, push_decimal, push_str, string_of, trim, trim_chars,
};

verus! {

/// A non-negative fraction `num / den`.
#[derive(Debug, Clone, Copy, PartialEq, Eq, Structural)]
pub struct Ratio {
    pub num: u64,
    pub den: u64,
}

pub open spec fn ratio(num: u64, den: u64) -> Ratio {
    Ratio { num, den }
}

#[derive(Debug, Clone, Copy, PartialEq, Eq, Structural)]
pub enum CanvasPreset {
    Landscape,
    Portrait,
    Square,
}

impl CanvasPreset {
    pub open spec fn spec_from_ratio(value: Seq<char>) -> Option<CanvasPreset> {
        let t = trim(value);
        if t == "16:9"@ || t == "landscape"@ {
            Some(CanvasPreset::Landscape)
        } else if t == "9:16"@ || t == "portrait"@ {
            Some(CanvasPreset::Portrait)
        } else if t == "1:1"@ || t == "square"@ {
            Some(CanvasPreset::Square)
        } else {
            None
        }
    }

    /// The preset that a ratio (`16:9`, `9:16`, `1:1`) or its name
    /// (`landscape`, `portrait`, `square`) names.
    pub fn from_ratio(value: &str) -> (r: Option<CanvasPreset>)
        ensures
            r == Self::spec_from_ratio(value@),
    {
        let all = chars_of(value);
        let t = trim_chars(&all);
        if chars_eq_str(&t, "16:9") || chars_eq_str(&t, "landscape") {
            Some(CanvasPreset::Landscape)
        } else if chars_eq_str(&t, "9:16") || chars_eq_str(&t, "portrait") {
            Some(CanvasPreset::Portrait)
        } else if chars_eq_str(&t, "1:1") || chars_eq_str(&t, "square") {
            Some(CanvasPreset::Square)
        } else {
            None
        }
    }

    pub open spec fn spec_size(self) -> (u32, u32) {
        match self {
            CanvasPreset::Landscape => (1920, 1080),
            CanvasPreset::Portrait => (1080, 1920),
            CanvasPreset::Square => (1080, 1080),
        }
    }

    /// Canvas width and height in pixels.
    pub fn size(self) -> (r: (u32, u32))
        ensures
            r == self.spec_size(),
    {
        match self {
            CanvasPreset::Landscape => (1920, 1080),
            CanvasPreset::Portrait => (1080, 1920),
            CanvasPreset::Square => (1080, 1080),
        }
    }

    pub open spec fn spec_label(self) -> Seq<char> {
        match self {
            CanvasPreset::Landscape => "16:9"@,
            CanvasPreset::Portrait => "9:16"@,
            CanvasPreset::Square => "1:1"@,
        }
    }

    /// The preset's ratio as text.
    pub fn label(self) -> (r: &'static str)
        ensures
            r@ == self.spec_label(),
    {
        match self {
            CanvasPreset::Landscape => "16:9",
            CanvasPreset::Portrait => "9:16",
            CanvasPreset::Square => "1:1",
        }
    }
}

#[derive(Debug, Clone, Copy)]
pub struct EditOptions {
    pub canvas: CanvasPreset,
    pub fps: u32,
    /// Spoken characters per second, used to time captions without timing.
    pub chars_per_second: Ratio,
    pub min_caption_us: u64,
    pub head_trim_us: u64,
    pub tail_trim_us: u64,
    pub mute_original: bool,
    pub cover_fill: bool,
}

impl EditOptions {
    /// The speaking rate is a fraction with a denominator of at most 32 bits.
    pub open spec fn wf(&self) -> bool {
        0 < self.chars_per_second.den <= u32::MAX
    }
}

impl Default for EditOptions {
    fn default() -> (r: EditOptions)
        ensures
            r == (EditOptions {
                canvas: CanvasPreset::Portrait,
                fps: 30,
                chars_per_second: ratio(6, 1),
                min_caption_us: 1_200_000,
                head_trim_us: 0,
                tail_trim_us: 0,
                mute_original: false,
                cover_fill: true,
            }),
    {
        EditOptions {
            canvas: CanvasPreset::Portrait,
            fps: 30,
            chars_per_second: Ratio { num: 6, den: 1 },
            min_caption_us: 1_200_000,
            head_trim_us: 0,
            tail_trim_us: 0,
            mute_original: false,
            cover_fill: true,
        }
    }
}

#[derive(Debug, Clone)]
pub struct PlannedClip {
    pub media_index: usize,
    pub path: String,
    pub source_start_us: u64,
    pub source_duration_us: u64,
    pub timeline_start_us: u64,
    pub duration_us: u64,
    pub speed: Ratio,
    pub volume: Ratio,
    pub scale: Ratio,
}

#[derive(Debug, Clone)]
pub struct PlannedCaption {
    pub text: String,
    pub timeline_start_us: u64,
    pub duration_us: u64,
}

#[derive(Debug, Clone)]
pub struct TimelinePlan {
    pub canvas_width: u32,
    pub canvas_height: u32,
    pub fps: u32,
    pub duration_us: u64,
    pub clips: Vec<PlannedClip>,
    pub captions: Vec<PlannedCaption>,
}

#[derive(Debug, Clone, Copy, PartialEq, Eq, Structural)]
pub enum PlanError {
    NoVisuals,
    Empty,
}

impl PlanError {
    pub open spec fn spec_message(self) -> Seq<char> {
        match self {
            PlanError::NoVisuals => "no video or image clips to place on the timeline"@,
            PlanError::Empty => "timeline would be empty"@,
        }
    }

    /// The error as a sentence.
    pub fn message(&self) -> (r: &'static str)
        ensures
            r@ == self.spec_message(),
    {
        match self {
            PlanError::NoVisuals => "no video or image clips to place on the timeline",
            PlanError::Empty => "timeline would be empty",
        }
    }
}

// ---------------------------------------------------------------------------
// Views
// ---------------------------------------------------------------------------
pub struct PlannedClipView {
    pub media_index: usize,
    pub path: Seq<char>,
    pub source_start_us: u64,
    pub source_duration_us: u64,
    pub timeline_start_us: u64,
    pub duration_us: u64,
    pub speed: Ratio,
    pub volume: Ratio,
    pub scale: Ratio,
}

pub struct PlannedCaptionView {
    pub text: Seq<char>,
    pub timeline_start_us: u64,
    pub duration_us: u64,
}

pub struct TimelinePlanView {
    pub canvas_width: u32,
    pub canvas_height: u32,
    pub fps: u32,
    pub duration_us: u64,
    pub clips: Seq<PlannedClipView>,
    pub captions: Seq<PlannedCaptionView>,
}

impl PlannedClip {
    pub open spec fn view(&self) -> PlannedClipView {
        PlannedClipView {
            media_index: self.media_index,
            path: self.path@,
            source_start_us: self.source_start_us,
            source_duration_us: self.source_duration_us,
            timeline_start_us: self.timeline_start_us,
            duration_us: self.duration_us,
            speed: self.speed,
            volume: self.volume,
            scale: self.scale,
        }
    }
}

impl PlannedCaption {
    pub open spec fn view(&self) -> PlannedCaptionView {
        PlannedCaptionView {
            text: self.text@,
            timeline_start_us: self.timeline_start_us,
            duration_us: self.duration_us,
        }
    }
}

impl TimelinePlan {
    pub open spec fn view(&self) -> TimelinePlanView {
        TimelinePlanView {
            canvas_width: self.canvas_width,
            canvas_height: self.canvas_height,
            fps: self.fps,
            duration_us: self.duration_us,
            clips: self.clips@.map_values(|c: PlannedClip| c.view()),
            captions: self.captions@.map_values(|c: PlannedCaption| c.view()),
        }
    }
}

// ---------------------------------------------------------------------------
// Per-clip rules
// ---------------------------------------------------------------------------
pub open spec fn sat_sub(a: u64, b: u64) -> u64 {
    if a >= b {
        (a - b) as u64
    } else {
        0
    }
}

pub open spec fn max_u64(a: u64, b: u64) -> u64 {
    if a >= b {
        a
    } else {
        b
    }
}

pub open spec fn min_u64(a: u64, b: u64) -> u64 {
    if a <= b {
        a
    } else {
        b
    }
}

/// Where a clip's usable part starts in the source and how long it is:
/// videos lose the head and tail trims, images are used whole; at least one
/// microsecond.
pub open spec fn spec_usable_range(file: MediaFile, options: EditOptions) -> (u64, u64) {
    let duration = if file.kind == MediaKind::Image {
        file.duration_us
    } else {
        sat_sub(sat_sub(file.duration_us, options.head_trim_us), options.tail_trim_us)
    };
    let start = if file.kind == MediaKind::Image {
        0
    } else {
        min_u64(options.head_trim_us, file.duration_us)
    };
    (start, max_u64(duration, 1))
}

fn usable_range(file: &MediaFile, options: &EditOptions) -> (r: (u64, u64))
    ensures
        r == spec_usable_range(*file, *options),
{
    let duration = if file.kind == MediaKind::Image {
        file.duration_us
    } else {
        file.duration_us.saturating_sub(options.head_trim_us).saturating_sub(options.tail_trim_us)
    };
    let start = if file.kind == MediaKind::Image {
        0
    } else if options.head_trim_us <= file.duration_us {
        options.head_trim_us
    } else {
        file.duration_us
    };
    (start, if duration >= 1 {
        duration
    } else {
        1
    })
}

/// The scale that makes a clip cover the canvas (the larger of the two
/// axis ratios, never below 1); 1 when the clip is not stretched.
pub open spec fn spec_cover_scale(file: MediaFile, canvas_w: u32, canvas_h: u32, cover_fill: bool) -> Ratio {
    if !cover_fill {
        ratio(1, 1)
    } else {
        let src_w = if file.width >= 1 {
            file.width
        } else {
            1
        };
        let src_h = if file.height >= 1 {
            file.height
        } else {
            1
        };
        let larger = if canvas_w * src_h >= canvas_h * src_w {
            ratio(canvas_w as u64, src_w as u64)
        } else {
            ratio(canvas_h as u64, src_h as u64)
        };
        if larger.num < larger.den {
            ratio(1, 1)
        } else {
            larger
        }
    }
}

/// With cover fill, a clip's scale is at least 1 and at least the canvas's
/// width over the clip's and its height over the clip's (a frame side of 0
/// taken as 1), so the clip covers the canvas; and it is the smallest such
/// scale: 1 or one of those two ratios. Without cover fill the scale is 1.
pub proof fn lemma_cover_scale_covers(file: MediaFile, canvas_w: u32, canvas_h: u32, cover_fill: bool)
    ensures
        ({
            let s = spec_cover_scale(file, canvas_w, canvas_h, cover_fill);
            let w: int = if file.width == 0 { 1 } else { file.width as int };
            let h: int = if file.height == 0 { 1 } else { file.height as int };
            &&& !cover_fill ==> s == ratio(1, 1)
            &&& cover_fill ==> {
                &&& s.den > 0
                &&& s.num >= s.den
                &&& s.num * w >= canvas_w * s.den
                &&& s.num * h >= canvas_h * s.den
                &&& (s == ratio(1, 1) || (s.num == canvas_w && s.den == w) || (s.num == canvas_h
                    && s.den == h))
            }
        }),
{
    if cover_fill {
        let src_w: u32 = if file.width >= 1 { file.width } else { 1 };
        let src_h: u32 = if file.height >= 1 { file.height } else { 1 };
        let cw = canvas_w as int;
        let ch = canvas_h as int;
        let sw = src_w as int;
        let sh = src_h as int;
        let sc = spec_cover_scale(file, canvas_w, canvas_h, cover_fill);
        let w: int = if file.width == 0 { 1 } else { file.width as int };
        let h: int = if file.height == 0 { 1 } else { file.height as int };
        assert(w == sw && h == sh);
        if cw * sh >= ch * sw {
            if cw < sw {
                assert(ch < sh) by (nonlinear_arith)
                    requires
                        cw * sh >= ch * sw,
                        cw < sw,
                        sw >= 1,
                        sh >= 1,
                        ch >= 0,
                ;
                assert(sc == ratio(1, 1));
                assert(sc.num * w >= canvas_w * sc.den);
                assert(sc.num * h >= canvas_h * sc.den);
            } else {
                assert(sc.num == cw && sc.den == sw);
                assert(sc.num * w >= canvas_w * sc.den);
                assert(sc.num * h >= canvas_h * sc.den);
            }
        } else {
            if ch < sh {
                assert(cw < sw) by (nonlinear_arith)
                    requires
                        ch * sw > cw * sh,
                        ch < sh,
                        sw >= 1,
                        sh >= 1,
                        cw >= 0,
                ;
                assert(sc == ratio(1, 1));
                assert(sc.num * w >= canvas_w * sc.den);
                assert(sc.num * h >= canvas_h * sc.den);
            } else {
                assert(sc.num == ch && sc.den == sh);
                assert(sc.num * w >= canvas_w * sc.den);
                assert(sc.num * h >= canvas_h * sc.den);
            }
        }
    }
}

fn cover_scale(file: &MediaFile, canvas_w: u32, canvas_h: u32, cover_fill: bool) -> (r: Ratio)
    ensures
        r == spec_cover_scale(*file, canvas_w, canvas_h, cover_fill),
{
    if !cover_fill {
        return Ratio { num: 1, den: 1 };
    }
    let src_w: u64 = if file.width >= 1 {
        file.width as u64
    } else {
        1
    };
    let src_h: u64 = if file.height >= 1 {
        file.height as u64
    } else {
        1
    };
    let cw = canvas_w as u64;
    let ch = canvas_h as u64;
    assert(cw * src_h <= u32::MAX * u32::MAX) by (nonlinear_arith)
        requires
            cw <= u32::MAX,
            src_h <= u32::MAX,
    ;
    assert(ch * src_w <= u32::MAX * u32::MAX) by (nonlinear_arith)
        requires
            ch <= u32::MAX,
            src_w <= u32::MAX,
    ;
    let larger = if cw * src_h >= ch * src_w {
        Ratio { num: cw, den: src_w }
    } else {
        Ratio { num: ch, den: src_h }
    };
    if larger.num < larger.den {
        Ratio { num: 1, den: 1 }
    } else {
        larger
    }
}

/// Muted clips have volume 0, others 1.
pub open spec fn spec_volume(options: EditOptions) -> Ratio {
    if options.mute_original {
        ratio(0, 1)
    } else {
        ratio(1, 1)
    }
}

fn volume(options: &EditOptions) -> (r: Ratio)
    ensures
        r == spec_volume(*options),
{
    if options.mute_original {
        Ratio { num: 0, den: 1 }
    } else {
        Ratio { num: 1, den: 1 }
    }
}

/// The speaking rate, at least half a character per second.
pub open spec fn effective_rate(r: Ratio) -> Ratio {
    if 2 * r.num < r.den {
        ratio(1, 2)
    } else {
        r
    }
}

/// `a / b` rounded to the nearest integer, halves away from zero.
pub open spec fn div_round(a: int, b: int) -> int {
    (2 * a + b) / (2 * b)
}

/// How long a caption stays on screen: its own timing when it has one,
/// else its weight spoken at the given rate (rounded to the microsecond);
/// never shorter than the minimum.
pub open spec fn spec_caption_duration(caption: Caption, options: EditOptions) -> u64 {
    match (caption.start_us, caption.end_us) {
        (Some(start), Some(end)) => max_u64(sat_sub(end, start), options.min_caption_us),
        _ => {
            let rate = effective_rate(options.chars_per_second);
            let us = div_round(
                spec_character_weight(caption.text@) * 1_000_000 * rate.den,
                rate.num as int,
            );
            let us_sat = if us > u64::MAX {
                u64::MAX
            } else {
                us as u64
            };
            max_u64(us_sat, options.min_caption_us)
        },
    }
}

fn caption_duration(caption: &Caption, options: &EditOptions) -> (r: u64)
    requires
        options.wf(),
    ensures
        r == spec_caption_duration(*caption, *options),
{
    if let (Some(start), Some(end)) = (caption.start_us, caption.end_us) {
        let d = end.saturating_sub(start);
        return if d >= options.min_caption_us {
            d
        } else {
            options.min_caption_us
        };
    }
    let rate = if 2 * (options.chars_per_second.num as u128) < options.chars_per_second.den as u128 {
        Ratio { num: 1, den: 2 }
    } else {
        options.chars_per_second
    };
    let weight = character_weight(caption.text.as_str());
    let w = weight as u128;
    let d = rate.den as u128;
    let n = rate.num as u128;
    assert(w * 1_000_000 * d <= 0x1_0000_0000_0000_0000 * 1_000_000 * 0x1_0000_0000) by (
    nonlinear_arith)
        requires
            w <= 0xffff_ffff_ffff_ffff,
            d <= 0xffff_ffff,
    ;
    let a: u128 = w * 1_000_000 * d;
    let q: u128 = (2 * a + n) / (2 * n);
    let us: u64 = if q > u64::MAX as u128 {
        u64::MAX
    } else {
        q as u64
    };
    if us >= options.min_caption_us {
        us
    } else {
        options.min_caption_us
    }
}

// ---------------------------------------------------------------------------
// The pool of clip material
// ---------------------------------------------------------------------------
/// A slot of the pool: the visual's index, where its unused part starts,
/// and how much of it is left.
pub type Slot = (usize, u64, u64);

/// What the pool hands out for one caption.
#[derive(Debug, Clone, Copy)]
pub struct PoolTake {
    pub media_index: usize,
    pub source_start: u64,
    pub take: u64,
    pub speed: Ratio,
}

/// The speed that stretches `take` microseconds of source over `needed`
/// microseconds: `take / needed`, at least 1/20.
pub open spec fn clamp_speed(take: u64, needed: u64) -> Ratio {
    if needed == 0 || take * 20 < needed {
        ratio(1, 20)
    } else {
        ratio(take, needed)
    }
}

/// The offset from `cursor` of the first slot at or after offset `j` that
/// still has material, going round the pool once.
pub open spec fn first_open(rem: Seq<Slot>, cursor: int, j: int) -> Option<int>
    decreases rem.len() - j,
{
    if j < 0 || j >= rem.len() {
        None
    } else if rem[(cursor + j) % (rem.len() as int)].2 != 0 {
        Some(j)
    } else {
        first_open(rem, cursor, j + 1)
    }
}

/// Where the first visual's usable footage starts in a pool as it was
/// built, and how long it is.
pub open spec fn first_range(rem0: Seq<Slot>) -> (u64, u64) {
    (rem0[0].1, rem0[0].2)
}

/// Taking material for a caption that needs `needed` microseconds: the next
/// slot (round-robin from the cursor) with material left gives up to
/// `needed`, played at `take / needed` speed (at least 1/20); when every
/// slot is used up, the first visual plays again from the start of its
/// usable footage (`first`: that start and the footage's length), up to
/// `needed` of it, at the same speed rule.
pub open spec fn spec_take(rem: Seq<Slot>, cursor: int, needed: u64, first: (u64, u64)) -> (
    Seq<Slot>,
    int,
    PoolTake,
) {
    let n = rem.len() as int;
    match first_open(rem, cursor, 0) {
        Some(j) => {
            let idx = (cursor + j) % n;
            let slot = rem[idx];
            let take = min_u64(slot.2, needed);
            (
                rem.update(idx, (slot.0, (slot.1 + take) as u64, (slot.2 - take) as u64)),
                (cursor + j + 1) % n,
                PoolTake {
                    media_index: slot.0,
                    source_start: slot.1,
                    take,
                    speed: clamp_speed(take, needed),
                },
            )
        },
        None => {
            let take = min_u64(first.1, needed);
            (
                rem,
                cursor,
                PoolTake {
                    media_index: rem[0].0,
                    source_start: first.0,
                    take,
                    speed: clamp_speed(take, needed),
                },
            )
        },
    }
}

/// The pool and cursor after serving the needs in order.
pub open spec fn pool_state(rem0: Seq<Slot>, needs: Seq<u64>) -> (Seq<Slot>, int)
    decreases needs.len(),
{
    if needs.len() == 0 {
        (rem0, 0)
    } else {
        let (r, c) = pool_state(rem0, needs.drop_last());
        let t = spec_take(r, c, needs.last(), first_range(rem0));
        (t.0, t.1)
    }
}

/// What the pool gives for the `i`-th need, after serving the earlier ones.
pub open spec fn pool_take_at(rem0: Seq<Slot>, needs: Seq<u64>, i: int) -> PoolTake {
    let (r, c) = pool_state(rem0, needs.take(i));
    spec_take(r, c, needs[i], first_range(rem0)).2
}

/// A pool whose slots keep their visual's index and never run past the end
/// of `u64`.
pub open spec fn pool_wf(rem: Seq<Slot>) -> bool {
    forall|k: int|
        0 <= k < rem.len() ==> (#[trigger] rem[k]).0 == k && rem[k].1 + rem[k].2 <= u64::MAX
}

proof fn lemma_take_keeps_wf(rem: Seq<Slot>, cursor: int, needed: u64, first: (u64, u64))
    requires
        pool_wf(rem),
        rem.len() > 0,
        0 <= cursor < rem.len(),
    ensures
        pool_wf(spec_take(rem, cursor, needed, first).0),
        spec_take(rem, cursor, needed, first).0.len() == rem.len(),
        0 <= spec_take(rem, cursor, needed, first).1 < rem.len(),
        spec_take(rem, cursor, needed, first).2.media_index < rem.len(),
{
    let n = rem.len() as int;
    match first_open(rem, cursor, 0) {
        Some(j) => {
            lemma_first_open_range(rem, cursor, 0);
            let idx = (cursor + j) % n;
            assert(0 <= idx < n);
        },
        None => {},
    }
}

proof fn lemma_first_open_range(rem: Seq<Slot>, cursor: int, j: int)
    ensures
        first_open(rem, cursor, j) matches Some(k) ==> j <= k < rem.len() && rem[(cursor + k) % (
        rem.len() as int)].2 != 0,
    decreases rem.len() - j,
{
    if j >= 0 && j < rem.len() && rem[(cursor + j) % (rem.len() as int)].2 == 0 {
        lemma_first_open_range(rem, cursor, j + 1);
    }
}

proof fn lemma_pool_state_wf(rem0: Seq<Slot>, needs: Seq<u64>)
    requires
        pool_wf(rem0),
        rem0.len() > 0,
    ensures
        pool_wf(pool_state(rem0, needs).0),
        pool_state(rem0, needs).0.len() == rem0.len(),
        0 <= pool_state(rem0, needs).1 < rem0.len(),
    decreases needs.len(),
{
    if needs.len() > 0 {
        lemma_pool_state_wf(rem0, needs.drop_last());
        let (r, c) = pool_state(rem0, needs.drop_last());
        lemma_take_keeps_wf(r, c, needs.last(), first_range(rem0));
    }
}

/// The take for the `i`-th need found material left in some visual (the
/// pool was not used up).
pub open spec fn took_material(rem0: Seq<Slot>, needs: Seq<u64>, i: int) -> bool {
    let (r, c) = pool_state(rem0, needs.take(i));
    first_open(r, c, 0) is Some
}

/// Where a slot's material ends, and that it has not gone back before
/// where it started.
pub open spec fn pool_follows(rem0: Seq<Slot>, rem: Seq<Slot>) -> bool {
    &&& rem.len() == rem0.len()
    &&& forall|k: int|
        0 <= k < rem.len() ==> (#[trigger] rem[k]).1 + rem[k].2 == rem0[k].1 + rem0[k].2 && rem0[k].1
            <= rem[k].1
}

proof fn lemma_take_follows(rem: Seq<Slot>, cursor: int, needed: u64, first: (u64, u64))
    requires
        pool_wf(rem),
        rem.len() > 0,
        0 <= cursor < rem.len(),
    ensures
        pool_follows(rem, spec_take(rem, cursor, needed, first).0),
        first_open(rem, cursor, 0) is Some ==> {
            let t = spec_take(rem, cursor, needed, first).2;
            let k = t.media_index as int;
            &&& t.source_start == rem[k].1
            &&& spec_take(rem, cursor, needed, first).0[k].1 == t.source_start + t.take
            &&& t.take <= rem[k].2
        },
{
    let n = rem.len() as int;
    match first_open(rem, cursor, 0) {
        Some(j) => {
            lemma_first_open_range(rem, cursor, 0);
            let idx = (cursor + j) % n;
            assert(0 <= idx < n);
            assert(rem[idx].0 == idx);
        },
        None => {},
    }
}

proof fn lemma_pool_state_follows(rem0: Seq<Slot>, needs: Seq<u64>, m: nat)
    requires
        pool_wf(rem0),
        rem0.len() > 0,
        m <= needs.len(),
    ensures
        forall|n: int|
            m <= n <= needs.len() ==> pool_follows(
                pool_state(rem0, needs.take(m as int)).0,
                #[trigger] pool_state(rem0, needs.take(n)).0,
            ),
    decreases needs.len() - m,
{
    let a = pool_state(rem0, needs.take(m as int)).0;
    lemma_pool_state_wf(rem0, needs.take(m as int));
    assert(pool_follows(a, a));
    if m < needs.len() {
        lemma_pool_state_follows(rem0, needs, m + 1);
        let (r, c) = pool_state(rem0, needs.take(m as int));
        lemma_take_follows(r, c, needs[m as int], first_range(rem0));
        assert(needs.take(m + 1int).drop_last() == needs.take(m as int));
        let b = pool_state(rem0, needs.take(m + 1int)).0;
        assert forall|n: int| m <= n <= needs.len() implies pool_follows(
            a,
            #[trigger] pool_state(rem0, needs.take(n)).0,
        ) by {
            if n > m {
                let z = pool_state(rem0, needs.take(n)).0;
                assert(pool_follows(b, z));
                assert forall|k: int| 0 <= k < z.len() implies (#[trigger] z[k]).1 + z[k].2 == a[k].1
                    + a[k].2 && a[k].1 <= z[k].1 by {
                    assert(b[k].1 + b[k].2 == a[k].1 + a[k].2);
                }
            }
        }
    }
}

/// Material is cut, never reused: when two takes find material in the
/// same visual, the earlier one ends where the later one may start at the
/// earliest, and both lie within what the visual's trims leave.
pub proof fn lemma_pool_takes_disjoint(
    visuals: Seq<MediaFile>,
    needs: Seq<u64>,
    options: EditOptions,
    i: int,
    j: int,
)
    requires
        0 < visuals.len() <= usize::MAX,
        forall|k: int|
            0 <= k < visuals.len() ==> spec_usable_range(#[trigger] visuals[k], options).0
                + spec_usable_range(visuals[k], options).1 <= u64::MAX,
        0 <= i < j < needs.len(),
        took_material(initial_pool(visuals, options), needs, i),
        took_material(initial_pool(visuals, options), needs, j),
        pool_take_at(initial_pool(visuals, options), needs, i).media_index == pool_take_at(
            initial_pool(visuals, options),
            needs,
            j,
        ).media_index,
    ensures
        ({
            let ti = pool_take_at(initial_pool(visuals, options), needs, i);
            let tj = pool_take_at(initial_pool(visuals, options), needs, j);
            let (start, usable) = spec_usable_range(visuals[ti.media_index as int], options);
            &&& ti.source_start + ti.take <= tj.source_start
            &&& start <= ti.source_start
            &&& tj.source_start + tj.take <= start + usable
        }),
{
    let rem0 = initial_pool(visuals, options);
    lemma_initial_pool_wf(visuals, options);
    lemma_pool_state_follows(rem0, needs, 0);
    lemma_pool_state_follows(rem0, needs, (i + 1) as nat);
    let (ri, ci) = pool_state(rem0, needs.take(i));
    let (rj, cj) = pool_state(rem0, needs.take(j));
    lemma_pool_state_wf(rem0, needs.take(i));
    lemma_pool_state_wf(rem0, needs.take(j));
    lemma_take_follows(ri, ci, needs[i], first_range(rem0));
    lemma_take_follows(rj, cj, needs[j], first_range(rem0));
    lemma_take_keeps_wf(ri, ci, needs[i], first_range(rem0));
    assert(needs.take(i + 1).drop_last() == needs.take(i));
    assert(needs.take(0) =~= Seq::<u64>::empty());
    let ti = pool_take_at(rem0, needs, i);
    let tj = pool_take_at(rem0, needs, j);
    let k = ti.media_index as int;
    let after_i = pool_state(rem0, needs.take(i + 1)).0;
    assert(pool_follows(after_i, rj));
    assert(pool_follows(rem0, ri));
    assert(pool_follows(rem0, rj));
    assert(after_i[k].1 == ti.source_start + ti.take);
    assert(rem0[k].1 == spec_usable_range(visuals[k], options).0);
    assert(rem0[k].2 == spec_usable_range(visuals[k], options).1);
}

fn take_from_pool(
    remaining: &mut Vec<Slot>,
    media_cursor: &mut usize,
    needed: u64,
    first: (u64, u64),
) -> (r: PoolTake)
    requires
        old(remaining)@.len() > 0,
        *old(media_cursor) < old(remaining)@.len(),
        pool_wf(old(remaining)@),
    ensures
        (final(remaining)@, *final(media_cursor) as int, r) == spec_take(
            old(remaining)@,
            *old(media_cursor) as int,
            needed,
            first,
        ),
        pool_wf(final(remaining)@),
        *final(media_cursor) < final(remaining)@.len(),
        final(remaining)@.len() == old(remaining)@.len(),
{
    proof {
        lemma_take_keeps_wf(remaining@, *media_cursor as int, needed, first);
    }
    let n = remaining.len();
    let cursor = *media_cursor;
    let mut j: usize = 0;
    let mut pos: usize = cursor;
    assert((cursor + 0) % (n as int) == cursor as int) by (nonlinear_arith)
        requires
            cursor < n,
    ;
    while j < n
        invariant
            n == remaining@.len(),
            remaining@ == old(remaining)@,
            pool_wf(remaining@),
            cursor == *old(media_cursor),
            *media_cursor == cursor,
            cursor < n,
            0 <= j <= n,
            pos as int == (cursor + j) % (n as int),
            first_open(remaining@, cursor as int, 0) == first_open(remaining@, cursor as int, j as int),
        decreases n - j,
    {
        assert(0 <= pos < n) by (nonlinear_arith)
            requires
                pos as int == (cursor + j) % (n as int),
                n > 0,
        ;
        let slot = remaining[pos];
        assert(slot.0 == pos && slot.1 + slot.2 <= u64::MAX) by {
            assert(remaining@[pos as int] == slot);
        }
        if slot.2 != 0 {
            let take = if slot.2 <= needed {
                slot.2
            } else {
                needed
            };
            let source_start = slot.1;
            remaining.set(pos, (slot.0, slot.1 + take, slot.2 - take));
            assert(pool_wf(remaining@)) by {
                assert forall|k: int| 0 <= k < remaining@.len() implies (#[trigger] remaining@[k]).0
                    == k && remaining@[k].1 + remaining@[k].2 <= u64::MAX by {
                    if k != pos {
                        assert(remaining@[k] == old(remaining)@[k]);
                    }
                }
            }
            *media_cursor = if pos + 1 == n {
                0
            } else {
                pos + 1
            };
            proof {
                assert((cursor + j + 1) % (n as int) == *media_cursor as int) by (nonlinear_arith)
                    requires
                        pos == (cursor + j) % (n as int),
                        n > 0,
                        *media_cursor as int == (if pos + 1 == n { 0 } else { pos + 1 }),
                        0 <= pos < n,
                ;
            }
            let speed = if needed == 0 || (take as u128) * 20 < needed as u128 {
                Ratio { num: 1, den: 20 }
            } else {
                Ratio { num: take, den: needed }
            };
            return PoolTake { media_index: slot.0, source_start, take, speed };
        }
        pos = if pos + 1 == n {
            0
        } else {
            pos + 1
        };
        proof {
            assert(pos as int == (cursor + j + 1) % (n as int)) by (nonlinear_arith)
                requires
                    pos as int == (if (cursor + j) % (n as int) + 1 == n { 0 } else { (cursor + j) % (n as int) + 1 }),
                    n > 0,
                    0 <= (cursor + j) % (n as int) < n,
            ;
        }
        j = j + 1;
    }
    assert(first_open(remaining@, cursor as int, n as int) is None);
    let take = if first.1 <= needed {
        first.1
    } else {
        needed
    };
    let speed = if needed == 0 || (take as u128) * 20 < needed as u128 {
        Ratio { num: 1, den: 20 }
    } else {
        Ratio { num: take, den: needed }
    };
    PoolTake { media_index: remaining[0].0, source_start: first.0, take, speed }
}

// ---------------------------------------------------------------------------
// Plans
// ---------------------------------------------------------------------------
/// The pool at the start: every visual with its usable range.
pub open spec fn initial_pool(visuals: Seq<MediaFile>, options: EditOptions) -> Seq<Slot> {
    Seq::new(
        visuals.len(),
        |k: int|
            (
                k as usize,
                spec_usable_range(visuals[k], options).0,
                spec_usable_range(visuals[k], options).1,
            ),
    )
}

pub open spec fn seq_sum(xs: Seq<u64>) -> int
    decreases xs.len(),
{
    if xs.len() == 0 {
        0
    } else {
        seq_sum(xs.drop_last()) + xs.last()
    }
}

pub proof fn lemma_seq_sum_prefix(xs: Seq<u64>, i: int)
    requires
        0 <= i <= xs.len(),
    ensures
        0 <= seq_sum(xs.take(i)) <= seq_sum(xs),
    decreases xs.len() - i,
{
    if i < xs.len() {
        assert(xs.drop_last().take(i) == xs.take(i));
        lemma_seq_sum_prefix(xs.drop_last(), i);
    } else {
        assert(xs.take(i) == xs);
        lemma_seq_sum_nonneg(xs);
    }
}

proof fn lemma_seq_sum_nonneg(xs: Seq<u64>)
    ensures
        seq_sum(xs) >= 0,
    decreases xs.len(),
{
    if xs.len() > 0 {
        lemma_seq_sum_nonneg(xs.drop_last());
    }
}

proof fn lemma_seq_sum_step(xs: Seq<u64>, i: int)
    requires
        0 <= i < xs.len(),
    ensures
        seq_sum(xs.take(i + 1)) == seq_sum(xs.take(i)) + xs[i],
{
    assert(xs.take(i + 1).drop_last() == xs.take(i));
}

/// A clip made from what the pool handed out.
pub open spec fn clip_from_take(
    visuals: Seq<MediaFile>,
    options: EditOptions,
    canvas_w: u32,
    canvas_h: u32,
    t: PoolTake,
    start: u64,
    duration: u64,
) -> PlannedClipView {
    let f = visuals[t.media_index as int];
    PlannedClipView {
        media_index: t.media_index,
        path: f.path@,
        source_start_us: t.source_start,
        source_duration_us: t.take,
        timeline_start_us: start,
        duration_us: duration,
        speed: t.speed,
        volume: spec_volume(options),
        scale: spec_cover_scale(f, canvas_w, canvas_h, options.cover_fill),
    }
}

/// How long each caption of a script stays on screen.
pub open spec fn script_needs(captions: Seq<Caption>, options: EditOptions) -> Seq<u64> {
    captions.map_values(|c: Caption| spec_caption_duration(c, options))
}

/// The timeline for plain copy: captions follow each other without gaps,
/// each with a clip cut from the pool.
pub open spec fn spec_script_plan(
    visuals: Seq<MediaFile>,
    captions: Seq<Caption>,
    options: EditOptions,
    canvas_w: u32,
    canvas_h: u32,
) -> TimelinePlanView {
    let needs = script_needs(captions, options);
    let rem0 = initial_pool(visuals, options);
    TimelinePlanView {
        canvas_width: canvas_w,
        canvas_height: canvas_h,
        fps: options.fps,
        duration_us: seq_sum(needs) as u64,
        clips: Seq::new(
            needs.len(),
            |i: int|
                clip_from_take(
                    visuals,
                    options,
                    canvas_w,
                    canvas_h,
                    pool_take_at(rem0, needs, i),
                    seq_sum(needs.take(i)) as u64,
                    needs[i],
                ),
        ),
        captions: Seq::new(
            needs.len(),
            |i: int|
                PlannedCaptionView {
                    text: captions[i].text@,
                    timeline_start_us: seq_sum(needs.take(i)) as u64,
                    duration_us: needs[i],
                },
        ),
    }
}

/// Where an SRT caption starts.
pub open spec fn srt_start(c: Caption) -> u64 {
    match c.start_us {
        Some(s) => s,
        None => 0,
    }
}

/// How long an SRT caption lasts: its end minus its start, at least 1.
pub open spec fn srt_need(c: Caption) -> u64 {
    match c.end_us {
        Some(e) => max_u64(sat_sub(e, srt_start(c)), 1),
        None => 1,
    }
}

pub open spec fn srt_needs(captions: Seq<Caption>) -> Seq<u64> {
    captions.map_values(|c: Caption| srt_need(c))
}

/// The latest end of the first captions.
pub open spec fn srt_end(captions: Seq<Caption>) -> u64
    decreases captions.len(),
{
    if captions.len() == 0 {
        0
    } else {
        max_u64(
            srt_end(captions.drop_last()),
            (srt_start(captions.last()) + srt_need(captions.last())) as u64,
        )
    }
}

/// Every caption has a start and an end.
pub open spec fn all_timed(captions: Seq<Caption>) -> bool {
    forall|i: int|
        0 <= i < captions.len() ==> (#[trigger] captions[i]).start_us is Some
            && captions[i].end_us is Some
}

/// The timeline for SRT subtitles: captions keep their time codes, each
/// with a clip cut from the pool.
pub open spec fn spec_srt_plan(
    visuals: Seq<MediaFile>,
    captions: Seq<Caption>,
    options: EditOptions,
    canvas_w: u32,
    canvas_h: u32,
) -> TimelinePlanView {
    let needs = srt_needs(captions);
    let rem0 = initial_pool(visuals, options);
    TimelinePlanView {
        canvas_width: canvas_w,
        canvas_height: canvas_h,
        fps: options.fps,
        duration_us: srt_end(captions),
        clips: Seq::new(
            needs.len(),
            |i: int|
                clip_from_take(
                    visuals,
                    options,
                    canvas_w,
                    canvas_h,
                    pool_take_at(rem0, needs, i),
                    srt_start(captions[i]),
                    needs[i],
                ),
        ),
        captions: Seq::new(
            needs.len(),
            |i: int|
                PlannedCaptionView {
                    text: captions[i].text@,
                    timeline_start_us: srt_start(captions[i]),
                    duration_us: needs[i],
                },
        ),
    }
}

/// The usable length of each visual.
pub open spec fn usables(visuals: Seq<MediaFile>, options: EditOptions) -> Seq<u64> {
    Seq::new(visuals.len(), |k: int| spec_usable_range(visuals[k], options).1)
}

/// The timeline without copy: every visual once, in order, at normal speed.
pub open spec fn spec_clips_only_plan(
    visuals: Seq<MediaFile>,
    options: EditOptions,
    canvas_w: u32,
    canvas_h: u32,
) -> Result<TimelinePlanView, PlanError> {
    let us = usables(visuals, options);
    if seq_sum(us) == 0 {
        Err(PlanError::Empty)
    } else {
        Ok(
            TimelinePlanView {
                canvas_width: canvas_w,
                canvas_height: canvas_h,
                fps: options.fps,
                duration_us: seq_sum(us) as u64,
                clips: Seq::new(
                    visuals.len(),
                    |i: int|
                        PlannedClipView {
                            media_index: i as usize,
                            path: visuals[i].path@,
                            source_start_us: spec_usable_range(visuals[i], options).0,
                            source_duration_us: us[i],
                            timeline_start_us: seq_sum(us.take(i)) as u64,
                            duration_us: us[i],
                            speed: ratio(1, 1),
                            volume: spec_volume(options),
                            scale: spec_cover_scale(visuals[i], canvas_w, canvas_h, options.cover_fill),
                        },
                ),
                captions: Seq::empty(),
            },
        )
    }
}

/// The timeline for visuals and captions: SRT timing when every caption is
/// timed, the visuals alone when there is no caption, else timing from the
/// copy's length.
pub open spec fn spec_plan_timeline(
    visuals: Seq<MediaFile>,
    captions: Seq<Caption>,
    options: EditOptions,
) -> Result<TimelinePlanView, PlanError> {
    let (w, h) = options.canvas.spec_size();
    if visuals.len() == 0 {
        Err(PlanError::NoVisuals)
    } else if all_timed(captions) && captions.len() > 0 {
        Ok(spec_srt_plan(visuals, captions, options, w, h))
    } else if captions.len() == 0 {
        spec_clips_only_plan(visuals, options, w, h)
    } else {
        Ok(spec_script_plan(visuals, captions, options, w, h))
    }
}

/// The timeline's arithmetic stays within `u64`: every visual's usable range
/// ends within it, and so do the SRT captions' ends or the sum of the
/// durations laid end to end.
pub open spec fn plan_fits(visuals: Seq<MediaFile>, captions: Seq<Caption>, options: EditOptions) -> bool {
    &&& forall|k: int|
        0 <= k < visuals.len() ==> spec_usable_range(#[trigger] visuals[k], options).0
            + spec_usable_range(visuals[k], options).1 <= u64::MAX
    &&& (all_timed(captions) && captions.len() > 0) ==> forall|i: int|
        0 <= i < captions.len() ==> srt_start(#[trigger] captions[i]) + srt_need(captions[i])
            <= u64::MAX
    &&& captions.len() == 0 ==> seq_sum(usables(visuals, options)) <= u64::MAX
    &&& (!all_timed(captions) && captions.len() > 0) ==> seq_sum(script_needs(captions, options))
        <= u64::MAX
}

proof fn lemma_initial_pool_wf(visuals: Seq<MediaFile>, options: EditOptions)
    requires
        visuals.len() <= usize::MAX,
        forall|k: int|
            0 <= k < visuals.len() ==> spec_usable_range(#[trigger] visuals[k], options).0
                + spec_usable_range(visuals[k], options).1 <= u64::MAX,
    ensures
        pool_wf(initial_pool(visuals, options)),
        initial_pool(visuals, options).len() == visuals.len(),
{
    let rem = initial_pool(visuals, options);
    assert forall|k: int| 0 <= k < rem.len() implies (#[trigger] rem[k]).0 == k && rem[k].1
        + rem[k].2 <= u64::MAX by {
        assert(rem[k] == (k as usize, spec_usable_range(visuals[k], options).0, spec_usable_range(
            visuals[k],
            options,
        ).1));
    }
}

fn build_initial_pool(visuals: &[MediaFile], options: &EditOptions) -> (r: Vec<Slot>)
    ensures
        r@ == initial_pool(visuals@, *options),
{
    let mut r: Vec<Slot> = Vec::new();
    let mut k: usize = 0;
    while k < visuals.len()
        invariant
            0 <= k <= visuals.len(),
            r@.len() == k,
            forall|j: int| 0 <= j < k ==> #[trigger] r@[j] == initial_pool(visuals@, *options)[j],
        decreases visuals.len() - k,
    {
        let (start, usable) = usable_range(&visuals[k], options);
        r.push((k, start, usable));
        k = k + 1;
    }
    assert(r@ =~= initial_pool(visuals@, *options));
    r
}

fn plan_clips_only(
    visuals: &[MediaFile],
    options: &EditOptions,
    canvas_width: u32,
    canvas_height: u32,
) -> (r: Result<TimelinePlan, PlanError>)
    requires
        seq_sum(usables(visuals@, *options)) <= u64::MAX,
    ensures
        match r {
            Ok(plan) => spec_clips_only_plan(visuals@, *options, canvas_width, canvas_height) == Ok::<
                TimelinePlanView,
                PlanError,
            >(plan.view()),
            Err(e) => spec_clips_only_plan(visuals@, *options, canvas_width, canvas_height) == Err::<
                TimelinePlanView,
                PlanError,
            >(e),
        },
{
    let ghost us = usables(visuals@, *options);
    let ghost spec_plan = spec_clips_only_plan(visuals@, *options, canvas_width, canvas_height);
    let mut clips: Vec<PlannedClip> = Vec::new();
    let mut cursor: u64 = 0;
    let mut index: usize = 0;
    while index < visuals.len()
        invariant
            0 <= index <= visuals.len(),
            us == usables(visuals@, *options),
            seq_sum(us) <= u64::MAX,
            cursor == seq_sum(us.take(index as int)),
            clips@.len() == index,
            forall|k: int|
                0 <= k < index ==> (#[trigger] clips@[k]).view() == (PlannedClipView {
                    media_index: k as usize,
                    path: visuals@[k].path@,
                    source_start_us: spec_usable_range(visuals@[k], *options).0,
                    source_duration_us: us[k],
                    timeline_start_us: seq_sum(us.take(k)) as u64,
                    duration_us: us[k],
                    speed: ratio(1, 1),
                    volume: spec_volume(*options),
                    scale: spec_cover_scale(visuals@[k], canvas_width, canvas_height, options.cover_fill),
                }),
        decreases visuals.len() - index,
    {
        let file = &visuals[index];
        let (source_start, usable) = usable_range(file, options);
        proof {
            lemma_seq_sum_step(us, index as int);
            lemma_seq_sum_prefix(us, index + 1);
        }
        let clip = PlannedClip {
            media_index: index,
            path: file.path.clone(),
            source_start_us: source_start,
            source_duration_us: usable,
            timeline_start_us: cursor,
            duration_us: usable,
            speed: Ratio { num: 1, den: 1 },
            volume: volume(options),
            scale: cover_scale(file, canvas_width, canvas_height, options.cover_fill),
        };
        clips.push(clip);
        cursor = cursor + usable;
        index = index + 1;
    }
    assert(us.take(visuals.len() as int) == us);
    if cursor == 0 {
        return Err(PlanError::Empty);
    }
    let plan = TimelinePlan {
        canvas_width,
        canvas_height,
        fps: options.fps,
        duration_us: cursor,
        clips,
        captions: Vec::new(),
    };
    assert(plan.view().clips =~= spec_plan->Ok_0.clips);
    assert(plan.view().captions =~= spec_plan->Ok_0.captions);
    Ok(plan)
}

fn plan_script_driven(
    visuals: &[MediaFile],
    captions: &[Caption],
    options: &EditOptions,
    canvas_width: u32,
    canvas_height: u32,
) -> (r: TimelinePlan)
    requires
        visuals@.len() > 0,
        options.wf(),
        pool_wf(initial_pool(visuals@, *options)),
        seq_sum(script_needs(captions@, *options)) <= u64::MAX,
    ensures
        r.view() == spec_script_plan(visuals@, captions@, *options, canvas_width, canvas_height),
{
    let ghost needs = script_needs(captions@, *options);
    let ghost rem0 = initial_pool(visuals@, *options);
    let ghost spec_plan = spec_script_plan(visuals@, captions@, *options, canvas_width, canvas_height);
    let mut remaining = build_initial_pool(visuals, options);
    let first: (u64, u64) = (remaining[0].1, remaining[0].2);
    let mut clips: Vec<PlannedClip> = Vec::new();
    let mut planned_captions: Vec<PlannedCaption> = Vec::new();
    let mut cursor: u64 = 0;
    let mut media_cursor: usize = 0;
    let mut i: usize = 0;
    while i < captions.len()
        invariant
            0 <= i <= captions.len(),
            needs == script_needs(captions@, *options),
            rem0 == initial_pool(visuals@, *options),
            spec_plan == spec_script_plan(visuals@, captions@, *options, canvas_width, canvas_height),
            visuals@.len() > 0,
            options.wf(),
            pool_wf(rem0),
            rem0.len() == visuals@.len(),
            seq_sum(needs) <= u64::MAX,
            (remaining@, media_cursor as int) == pool_state(rem0, needs.take(i as int)),
            first == first_range(rem0),
            cursor == seq_sum(needs.take(i as int)),
            clips@.len() == i,
            planned_captions@.len() == i,
            forall|k: int| 0 <= k < i ==> (#[trigger] clips@[k]).view() == spec_plan.clips[k],
            forall|k: int|
                0 <= k < i ==> (#[trigger] planned_captions@[k]).view() == spec_plan.captions[k],
        decreases captions.len() - i,
    {
        let caption = &captions[i];
        let needed = caption_duration(caption, options);
        assert(needed == needs[i as int]);
        proof {
            lemma_pool_state_wf(rem0, needs.take(i as int));
            lemma_seq_sum_step(needs, i as int);
            lemma_seq_sum_prefix(needs, i + 1);
            assert(needs.take(i + 1).drop_last() == needs.take(i as int));
        }
        let t = take_from_pool(&mut remaining, &mut media_cursor, needed, first);
        proof {
            lemma_take_keeps_wf(
                pool_state(rem0, needs.take(i as int)).0,
                pool_state(rem0, needs.take(i as int)).1,
                needed,
                first,
            );
        }
        let file = &visuals[t.media_index];
        let clip = PlannedClip {
            media_index: t.media_index,
            path: file.path.clone(),
            source_start_us: t.source_start,
            source_duration_us: t.take,
            timeline_start_us: cursor,
            duration_us: needed,
            speed: t.speed,
            volume: volume(options),
            scale: cover_scale(file, canvas_width, canvas_height, options.cover_fill),
        };
        clips.push(clip);
        let pc = PlannedCaption {
            text: caption.text.clone(),
            timeline_start_us: cursor,
            duration_us: needed,
        };
        planned_captions.push(pc);
        cursor = cursor + needed;
        i = i + 1;
    }
    assert(needs.take(captions.len() as int) == needs);
    let plan = TimelinePlan {
        canvas_width,
        canvas_height,
        fps: options.fps,
        duration_us: cursor,
        clips,
        captions: planned_captions,
    };
    assert(plan.view().clips =~= spec_plan.clips);
    assert(plan.view().captions =~= spec_plan.captions);
    plan
}

fn plan_from_srt(
    visuals: &[MediaFile],
    captions: &[Caption],
    options: &EditOptions,
    canvas_width: u32,
    canvas_height: u32,
) -> (r: TimelinePlan)
    requires
        visuals@.len() > 0,
        all_timed(captions@),
        pool_wf(initial_pool(visuals@, *options)),
        forall|i: int|
            0 <= i < captions@.len() ==> srt_start(#[trigger] captions@[i]) + srt_need(captions@[i])
                <= u64::MAX,
    ensures
        r.view() == spec_srt_plan(visuals@, captions@, *options, canvas_width, canvas_height),
{
    let ghost needs = srt_needs(captions@);
    let ghost rem0 = initial_pool(visuals@, *options);
    let ghost spec_plan = spec_srt_plan(visuals@, captions@, *options, canvas_width, canvas_height);
    let mut remaining = build_initial_pool(visuals, options);
    let first: (u64, u64) = (remaining[0].1, remaining[0].2);
    let mut clips: Vec<PlannedClip> = Vec::new();
    let mut planned_captions: Vec<PlannedCaption> = Vec::new();
    let mut media_cursor: usize = 0;
    let mut duration_us: u64 = 0;
    let mut i: usize = 0;
    while i < captions.len()
        invariant
            0 <= i <= captions.len(),
            needs == srt_needs(captions@),
            rem0 == initial_pool(visuals@, *options),
            spec_plan == spec_srt_plan(visuals@, captions@, *options, canvas_width, canvas_height),
            visuals@.len() > 0,
            all_timed(captions@),
            pool_wf(rem0),
            rem0.len() == visuals@.len(),
            forall|i: int|
                0 <= i < captions@.len() ==> srt_start(#[trigger] captions@[i]) + srt_need(
                    captions@[i],
                ) <= u64::MAX,
            (remaining@, media_cursor as int) == pool_state(rem0, needs.take(i as int)),
            first == first_range(rem0),
            duration_us == srt_end(captions@.take(i as int)),
            clips@.len() == i,
            planned_captions@.len() == i,
            forall|k: int| 0 <= k < i ==> (#[trigger] clips@[k]).view() == spec_plan.clips[k],
            forall|k: int|
                0 <= k < i ==> (#[trigger] planned_captions@[k]).view() == spec_plan.captions[k],
        decreases captions.len() - i,
    {
        let caption = &captions[i];
        assert(captions@[i as int].start_us is Some && captions@[i as int].end_us is Some);
        let start = match caption.start_us {
            Some(s) => s,
            None => duration_us,
        };
        let end = match caption.end_us {
            Some(e) => e,
            None => start,
        };
        let d = end.saturating_sub(start);
        let needed = if d >= 1 {
            d
        } else {
            1
        };
        assert(needed == needs[i as int]);
        proof {
            lemma_pool_state_wf(rem0, needs.take(i as int));
            assert(needs.take(i + 1).drop_last() == needs.take(i as int));
            assert(captions@.take(i + 1).drop_last() == captions@.take(i as int));
        }
        let t = take_from_pool(&mut remaining, &mut media_cursor, needed, first);
        proof {
            lemma_take_keeps_wf(
                pool_state(rem0, needs.take(i as int)).0,
                pool_state(rem0, needs.take(i as int)).1,
                needed,
                first,
            );
        }
        let file = &visuals[t.media_index];
        let clip = PlannedClip {
            media_index: t.media_index,
            path: file.path.clone(),
            source_start_us: t.source_start,
            source_duration_us: t.take,
            timeline_start_us: start,
            duration_us: needed,
            speed: t.speed,
            volume: volume(options),
            scale: cover_scale(file, canvas_width, canvas_height, options.cover_fill),
        };
        clips.push(clip);
        let pc = PlannedCaption {
            text: caption.text.clone(),
            timeline_start_us: start,
            duration_us: needed,
        };
        planned_captions.push(pc);
        let end_here = start + needed;
        duration_us = if duration_us >= end_here {
            duration_us
        } else {
            end_here
        };
        i = i + 1;
    }
    assert(needs.take(captions.len() as int) == needs);
    assert(captions@.take(captions.len() as int) == captions@);
    let plan = TimelinePlan {
        canvas_width,
        canvas_height,
        fps: options.fps,
        duration_us,
        clips,
        captions: planned_captions,
    };
    assert(plan.view().clips =~= spec_plan.clips);
    assert(plan.view().captions =~= spec_plan.captions);
    plan
}

fn all_captions_timed(captions: &[Caption]) -> (r: bool)
    ensures
        r == all_timed(captions@),
{
    let mut i: usize = 0;
    while i < captions.len()
        invariant
            0 <= i <= captions.len(),
            forall|k: int|
                0 <= k < i ==> (#[trigger] captions@[k]).start_us is Some
                    && captions@[k].end_us is Some,
        decreases captions.len() - i,
    {
        if captions[i].start_us.is_none() || captions[i].end_us.is_none() {
            return false;
        }
        i = i + 1;
    }
    true
}

/// Lays the visuals and captions out on a timeline.
pub fn plan_timeline(visuals: &[MediaFile], captions: &[Caption], options: &EditOptions) -> (r: Result<
    TimelinePlan,
    PlanError,
>)
    requires
        options.wf(),
        plan_fits(visuals@, captions@, *options),
    ensures
        match r {
            Ok(plan) => spec_plan_timeline(visuals@, captions@, *options) == Ok::<
                TimelinePlanView,
                PlanError,
            >(plan.view()),
            Err(e) => spec_plan_timeline(visuals@, captions@, *options) == Err::<
                TimelinePlanView,
                PlanError,
            >(e),
        },
{
    if visuals.len() == 0 {
        return Err(PlanError::NoVisuals);
    }
    let (canvas_width, canvas_height) = options.canvas.size();
    proof {
        lemma_initial_pool_wf(visuals@, *options);
    }
    if all_captions_timed(captions) && captions.len() > 0 {
        return Ok(plan_from_srt(visuals, captions, options, canvas_width, canvas_height));
    }
    if captions.len() == 0 {
        return plan_clips_only(visuals, options, canvas_width, canvas_height);
    }
    Ok(plan_script_driven(visuals, captions, options, canvas_width, canvas_height))
}

// ---------------------------------------------------------------------------
// Laws of the plans
// ---------------------------------------------------------------------------
/// With plain copy, each caption gets exactly one clip; clips and captions
/// share their timing; each starts where the previous one ended, the first
/// at zero; and the plan lasts until the last one ends.
pub proof fn lemma_script_plan_contiguous(
    visuals: Seq<MediaFile>,
    captions: Seq<Caption>,
    options: EditOptions,
    canvas_w: u32,
    canvas_h: u32,
)
    requires
        seq_sum(script_needs(captions, options)) <= u64::MAX,
    ensures
        ({
            let p = spec_script_plan(visuals, captions, options, canvas_w, canvas_h);
            &&& p.clips.len() == captions.len()
            &&& p.captions.len() == captions.len()
            &&& forall|i: int|
                0 <= i < p.clips.len() ==> (#[trigger] p.clips[i]).timeline_start_us
                    == p.captions[i].timeline_start_us && p.clips[i].duration_us
                    == p.captions[i].duration_us && p.captions[i].text == captions[i].text@
            &&& p.clips.len() > 0 ==> p.clips[0].timeline_start_us == 0
            &&& forall|i: int|
                0 <= i < p.clips.len() - 1 ==> #[trigger] p.clips[i + 1].timeline_start_us
                    == p.clips[i].timeline_start_us + p.clips[i].duration_us
            &&& p.clips.len() > 0 ==> p.clips.last().timeline_start_us + p.clips.last().duration_us
                == p.duration_us
        }),
{
    let needs = script_needs(captions, options);
    let p = spec_script_plan(visuals, captions, options, canvas_w, canvas_h);
    assert forall|i: int| 0 <= i < p.clips.len() - 1 implies #[trigger] p.clips[i
        + 1].timeline_start_us == p.clips[i].timeline_start_us + p.clips[i].duration_us by {
        lemma_seq_sum_step(needs, i);
        lemma_seq_sum_prefix(needs, i + 1);
        lemma_seq_sum_prefix(needs, i);
    }
    if p.clips.len() > 0 {
        assert(needs.take(0) == Seq::<u64>::empty());
        let n = needs.len() - 1;
        lemma_seq_sum_step(needs, n);
        lemma_seq_sum_prefix(needs, n);
        assert(needs.take(n + 1) == needs);
    }
}

proof fn lemma_take_within(rem0: Seq<Slot>, rem: Seq<Slot>, cursor: int, needed: u64)
    requires
        pool_wf(rem0),
        pool_wf(rem),
        rem0.len() > 0,
        rem0[0].2 >= 1,
        0 <= cursor < rem.len(),
        pool_follows(rem0, rem),
    ensures
        ({
            let t = spec_take(rem, cursor, needed, first_range(rem0)).2;
            let k = t.media_index as int;
            &&& 0 <= k < rem0.len()
            &&& rem0[k].1 <= t.source_start
            &&& t.source_start + t.take <= rem0[k].1 + rem0[k].2
            &&& needed >= 1 ==> t.take >= 1
            &&& t.speed == clamp_speed(t.take, needed)
        }),
{
    lemma_take_keeps_wf(rem, cursor, needed, first_range(rem0));
    lemma_take_follows(rem, cursor, needed, first_range(rem0));
    match first_open(rem, cursor, 0) {
        Some(j) => {
            lemma_first_open_range(rem, cursor, 0);
            let idx = (cursor + j) % (rem.len() as int);
            assert(0 <= idx < rem.len());
            assert(rem[idx].0 == idx);
        },
        None => {
            assert(rem[0].0 == 0);
        },
    }
}

/// Every clip cut from the pool shows one of the visuals, within that
/// visual's usable footage, whether the pool still had material or the
/// first visual plays again; it is at least 1 µs of footage when the caption
/// lasts at least 1 µs, and plays at `take / needed` speed, never below
/// 1/20.
pub proof fn lemma_pool_clips_show_visuals(
    visuals: Seq<MediaFile>,
    needs: Seq<u64>,
    options: EditOptions,
    i: int,
)
    requires
        0 < visuals.len() <= usize::MAX,
        0 <= i < needs.len(),
        forall|k: int|
            0 <= k < visuals.len() ==> spec_usable_range(#[trigger] visuals[k], options).0
                + spec_usable_range(visuals[k], options).1 <= u64::MAX,
    ensures
        ({
            let t = pool_take_at(initial_pool(visuals, options), needs, i);
            let (start, usable) = spec_usable_range(visuals[t.media_index as int], options);
            &&& t.media_index < visuals.len()
            &&& start <= t.source_start
            &&& t.source_start + t.take <= start + usable
            &&& needs[i] >= 1 ==> t.take >= 1
            &&& t.speed == clamp_speed(t.take, needs[i])
        }),
{
    let rem0 = initial_pool(visuals, options);
    lemma_initial_pool_wf(visuals, options);
    lemma_pool_state_wf(rem0, needs.take(i));
    lemma_pool_state_follows(rem0, needs, 0);
    assert(needs.take(0) =~= Seq::<u64>::empty());
    let (r, c) = pool_state(rem0, needs.take(i));
    assert(pool_follows(rem0, r));
    lemma_take_within(rem0, r, c, needs[i]);
    let t = pool_take_at(rem0, needs, i);
    let k = t.media_index as int;
    assert(rem0[k].1 == spec_usable_range(visuals[k], options).0);
    assert(rem0[k].2 == spec_usable_range(visuals[k], options).1);
}

/// Every clip of a planned timeline plays footage that lies within its
/// visual's usable range, at least 1 µs of it, and plays it either as it
/// is (the visuals alone) or stretched over its caption at `take / needed`
/// speed, never below 1/20; this holds as well once every visual is used up
/// and the first one plays again.
pub proof fn lemma_plan_clips_within_footage(
    visuals: Seq<MediaFile>,
    captions: Seq<Caption>,
    options: EditOptions,
)
    requires
        visuals.len() <= usize::MAX,
        options.min_caption_us >= 1,
        plan_fits(visuals, captions, options),
    ensures
        spec_plan_timeline(visuals, captions, options) matches Ok(p) ==> forall|i: int|
            0 <= i < p.clips.len() ==> {
                let c = #[trigger] p.clips[i];
                let (start, usable) = spec_usable_range(visuals[c.media_index as int], options);
                &&& c.media_index < visuals.len()
                &&& start <= c.source_start_us
                &&& c.source_start_us + c.source_duration_us <= start + usable
                &&& c.source_duration_us >= 1
                &&& (c.speed == clamp_speed(c.source_duration_us, c.duration_us) || (c.speed
                    == ratio(1, 1) && c.source_duration_us == c.duration_us))
            },
{
    let (w, h) = options.canvas.spec_size();
    if visuals.len() > 0 {
        if all_timed(captions) && captions.len() > 0 {
            let needs = srt_needs(captions);
            let p = spec_srt_plan(visuals, captions, options, w, h);
            assert forall|i: int| 0 <= i < p.clips.len() implies {
                let c = #[trigger] p.clips[i];
                let (start, usable) = spec_usable_range(visuals[c.media_index as int], options);
                &&& c.media_index < visuals.len()
                &&& start <= c.source_start_us
                &&& c.source_start_us + c.source_duration_us <= start + usable
                &&& c.source_duration_us >= 1
                &&& (c.speed == clamp_speed(c.source_duration_us, c.duration_us) || (c.speed
                    == ratio(1, 1) && c.source_duration_us == c.duration_us))
            } by {
                lemma_pool_clips_show_visuals(visuals, needs, options, i);
            }
        } else if captions.len() > 0 {
            let needs = script_needs(captions, options);
            let p = spec_script_plan(visuals, captions, options, w, h);
            assert forall|i: int| 0 <= i < p.clips.len() implies {
                let c = #[trigger] p.clips[i];
                let (start, usable) = spec_usable_range(visuals[c.media_index as int], options);
                &&& c.media_index < visuals.len()
                &&& start <= c.source_start_us
                &&& c.source_start_us + c.source_duration_us <= start + usable
                &&& c.source_duration_us >= 1
                &&& (c.speed == clamp_speed(c.source_duration_us, c.duration_us) || (c.speed
                    == ratio(1, 1) && c.source_duration_us == c.duration_us))
            } by {
                lemma_pool_clips_show_visuals(visuals, needs, options, i);
            }
        }
    }
}

/// With SRT subtitles, each caption gets exactly one clip at its own time
/// code, lasting from its start to its end (at least 1 µs), and the plan
/// lasts until the latest end.
pub proof fn lemma_srt_plan_keeps_timecodes(
    visuals: Seq<MediaFile>,
    captions: Seq<Caption>,
    options: EditOptions,
    canvas_w: u32,
    canvas_h: u32,
)
    requires
        all_timed(captions),
        forall|i: int|
            0 <= i < captions.len() ==> srt_start(#[trigger] captions[i]) + srt_need(captions[i])
                <= u64::MAX,
    ensures
        ({
            let p = spec_srt_plan(visuals, captions, options, canvas_w, canvas_h);
            &&& p.clips.len() == captions.len()
            &&& p.captions.len() == captions.len()
            &&& forall|i: int|
                0 <= i < captions.len() ==> {
                    &&& (#[trigger] p.clips[i]).timeline_start_us == captions[i].start_us->0
                    &&& p.captions[i].timeline_start_us == captions[i].start_us->0
                    &&& p.clips[i].duration_us == p.captions[i].duration_us
                    &&& p.clips[i].duration_us == max_u64(
                        sat_sub(captions[i].end_us->0, captions[i].start_us->0),
                        1,
                    )
                    &&& p.clips[i].timeline_start_us + p.clips[i].duration_us <= p.duration_us
                }
        }),
{
    let p = spec_srt_plan(visuals, captions, options, canvas_w, canvas_h);
    assert forall|i: int| 0 <= i < captions.len() implies (#[trigger] p.clips[i]).timeline_start_us
        + p.clips[i].duration_us <= p.duration_us by {
        lemma_srt_end_bounds(captions, i);
    }
    assert forall|i: int| 0 <= i < captions.len() implies (#[trigger] p.clips[i]).timeline_start_us
        == captions[i].start_us->0 by {
        assert(captions[i].start_us is Some);
    }
}

proof fn lemma_srt_end_bounds(captions: Seq<Caption>, i: int)
    requires
        0 <= i < captions.len(),
        forall|k: int|
            0 <= k < captions.len() ==> srt_start(#[trigger] captions[k]) + srt_need(captions[k])
                <= u64::MAX,
    ensures
        srt_start(captions[i]) + srt_need(captions[i]) <= srt_end(captions),
    decreases captions.len(),
{
    if i < captions.len() - 1 {
        assert(captions.drop_last()[i] == captions[i]);
        assert forall|k: int| 0 <= k < captions.drop_last().len() implies srt_start(
            #[trigger] captions.drop_last()[k],
        ) + srt_need(captions.drop_last()[k]) <= u64::MAX by {
            assert(captions.drop_last()[k] == captions[k]);
        }
        lemma_srt_end_bounds(captions.drop_last(), i);
    }
}

/// Without copy, the clips are the visuals in order, each starting where
/// the previous one ended; a video starts at the head trim (when it is that
/// long) and keeps what the two trims leave, at least 1 µs; the plan lasts
/// the sum of the clips.
pub proof fn lemma_clips_only_in_order(
    visuals: Seq<MediaFile>,
    options: EditOptions,
    canvas_w: u32,
    canvas_h: u32,
)
    requires
        visuals.len() <= usize::MAX,
        seq_sum(usables(visuals, options)) <= u64::MAX,
        spec_clips_only_plan(visuals, options, canvas_w, canvas_h) is Ok,
    ensures
        ({
            let p = spec_clips_only_plan(visuals, options, canvas_w, canvas_h)->Ok_0;
            &&& p.clips.len() == visuals.len()
            &&& p.captions.len() == 0
            &&& forall|i: int|
                0 <= i < visuals.len() ==> (#[trigger] p.clips[i]).media_index == i
                    && p.clips[i].path == visuals[i].path@
            &&& forall|i: int|
                0 <= i < visuals.len() && visuals[i].kind != MediaKind::Image
                    && options.head_trim_us <= visuals[i].duration_us ==> {
                    &&& (#[trigger] p.clips[i]).source_start_us == options.head_trim_us
                    &&& p.clips[i].duration_us == max_u64(
                        sat_sub(sat_sub(visuals[i].duration_us, options.head_trim_us), options.tail_trim_us),
                        1,
                    )
                }
            &&& forall|i: int|
                0 <= i < p.clips.len() - 1 ==> #[trigger] p.clips[i + 1].timeline_start_us
                    == p.clips[i].timeline_start_us + p.clips[i].duration_us
            &&& p.clips.len() > 0 ==> p.clips.last().timeline_start_us + p.clips.last().duration_us
                == p.duration_us
        }),
{
    let us = usables(visuals, options);
    let p = spec_clips_only_plan(visuals, options, canvas_w, canvas_h)->Ok_0;
    assert forall|i: int| 0 <= i < p.clips.len() - 1 implies #[trigger] p.clips[i
        + 1].timeline_start_us == p.clips[i].timeline_start_us + p.clips[i].duration_us by {
        lemma_seq_sum_step(us, i);
        lemma_seq_sum_prefix(us, i + 1);
        lemma_seq_sum_prefix(us, i);
    }
    if p.clips.len() > 0 {
        let n = us.len() - 1;
        lemma_seq_sum_step(us, n);
        lemma_seq_sum_prefix(us, n);
        assert(us.take(n + 1) == us);
    }
}

/// Whether `plan_timeline` can lay these inputs out within `u64`
/// microseconds (its precondition).
pub fn plan_within_limits(visuals: &[MediaFile], captions: &[Caption], options: &EditOptions) -> (r:
    bool)
    requires
        options.wf(),
    ensures
        r == plan_fits(visuals@, captions@, *options),
{
    let mut k: usize = 0;
    while k < visuals.len()
        invariant
            0 <= k <= visuals.len(),
            forall|j: int|
                0 <= j < k ==> spec_usable_range(#[trigger] visuals@[j], *options).0
                    + spec_usable_range(visuals@[j], *options).1 <= u64::MAX,
        decreases visuals.len() - k,
    {
        let (start, usable) = usable_range(&visuals[k], options);
        if start.checked_add(usable).is_none() {
            return false;
        }
        k = k + 1;
    }
    let timed = all_captions_timed(captions);
    if timed && captions.len() > 0 {
        let mut i: usize = 0;
        while i < captions.len()
            invariant
                0 <= i <= captions.len(),
                all_timed(captions@),
                forall|j: int|
                    0 <= j < i ==> srt_start(#[trigger] captions@[j]) + srt_need(captions@[j])
                        <= u64::MAX,
            decreases captions.len() - i,
        {
            assert(captions@[i as int].start_us is Some && captions@[i as int].end_us is Some);
            let start = captions[i].start_us.unwrap();
            let end = captions[i].end_us.unwrap();
            let d = end.saturating_sub(start);
            let needed = if d >= 1 {
                d
            } else {
                1
            };
            if start.checked_add(needed).is_none() {
                return false;
            }
            i = i + 1;
        }
        return true;
    }
    if captions.len() == 0 {
        let ghost us = usables(visuals@, *options);
        let mut acc: u64 = 0;
        let mut k: usize = 0;
        while k < visuals.len()
            invariant
                0 <= k <= visuals.len(),
                us == usables(visuals@, *options),
                acc == seq_sum(us.take(k as int)),
                captions@.len() == 0,
            decreases visuals.len() - k,
        {
            let (_, usable) = usable_range(&visuals[k], options);
            proof {
                lemma_seq_sum_step(us, k as int);
            }
            match acc.checked_add(usable) {
                Some(x) => {
                    acc = x;
                },
                None => {
                    proof {
                        assert(us[k as int] == usable);
                        lemma_seq_sum_prefix(us, k + 1);
                        assert(seq_sum(us) > u64::MAX);
                    }
                    return false;
                },
            }
            k = k + 1;
        }
        assert(us.take(visuals.len() as int) == us);
        return true;
    }
    let ghost needs = script_needs(captions@, *options);
    let mut acc: u64 = 0;
    let mut i: usize = 0;
    while i < captions.len()
        invariant
            0 <= i <= captions.len(),
            options.wf(),
            needs == script_needs(captions@, *options),
            acc == seq_sum(needs.take(i as int)),
            captions@.len() > 0,
            !all_timed(captions@),
        decreases captions.len() - i,
    {
        let needed = caption_duration(&captions[i], options);
        proof {
            lemma_seq_sum_step(needs, i as int);
        }
        match acc.checked_add(needed) {
            Some(x) => {
                acc = x;
            },
            None => {
                proof {
                    assert(needs[i as int] == needed);
                    lemma_seq_sum_prefix(needs, i + 1);
                    assert(seq_sum(needs) > u64::MAX);
                }
                return false;
            },
        }
        i = i + 1;
    }
    assert(needs.take(captions.len() as int) == needs);
    true
}


// ---------------------------------------------------------------------------
// The plan as Markdown
// ---------------------------------------------------------------------------
/// A clip's times and speed, written out by the caller: where it starts and
/// how long it lasts in seconds, and its speed factor, each to two decimals.
#[derive(Debug, Clone)]
pub struct ClipFigures {
    pub start_s: String,
    pub duration_s: String,
    pub speed: String,
}

/// The clip's file name, or its whole path when it has none.
pub open spec fn clip_label(path: Seq<char>) -> Seq<char> {
    match spec_file_name(path) {
        Some(f) => f,
        None => path,
    }
}

/// The text of the caption at `i`, or nothing past the last caption.
pub open spec fn caption_at(captions: Seq<PlannedCaption>, i: int) -> Seq<char> {
    if 0 <= i < captions.len() {
        captions[i].text@
    } else {
        Seq::empty()
    }
}

/// The plan's title, summary and table header.
pub open spec fn plan_head(plan: TimelinePlan, name: Seq<char>, total_s: Seq<char>) -> Seq<char> {
    "# "@ + name + "\n\n"@ + "- 画布: "@ + decimal(plan.canvas_width as nat) + "x"@ + decimal(
        plan.canvas_height as nat,
    ) + " @ "@ + decimal(plan.fps as nat) + "fps\n- 总时长: "@ + total_s + "s\n- 视频片段: "@
        + decimal(plan.clips.len() as nat) + "\n- 字幕: "@ + decimal(plan.captions.len() as nat)
        + "\n\n"@ + "| 时间 | 时长 | 素材 | 速度 | 字幕 |\n| --- | --- | --- | --- | --- |\n"@
}

/// The table row of the clip at `i`, beside the caption with the same index.
pub open spec fn plan_line(plan: TimelinePlan, i: int, fig: ClipFigures) -> Seq<char> {
    "| "@ + fig.start_s@ + "s | "@ + fig.duration_s@ + "s | "@ + clip_label(plan.clips[i].path@)
        + " | "@ + fig.speed@ + "x | "@ + caption_at(plan.captions@, i) + " |\n"@
}

/// The table rows of the first `n` clips.
pub open spec fn plan_lines(plan: TimelinePlan, figs: Seq<ClipFigures>, n: nat) -> Seq<char>
    decreases n,
{
    if n == 0 {
        Seq::empty()
    } else {
        plan_lines(plan, figs, (n - 1) as nat) + plan_line(plan, n - 1, figs[n - 1])
    }
}

fn push_plan_head(out: &mut String, plan: &TimelinePlan, name: &str, total_s: &str)
    ensures
        final(out)@ == old(out)@ + plan_head(*plan, name@, total_s@),
{
    let ghost begin = out@;
    push_str(out, "# ");
    push_str(out, name);
    push_str(out, "\n\n");
    push_str(out, "- 画布: ");
    push_decimal(out, plan.canvas_width as u64);
    push_str(out, "x");
    push_decimal(out, plan.canvas_height as u64);
    push_str(out, " @ ");
    push_decimal(out, plan.fps as u64);
    push_str(out, "fps\n- 总时长: ");
    push_str(out, total_s);
    push_str(out, "s\n- 视频片段: ");
    push_decimal(out, plan.clips.len() as u64);
    push_str(out, "\n- 字幕: ");
    push_decimal(out, plan.captions.len() as u64);
    push_str(out, "\n\n");
    push_str(out, "| 时间 | 时长 | 素材 | 速度 | 字幕 |\n| --- | --- | --- | --- | --- |\n");
    assert(out@ =~= begin + plan_head(*plan, name@, total_s@));
}

fn push_plan_line(out: &mut String, plan: &TimelinePlan, i: usize, fig: &ClipFigures)
    requires
        i < plan.clips.len(),
    ensures
        final(out)@ == old(out)@ + plan_line(*plan, i as int, *fig),
{
    let ghost begin = out@;
    let clip = &plan.clips[i];
    push_str(out, "| ");
    push_str(out, fig.start_s.as_str());
    push_str(out, "s | ");
    push_str(out, fig.duration_s.as_str());
    push_str(out, "s | ");
    match file_name(clip.path.as_str()) {
        Some(f) => push_str(out, f.as_str()),
        None => push_str(out, clip.path.as_str()),
    }
    push_str(out, " | ");
    push_str(out, fig.speed.as_str());
    push_str(out, "x | ");
    if i < plan.captions.len() {
        push_str(out, plan.captions[i].text.as_str());
    }
    push_str(out, " |\n");
    assert(out@ =~= begin + plan_line(*plan, i as int, *fig));
}

/// The plan as a Markdown note: the canvas, the total length, the counts,
/// and a table of the clips with their captions. `total_s` and the figures
/// are the times and speeds as the note shows them.
pub fn render_plan_markdown(plan: &TimelinePlan, name: &str, total_s: &str, figures: &[ClipFigures]) -> (r:
    String)
    requires
        figures.len() == plan.clips.len(),
    ensures
        r@ == plan_head(*plan, name@, total_s@) + plan_lines(*plan, figures@, plan.clips.len() as nat),
{
    let mut out = String::new();
    push_plan_head(&mut out, plan, name, total_s);
    let ghost mid = out@;
    let mut i: usize = 0;
    while i < plan.clips.len()
        invariant
            0 <= i <= plan.clips.len() == figures.len(),
            out@ == mid + plan_lines(*plan, figures@, i as nat),
        decreases plan.clips.len() - i,
    {
        push_plan_line(&mut out, plan, i, &figures[i]);
        assert(out@ =~= mid + plan_lines(*plan, figures@, (i + 1) as nat));
        i = i + 1;
    }
    out
}

} // verus!
