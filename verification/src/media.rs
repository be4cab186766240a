//! Media files: kinds by extension, and what probing a file gives.
use vstd::prelude::*;

use crate::json::{into_at, json_of_bytes, parse_json_bytes, JsonValue};
use crate::text::{chars_eq_str, chars_of, push_str, split_char, split_on, string_of, sub_chars};

verus! {

#[derive(Debug, Clone, Copy, PartialEq, Eq, Structural)]
pub enum MediaKind {
    Video,
    Audio,
    Image,
}

#[derive(Debug, Clone)]
pub struct MediaFile {
    pub path: String,
    pub name: String,
    pub kind: MediaKind,
    pub duration_us: u64,
    pub width: u32,
    pub height: u32,
}

#[derive(Debug)]
pub enum MediaError {
    NotFound(String),
    Probe(String),
}

impl MediaKind {
    /// The kind's name as written in JSON.
    pub fn as_str(self) -> (r: &'static str)
        ensures
            r@ == self.spec_name(),
    {
        match self {
            MediaKind::Video => "video",
            MediaKind::Audio => "audio",
            MediaKind::Image => "image",
        }
    }

    pub open spec fn spec_name(self) -> Seq<char> {
        match self {
            MediaKind::Video => "video"@,
            MediaKind::Audio => "audio"@,
            MediaKind::Image => "image"@,
        }
    }
}

// ---------------------------------------------------------------------------
// Paths ('/'-separated)
// ---------------------------------------------------------------------------
/// The named components of a path: the pieces between slashes, without
/// empty pieces and `.`.
pub open spec fn path_components(parts: Seq<Seq<char>>) -> Seq<Seq<char>>
    decreases parts.len(),
{
    if parts.len() == 0 {
        Seq::empty()
    } else {
        let rest = path_components(parts.drop_last());
        let c = parts.last();
        if c.len() == 0 || c == seq!['.'] {
            rest
        } else {
            rest.push(c)
        }
    }
}

/// `Path::file_name`: the last named component, unless it is `..`.
pub open spec fn spec_file_name(path: Seq<char>) -> Option<Seq<char>> {
    let cs = path_components(split_char(path, '/'));
    if cs.len() == 0 || cs.last() == seq!['.', '.'] {
        None
    } else {
        Some(cs.last())
    }
}

/// The index of the last `.` in `s`.
pub open spec fn last_dot(s: Seq<char>) -> Option<int>
    decreases s.len(),
{
    if s.len() == 0 {
        None
    } else if s.last() == '.' {
        Some(s.len() - 1)
    } else {
        last_dot(s.drop_last())
    }
}

/// `Path::extension`: the text after the last dot of the file name, when
/// something stands before that dot.
pub open spec fn spec_extension(path: Seq<char>) -> Option<Seq<char>> {
    match spec_file_name(path) {
        None => None,
        Some(f) => match last_dot(f) {
            None => None,
            Some(k) => if k == 0 {
                None
            } else {
                Some(f.skip(k + 1))
            },
        },
    }
}

/// The file name of a path, as text.
pub fn file_name(path: &str) -> (r: Option<String>)
    ensures
        match r {
            Some(s) => spec_file_name(path@) == Some(s@),
            None => spec_file_name(path@) is None,
        },
{
    let v = chars_of(path);
    match file_name_chars(&v) {
        Some(f) => Some(string_of(&f)),
        None => None,
    }
}

fn file_name_chars(v: &[char]) -> (r: Option<Vec<char>>)
    ensures
        match r {
            Some(s) => spec_file_name(v@) == Some(s@),
            None => spec_file_name(v@) is None,
        },
{
    let parts = split_on(v, '/');
    let ghost pv = split_char(v@, '/');
    let mut last: Option<usize> = None;
    let mut i: usize = 0;
    while i < parts.len()
        invariant
            0 <= i <= parts.len(),
            parts@.len() == pv.len(),
            forall|k: int| 0 <= k < parts@.len() ==> #[trigger] parts@[k]@ == pv[k],
            match last {
                Some(k) => k < i && path_components(pv.take(i as int)).len() > 0
                    && path_components(pv.take(i as int)).last() == pv[k as int],
                None => path_components(pv.take(i as int)).len() == 0,
            },
        decreases parts.len() - i,
    {
        assert(pv.take(i + 1).drop_last() == pv.take(i as int));
        let c = &parts[i];
        if !(c.len() == 0 || (c.len() == 1 && c[0] == '.')) {
            last = Some(i);
        } else {
            assert(c@.len() == 0 || c@ == seq!['.']);
        }
        proof {
            if c@.len() == 1 && c@[0] == '.' {
                assert(c@ == seq!['.']);
            }
            if c@ == seq!['.'] {
                assert(c@.len() == 1 && c@[0] == '.');
            }
        }
        i = i + 1;
    }
    assert(pv.take(parts.len() as int) == pv);
    match last {
        None => None,
        Some(k) => {
            let c = &parts[k];
            if c.len() == 2 && c[0] == '.' && c[1] == '.' {
                assert(c@ == seq!['.', '.']);
                None
            } else {
                assert(c@ != seq!['.', '.']);
                let r = sub_chars(c, 0, c.len());
                assert(r@ == c@);
                Some(r)
            }
        },
    }
}

/// The extension of a path's file name, as characters.
fn extension_chars(v: &[char]) -> (r: Option<Vec<char>>)
    ensures
        match r {
            Some(s) => spec_extension(v@) == Some(s@),
            None => spec_extension(v@) is None,
        },
{
    let f = match file_name_chars(v) {
        Some(f) => f,
        None => {
            return None;
        },
    };
    let mut k: usize = f.len();
    assert(f@.take(f.len() as int) == f@);
    while k > 0 && f[k - 1] != '.'
        invariant
            0 <= k <= f.len(),
            last_dot(f@) == last_dot(f@.take(k as int)),
        decreases k,
    {
        assert(f@.take(k as int).drop_last() == f@.take(k - 1));
        k = k - 1;
    }
    if k == 0 {
        assert(f@.take(0) == Seq::<char>::empty());
        return None;
    }
    assert(last_dot(f@.take(k as int)) == Some(k - 1));
    if k == 1 {
        return None;
    }
    let r = sub_chars(&f, k, f.len());
    assert(r@ == f@.skip(k as int));
    Some(r)
}

/// `c` in lower case when it is an ASCII letter.
pub open spec fn ascii_lower(c: char) -> char {
    if 'A' <= c <= 'Z' {
        ((c as u32) + 32) as char
    } else {
        c
    }
}

pub open spec fn ascii_lowercase(s: Seq<char>) -> Seq<char> {
    s.map_values(|c: char| ascii_lower(c))
}

fn lower_char(c: char) -> (r: char)
    ensures
        r == ascii_lower(c),
{
    if 'A' <= c && c <= 'Z' {
        let b: u8 = (c as u8) + 32;
        b as char
    } else {
        c
    }
}

pub open spec fn is_video_ext(e: Seq<char>) -> bool {
    e == "mp4"@ || e == "mov"@ || e == "mkv"@ || e == "avi"@ || e == "webm"@ || e == "m4v"@ || e
        == "flv"@
}

pub open spec fn is_audio_ext(e: Seq<char>) -> bool {
    e == "mp3"@ || e == "wav"@ || e == "aac"@ || e == "m4a"@ || e == "flac"@ || e == "ogg"@
}

pub open spec fn is_image_ext(e: Seq<char>) -> bool {
    e == "jpg"@ || e == "jpeg"@ || e == "png"@ || e == "webp"@ || e == "bmp"@
}

/// The media kind that a path's extension (in any letter case) names.
pub open spec fn spec_extension_kind(path: Seq<char>) -> Option<MediaKind> {
    match spec_extension(path) {
        None => None,
        Some(e) => {
            let l = ascii_lowercase(e);
            if is_video_ext(l) {
                Some(MediaKind::Video)
            } else if is_audio_ext(l) {
                Some(MediaKind::Audio)
            } else if is_image_ext(l) {
                Some(MediaKind::Image)
            } else {
                None
            }
        },
    }
}

/// The media kind of a file, by its extension.
pub fn extension_kind(path: &str) -> (r: Option<MediaKind>)
    ensures
        r == spec_extension_kind(path@),
{
    let v = chars_of(path);
    let e = match extension_chars(&v) {
        Some(e) => e,
        None => {
            return None;
        },
    };
    let mut l: Vec<char> = Vec::new();
    let mut i: usize = 0;
    while i < e.len()
        invariant
            0 <= i <= e.len(),
            l@ == ascii_lowercase(e@.take(i as int)),
        decreases e.len() - i,
    {
        l.push(lower_char(e[i]));
        assert(ascii_lowercase(e@.take(i + 1)) == ascii_lowercase(e@.take(i as int)).push(
            ascii_lower(e@[i as int]),
        ));
        i = i + 1;
    }
    assert(e@.take(e.len() as int) == e@);
    if chars_eq_str(&l, "mp4") || chars_eq_str(&l, "mov") || chars_eq_str(&l, "mkv")
        || chars_eq_str(&l, "avi") || chars_eq_str(&l, "webm") || chars_eq_str(&l, "m4v")
        || chars_eq_str(&l, "flv") {
        Some(MediaKind::Video)
    } else if chars_eq_str(&l, "mp3") || chars_eq_str(&l, "wav") || chars_eq_str(&l, "aac")
        || chars_eq_str(&l, "m4a") || chars_eq_str(&l, "flac") || chars_eq_str(&l, "ogg") {
        Some(MediaKind::Audio)
    } else if chars_eq_str(&l, "jpg") || chars_eq_str(&l, "jpeg") || chars_eq_str(&l, "png")
        || chars_eq_str(&l, "webp") || chars_eq_str(&l, "bmp") {
        Some(MediaKind::Image)
    } else {
        None
    }
}

// ---------------------------------------------------------------------------
// Probing
// ---------------------------------------------------------------------------
/// What probing a file reported: its length and its frame size.
#[derive(Debug, Clone, Copy)]
pub struct StreamInfo {
    pub duration_us: u64,
    pub width: u32,
    pub height: u32,
}

pub struct MediaFileView {
    pub path: Seq<char>,
    pub name: Seq<char>,
    pub kind: MediaKind,
    pub duration_us: u64,
    pub width: u32,
    pub height: u32,
}

pub enum MediaErrorView {
    NotFound(Seq<char>),
    Probe(Seq<char>),
}

impl MediaFile {
    pub open spec fn view(&self) -> MediaFileView {
        MediaFileView {
            path: self.path@,
            name: self.name@,
            kind: self.kind,
            duration_us: self.duration_us,
            width: self.width,
            height: self.height,
        }
    }
}

impl MediaError {
    pub open spec fn view(&self) -> MediaErrorView {
        match self {
            MediaError::NotFound(p) => MediaErrorView::NotFound(p@),
            MediaError::Probe(m) => MediaErrorView::Probe(m@),
        }
    }
}

/// A file's display name: its file name, or `clip`.
pub open spec fn media_name(path: Seq<char>) -> Seq<char> {
    match spec_file_name(path) {
        Some(f) => f,
        None => "clip"@,
    }
}

/// A media file from its path and what probing it reported: images last
/// `default_image_us` and keep a portrait frame when their size is unknown;
/// videos and audio need the probe.
pub open spec fn spec_probe_file(
    path: Seq<char>,
    default_image_us: u64,
    probed: Option<StreamInfo>,
) -> Result<MediaFileView, MediaErrorView> {
    match spec_extension_kind(path) {
        None => Err(MediaErrorView::Probe("unsupported media type: "@ + path)),
        Some(kind) => {
            let name = media_name(path);
            if kind == MediaKind::Image {
                Ok(
                    MediaFileView {
                        path,
                        name,
                        kind,
                        duration_us: default_image_us,
                        width: match probed {
                            Some(p) => p.width,
                            None => 1080,
                        },
                        height: match probed {
                            Some(p) => p.height,
                            None => 1920,
                        },
                    },
                )
            } else {
                match probed {
                    Some(p) => Ok(
                        MediaFileView {
                            path,
                            name,
                            kind,
                            duration_us: p.duration_us,
                            width: p.width,
                            height: p.height,
                        },
                    ),
                    None => Err(
                        MediaErrorView::Probe(
                            "ffprobe failed for "@ + path
                                + " — install ffmpeg/ffprobe, or pass --assume-seconds"@,
                        ),
                    ),
                }
            }
        },
    }
}

fn media_name_of(path: &str) -> (r: String)
    ensures
        r@ == media_name(path@),
{
    match file_name(path) {
        Some(f) => f,
        None => String::from_str("clip"),
    }
}

fn copy_string(s: &str) -> (r: String)
    ensures
        r@ == s@,
{
    String::from_str(s)
}

/// Builds the media file for `path` from what probing it reported.
pub fn probe_file(path: &str, default_image_us: u64, probed: Option<StreamInfo>) -> (r: Result<
    MediaFile,
    MediaError,
>)
    ensures
        match r {
            Ok(f) => spec_probe_file(path@, default_image_us, probed) == Ok::<
                MediaFileView,
                MediaErrorView,
            >(f.view()),
            Err(e) => spec_probe_file(path@, default_image_us, probed) == Err::<
                MediaFileView,
                MediaErrorView,
            >(e.view()),
        },
{
    let kind = match extension_kind(path) {
        Some(k) => k,
        None => {
            let mut msg = String::new();
            push_str(&mut msg, "unsupported media type: ");
            push_str(&mut msg, path);
            return Err(MediaError::Probe(msg));
        },
    };
    let name = media_name_of(path);
    if kind == MediaKind::Image {
        let (width, height) = match probed {
            Some(p) => (p.width, p.height),
            None => (1080, 1920),
        };
        return Ok(
            MediaFile {
                path: copy_string(path),
                name,
                kind,
                duration_us: default_image_us,
                width,
                height,
            },
        );
    }
    match probed {
        Some(p) => Ok(
            MediaFile {
                path: copy_string(path),
                name,
                kind,
                duration_us: p.duration_us,
                width: p.width,
                height: p.height,
            },
        ),
        None => {
            let mut msg = String::new();
            push_str(&mut msg, "ffprobe failed for ");
            push_str(&mut msg, path);
            push_str(&mut msg, " — install ffmpeg/ffprobe, or pass --assume-seconds");
            Err(MediaError::Probe(msg))
        },
    }
}

/// `probe_file`, falling back (when a length is assumed and the extension is
/// known) to a portrait clip of the assumed length.
pub open spec fn spec_probe_file_or_assume(
    path: Seq<char>,
    default_image_us: u64,
    probed: Option<StreamInfo>,
    assume_us: Option<u64>,
) -> Result<MediaFileView, MediaErrorView> {
    match spec_probe_file(path, default_image_us, probed) {
        Ok(f) => Ok(f),
        Err(e) => match assume_us {
            None => Err(e),
            Some(us) => match spec_extension_kind(path) {
                None => Err(e),
                Some(kind) => Ok(
                    MediaFileView {
                        path,
                        name: media_name(path),
                        kind,
                        duration_us: us,
                        width: 1080,
                        height: 1920,
                    },
                ),
            },
        },
    }
}

/// Builds the media file for `path`; when probing gave nothing and a length
/// is assumed, a portrait clip of that length.
pub fn probe_file_or_assume(
    path: &str,
    default_image_us: u64,
    probed: Option<StreamInfo>,
    assume_us: Option<u64>,
) -> (r: Result<MediaFile, MediaError>)
    ensures
        match r {
            Ok(f) => spec_probe_file_or_assume(path@, default_image_us, probed, assume_us) == Ok::<
                MediaFileView,
                MediaErrorView,
            >(f.view()),
            Err(e) => spec_probe_file_or_assume(path@, default_image_us, probed, assume_us) == Err::<
                MediaFileView,
                MediaErrorView,
            >(e.view()),
        },
{
    match probe_file(path, default_image_us, probed) {
        Ok(file) => Ok(file),
        Err(err) => {
            let us = match assume_us {
                Some(us) => us,
                None => {
                    return Err(err);
                },
            };
            let kind = match extension_kind(path) {
                Some(k) => k,
                None => {
                    return Err(err);
                },
            };
            Ok(
                MediaFile {
                    path: copy_string(path),
                    name: media_name_of(path),
                    kind,
                    duration_us: us,
                    width: 1080,
                    height: 1920,
                },
            )
        },
    }
}

// ---------------------------------------------------------------------------
// Collecting
// ---------------------------------------------------------------------------
/// Text order: by code point, a prefix first.
pub open spec fn text_lt(a: Seq<char>, b: Seq<char>) -> bool
    decreases a.len(),
{
    if a.len() == 0 {
        b.len() > 0
    } else if b.len() == 0 {
        false
    } else if a[0] != b[0] {
        a[0] < b[0]
    } else {
        text_lt(a.drop_first(), b.drop_first())
    }
}

pub open spec fn text_le(a: Seq<char>, b: Seq<char>) -> bool {
    a == b || text_lt(a, b)
}

pub open spec fn sorted_texts(s: Seq<Seq<char>>) -> bool {
    forall|i: int, j: int| 0 <= i < j < s.len() ==> text_le(#[trigger] s[i], #[trigger] s[j])
}

proof fn lemma_text_lt_total(a: Seq<char>, b: Seq<char>)
    ensures
        a == b || text_lt(a, b) || text_lt(b, a),
    decreases a.len(),
{
    if a.len() > 0 && b.len() > 0 && a[0] == b[0] {
        lemma_text_lt_total(a.drop_first(), b.drop_first());
        if a.drop_first() == b.drop_first() {
            assert(a == seq![a[0]] + a.drop_first());
            assert(b == seq![b[0]] + b.drop_first());
        }
    } else if a.len() == 0 && b.len() == 0 {
        assert(a =~= b);
    }
}

proof fn lemma_text_lt_trans(a: Seq<char>, b: Seq<char>, c: Seq<char>)
    requires
        text_lt(a, b),
        text_lt(b, c),
    ensures
        text_lt(a, c),
    decreases a.len(),
{
    if a.len() > 0 && b.len() > 0 && c.len() > 0 && a[0] == b[0] && b[0] == c[0] {
        lemma_text_lt_trans(a.drop_first(), b.drop_first(), c.drop_first());
    }
}

fn texts_lt(a: &[char], b: &[char]) -> (r: bool)
    ensures
        r == text_lt(a@, b@),
{
    let mut i: usize = 0;
    assert(a@.skip(0) == a@ && b@.skip(0) == b@);
    while i < a.len() && i < b.len() && a[i] == b[i]
        invariant
            0 <= i <= a.len(),
            i <= b.len(),
            text_lt(a@, b@) == text_lt(a@.skip(i as int), b@.skip(i as int)),
        decreases a.len() - i,
    {
        assert(a@.skip(i as int).drop_first() == a@.skip(i + 1));
        assert(b@.skip(i as int).drop_first() == b@.skip(i + 1));
        i = i + 1;
    }
    if i == a.len() {
        i < b.len()
    } else if i == b.len() {
        false
    } else {
        a[i] < b[i]
    }
}

/// The kind is one of `kinds`.
pub open spec fn kind_wanted(path: Seq<char>, kinds: Seq<MediaKind>) -> bool {
    match spec_extension_kind(path) {
        Some(k) => kinds.contains(k),
        None => false,
    }
}

/// The entries whose extension names one of the kinds, in their order.
pub open spec fn wanted_entries(entries: Seq<Seq<char>>, kinds: Seq<MediaKind>) -> Seq<Seq<char>>
    decreases entries.len(),
{
    if entries.len() == 0 {
        Seq::empty()
    } else {
        let rest = wanted_entries(entries.drop_last(), kinds);
        if kind_wanted(entries.last(), kinds) {
            rest.push(entries.last())
        } else {
            rest
        }
    }
}

pub open spec fn texts_of(v: Seq<String>) -> Seq<Seq<char>> {
    v.map_values(|s: String| s@)
}

fn kind_in(k: MediaKind, kinds: &[MediaKind]) -> (r: bool)
    ensures
        r == kinds@.contains(k),
{
    let mut i: usize = 0;
    while i < kinds.len()
        invariant
            0 <= i <= kinds.len(),
            forall|j: int| 0 <= j < i ==> kinds@[j] != k,
        decreases kinds.len() - i,
    {
        if kinds[i] == k {
            assert(kinds@[i as int] == k);
            return true;
        }
        i = i + 1;
    }
    false
}

/// Inserts `x` into the sorted `v`, after every entry not above it.
fn insert_sorted(v: &mut Vec<String>, x: String)
    requires
        sorted_texts(texts_of(old(v)@)),
    ensures
        sorted_texts(texts_of(final(v)@)),
        texts_of(final(v)@).to_multiset() == texts_of(old(v)@).to_multiset().insert(x@),
{
    let xc = chars_of(x.as_str());
    let mut p: usize = 0;
    let mut stop = false;
    while !stop && p < v.len()
        invariant
            0 <= p <= v.len(),
            v@ == old(v)@,
            xc@ == x@,
            stop ==> p < v.len() && text_lt(x@, texts_of(v@)[p as int]),
            forall|j: int| 0 <= j < p ==> !text_lt(x@, #[trigger] texts_of(v@)[j]),
        decreases v.len() - p + (if stop { 0int } else { 1int }),
    {
        let cur = chars_of(v[p].as_str());
        if texts_lt(&xc, &cur) {
            stop = true;
        } else {
            p = p + 1;
        }
    }
    let ghost old_t = texts_of(v@);
    assert(p < v@.len() ==> text_lt(x@, old_t[p as int]));
    v.insert(p, x);
    assert(texts_of(v@) =~= old_t.insert(p as int, x@));
    proof {
        vstd::seq_lib::to_multiset_insert(old_t, p as int, x@);
        let t = texts_of(v@);
        assert forall|i: int, j: int| 0 <= i < j < t.len() implies text_le(#[trigger] t[i], #[trigger] t[j]) by {
            if i < p && j == p {
                lemma_text_lt_total(old_t[i], x@);
            } else if i == p && j > p {
                if old_t[p as int] != old_t[j - 1] {
                    lemma_text_lt_trans(x@, old_t[p as int], old_t[j - 1]);
                }
            } else if i < p && j > p {
                assert(text_le(old_t[i], old_t[j - 1]));
            } else if j < p {
                assert(text_le(old_t[i], old_t[j]));
            } else {
                assert(text_le(old_t[i - 1], old_t[j - 1]));
            }
        }
    }
}

/// The entries whose extension names one of `kinds`, sorted by text.
pub fn collect_by_kind(entries: &[String], kinds: &[MediaKind]) -> (r: Vec<String>)
    ensures
        sorted_texts(texts_of(r@)),
        texts_of(r@).to_multiset() == wanted_entries(texts_of(entries@), kinds@).to_multiset(),
{
    let ghost ev = texts_of(entries@);
    let mut files: Vec<String> = Vec::new();
    assert(ev.take(0) == Seq::<Seq<char>>::empty());
    assert(texts_of(files@) == Seq::<Seq<char>>::empty());
    let mut i: usize = 0;
    while i < entries.len()
        invariant
            0 <= i <= entries.len(),
            ev == texts_of(entries@),
            sorted_texts(texts_of(files@)),
            texts_of(files@).to_multiset() == wanted_entries(ev.take(i as int), kinds@).to_multiset(),
        decreases entries.len() - i,
    {
        assert(ev.take(i + 1).drop_last() == ev.take(i as int));
        assert(ev.take(i + 1).last() == entries@[i as int]@);
        let wanted = match extension_kind(entries[i].as_str()) {
            Some(k) => kind_in(k, kinds),
            None => false,
        };
        if wanted {
            let x = copy_string(entries[i].as_str());
            insert_sorted(&mut files, x);
            proof {
                let w = wanted_entries(ev.take(i as int), kinds@);
                vstd::seq_lib::to_multiset_build(w, entries@[i as int]@);
            }
        }
        i = i + 1;
    }
    assert(ev.take(entries.len() as int) == ev);
    files
}

/// The video and image entries, sorted by text.
pub fn collect_visuals(entries: &[String]) -> (r: Vec<String>)
    ensures
        sorted_texts(texts_of(r@)),
        texts_of(r@).to_multiset() == wanted_entries(
            texts_of(entries@),
            seq![MediaKind::Video, MediaKind::Image],
        ).to_multiset(),
{
    let kinds = [MediaKind::Video, MediaKind::Image];
    assert(kinds@ == seq![MediaKind::Video, MediaKind::Image]);
    collect_by_kind(entries, &kinds)
}

/// The audio entries, sorted by text.
pub fn collect_audios(entries: &[String]) -> (r: Vec<String>)
    ensures
        sorted_texts(texts_of(r@)),
        texts_of(r@).to_multiset() == wanted_entries(texts_of(entries@), seq![MediaKind::Audio]).to_multiset(),
{
    let kinds = [MediaKind::Audio];
    assert(kinds@ == seq![MediaKind::Audio]);
    collect_by_kind(entries, &kinds)
}


/// What a wanted list holds has a wanted kind, and came from the entries.
proof fn lemma_wanted_members(entries: Seq<Seq<char>>, kinds: Seq<MediaKind>, p: Seq<char>)
    ensures
        wanted_entries(entries, kinds).contains(p) <==> (entries.contains(p) && kind_wanted(p, kinds)),
    decreases entries.len(),
{
    if entries.len() > 0 {
        let rest = entries.drop_last();
        lemma_wanted_members(rest, kinds, p);
        let w = wanted_entries(rest, kinds);
        if entries.contains(p) && p != entries.last() {
            let i = choose|i: int| 0 <= i < entries.len() && entries[i] == p;
            assert(rest[i] == p);
        }
        if rest.contains(p) {
            let i = choose|i: int| 0 <= i < rest.len() && rest[i] == p;
            assert(entries[i] == p);
        }
        if kind_wanted(entries.last(), kinds) {
            assert(w.push(entries.last())[w.len() as int] == entries.last());
            if w.contains(p) {
                let i = choose|i: int| 0 <= i < w.len() && w[i] == p;
                assert(w.push(entries.last())[i] == p);
            }
            if w.push(entries.last()).contains(p) && p != entries.last() {
                let i = choose|i: int| 0 <= i < w.len() + 1 && w.push(entries.last())[i] == p;
                assert(w[i] == p);
            }
        }
        assert(entries[entries.len() - 1] == entries.last());
    }
}

/// The media kinds: every kind that an extension can name.
pub open spec fn all_kinds() -> Seq<MediaKind> {
    seq![MediaKind::Video, MediaKind::Audio, MediaKind::Image]
}

proof fn lemma_kind_lists(k: MediaKind)
    ensures
        visual_kinds().contains(k) <==> (k == MediaKind::Video || k == MediaKind::Image),
        audio_kinds().contains(k) <==> k == MediaKind::Audio,
        all_kinds().contains(k),
{
    let vi = visual_kinds();
    let a = audio_kinds();
    assert(vi[0] == MediaKind::Video && vi[1] == MediaKind::Image);
    assert(a[0] == MediaKind::Audio);
    assert(all_kinds()[0] == MediaKind::Video && all_kinds()[1] == MediaKind::Audio
        && all_kinds()[2] == MediaKind::Image);
}

/// The kinds that count as visuals.
pub open spec fn visual_kinds() -> Seq<MediaKind> {
    seq![MediaKind::Video, MediaKind::Image]
}

/// The kinds that count as audio.
pub open spec fn audio_kinds() -> Seq<MediaKind> {
    seq![MediaKind::Audio]
}

/// A listing splits into the visuals (videos and images) and the audio
/// files: no entry is in both lists, and together the two lists hold, as a
/// multiset, exactly the entries with a media extension, in the listing's
/// order within each list.
pub proof fn lemma_visuals_audios_partition(entries: Seq<Seq<char>>)
    ensures
        forall|p: Seq<char>|
            #![trigger wanted_entries(entries, visual_kinds()).contains(p), wanted_entries(entries, audio_kinds()).contains(p)]
            !(wanted_entries(entries, visual_kinds()).contains(p)
                && wanted_entries(entries, audio_kinds()).contains(p)),
        wanted_entries(entries, visual_kinds()).to_multiset().add(
            wanted_entries(entries, audio_kinds()).to_multiset(),
        ) == wanted_entries(entries, all_kinds()).to_multiset(),
        forall|p: Seq<char>|
            #[trigger] wanted_entries(entries, all_kinds()).contains(p) <==> (entries.contains(p)
                && spec_extension_kind(p) is Some),
    decreases entries.len(),
{
    broadcast use vstd::seq_lib::group_to_multiset_ensures;

    let vi = visual_kinds();
    let a = audio_kinds();
    assert forall|p: Seq<char>|
        #![trigger wanted_entries(entries, vi).contains(p), wanted_entries(entries, a).contains(p)]
        !(wanted_entries(entries, vi).contains(p) && wanted_entries(entries, a).contains(p)) by {
        lemma_wanted_members(entries, vi, p);
        lemma_wanted_members(entries, a, p);
        if let Some(k) = spec_extension_kind(p) {
            lemma_kind_lists(k);
        }
    }
    assert forall|p: Seq<char>|
        #[trigger] wanted_entries(entries, all_kinds()).contains(p) <==> (entries.contains(p)
            && spec_extension_kind(p) is Some) by {
        lemma_wanted_members(entries, all_kinds(), p);
        if let Some(k) = spec_extension_kind(p) {
            lemma_kind_lists(k);
        }
    }
    if entries.len() > 0 {
        let rest = entries.drop_last();
        let x = entries.last();
        lemma_visuals_audios_partition(rest);
        match spec_extension_kind(x) {
            Some(k) => {
                lemma_kind_lists(k);
            },
            None => {},
        }
        assert(wanted_entries(entries, vi).to_multiset().add(wanted_entries(entries, a).to_multiset())
            =~= wanted_entries(entries, all_kinds()).to_multiset());
    } else {
        assert(wanted_entries(entries, vi).to_multiset() =~= vstd::multiset::Multiset::empty());
    }
}

// ---------------------------------------------------------------------------
// Errors and probe reports
// ---------------------------------------------------------------------------
impl MediaError {
    /// The error as a sentence.
    pub open spec fn spec_message(self) -> Seq<char> {
        match self {
            MediaError::NotFound(p) => "media path not found: "@ + p@,
            MediaError::Probe(m) => m@,
        }
    }

    /// The error as a sentence.
    pub fn message(&self) -> (r: String)
        ensures
            r@ == self.spec_message(),
    {
        match self {
            MediaError::NotFound(p) => {
                let mut out = String::new();
                push_str(&mut out, "media path not found: ");
                push_str(&mut out, p.as_str());
                out
            },
            MediaError::Probe(m) => String::from_str(m.as_str()),
        }
    }
}

/// Whether a probed stream is a video stream.
pub open spec fn is_video_stream(stream: JsonValue) -> bool {
    stream.text_at("codec_type"@) == Some("video"@)
}

/// The index of the first video stream at or after `i`.
pub open spec fn first_video_stream(streams: Seq<JsonValue>, i: int) -> Option<int>
    decreases streams.len() - i,
{
    if i < 0 || i >= streams.len() {
        None
    } else if is_video_stream(streams[i]) {
        Some(i)
    } else {
        first_video_stream(streams, i + 1)
    }
}

/// A stream's dimension under `key`, `default` when it is not a `u64`
/// (kept to its low 32 bits, as `as u32` does).
pub open spec fn stream_dimension(stream: JsonValue, key: Seq<char>, default: u32) -> u32 {
    match stream.at(key).spec_as_u64() {
        Some(n) => n as u32,
        None => default,
    }
}

/// The frame size in an ffprobe report: that of the first video stream,
/// each side defaulting to the portrait 1080×1920.
pub open spec fn spec_frame_size(report: JsonValue) -> (u32, u32) {
    match report.at("streams"@).items() {
        Some(streams) => match first_video_stream(streams, 0) {
            Some(i) => (
                stream_dimension(streams[i], "width"@, 1080),
                stream_dimension(streams[i], "height"@, 1920),
            ),
            None => (1080, 1920),
        },
        None => (1080, 1920),
    }
}

fn dimension(stream: &JsonValue, key: &str, default: u32) -> (r: u32)
    ensures
        r == stream_dimension(*stream, key@, default),
{
    let value = match stream.get(key) {
        Some(v) => v.as_u64(),
        None => None,
    };
    match value {
        Some(n) => n as u32,
        None => default,
    }
}

/// The frame size that an ffprobe JSON report gives.
pub fn frame_size(report: &JsonValue) -> (r: (u32, u32))
    ensures
        r == spec_frame_size(*report),
{
    let streams = match report.get("streams") {
        Some(s) => s.as_array(),
        None => None,
    };
    let streams = match streams {
        Some(s) => s,
        None => {
            return (1080, 1920);
        },
    };
    let mut i: usize = 0;
    while i < streams.len()
        invariant
            0 <= i <= streams.len(),
            report.at("streams"@).items() == Some(streams@),
            first_video_stream(streams@, 0) == first_video_stream(streams@, i as int),
        decreases streams.len() - i,
    {
        let is_video = match streams[i].get("codec_type") {
            Some(t) => match t.as_str() {
                Some(s) => {
                    proof {
                        reveal_strlit("video");
                    }
                    let cs = chars_of(s);
                    chars_eq_str(&cs, "video")
                },
                None => false,
            },
            None => false,
        };
        if is_video {
            return (
                dimension(&streams[i], "width", 1080),
                dimension(&streams[i], "height", 1920),
            );
        }
        i = i + 1;
    }
    (1080, 1920)
}


/// What an ffprobe JSON report gives: the report's `format.duration` value
/// (a number or a text of seconds, read by the caller) and the frame size.
pub open spec fn spec_probe_report(stdout: Seq<u8>) -> Option<(JsonValue, u32, u32)> {
    match json_of_bytes(stdout) {
        Some(v) => Some((v.at("format"@).at("duration"@), spec_frame_size(v).0, spec_frame_size(v).1)),
        None => None,
    }
}

/// Reads ffprobe's output: `None` when it is no JSON text, else the
/// duration value and the frame size of the report.
pub fn probe_report(stdout: &[u8]) -> (r: Option<(JsonValue, u32, u32)>)
    ensures
        r == spec_probe_report(stdout@),
{
    match parse_json_bytes(stdout) {
        Some(report) => {
            let (width, height) = frame_size(&report);
            let format = into_at(report, "format");
            let duration = into_at(format, "duration");
            Some((duration, width, height))
        },
        None => None,
    }
}

} // verus!
